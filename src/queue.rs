use std::collections::VecDeque;
use vstd::prelude::*;

use crate::message::Message;

verus! {

/// A first-in first-out queue of messages with one sending side and many
/// receivers. Besides the messages still waiting, it keeps (as ghost state) every
/// message ever sent and every message ever handed to a receiver, in order.
pub struct WorkQueue<J> {
    pending: VecDeque<Message<J>>,
    sent: Ghost<Seq<Message<J>>>,
    delivered: Ghost<Seq<Message<J>>>,
}

impl<J> WorkQueue<J> {
    /// The messages sent and not yet received, oldest first.
    pub closed spec fn pending(&self) -> Seq<Message<J>> {
        self.pending@
    }

    /// Every message sent so far, in the order of sending.
    pub closed spec fn sent(&self) -> Seq<Message<J>> {
        self.sent@
    }

    /// Every message received so far, in the order of receiving.
    pub closed spec fn delivered(&self) -> Seq<Message<J>> {
        self.delivered@
    }

    /// What has been delivered, followed by what is waiting, is exactly what was sent.
    pub closed spec fn wf(&self) -> bool {
        self.sent@ == self.delivered@ + self.pending@
    }

    /// The messages of `self` were all in `earlier`, or came after them: neither
    /// history shrank or changed.
    pub open spec fn extends(&self, earlier: &Self) -> bool {
        &&& earlier.sent().is_prefix_of(self.sent())
        &&& earlier.delivered().is_prefix_of(self.delivered())
    }

    /// An empty queue.
    pub fn new() -> (r: Self)
        ensures
            r.wf(),
            r.sent() == Seq::<Message<J>>::empty(),
            r.delivered() == Seq::<Message<J>>::empty(),
            r.pending() == Seq::<Message<J>>::empty(),
    {
        WorkQueue { pending: VecDeque::new(), sent: Ghost(Seq::empty()), delivered: Ghost(Seq::empty()) }
    }

    /// Puts `m` at the back of the queue.
    pub fn send(&mut self, m: Message<J>)
        requires
            old(self).wf(),
        ensures
            final(self).wf(),
            final(self).pending() == old(self).pending().push(m),
            final(self).sent() == old(self).sent().push(m),
            final(self).delivered() == old(self).delivered(),
            final(self).extends(old(self)),
    {
        self.sent = Ghost(self.sent@.push(m));
        self.pending.push_back(m);
        assert(self.sent@ == self.delivered@ + self.pending@);
    }

    /// Hands out the oldest waiting message, if there is one.
    pub fn receive(&mut self) -> (r: Option<Message<J>>)
        requires
            old(self).wf(),
        ensures
            final(self).wf(),
            final(self).sent() == old(self).sent(),
            final(self).extends(old(self)),
            old(self).pending().len() == 0 ==> {
                &&& r is None
                &&& final(self).pending() == old(self).pending()
                &&& final(self).delivered() == old(self).delivered()
            },
            old(self).pending().len() > 0 ==> {
                &&& r == Some(old(self).pending()[0])
                &&& final(self).pending() == old(self).pending().drop_first()
                &&& final(self).delivered() == old(self).delivered().push(old(self).pending()[0])
            },
    {
        let ghost before = self.pending@;
        let r = self.pending.pop_front();
        match r {
            Some(m) => {
                assert(before =~= seq![m] + self.pending@);
                let ghost d = self.delivered@;
                self.delivered = Ghost(self.delivered@.push(m));
                assert(d + before =~= d.push(m) + self.pending@);
                Some(m)
            },
            None => None,
        }
    }

    /// The number of messages waiting.
    pub fn len(&self) -> (r: usize)
        ensures
            r == self.pending().len(),
    {
        self.pending.len()
    }

    /// Whether no message is waiting.
    pub fn is_empty(&self) -> (r: bool)
        ensures
            r == (self.pending().len() == 0),
    {
        self.pending.len() == 0
    }

    /// Every message sent is handed out at most once, and in the order of sending:
    /// the message sent at position `k` is either the `k`-th one received or still
    /// waiting, never both; once nothing waits, each was received exactly once.
    pub proof fn lemma_each_message_once(&self)
        requires
            self.wf(),
        ensures
            self.delivered().len() + self.pending().len() == self.sent().len(),
            forall|k: int|
                0 <= k < self.delivered().len() ==> #[trigger] self.delivered()[k]
                    == self.sent()[k],
            forall|k: int|
                self.delivered().len() <= k < self.sent().len() ==> #[trigger] self.sent()[k]
                    == self.pending()[k - self.delivered().len()],
            self.pending().len() == 0 ==> self.delivered() == self.sent(),
    {
        assert(self.pending().len() == 0 ==> self.delivered() =~= self.sent());
    }
}

} // verus!
