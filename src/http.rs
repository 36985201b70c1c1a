use vstd::prelude::*;

verus! {

/// The request line that asks for the index page: `GET / HTTP/1.1` and CR LF, in ASCII.
pub open spec fn index_request() -> Seq<u8> {
    seq![71u8, 69, 84, 32, 47, 32, 72, 84, 84, 80, 47, 49, 46, 49, 13, 10]
}

/// The request line that asks for the index page after a delay:
/// `GET /sleep HTTP/1.1` and CR LF, in ASCII.
pub open spec fn slow_request() -> Seq<u8> {
    seq![
        71u8, 69, 84, 32, 47, 115, 108, 101, 101, 112, 32,
        72, 84, 84, 80, 47, 49, 46, 49, 13, 10,
    ]
}

/// What the server answers a request with.
#[derive(PartialEq, Eq, Structural, Clone, Copy, Debug)]
pub enum Route {
    /// The index page, at once.
    Index,
    /// The index page, after a delay.
    SlowIndex,
    /// The not-found page.
    NotFound,
}

/// The route of a request, by the first bytes that were read of it.
pub open spec fn spec_route(request: Seq<u8>) -> Route {
    if index_request().is_prefix_of(request) {
        Route::Index
    } else if slow_request().is_prefix_of(request) {
        Route::SlowIndex
    } else {
        Route::NotFound
    }
}

/// Whether `buf` begins with `prefix`.
pub fn starts_with(buf: &[u8], prefix: &[u8]) -> (r: bool)
    ensures
        r == prefix@.is_prefix_of(buf@),
{
    if prefix.len() > buf.len() {
        return false;
    }
    let mut i: usize = 0;
    while i < prefix.len()
        invariant
            prefix@.len() <= buf@.len(),
            i <= prefix@.len(),
            forall|j: int| 0 <= j < i ==> prefix@[j] == buf@[j],
        decreases prefix.len() - i,
    {
        if prefix[i] != buf[i] {
            assert(prefix@[i as int] != buf@.subrange(0, prefix@.len() as int)[i as int]);
            return false;
        }
        i = i + 1;
    }
    assert(prefix@ =~= buf@.subrange(0, prefix@.len() as int));
    true
}

fn index_request_bytes() -> (r: Vec<u8>)
    ensures
        r@ == index_request(),
{
    let r = vec![71u8, 69, 84, 32, 47, 32, 72, 84, 84, 80, 47, 49, 46, 49, 13, 10];
    assert(r@ =~= index_request());
    r
}

fn slow_request_bytes() -> (r: Vec<u8>)
    ensures
        r@ == slow_request(),
{
    let r = vec![
        71u8, 69, 84, 32, 47, 115, 108, 101, 101, 112, 32,
        72, 84, 84, 80, 47, 49, 46, 49, 13, 10,
    ];
    assert(r@ =~= slow_request());
    r
}

/// Picks the route of a request from the first bytes that were read of it.
pub fn route(request: &[u8]) -> (r: Route)
    ensures
        r == spec_route(request@),
{
    let index = index_request_bytes();
    if starts_with(request, index.as_slice()) {
        return Route::Index;
    }
    let slow = slow_request_bytes();
    if starts_with(request, slow.as_slice()) {
        Route::SlowIndex
    } else {
        Route::NotFound
    }
}

/// `HTTP/1.1 200 OK`, in ASCII.
pub open spec fn status_ok() -> Seq<u8> {
    seq![72u8, 84, 84, 80, 47, 49, 46, 49, 32, 50, 48, 48, 32, 79, 75]
}

/// `HTTP/1.1 404 NOT FOUND`, in ASCII.
pub open spec fn status_not_found() -> Seq<u8> {
    seq![72u8, 84, 84, 80, 47, 49, 46, 49, 32, 52, 48, 52, 32, 78, 79, 84, 32, 70, 79, 85, 78, 68]
}

/// `Content-Length: `, in ASCII.
pub open spec fn content_length_label() -> Seq<u8> {
    seq![67u8, 111, 110, 116, 101, 110, 116, 45, 76, 101, 110, 103, 116, 104, 58, 32]
}

/// Carriage return and line feed.
pub open spec fn crlf() -> Seq<u8> {
    seq![13u8, 10]
}

/// The decimal digits of `n` in ASCII, most significant first, without leading zeros.
pub open spec fn decimal(n: nat) -> Seq<u8>
    decreases n,
{
    if n < 10 {
        seq![(48 + n) as u8]
    } else {
        decimal(n / 10).push((48 + n % 10) as u8)
    }
}

/// A response: the status line, a `Content-Length` header giving the length of
/// `contents` in bytes, an empty line, then `contents`.
pub open spec fn spec_response(status: Seq<u8>, contents: Seq<u8>) -> Seq<u8> {
    status + crlf() + content_length_label() + decimal(contents.len()) + crlf() + crlf() + contents
}

/// How long, in seconds, the server waits before it answers a slow request.
pub const SLOW_DELAY_SECS: u64 = 5;

impl Route {
    /// The status line of the answer.
    pub fn status_line(self) -> (r: Vec<u8>)
        ensures
            self is NotFound ==> r@ == status_not_found(),
            !(self is NotFound) ==> r@ == status_ok(),
    {
        match self {
            Route::NotFound => {
                let r = vec![72u8, 84, 84, 80, 47, 49, 46, 49, 32, 52, 48, 52, 32, 78, 79, 84, 32, 70, 79, 85, 78, 68];
                assert(r@ =~= status_not_found());
                r
            },
            _ => {
                let r = vec![72u8, 84, 84, 80, 47, 49, 46, 49, 32, 50, 48, 48, 32, 79, 75];
                assert(r@ =~= status_ok());
                r
            },
        }
    }

    /// The file whose contents make the body of the answer.
    pub fn filename(self) -> (r: &'static str)
        ensures
            r == (if self is NotFound {
                "404.html"
            } else {
                "index.html"
            }),
    {
        match self {
            Route::NotFound => "404.html",
            _ => "index.html",
        }
    }

    /// Whether the server waits `SLOW_DELAY_SECS` before it answers.
    pub fn delays(self) -> (r: bool)
        ensures
            r == (self is SlowIndex),
    {
        match self {
            Route::SlowIndex => true,
            _ => false,
        }
    }
}

/// Appends the decimal digits of `n` to `out`.
fn push_decimal(out: &mut Vec<u8>, n: usize)
    ensures
        final(out)@ == old(out)@ + decimal(n as nat),
    decreases n,
{
    if n >= 10 {
        push_decimal(out, n / 10);
    }
    let digit: u8 = (n % 10) as u8;
    out.push(48 + digit);
    proof {
        if n < 10 {
            assert(old(out)@ + decimal(n as nat) =~= old(out)@.push((48 + digit) as u8));
        } else {
            assert(old(out)@ + decimal(n as nat) =~= (old(out)@ + decimal((n / 10) as nat)).push(
                (48 + digit) as u8,
            ));
        }
    }
}

/// Appends `bytes` to `out`.
fn push_all(out: &mut Vec<u8>, bytes: &[u8])
    ensures
        final(out)@ == old(out)@ + bytes@,
{
    let mut i: usize = 0;
    while i < bytes.len()
        invariant
            i <= bytes@.len(),
            out@ == old(out)@ + bytes@.subrange(0, i as int),
        decreases bytes.len() - i,
    {
        out.push(bytes[i]);
        assert(bytes@.subrange(0, i + 1) =~= bytes@.subrange(0, i as int).push(bytes@[i as int]));
        i = i + 1;
    }
    assert(bytes@.subrange(0, bytes@.len() as int) =~= bytes@);
}

/// The bytes of a response with the status line `status` and the body `contents`.
pub fn response(status: &[u8], contents: &[u8]) -> (r: Vec<u8>)
    ensures
        r@ == spec_response(status@, contents@),
{
    let mut out: Vec<u8> = Vec::new();
    push_all(&mut out, status);
    out.push(13);
    out.push(10);
    let label = vec![67u8, 111, 110, 116, 101, 110, 116, 45, 76, 101, 110, 103, 116, 104, 58, 32];
    assert(label@ =~= content_length_label());
    push_all(&mut out, label.as_slice());
    push_decimal(&mut out, contents.len());
    out.push(13);
    out.push(10);
    out.push(13);
    out.push(10);
    push_all(&mut out, contents);
    assert(out@ =~= spec_response(status@, contents@));
    out
}

} // verus!
