//! The server's side of a request: which page a request asks for, and the
//! bytes of the response that carries it.

use vstd::prelude::*;
use vstd::string::StringSliceAdditionalSpecFns;

verus! {

/// The pages that the server knows.
#[derive(Clone, Copy, Debug, PartialEq, Eq, Structural)]
pub enum Route {
    Index,
    Hello,
    Goodbye,
    NotFound,
}

/// The request line that asks for `route`. No request line asks for `NotFound`:
/// it is what every other request gets.
pub open spec fn request_line(route: Route) -> Seq<u8> {
    match route {
        Route::Index => "GET / HTTP/1.1\r\n".spec_bytes(),
        Route::Hello => "GET /hello HTTP/1.1\r\n".spec_bytes(),
        Route::Goodbye => "GET /goodbye HTTP/1.1\r\n".spec_bytes(),
        Route::NotFound => Seq::empty(),
    }
}

/// The page that `request` asks for: the first known request line that the
/// request begins with decides.
pub open spec fn route_of(request: Seq<u8>) -> Route {
    if request_line(Route::Index).is_prefix_of(request) {
        Route::Index
    } else if request_line(Route::Hello).is_prefix_of(request) {
        Route::Hello
    } else if request_line(Route::Goodbye).is_prefix_of(request) {
        Route::Goodbye
    } else {
        Route::NotFound
    }
}

/// The status line of the response for `route`.
pub open spec fn status_line_of(route: Route) -> Seq<char> {
    match route {
        Route::NotFound => "HTTP/1.1 404 NOT FOUND"@,
        _ => "HTTP/1.1 200 OK"@,
    }
}

/// The file that holds the page for `route`.
pub open spec fn file_name_of(route: Route) -> Seq<char> {
    match route {
        Route::Index => "static/index.html"@,
        Route::Hello => "static/hello.html"@,
        Route::Goodbye => "static/goodbye.html"@,
        Route::NotFound => "static/404.html"@,
    }
}

/// `n` in decimal, as ASCII digits, without leading zeros.
pub open spec fn decimal(n: nat) -> Seq<u8>
    decreases n,
{
    if n < 10 {
        seq![(48 + n) as u8]
    } else {
        decimal(n / 10).push((48 + n % 10) as u8)
    }
}

/// The response: the status line, the length of the body in bytes, an empty
/// line, the body.
pub open spec fn response_of(status_line: Seq<u8>, contents: Seq<u8>) -> Seq<u8> {
    status_line + "\r\nContent-Length: ".spec_bytes() + decimal(contents.len())
        + "\r\n\r\n".spec_bytes() + contents
}

/// Whether `bytes` begins with `prefix`.
pub fn starts_with(bytes: &[u8], prefix: &[u8]) -> (b: bool)
    ensures
        b == prefix@.is_prefix_of(bytes@),
{
    if prefix.len() > bytes.len() {
        return false;
    }
    let mut i: usize = 0;
    while i < prefix.len()
        invariant
            i <= prefix@.len() <= bytes@.len(),
            forall|k: int| 0 <= k < i ==> prefix@[k] == bytes@[k],
        decreases prefix@.len() - i,
    {
        if prefix[i] != bytes[i] {
            return false;
        }
        i += 1;
    }
    true
}

/// Decides which page `request` asks for.
pub fn route(request: &[u8]) -> (route: Route)
    ensures
        route == route_of(request@),
{
    if starts_with(request, "GET / HTTP/1.1\r\n".as_bytes()) {
        Route::Index
    } else if starts_with(request, "GET /hello HTTP/1.1\r\n".as_bytes()) {
        Route::Hello
    } else if starts_with(request, "GET /goodbye HTTP/1.1\r\n".as_bytes()) {
        Route::Goodbye
    } else {
        Route::NotFound
    }
}

impl Route {
    /// The status line of the response for this page.
    pub fn status_line(&self) -> (line: &'static str)
        ensures
            line@ == status_line_of(*self),
    {
        match self {
            Route::NotFound => "HTTP/1.1 404 NOT FOUND",
            _ => "HTTP/1.1 200 OK",
        }
    }

    /// The file that holds this page.
    pub fn file_name(&self) -> (name: &'static str)
        ensures
            name@ == file_name_of(*self),
    {
        match self {
            Route::Index => "static/index.html",
            Route::Hello => "static/hello.html",
            Route::Goodbye => "static/goodbye.html",
            Route::NotFound => "static/404.html",
        }
    }
}

/// Appends `bytes` to `out`.
fn append(out: &mut Vec<u8>, bytes: &[u8])
    ensures
        final(out)@ == old(out)@ + bytes@,
{
    let mut i: usize = 0;
    while i < bytes.len()
        invariant
            i <= bytes@.len(),
            out@ == old(out)@ + bytes@.subrange(0, i as int),
        decreases bytes@.len() - i,
    {
        out.push(bytes[i]);
        i += 1;
        proof {
            assert(bytes@.subrange(0, i as int) =~= bytes@.subrange(0, i as int - 1).push(
                bytes@[i as int - 1],
            ));
        }
    }
}

/// Appends `n` in decimal to `out`.
fn append_decimal(out: &mut Vec<u8>, n: usize)
    ensures
        final(out)@ == old(out)@ + decimal(n as nat),
    decreases n,
{
    if n >= 10 {
        append_decimal(out, n / 10);
    }
    let digit: u8 = (n % 10) as u8;
    out.push(48 + digit);
}

/// Frames `contents` as the body of a response that begins with `status_line`.
pub fn response(status_line: &str, contents: &[u8]) -> (bytes: Vec<u8>)
    ensures
        bytes@ == response_of(status_line.spec_bytes(), contents@),
{
    let mut bytes: Vec<u8> = Vec::new();
    append(&mut bytes, status_line.as_bytes());
    append(&mut bytes, "\r\nContent-Length: ".as_bytes());
    append_decimal(&mut bytes, contents.len());
    append(&mut bytes, "\r\n\r\n".as_bytes());
    append(&mut bytes, contents);
    bytes
}

} // verus!
