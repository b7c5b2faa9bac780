//! What a small web server answers.

use vstd::prelude::*;
use vstd::string::{StringExecFns, StringSliceAdditionalSpecFns};
use crate::text::same_text;

verus! {

/// What is sent back for a request: the status line, the file that holds the
/// body, and for how many seconds to wait before answering.
pub struct Route {
    pub status_line: &'static str,
    pub filename: &'static str,
    pub delay_secs: u64,
}

/// The answer to the first line of a request: the greeting for the root,
/// the error page for everything else.
pub fn route(request_line: &str) -> (r: Route)
    ensures
        r.delay_secs == 0,
        request_line@ == "GET / HTTP/1.1"@ ==> r.status_line@ == "HTTP/1.1 200 OK"@
            && r.filename@ == "hello.html"@,
        request_line@ != "GET / HTTP/1.1"@ ==> r.status_line@ == "HTTP/1.1 404 NOT FOUND"@
            && r.filename@ == "404.html"@,
{
    if same_text(request_line, "GET / HTTP/1.1") {
        Route { status_line: "HTTP/1.1 200 OK", filename: "hello.html", delay_secs: 0 }
    } else {
        Route { status_line: "HTTP/1.1 404 NOT FOUND", filename: "404.html", delay_secs: 0 }
    }
}

/// As `route`, with one more page: a request for `/sleep` gets the greeting
/// after five seconds.
pub fn route_with_sleep(request_line: &str) -> (r: Route)
    ensures
        r.delay_secs == (if request_line@ == "GET /sleep HTTP/1.1"@ {
            5u64
        } else {
            0u64
        }),
        request_line@ == "GET / HTTP/1.1"@ || request_line@ == "GET /sleep HTTP/1.1"@
            ==> r.status_line@ == "HTTP/1.1 200 OK"@ && r.filename@ == "hello.html"@,
        request_line@ != "GET / HTTP/1.1"@ && request_line@ != "GET /sleep HTTP/1.1"@
            ==> r.status_line@ == "HTTP/1.1 404 NOT FOUND"@ && r.filename@ == "404.html"@,
{
    proof {
        reveal_strlit("GET / HTTP/1.1");
        reveal_strlit("GET /sleep HTTP/1.1");
        assert("GET / HTTP/1.1"@.len() != "GET /sleep HTTP/1.1"@.len());
    }
    if same_text(request_line, "GET / HTTP/1.1") {
        Route { status_line: "HTTP/1.1 200 OK", filename: "hello.html", delay_secs: 0 }
    } else if same_text(request_line, "GET /sleep HTTP/1.1") {
        Route { status_line: "HTTP/1.1 200 OK", filename: "hello.html", delay_secs: 5 }
    } else {
        Route { status_line: "HTTP/1.1 404 NOT FOUND", filename: "404.html", delay_secs: 0 }
    }
}

/// Whether `bytes` begins with `prefix`.
pub open spec fn begins_with(bytes: Seq<u8>, prefix: Seq<u8>) -> bool {
    prefix.len() <= bytes.len() && bytes.take(prefix.len() as int) == prefix
}

/// Whether `bytes` begins with `prefix`.
pub fn starts_with(bytes: &[u8], prefix: &[u8]) -> (r: bool)
    ensures
        r == begins_with(bytes@, prefix@),
{
    if prefix.len() > bytes.len() {
        return false;
    }
    let mut i: usize = 0;
    while i < prefix.len()
        invariant
            i <= prefix@.len() <= bytes@.len(),
            bytes@.take(i as int) == prefix@.take(i as int),
        decreases prefix@.len() - i,
    {
        if bytes[i] != prefix[i] {
            assert(bytes@.take(prefix@.len() as int)[i as int] != prefix@[i as int]);
            return false;
        }
        assert(bytes@.take(i + 1) =~= bytes@.take(i as int).push(bytes@[i as int]));
        assert(prefix@.take(i + 1) =~= prefix@.take(i as int).push(prefix@[i as int]));
        i = i + 1;
    }
    assert(prefix@.take(prefix@.len() as int) =~= prefix@);
    true
}

/// The answer to a request as it was read from the connection. Each status
/// line ends with the empty line that comes before the body.
pub fn route_request(request: &[u8]) -> (r: Route)
    ensures
        r == (if begins_with(request@, "GET / HTTP/1.1\r\n".spec_bytes()) {
            Route { status_line: "HTTP/1.1 200 OK\r\n\r\n", filename: "hello.html", delay_secs: 0 }
        } else if begins_with(request@, "GET /sleep HTTP/1.1\r\n".spec_bytes()) {
            Route { status_line: "HTTP/1.1 200 OK\r\n\r\n", filename: "hello.html", delay_secs: 3 }
        } else {
            Route {
                status_line: "HTTP/1.1 404 NOT FOUND\r\n\r\n",
                filename: "404.html",
                delay_secs: 0,
            }
        }),
{
    if starts_with(request, "GET / HTTP/1.1\r\n".as_bytes()) {
        Route { status_line: "HTTP/1.1 200 OK\r\n\r\n", filename: "hello.html", delay_secs: 0 }
    } else if starts_with(request, "GET /sleep HTTP/1.1\r\n".as_bytes()) {
        Route { status_line: "HTTP/1.1 200 OK\r\n\r\n", filename: "hello.html", delay_secs: 3 }
    } else {
        Route { status_line: "HTTP/1.1 404 NOT FOUND\r\n\r\n", filename: "404.html", delay_secs: 0 }
    }
}

/// A number in decimal digits, as `usize::to_string` writes it.
pub uninterp spec fn decimal_of(n: usize) -> Seq<char>;

/// `usize::to_string`: the number in decimal digits.
#[verifier::external_body]
fn decimal(n: usize) -> (r: String)
    ensures
        r@ == decimal_of(n),
{
    n.to_string()
}

/// The whole answer: the status line, the length of the body, an empty
/// line, the body.
pub open spec fn framed(status_line: Seq<char>, length: Seq<char>, contents: Seq<char>) -> Seq<
    char,
> {
    status_line + "\r\nContent-Length: "@ + length + "\r\n\r\n"@ + contents
}

/// The answer that carries `contents` under `status_line`, with `length`
/// written as the length of the body.
pub fn frame_response(status_line: &str, length: &str, contents: &str) -> (r: String)
    ensures
        r@ == framed(status_line@, length@, contents@),
{
    String::from_str(status_line).concat("\r\nContent-Length: ").concat(length).concat(
        "\r\n\r\n",
    ).concat(contents)
}

/// The answer that carries `contents` under `status_line`, with the length
/// of `contents` in bytes.
pub fn response(status_line: &str, contents: &str) -> (r: String)
    ensures
        r@ == framed(
            status_line@,
            decimal_of(contents.spec_bytes().len() as usize),
            contents@,
        ),
{
    let length = decimal(contents.len());
    frame_response(status_line, length.as_str(), contents)
}

} // verus!
