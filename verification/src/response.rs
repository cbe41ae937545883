//! Choosing and writing the response to a request.

use vstd::prelude::*;
use vstd::string::*;
use crate::request::Request;

verus! {

/// What a request is answered with.
#[derive(Debug, Clone, Copy, PartialEq, Eq, Structural)]
pub enum Route {
    /// The page itself.
    Page,
    /// A short answer that is held back for a while.
    Slow,
    /// Nothing is served under the path.
    NotFound,
    /// The method is not served.
    NotImplemented,
}

/// A response and the seconds to wait before it is sent.
#[derive(Debug)]
pub struct Reply {
    pub delay_secs: u64,
    pub text: String,
}

/// The seconds for which the slow answer is held back.
pub const SLOW_SECS: u64 = 5;

/// The route of a method and a path: `GET` is the only method served; the
/// page has three names, the slow answer one.
pub open spec fn route_of(method: Seq<char>, path: Seq<char>) -> Route {
    if method != "GET"@ {
        Route::NotImplemented
    } else if path == "/"@ || path == "/hello.html"@ || path == "/index.html"@ {
        Route::Page
    } else if path == "/sleep.html"@ {
        Route::Slow
    } else {
        Route::NotFound
    }
}

/// The decimal digit of a number below ten.
pub open spec fn digit(d: nat) -> char {
    if d == 0 {
        '0'
    } else if d == 1 {
        '1'
    } else if d == 2 {
        '2'
    } else if d == 3 {
        '3'
    } else if d == 4 {
        '4'
    } else if d == 5 {
        '5'
    } else if d == 6 {
        '6'
    } else if d == 7 {
        '7'
    } else if d == 8 {
        '8'
    } else {
        '9'
    }
}

/// A number in decimal, without leading zeros.
pub open spec fn decimal(n: nat) -> Seq<char>
    decreases n,
{
    if n < 10 {
        seq![digit(n)]
    } else {
        decimal(n / 10).push(digit(n % 10))
    }
}

/// The text of the response on a route. The page is sent with its length,
/// which is that of its UTF-8 encoding in bytes.
pub open spec fn response_text(route: Route, contents: Seq<char>, length: nat) -> Seq<char> {
    match route {
        Route::Page => "HTTP/1.1 200 OK\r\nContent-Length: "@ + decimal(length) + "\r\n\r\n"@
            + contents,
        Route::Slow => "HTTP/1.1 200 OK\r\n\r\nToo slow"@,
        Route::NotFound => "HTTP/1.1 404 Not found\r\n\r\nNot found"@,
        Route::NotImplemented => "HTTP/1.1 501 Not Implemented\r\n\r\n"@,
    }
}

/// The seconds to wait on a route before the response is sent.
pub open spec fn delay_of(route: Route) -> u64 {
    if route == Route::Slow {
        SLOW_SECS
    } else {
        0
    }
}

/// Whether a string reads as the given text.
pub fn is_text(s: &String, text: &str) -> (same: bool)
    ensures
        same == (s@ == text@),
{
    let other: String = text.to_owned();
    *s == other
}

/// The digit of a number below ten, as a string.
pub fn digit_text(d: usize) -> (text: &'static str)
    requires
        d < 10,
    ensures
        text@ == seq![digit(d as nat)],
{
    proof {
        reveal_strlit("0");
        reveal_strlit("1");
        reveal_strlit("2");
        reveal_strlit("3");
        reveal_strlit("4");
        reveal_strlit("5");
        reveal_strlit("6");
        reveal_strlit("7");
        reveal_strlit("8");
        reveal_strlit("9");
    }
    let text = if d == 0 {
        "0"
    } else if d == 1 {
        "1"
    } else if d == 2 {
        "2"
    } else if d == 3 {
        "3"
    } else if d == 4 {
        "4"
    } else if d == 5 {
        "5"
    } else if d == 6 {
        "6"
    } else if d == 7 {
        "7"
    } else if d == 8 {
        "8"
    } else {
        "9"
    };
    assert(text@ =~= seq![digit(d as nat)]);
    text
}

/// A number in decimal.
pub fn decimal_text(n: usize) -> (text: String)
    ensures
        text@ == decimal(n as nat),
    decreases n,
{
    if n < 10 {
        digit_text(n).to_owned()
    } else {
        let mut text = decimal_text(n / 10);
        text.append(digit_text(n % 10));
        assert(text@ =~= decimal(n as nat));
        text
    }
}

/// The route of a request.
pub fn route(request: &Request) -> (r: Route)
    ensures
        r == route_of(request.method@, request.path@),
{
    if !is_text(&request.method, "GET") {
        Route::NotImplemented
    } else if is_text(&request.path, "/") || is_text(&request.path, "/hello.html") || is_text(
        &request.path,
        "/index.html",
    ) {
        Route::Page
    } else if is_text(&request.path, "/sleep.html") {
        Route::Slow
    } else {
        Route::NotFound
    }
}

/// The response on a route, for a page with the given contents.
pub fn render(route: Route, contents: &str) -> (text: String)
    ensures
        text@ == response_text(route, contents@, contents.len() as nat),
{
    match route {
        Route::Page => {
            let mut text = "HTTP/1.1 200 OK\r\nContent-Length: ".to_owned();
            let length = decimal_text(contents.len());
            text.append(length.as_str());
            text.append("\r\n\r\n");
            text.append(contents);
            text
        },
        Route::Slow => "HTTP/1.1 200 OK\r\n\r\nToo slow".to_owned(),
        Route::NotFound => "HTTP/1.1 404 Not found\r\n\r\nNot found".to_owned(),
        Route::NotImplemented => "HTTP/1.1 501 Not Implemented\r\n\r\n".to_owned(),
    }
}

/// The answer to a request, for a page with the given contents.
pub fn respond(request: &Request, contents: &str) -> (reply: Reply)
    ensures
        reply.delay_secs == delay_of(route_of(request.method@, request.path@)),
        reply.text@ == response_text(
            route_of(request.method@, request.path@),
            contents@,
            contents.len() as nat,
        ),
{
    let r = route(request);
    let delay_secs: u64 = match r {
        Route::Slow => SLOW_SECS,
        _ => 0,
    };
    Reply { delay_secs, text: render(r, contents) }
}

} // verus!
