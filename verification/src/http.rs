//! The decisions of a toy HTTP server: reading a request line, choosing what
//! to answer, and writing the head of the answer. Sockets and files are the
//! caller's business.

use vstd::prelude::*;
use vstd::string::{StrSliceExecFns, StringExecFns};
use crate::text::{begins_with, str_equal, str_starts_with};

verus! {

#[derive(Clone, Copy, Debug, PartialEq, Eq, Structural)]
pub enum Method {
    Get,
    Post,
}

#[derive(Clone, Copy, Debug, PartialEq, Eq, Structural)]
pub enum Version {
    Http1_1,
    Http2_0,
}

/// A request, as far as its first line tells.
#[derive(Debug)]
pub struct Request {
    pub method: Method,
    pub uri: String,
    pub version: Version,
}

/// Why a request line was refused.
#[derive(Clone, Copy, Debug, PartialEq, Eq, Structural)]
pub enum RequestError {
    /// There was no line at all.
    Empty,
    /// The first word is neither `GET` nor `POST`.
    Method,
    /// There is no second word.
    Uri,
    /// The third word is neither `HTTP/1.1` nor `HTTP/2`, or is missing.
    Version,
}

impl RequestError {
    /// The message that goes with the error.
    pub fn message(&self) -> (message: &'static str)
        ensures
            message@ == match *self {
                RequestError::Empty => "Empty request"@,
                RequestError::Method => "Invalid or missing request method"@,
                RequestError::Uri => "Missing request URI"@,
                RequestError::Version => "Invalid or missing HTTP version"@,
            },
    {
        match self {
            RequestError::Empty => "Empty request",
            RequestError::Method => "Invalid or missing request method",
            RequestError::Uri => "Missing request URI",
            RequestError::Version => "Invalid or missing HTTP version",
        }
    }
}

/// The position of the first space of `line` at or after `from`, or the
/// length of `line` if there is none.
pub open spec fn space_from(line: Seq<char>, from: int) -> int
    decreases line.len() - from,
{
    if from < 0 || from >= line.len() {
        line.len() as int
    } else if line[from] == ' ' {
        from
    } else {
        space_from(line, from + 1)
    }
}

/// Where word number `k` of `line` starts, if the line has that many words.
/// Words are what single spaces separate; a word may be empty.
pub open spec fn word_start(line: Seq<char>, k: nat) -> Option<int>
    decreases k,
{
    if k == 0 {
        Some(0int)
    } else {
        match word_start(line, (k - 1) as nat) {
            Some(start) => {
                let end = space_from(line, start);
                if end < line.len() {
                    Some(end + 1)
                } else {
                    None
                }
            },
            None => None,
        }
    }
}

/// Word number `k` of `line`.
pub open spec fn word(line: Seq<char>, k: nat) -> Option<Seq<char>> {
    match word_start(line, k) {
        Some(start) => Some(line.subrange(start, space_from(line, start))),
        None => None,
    }
}

/// The method that `word` names.
pub open spec fn method_named(word: Option<Seq<char>>) -> Option<Method> {
    if word == Some("GET"@) {
        Some(Method::Get)
    } else if word == Some("POST"@) {
        Some(Method::Post)
    } else {
        None
    }
}

/// The version that `word` names.
pub open spec fn version_named(word: Option<Seq<char>>) -> Option<Version> {
    if word == Some("HTTP/1.1"@) {
        Some(Version::Http1_1)
    } else if word == Some("HTTP/2"@) {
        Some(Version::Http2_0)
    } else {
        None
    }
}

/// What a request line holds: method, URI and version are its first three
/// words, and what follows them is ignored.
pub open spec fn parsed(line: Seq<char>) -> Result<(Method, Seq<char>, Version), RequestError> {
    match method_named(word(line, 0)) {
        None => Err(RequestError::Method),
        Some(method) => match word(line, 1) {
            None => Err(RequestError::Uri),
            Some(uri) => match version_named(word(line, 2)) {
                None => Err(RequestError::Version),
                Some(version) => Ok((method, uri, version)),
            },
        },
    }
}

/// The word that starts at `start`, and where the next word starts, if there
/// is one.
fn take_word<'a>(line: &'a str, start: usize) -> (taken: (&'a str, Option<usize>))
    requires
        start <= line@.len(),
    ensures
        taken.0@ == line@.subrange(start as int, space_from(line@, start as int)),
        taken.1 is Some <==> space_from(line@, start as int) < line@.len(),
        taken.1 matches Some(next) ==> next == space_from(line@, start as int) + 1,
{
    let n = line.unicode_len();
    let mut end: usize = start;
    while end < n && line.get_char(end) != ' '
        invariant
            start <= end <= n,
            n == line@.len(),
            space_from(line@, start as int) == space_from(line@, end as int),
        decreases n - end,
    {
        end = end + 1;
    }
    let word = line.substring_char(start, end);
    if end < n {
        (word, Some(end + 1))
    } else {
        (word, None)
    }
}

impl Request {
    /// Reads a request from its first line. A proper reading of HTTP is
    /// beyond this function: the line is cut at single spaces, and its first
    /// three words must be a method, a URI and a version.
    pub fn read(request_line: Option<&str>) -> (result: Result<Request, RequestError>)
        ensures
            match request_line {
                None => result is Err && result->Err_0 == RequestError::Empty,
                Some(line) => match parsed(line@) {
                    Ok((method, uri, version)) => {
                        &&& result matches Ok(request)
                        &&& request.method == method
                        &&& request.uri@ == uri
                        &&& request.version == version
                    },
                    Err(e) => result is Err && result->Err_0 == e,
                },
            },
    {
        let line = match request_line {
            None => {
                return Err(RequestError::Empty);
            },
            Some(line) => line,
        };
        proof {
            reveal_with_fuel(word_start, 3);
        }
        let (first, after_first) = take_word(line, 0);
        let method = if str_equal(first, "GET") {
            Method::Get
        } else if str_equal(first, "POST") {
            Method::Post
        } else {
            return Err(RequestError::Method);
        };
        let second_start = match after_first {
            None => {
                return Err(RequestError::Uri);
            },
            Some(start) => start,
        };
        assert(word_start(line@, 1) == Some(second_start as int));
        let (second, after_second) = take_word(line, second_start);
        assert(word(line@, 1) == Some(second@));
        assert(word_start(line@, 2) == match after_second {
            Some(start) => Some(start as int),
            None => None,
        });
        let uri = String::from_str(second);
        let third_start = match after_second {
            None => {
                return Err(RequestError::Version);
            },
            Some(start) => start,
        };
        let (third, _) = take_word(line, third_start);
        assert(word(line@, 2) == Some(third@));
        let version = if str_equal(third, "HTTP/1.1") {
            Version::Http1_1
        } else if str_equal(third, "HTTP/2") {
            Version::Http2_0
        } else {
            return Err(RequestError::Version);
        };
        Ok(Request { method, uri, version })
    }
}

/// The answer to a request.
#[derive(Debug)]
pub enum Response {
    Success(String),
    NotFound,
    InternalServerError,
    TemporaryRedirect(String),
}

/// The whole answer to a request that the server failed on.
pub const INTERNAL_SERVER_ERROR: &'static str = "HTTP/1.1 500 Internal Server Error\r\n\r\n";

impl Response {
    /// The text of the answer, as it goes out. `not_found_page` is the body
    /// sent along when nothing was found.
    pub fn to_string(&self, not_found_page: &str) -> (text: String)
        ensures
            text@ == match *self {
                Response::Success(content) => "HTTP/1.1 200 OK\r\n\r\n"@ + content@,
                Response::NotFound => "HTTP/1.1 400 OK\r\n\r\n"@ + not_found_page@,
                Response::InternalServerError => INTERNAL_SERVER_ERROR@,
                Response::TemporaryRedirect(uri) => "HTTP/1.1 307 Temporary Redirect\r\nLocation: "@
                    + uri@ + "\r\n\r\n"@,
            },
    {
        match self {
            Response::Success(content) => {
                let mut text = String::from_str("HTTP/1.1 200 OK\r\n\r\n");
                text.append(content.as_str());
                text
            },
            Response::NotFound => {
                let mut text = String::from_str("HTTP/1.1 400 OK\r\n\r\n");
                text.append(not_found_page);
                text
            },
            Response::InternalServerError => String::from_str(INTERNAL_SERVER_ERROR),
            Response::TemporaryRedirect(uri) => {
                let mut text = String::from_str("HTTP/1.1 307 Temporary Redirect\r\nLocation: ");
                text.append(uri.as_str());
                text.append("\r\n\r\n");
                text
            },
        }
    }
}

/// What the server does about a request.
#[derive(Clone, Copy, Debug, PartialEq, Eq, Structural)]
pub enum Route {
    /// Answer with the greeting page.
    Hello,
    /// Wait for that many seconds, then redirect to the greeting page.
    Sleep(u64),
    /// Answer that nothing was found.
    NotFound,
}

/// Chooses the route of a request: `GET /` is greeted, `GET /sleep` sleeps
/// for five seconds, and nothing else is found.
pub fn handle_stream(request: &Request) -> (route: Route)
    ensures
        route == if request.method == Method::Get && request.uri@ == "/"@ {
            Route::Hello
        } else if request.method == Method::Get && request.uri@ == "/sleep"@ {
            Route::Sleep(5)
        } else {
            Route::NotFound
        },
{
    match request.method {
        Method::Get => {
            if str_equal(request.uri.as_str(), "/") {
                Route::Hello
            } else if str_equal(request.uri.as_str(), "/sleep") {
                Route::Sleep(5)
            } else {
                Route::NotFound
            }
        },
        Method::Post => Route::NotFound,
    }
}

/// The answer that goes with a route, once its page was read and its wait is
/// over.
pub fn response_for(route: Route, page: String) -> (response: Response)
    ensures
        match route {
            Route::Hello => response == Response::Success(page),
            Route::Sleep(_) => response matches Response::TemporaryRedirect(uri) && uri@ == "/"@,
            Route::NotFound => response == Response::NotFound,
        },
{
    match route {
        Route::Hello => Response::Success(page),
        Route::Sleep(_) => Response::TemporaryRedirect(String::from_str("/")),
        Route::NotFound => Response::NotFound,
    }
}

/// What a connection handler does about a request line.
#[derive(Clone, Copy, Debug, PartialEq, Eq)]
pub enum Handling {
    /// Send the status line and then the named file, or nothing where no
    /// file is named, after waiting for that many seconds.
    Reply { wait_secs: u64, status_line: &'static str, contents: Option<&'static str> },
    /// Fail abruptly, to try the server's isolation of failures.
    Panic,
}

/// The status line of a request that was served.
pub const STATUS_OK: &'static str = "HTTP/1.1 200 OK\r\n";

/// The status line of a request for what the server does not have.
pub const STATUS_NOT_FOUND: &'static str = "HTTP/1.1 404 Not Found\r\n";

/// Chooses what to do about a request line, by how it begins: `GET / ` is
/// answered with the greeting page, `GET /sleep ` after ten seconds with an
/// empty body, `GET /panic ` with an abrupt failure, and anything else with
/// the page for what was not found.
pub fn handle_connection(request_line: &str) -> (handling: Handling)
    ensures
        handling == if begins_with(request_line@, "GET / "@) {
            Handling::Reply { wait_secs: 0, status_line: STATUS_OK, contents: Some("hello.html") }
        } else if begins_with(request_line@, "GET /sleep "@) {
            Handling::Reply { wait_secs: 10, status_line: STATUS_OK, contents: None }
        } else if begins_with(request_line@, "GET /panic "@) {
            Handling::Panic
        } else {
            Handling::Reply {
                wait_secs: 0,
                status_line: STATUS_NOT_FOUND,
                contents: Some("404.html"),
            }
        },
{
    if str_starts_with(request_line, "GET / ") {
        Handling::Reply { wait_secs: 0, status_line: STATUS_OK, contents: Some("hello.html") }
    } else if str_starts_with(request_line, "GET /sleep ") {
        Handling::Reply { wait_secs: 10, status_line: STATUS_OK, contents: None }
    } else if str_starts_with(request_line, "GET /panic ") {
        Handling::Panic
    } else {
        Handling::Reply { wait_secs: 0, status_line: STATUS_NOT_FOUND, contents: Some("404.html") }
    }
}

/// What the accept loop does about one connection.
#[derive(Clone, Copy, Debug, PartialEq, Eq, Structural)]
pub enum Listen {
    /// Leave the loop: the server is no longer alive.
    Stop,
    /// Hand the connection to the pool.
    Dispatch,
    /// Go on to the next connection: this one failed.
    Skip,
}

/// Decides about one connection: once the server is no longer alive the
/// loop ends, whatever came in; before that, a connection that was accepted
/// is dispatched and one that failed is passed over.
pub fn listen(alive: bool, accepted: bool) -> (decision: Listen)
    ensures
        decision == if !alive {
            Listen::Stop
        } else if accepted {
            Listen::Dispatch
        } else {
            Listen::Skip
        },
{
    if !alive {
        Listen::Stop
    } else if accepted {
        Listen::Dispatch
    } else {
        Listen::Skip
    }
}

} // verus!
