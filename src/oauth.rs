//! The local OAuth callback: which request completes sign-in, the URL handed
//! back to the front end, the page served in reply, and the pending receiver.
use vstd::prelude::*;
use crate::text::{
    ascii_chars, chars_of, contains_at, contains_chars, decimal_bytes, push_chars,
    push_decimal_chars, string_from_chars,
};

verus! {

/// Connections the callback server accepts before it gives up: the first may
/// carry the result only in a URL fragment, which the served page re-requests
/// as a query.
pub const MAX_CALLBACK_CONNECTIONS: u32 = 2;

/// Failures of waiting for the callback.
#[derive(Clone, Copy, Debug, PartialEq, Eq)]
pub enum OAuthError {
    /// No callback server was started, or its result was already taken.
    NoServerRunning,
    /// The server ended without sending anything.
    ChannelClosed,
}

/// The receiving end of the running callback server, until one wait takes it.
pub struct OAuthState<R> {
    receiver: Option<R>,
}

impl<R> View for OAuthState<R> {
    type V = Option<R>;

    closed spec fn view(&self) -> Option<R> {
        self.receiver
    }
}

impl<R> OAuthState<R> {
    /// No server.
    pub fn new() -> (r: OAuthState<R>)
        ensures
            r@ is None,
    {
        OAuthState { receiver: None }
    }

    /// Keeps the receiver of a newly started server, replacing any earlier one.
    pub fn store(&mut self, receiver: R)
        ensures
            final(self)@ == Some(receiver),
    {
        self.receiver = Some(receiver);
    }

    /// Hands out the receiver for the one wait; `NoServerRunning` when there is none.
    pub fn take(&mut self) -> (r: Result<R, OAuthError>)
        ensures
            final(self)@ is None,
            match old(self)@ {
                Some(x) => r == Ok::<R, OAuthError>(x),
                None => r == Err::<R, OAuthError>(OAuthError::NoServerRunning),
            },
    {
        match self.receiver.take() {
            Some(x) => Ok(x),
            None => Err(OAuthError::NoServerRunning),
        }
    }
}

/// Blank characters that separate the words of a request line.
pub open spec fn is_line_space(c: char) -> bool {
    c == ' ' || c == '\t' || c == '\r' || c == '\x0B' || c == '\x0C'
}

/// Index of the first line break at or after `i`, or the length.
pub open spec fn line_end(s: Seq<char>, i: int) -> int
    decreases s.len() - i,
{
    if i >= s.len() || s[i] == '\n' {
        i
    } else {
        line_end(s, i + 1)
    }
}

/// First index at or after `i` (and before `end`) that is not blank.
pub open spec fn skip_space(s: Seq<char>, i: int, end: int) -> int
    decreases end - i,
{
    if i >= end || !is_line_space(s[i]) {
        i
    } else {
        skip_space(s, i + 1, end)
    }
}

/// First index at or after `i` (and before `end`) that is blank.
pub open spec fn skip_word(s: Seq<char>, i: int, end: int) -> int
    decreases end - i,
{
    if i >= end || is_line_space(s[i]) {
        i
    } else {
        skip_word(s, i + 1, end)
    }
}

/// The request target: the second word of the first line, or `/` when that
/// line has fewer than two words.
pub open spec fn request_path(req: Seq<char>) -> Seq<char> {
    let end = line_end(req, 0);
    let w0 = skip_space(req, 0, end);
    let e0 = skip_word(req, w0, end);
    let w1 = skip_space(req, e0, end);
    let e1 = skip_word(req, w1, end);
    if w1 < end {
        req.subrange(w1, e1)
    } else {
        "/"@
    }
}

/// A target that carries the sign-in result.
pub open spec fn is_auth_callback(path: Seq<char>) -> bool {
    contains_at(path, "code="@) || contains_at(path, "access_token="@)
}

/// The full callback URL of a target on the local server.
pub open spec fn callback_url_spec(port: nat, path: Seq<char>) -> Seq<char> {
    "http://localhost:"@ + ascii_chars(decimal_bytes(port)) + path
}

proof fn lemma_line_end_bounds(s: Seq<char>, i: int)
    requires
        0 <= i <= s.len(),
    ensures
        i <= line_end(s, i) <= s.len(),
    decreases s.len() - i,
{
    if i < s.len() && s[i] != '\n' {
        lemma_line_end_bounds(s, i + 1);
    }
}

proof fn lemma_skip_bounds(s: Seq<char>, i: int, end: int)
    requires
        0 <= i <= end <= s.len(),
    ensures
        i <= skip_space(s, i, end) <= end,
        i <= skip_word(s, i, end) <= end,
    decreases end - i,
{
    if i < end {
        lemma_skip_bounds(s, i + 1, end);
    }
}

fn is_blank(c: char) -> (r: bool)
    ensures
        r == is_line_space(c),
{
    c == ' ' || c == '\t' || c == '\r' || c == '\x0B' || c == '\x0C'
}

fn scan_line_end(s: &Vec<char>) -> (r: usize)
    ensures
        r == line_end(s@, 0),
{
    let mut i: usize = 0;
    while i < s.len() && s[i] != '\n'
        invariant
            i <= s@.len(),
            line_end(s@, i as int) == line_end(s@, 0),
        decreases s@.len() - i,
    {
        i = i + 1;
    }
    i
}

fn scan_space(s: &Vec<char>, start: usize, end: usize) -> (r: usize)
    requires
        start <= end <= s@.len(),
    ensures
        r == skip_space(s@, start as int, end as int),
{
    let mut i: usize = start;
    while i < end && is_blank(s[i])
        invariant
            start <= i <= end <= s@.len(),
            skip_space(s@, i as int, end as int) == skip_space(s@, start as int, end as int),
        decreases end - i,
    {
        i = i + 1;
    }
    i
}

fn scan_word(s: &Vec<char>, start: usize, end: usize) -> (r: usize)
    requires
        start <= end <= s@.len(),
    ensures
        r == skip_word(s@, start as int, end as int),
{
    let mut i: usize = start;
    while i < end && !is_blank(s[i])
        invariant
            start <= i <= end <= s@.len(),
            skip_word(s@, i as int, end as int) == skip_word(s@, start as int, end as int),
        decreases end - i,
    {
        i = i + 1;
    }
    i
}

fn path_chars(req: &Vec<char>) -> (r: Vec<char>)
    ensures
        r@ == request_path(req@),
{
    let end = scan_line_end(req);
    proof {
        lemma_line_end_bounds(req@, 0);
    }
    let w0 = scan_space(req, 0, end);
    proof {
        lemma_skip_bounds(req@, 0, end as int);
    }
    let e0 = scan_word(req, w0, end);
    proof {
        lemma_skip_bounds(req@, w0 as int, end as int);
    }
    let w1 = scan_space(req, e0, end);
    proof {
        lemma_skip_bounds(req@, e0 as int, end as int);
    }
    let e1 = scan_word(req, w1, end);
    proof {
        lemma_skip_bounds(req@, w1 as int, end as int);
    }
    if w1 < end {
        let mut out: Vec<char> = Vec::new();
        let mut i: usize = w1;
        while i < e1
            invariant
                w1 <= i <= e1 <= req@.len(),
                out@ == req@.subrange(w1 as int, i as int),
            decreases e1 - i,
        {
            out.push(req[i]);
            i = i + 1;
            proof {
                assert(out@ =~= req@.subrange(w1 as int, i as int));
            }
        }
        out
    } else {
        chars_of("/")
    }
}

/// The target of an HTTP request, as `request_path` reads it.
pub fn request_target(request: &str) -> (r: String)
    ensures
        r@ == request_path(request@),
{
    string_from_chars(path_chars(&chars_of(request)))
}

/// For a request that reached the callback server on `port`: the callback URL
/// when its target carries the sign-in result, else nothing.
pub fn callback_outcome(port: u16, request: &str) -> (r: Option<String>)
    ensures
        match r {
            Some(url) => is_auth_callback(request_path(request@)) && url@ == callback_url_spec(
                port as nat,
                request_path(request@),
            ),
            None => !is_auth_callback(request_path(request@)),
        },
{
    let path = path_chars(&chars_of(request));
    if contains_chars(&path, &chars_of("code=")) || contains_chars(&path, &chars_of("access_token=")) {
        let mut url = chars_of("http://localhost:");
        push_decimal_chars(&mut url, port as u64);
        push_chars(&mut url, &path);
        Some(string_from_chars(url))
    } else {
        None
    }
}

/// A `200 OK` reply that serves `body` as HTML and closes the connection.
pub open spec fn ok_response_spec(body: Seq<char>, body_len: nat) -> Seq<char> {
    "HTTP/1.1 200 OK\r\nContent-Type: text/html\r\nContent-Length: "@ + ascii_chars(
        decimal_bytes(body_len),
    ) + "\r\nConnection: close\r\n\r\n"@ + body
}

/// The reply that serves `body`; its length is given in bytes.
pub fn ok_response(body: &str) -> (r: String)
    ensures
        r@ == ok_response_spec(body@, body.len() as nat),
{
    let mut out = chars_of("HTTP/1.1 200 OK\r\nContent-Type: text/html\r\nContent-Length: ");
    push_decimal_chars(&mut out, body.len() as u64);
    push_chars(&mut out, &chars_of("\r\nConnection: close\r\n\r\n"));
    push_chars(&mut out, &chars_of(body));
    string_from_chars(out)
}

} // verus!
