//! The small part of HTTP that the daemon and its client speak.

use vstd::prelude::*;
use vstd::string::*;
use vstd::utf8::encode_utf8;

use crate::collections::StrMap;
use crate::keys::lemma_decimal_not_special;
use crate::scan::{
    char_is_whitespace, digits_value, find_from, lower_seq, number_of, parse_number, split_on,
    split_once, split_once_seq, split_str, split_whitespace, stands_at, to_ascii_lowercase, trim,
    trim_seq, words,
};
use crate::text::{
    byte_len, concat2, concat4, concat7, decimal, decimal_seq, digit_char, opt_str_view, str_eq,
    views,
};

verus! {

/// The most bytes that a request may have.
pub const REQUEST_LIMIT: usize = 33554432;

// ---------------------------------------------------------------------------
// Reading a request
// ---------------------------------------------------------------------------

/// Whether an empty line ends the head at `i`.
pub open spec fn head_ends_at(b: Seq<u8>, i: int) -> bool {
    0 <= i && i + 4 <= b.len() && b[i] == 13 && b[i + 1] == 10 && b[i + 2] == 13 && b[i + 3] == 10
}

/// Where the head of a message ends: the first empty line.
pub fn find_header_end(buffer: &Vec<u8>) -> (r: Option<usize>)
    ensures
        match r {
            Some(i) => head_ends_at(buffer@, i as int) && forall|k: int|
                0 <= k < i ==> !#[trigger] head_ends_at(buffer@, k),
            None => forall|k: int| !#[trigger] head_ends_at(buffer@, k),
        },
{
    let n: usize = buffer.len();
    if n < 4 {
        return None;
    }
    let mut i: usize = 0;
    while i <= n - 4
        invariant
            n == buffer@.len(),
            4 <= n,
            i <= n - 3,
            forall|k: int| 0 <= k < i ==> !#[trigger] head_ends_at(buffer@, k),
        decreases n - i,
    {
        if buffer[i] == 13 && buffer[i + 1] == 10 && buffer[i + 2] == 13 && buffer[i + 3] == 10 {
            return Some(i);
        }
        i = i + 1;
    }
    None
}

/// How far the reading of a head has come.
#[derive(Debug, Clone, Copy, PartialEq, Eq, Structural)]
pub enum HeadProgress {
    /// The message is too large.
    TooLarge,
    /// More bytes are needed.
    Incomplete,
    /// The head ends here.
    EndsAt(usize),
}

/// Tells how far the reading of a head has come.
pub fn head_progress(buffer: &Vec<u8>) -> (r: HeadProgress)
    ensures
        match r {
            HeadProgress::TooLarge => buffer@.len() > REQUEST_LIMIT,
            HeadProgress::Incomplete => buffer@.len() <= REQUEST_LIMIT && forall|k: int|
                !#[trigger] head_ends_at(buffer@, k),
            HeadProgress::EndsAt(i) => buffer@.len() <= REQUEST_LIMIT && head_ends_at(
                buffer@,
                i as int,
            ) && forall|k: int| 0 <= k < i ==> !#[trigger] head_ends_at(buffer@, k),
        },
{
    if buffer.len() > REQUEST_LIMIT {
        return HeadProgress::TooLarge;
    }
    match find_header_end(buffer) {
        Some(i) => HeadProgress::EndsAt(i),
        None => HeadProgress::Incomplete,
    }
}

/// The headers of a message, by their names in lowercase.
pub struct Headers {
    values: StrMap<String>,
}

impl Headers {
    #[verifier::type_invariant]
    spec fn inv(self) -> bool {
        self.values.wf()
    }

    /// The headers.
    pub closed spec fn headers(&self) -> Map<Seq<char>, Seq<char>> {
        self.values.map().map_values(|v: String| v@)
    }

    /// The value of a header.
    pub fn get(&self, name: &str) -> (r: Option<&str>)
        ensures
            opt_str_view(r) == header(self.headers(), name@),
    {
        proof {
            use_type_invariant(self);
        }
        match self.values.get(name) {
            Some(v) => Some(v.as_str()),
            None => None,
        }
    }

    /// Reads the headers from the lines of a head.
    pub fn read(lines: &Vec<String>, from: usize) -> (r: Headers)
        requires
            from <= lines@.len(),
        ensures
            r.headers() == headers_of(views(lines@).skip(from as int)),
    {
        let ghost s = views(lines@).skip(from as int);
        let mut values: StrMap<String> = StrMap::new();
        let mut i: usize = from;
        proof {
            assert(s.take(0) =~= Seq::<Seq<char>>::empty());
            assert(values.map().map_values(|v: String| v@) =~= headers_of(s.take(0)));
        }
        while i < lines.len()
            invariant
                from <= i <= lines@.len(),
                s == views(lines@).skip(from as int),
                values.wf(),
                values.map().map_values(|v: String| v@) == headers_of(s.take(i - from)),
            decreases lines@.len() - i,
        {
            let ghost m = values.map();
            proof {
                assert(s.take(i + 1 - from).drop_last() =~= s.take(i - from));
                assert(s.take(i + 1 - from).last() == lines@[i as int]@);
            }
            match split_once(lines[i].as_str(), ":") {
                Some((n, v)) => {
                    let name = to_ascii_lowercase(trim(n.as_str()).as_str());
                    let value = trim(v.as_str());
                    let ghost key = name@;
                    let ghost val = value@;
                    values.insert(name.as_str(), value);
                    assert(values.map().map_values(|v: String| v@) =~= m.map_values(
                        |v: String| v@,
                    ).insert(key, val));
                },
                None => {},
            }
            i = i + 1;
        }
        assert(s.take(i - from) =~= s);
        Headers { values }
    }
}

/// The value of a header.
pub open spec fn header(m: Map<Seq<char>, Seq<char>>, name: Seq<char>) -> Option<Seq<char>> {
    if m.dom().contains(name) {
        Some(m[name])
    } else {
        None
    }
}

/// The headers that the lines of a head give. A line without a colon gives none; a
/// later line wins.
pub open spec fn headers_of(lines: Seq<Seq<char>>) -> Map<Seq<char>, Seq<char>>
    decreases lines.len(),
{
    if lines.len() == 0 {
        Map::empty()
    } else {
        let before = headers_of(lines.drop_last());
        match split_once_seq(lines.last(), ":"@) {
            Some((n, v)) => before.insert(lower_seq(trim_seq(n)), trim_seq(v)),
            None => before,
        }
    }
}

/// The head of a request.
pub struct RequestHead {
    /// The method.
    pub method: String,
    /// The path.
    pub path: String,
    /// The headers.
    pub headers: Headers,
}

/// Why the head of a request could not be read.
#[derive(Debug, Clone, Copy, PartialEq, Eq, Structural)]
pub enum HeadError {
    MissingMethod,
    MissingPath,
}

impl HeadError {
    /// The message of the error.
    pub fn message(self) -> (r: &'static str)
        ensures
            r@ == (match self {
                HeadError::MissingMethod => "missing method"@,
                HeadError::MissingPath => "missing path"@,
            }),
    {
        match self {
            HeadError::MissingMethod => "missing method",
            HeadError::MissingPath => "missing path",
        }
    }
}

/// The lines of a head.
pub open spec fn head_lines(text: Seq<char>) -> Seq<Seq<char>> {
    split_on(text, "\r\n"@, 0)
}

proof fn lemma_some_line(s: Seq<char>, p: Seq<char>, k: int)
    ensures
        split_on(s, p, k).len() > 0,
{
}

/// Reads the head of a request: the method and the path are the first two words of the
/// first line.
pub fn parse_request_head(text: &str) -> (r: Result<RequestHead, HeadError>)
    ensures
        ({
            let lines = head_lines(text@);
            let first = words(lines[0]);
            match r {
                Ok(h) => first.len() >= 2 && h.method@ == first[0] && h.path@ == first[1]
                    && h.headers.headers() == headers_of(lines.skip(1)),
                Err(HeadError::MissingMethod) => first.len() == 0,
                Err(HeadError::MissingPath) => first.len() == 1,
            }
        }),
{
    proof {
        reveal_strlit("\r\n");
        assert("\r\n"@.len() == 2);
        lemma_some_line(text@, "\r\n"@, 0);
    }
    let lines = split_str(text, "\r\n");
    assert(views(lines@).len() == lines@.len());
    assert(views(lines@)[0] == lines@[0]@);
    let parts = split_whitespace(lines[0].as_str());
    assert(views(parts@).len() == parts@.len());
    if parts.len() == 0 {
        return Err(HeadError::MissingMethod);
    }
    if parts.len() == 1 {
        return Err(HeadError::MissingPath);
    }
    assert(views(parts@)[0] == parts@[0]@);
    assert(views(parts@)[1] == parts@[1]@);
    Ok(
        RequestHead {
            method: parts[0].clone(),
            path: parts[1].clone(),
            headers: Headers::read(&lines, 1),
        },
    )
}

/// Whether the headers carry the token.
pub open spec fn authorized(m: Map<Seq<char>, Seq<char>>, token: Seq<char>) -> bool {
    header(m, "authorization"@) == Some("Bearer "@ + token)
}

/// Whether the headers carry the token.
pub fn headers_authorized(headers: &Headers, token: &str) -> (r: bool)
    ensures
        r == authorized(headers.headers(), token@),
{
    match headers.get("authorization") {
        Some(v) => str_eq(v, concat2("Bearer ", token).as_str()),
        None => false,
    }
}

/// The length that the headers declare for the body: zero where they declare none.
pub open spec fn declared_length(m: Map<Seq<char>, Seq<char>>) -> nat {
    match header(m, "content-length"@) {
        Some(v) => match number_of(v, usize::MAX as nat) {
            Some(n) => n,
            None => 0,
        },
        None => 0,
    }
}

/// What is to be done about the body of a request.
#[derive(Debug, Clone, Copy, PartialEq, Eq, Structural)]
pub enum BodyPlan {
    /// The request is not authorized: its body is not read.
    Skip,
    /// The body is too large.
    TooLarge,
    /// So many bytes are to be read.
    Read(usize),
}

/// Decides about the body of a request. The token is checked before anything of the
/// body is read.
pub fn plan_body(headers: &Headers, token: &str) -> (r: BodyPlan)
    ensures
        r == (if !authorized(headers.headers(), token@) {
            BodyPlan::Skip
        } else if declared_length(headers.headers()) > REQUEST_LIMIT {
            BodyPlan::TooLarge
        } else {
            BodyPlan::Read(declared_length(headers.headers()) as usize)
        }),
{
    if !headers_authorized(headers, token) {
        return BodyPlan::Skip;
    }
    let n: usize = match headers.get("content-length") {
        Some(v) => match parse_number(v, usize::MAX as u64) {
            Some(n) => n as usize,
            None => 0,
        },
        None => 0,
    };
    if n > REQUEST_LIMIT {
        BodyPlan::TooLarge
    } else {
        BodyPlan::Read(n)
    }
}

/// The body of a message, once enough of it has come: what follows the empty line, cut
/// to the declared length.
pub fn take_body(buffer: &Vec<u8>, header_end: usize, length: usize) -> (r: Option<Vec<u8>>)
    requires
        header_end + 4 <= buffer@.len(),
    ensures
        match r {
            Some(b) => header_end + 4 + length <= buffer@.len() && b@ == buffer@.subrange(
                header_end + 4,
                header_end + 4 + length,
            ),
            None => header_end + 4 + length > buffer@.len(),
        },
{
    let n: usize = buffer.len();
    let start: usize = header_end + 4;
    if n - start < length {
        return None;
    }
    let mut out: Vec<u8> = Vec::new();
    let mut i: usize = 0;
    while i < length
        invariant
            n == buffer@.len(),
            start == header_end + 4,
            start + length <= n,
            i <= length,
            out@ == buffer@.subrange(start as int, start + i),
        decreases length - i,
    {
        out.push(buffer[start + i]);
        i = i + 1;
        assert(out@ =~= buffer@.subrange(start as int, start + i));
    }
    Some(out)
}

// ---------------------------------------------------------------------------
// Writing
// ---------------------------------------------------------------------------

/// The text of a status.
pub open spec fn status_words(status: u16) -> Seq<char> {
    if status == 200 {
        "OK"@
    } else if status == 202 {
        "Accepted"@
    } else if status == 400 {
        "Bad Request"@
    } else if status == 401 {
        "Unauthorized"@
    } else if status == 404 {
        "Not Found"@
    } else if status == 408 {
        "Request Timeout"@
    } else if status == 409 {
        "Conflict"@
    } else if status == 422 {
        "Unprocessable Entity"@
    } else if status == 429 {
        "Too Many Requests"@
    } else if status == 500 {
        "Internal Server Error"@
    } else {
        "Unknown"@
    }
}

/// The text of a status.
pub fn status_text(status: u16) -> (r: &'static str)
    ensures
        r@ == status_words(status),
{
    if status == 200 {
        "OK"
    } else if status == 202 {
        "Accepted"
    } else if status == 400 {
        "Bad Request"
    } else if status == 401 {
        "Unauthorized"
    } else if status == 404 {
        "Not Found"
    } else if status == 408 {
        "Request Timeout"
    } else if status == 409 {
        "Conflict"
    } else if status == 422 {
        "Unprocessable Entity"
    } else if status == 429 {
        "Too Many Requests"
    } else if status == 500 {
        "Internal Server Error"
    } else {
        "Unknown"
    }
}

/// The first line of an answer.
pub open spec fn status_line(status: u16) -> Seq<char> {
    "HTTP/1.1 "@ + decimal_seq(status as nat) + (" "@ + status_words(status))
}

/// The head of an answer.
pub open spec fn answer_head(status: u16, body: Seq<char>) -> Seq<char> {
    status_line(status) + ("\r\n"@ + "Content-Type: application/json"@) + ("\r\n"@
        + "Content-Length: "@ + decimal_seq(encode_utf8(body).len())) + ("\r\n"@
        + "Connection: close"@)
}

/// An answer.
pub open spec fn answer_text(status: u16, body: Seq<char>) -> Seq<char> {
    answer_head(status, body) + "\r\n\r\n"@ + body
}

/// Writes an answer.
pub fn response_text(status: u16, body: &str) -> (r: String)
    ensures
        r@ == answer_text(status, body@),
{
    let line = concat4(
        "HTTP/1.1 ",
        decimal(status as u64).as_str(),
        " ",
        status_text(status),
    );
    let size = decimal(byte_len(body) as u64);
    let mut r = concat7(
        line.as_str(),
        "\r\n",
        "Content-Type: application/json",
        "\r\n",
        "Content-Length: ",
        size.as_str(),
        "\r\n",
    );
    r.append("Connection: close");
    r.append("\r\n\r\n");
    r.append(body);
    proof {
        assert(line@ =~= status_line(status));
        assert(r@ =~= answer_text(status, body@));
    }
    r
}

/// A request.
pub open spec fn request_message(
    method: Seq<char>,
    path: Seq<char>,
    token: Option<Seq<char>>,
    body: Seq<char>,
) -> Seq<char> {
    method + " "@ + path + " HTTP/1.1\r\nHost: egregore\r\n"@ + (match token {
        Some(t) => "Authorization: Bearer "@ + t + "\r\n"@,
        None => ""@,
    }) + "Content-Type: application/json\r\nContent-Length: "@ + decimal_seq(
        encode_utf8(body).len(),
    ) + "\r\nConnection: close\r\n\r\n"@ + body
}

/// Writes a request; with a token where one is given.
pub fn request_text(method: &str, path: &str, token: Option<&str>, body: &str) -> (r: String)
    ensures
        r@ == request_message(method@, path@, opt_str_view(token), body@),
{
    let authorization = match token {
        Some(t) => crate::text::concat3("Authorization: Bearer ", t, "\r\n"),
        None => "".to_owned(),
    };
    let mut r = concat7(
        method,
        " ",
        path,
        " HTTP/1.1\r\nHost: egregore\r\n",
        authorization.as_str(),
        "Content-Type: application/json\r\nContent-Length: ",
        decimal(byte_len(body) as u64).as_str(),
    );
    r.append("\r\nConnection: close\r\n\r\n");
    r.append(body);
    r
}

// ---------------------------------------------------------------------------
// Reading an answer
// ---------------------------------------------------------------------------

/// Why an answer could not be read.
#[derive(Debug, Clone, Copy, PartialEq, Eq, Structural)]
pub enum ResponseError {
    Invalid,
    MissingStatus,
    InvalidStatus,
}

impl ResponseError {
    /// The message of the error.
    pub fn message(self) -> (r: &'static str)
        ensures
            r@ == (match self {
                ResponseError::Invalid => "invalid HTTP response"@,
                ResponseError::MissingStatus => "missing HTTP status"@,
                ResponseError::InvalidStatus => "invalid HTTP status"@,
            }),
    {
        match self {
            ResponseError::Invalid => "invalid HTTP response",
            ResponseError::MissingStatus => "missing HTTP status",
            ResponseError::InvalidStatus => "invalid HTTP status",
        }
    }
}

/// The first line of a text.
pub open spec fn first_line(s: Seq<char>) -> Seq<char> {
    match find_from(s, "\n"@, 0) {
        Some(i) => s.take(i),
        None => s,
    }
}

/// The status and the body of an answer.
pub open spec fn response_of(s: Seq<char>) -> Result<(u16, Seq<char>), ResponseError> {
    match split_once_seq(s, "\r\n\r\n"@) {
        None => Err(ResponseError::Invalid),
        Some((head, body)) => {
            let w = words(first_line(head));
            if w.len() < 2 {
                Err(ResponseError::MissingStatus)
            } else {
                match number_of(w[1], 65535) {
                    None => Err(ResponseError::InvalidStatus),
                    Some(n) => Ok((n as u16, body)),
                }
            }
        },
    }
}

/// Reads an answer: the status is the second word of its first line, and the body
/// follows the empty line.
pub fn parse_http_response(response: &str) -> (r: Result<(u16, String), ResponseError>)
    ensures
        match (r, response_of(response@)) {
            (Ok((s, b)), Ok((x, y))) => s == x && b@ == y,
            (Err(e), Err(f)) => e == f,
            _ => false,
        },
{
    let (head, body) = match split_once(response, "\r\n\r\n") {
        None => {
            return Err(ResponseError::Invalid);
        },
        Some(x) => x,
    };
    let line = match split_once(head.as_str(), "\n") {
        Some((l, _)) => l,
        None => head,
    };
    let parts = split_whitespace(line.as_str());
    assert(views(parts@).len() == parts@.len());
    if parts.len() < 2 {
        return Err(ResponseError::MissingStatus);
    }
    assert(views(parts@)[1] == parts@[1]@);
    match parse_number(parts[1].as_str(), 65535) {
        None => Err(ResponseError::InvalidStatus),
        Some(n) => Ok((n as u16, body)),
    }
}

// ---------------------------------------------------------------------------
// An answer is read as it was written
// ---------------------------------------------------------------------------

/// Whether a text has no line break in it.
spec fn line_free(s: Seq<char>) -> bool {
    forall|i: int| 0 <= i < s.len() ==> (#[trigger] s[i]) != '\r' && s[i] != '\n'
}

/// Whether the first `n` characters of a text are no line breaks.
spec fn free_upto(s: Seq<char>, n: int) -> bool
    decreases n,
{
    n <= 0 || (s[n - 1] != '\r' && s[n - 1] != '\n' && free_upto(s, n - 1))
}

proof fn lemma_free_upto(s: Seq<char>, n: int, i: int)
    requires
        free_upto(s, n),
        0 <= i < n,
    ensures
        s[i] != '\r',
        s[i] != '\n',
    decreases n,
{
    if i < n - 1 {
        lemma_free_upto(s, n - 1, i);
    }
}

/// A text that is told character by character is free of line breaks.
proof fn lemma_free(s: Seq<char>)
    requires
        free_upto(s, s.len() as int),
    ensures
        line_free(s),
{
    assert forall|i: int| 0 <= i < s.len() implies (#[trigger] s[i]) != '\r' && s[i] != '\n' by {
        lemma_free_upto(s, s.len() as int, i);
    }
}

proof fn lemma_free_status(status: u16)
    ensures
        line_free(status_words(status)),
{
    reveal_with_fuel(free_upto, 22);
    if status == 200 {
        reveal_strlit("OK");
        lemma_free("OK"@);
    } else if status == 202 {
        reveal_strlit("Accepted");
        lemma_free("Accepted"@);
    } else if status == 400 {
        reveal_strlit("Bad Request");
        lemma_free("Bad Request"@);
    } else if status == 401 {
        reveal_strlit("Unauthorized");
        lemma_free("Unauthorized"@);
    } else if status == 404 {
        reveal_strlit("Not Found");
        lemma_free("Not Found"@);
    } else if status == 408 {
        reveal_strlit("Request Timeout");
        lemma_free("Request Timeout"@);
    } else if status == 409 {
        reveal_strlit("Conflict");
        lemma_free("Conflict"@);
    } else if status == 422 {
        reveal_strlit("Unprocessable Entity");
        lemma_free("Unprocessable Entity"@);
    } else if status == 429 {
        reveal_strlit("Too Many Requests");
        lemma_free("Too Many Requests"@);
    } else if status == 500 {
        reveal_strlit("Internal Server Error");
        lemma_free("Internal Server Error"@);
    } else {
        reveal_strlit("Unknown");
        lemma_free("Unknown"@);
    }
}

proof fn lemma_free_decimal(n: nat)
    ensures
        line_free(decimal_seq(n)),
        forall|i: int|
            0 <= i < decimal_seq(n).len() ==> !char_is_whitespace(#[trigger] decimal_seq(n)[i]),
{
    assert forall|i: int| 0 <= i < decimal_seq(n).len() implies (#[trigger] decimal_seq(n)[i])
        != '\r' && decimal_seq(n)[i] != '\n' && !char_is_whitespace(decimal_seq(n)[i]) by {
        lemma_decimal_not_special(n, i);
    }
}

proof fn lemma_free_concat(a: Seq<char>, b: Seq<char>)
    requires
        line_free(a),
        line_free(b),
    ensures
        line_free(a + b),
{
    assert forall|i: int| 0 <= i < (a + b).len() implies (#[trigger] (a + b)[i]) != '\r' && (a
        + b)[i] != '\n' by {
        if i < a.len() {
            assert((a + b)[i] == a[i]);
        } else {
            assert((a + b)[i] == b[i - a.len()]);
        }
    }
}

/// Whether every carriage return of a head is followed, two places on, by something
/// other than a carriage return.
spec fn quiet(s: Seq<char>) -> bool {
    forall|k: int| 0 <= k < s.len() && (#[trigger] s[k]) == '\r' ==> k + 2 < s.len() && s[k + 2] != '\r'
}

/// A head stays quiet when a line without breaks is added to it.
proof fn lemma_quiet_line(head: Seq<char>, line: Seq<char>)
    requires
        quiet(head),
        line_free(line),
        line.len() > 0,
    ensures
        quiet(head + ("\r\n"@ + line)),
{
    reveal_strlit("\r\n");
    let p = "\r\n"@;
    assert(p.len() == 2 && p[0] == '\r' && p[1] == '\n');
    let t = p + line;
    let s = head + t;
    assert forall|k: int| 0 <= k < s.len() && (#[trigger] s[k]) == '\r' implies k + 2 < s.len()
        && s[k + 2] != '\r' by {
        if k < head.len() {
            assert(head[k] == '\r');
            assert(s[k + 2] == head[k + 2]);
        } else {
            let j = k - head.len();
            assert(s[k] == t[j]);
            if j >= 2 {
                assert(t[j] == line[j - 2]);
            } else if j == 0 {
                assert(s[k + 2] == t[2] && t[2] == line[0]);
            }
        }
    }
}

proof fn lemma_quiet_head(status: u16, body: Seq<char>)
    ensures
        quiet(answer_head(status, body)),
        line_free(status_line(status)),
{
    reveal_strlit("Content-Type: application/json");
    reveal_strlit("Content-Length: ");
    reveal_strlit("Connection: close");
    reveal_strlit(" ");
    assert(" "@.len() == 1 && " "@[0] == ' ');
    let d = decimal_seq(status as nat);
    let n = decimal_seq(encode_utf8(body).len());
    lemma_free_decimal(status as nat);
    lemma_free_decimal(encode_utf8(body).len());
    lemma_free_status(status);
    assert(line_free("HTTP/1.1 "@)) by {
        reveal_strlit("HTTP/1.1 ");
        reveal_with_fuel(free_upto, 10);
        lemma_free("HTTP/1.1 "@);
    }
    assert(line_free(" "@));
    lemma_free_concat(" "@, status_words(status));
    lemma_free_concat("HTTP/1.1 "@, d);
    lemma_free_concat("HTTP/1.1 "@ + d, " "@ + status_words(status));
    assert(quiet(status_line(status)));
    let l1 = "Content-Type: application/json"@;
    assert(line_free(l1)) by {
        reveal_with_fuel(free_upto, 31);
        lemma_free(l1);
    }
    lemma_quiet_line(status_line(status), l1);
    let h1 = status_line(status) + ("\r\n"@ + l1);
    let l2 = "Content-Length: "@;
    assert(line_free(l2)) by {
        reveal_with_fuel(free_upto, 17);
        lemma_free(l2);
    }
    lemma_free_concat(l2, n);
    lemma_quiet_line(h1, l2 + n);
    assert("\r\n"@ + l2 + n =~= "\r\n"@ + (l2 + n));
    let h2 = h1 + ("\r\n"@ + l2 + n);
    let l3 = "Connection: close"@;
    assert(line_free(l3)) by {
        reveal_with_fuel(free_upto, 18);
        lemma_free(l3);
    }
    lemma_quiet_line(h2, l3);
}

proof fn lemma_find_at(s: Seq<char>, p: Seq<char>, k: int, at: int)
    requires
        0 <= k <= at,
        stands_at(s, p, at),
        forall|j: int| k <= j < at ==> !#[trigger] stands_at(s, p, j),
    ensures
        find_from(s, p, k) == Some(at),
    decreases at - k,
{
    if k < at {
        assert(!stands_at(s, p, k));
        lemma_find_at(s, p, k + 1, at);
    }
}

proof fn lemma_break_at(head: Seq<char>, body: Seq<char>)
    requires
        quiet(head),
    ensures
        split_once_seq(head + "\r\n\r\n"@ + body, "\r\n\r\n"@) == Some((head, body)),
{
    reveal_strlit("\r\n\r\n");
    let p = "\r\n\r\n"@;
    assert(p.len() == 4 && p[0] == '\r' && p[1] == '\n' && p[2] == '\r' && p[3] == '\n');
    let s = head + p + body;
    let n = head.len() as int;
    assert(s.subrange(n, n + 4) =~= p);
    assert forall|j: int| 0 <= j < n implies !#[trigger] stands_at(s, p, j) by {
        if stands_at(s, p, j) {
            let t = s.subrange(j, j + 4);
            assert(t[0] == s[j] && t[2] == s[j + 2]);
            assert(s[j] == head[j]);
            assert(s[j + 2] == head[j + 2]);
        }
    }
    lemma_find_at(s, p, 0, n);
    assert(s.take(n) =~= head);
    assert(s.skip(n + 4) =~= body);
}

proof fn lemma_first_line(line: Seq<char>, rest: Seq<char>)
    requires
        line_free(line),
    ensures
        first_line(line + ("\r\n"@ + rest)) == line + seq!['\r'],
{
    reveal_strlit("\r\n");
    reveal_strlit("\n");
    let p = "\n"@;
    assert("\r\n"@.len() == 2 && "\r\n"@[0] == '\r' && "\r\n"@[1] == '\n');
    assert(p.len() == 1 && p[0] == '\n');
    let s = line + ("\r\n"@ + rest);
    let n = line.len() as int;
    assert(s[n] == '\r' && s[n + 1] == '\n');
    assert(s.subrange(n + 1, n + 2) =~= p);
    assert forall|j: int| 0 <= j < n + 1 implies !#[trigger] stands_at(s, p, j) by {
        if stands_at(s, p, j) {
            assert(s.subrange(j, j + 1)[0] == s[j]);
            if j < n {
                assert(s[j] == line[j]);
            }
        }
    }
    lemma_find_at(s, p, 0, n + 1);
    assert(s.take(n + 1) =~= line + seq!['\r']);
}

/// A piece without white space that follows white space is a word of its own.
proof fn lemma_words_piece(s: Seq<char>, t: Seq<char>)
    requires
        s.len() == 0 || char_is_whitespace(s.last()),
        t.len() > 0,
        forall|i: int| 0 <= i < t.len() ==> !char_is_whitespace(#[trigger] t[i]),
    ensures
        words(s + t) == words(s).push(t),
    decreases t.len(),
{
    let u = s + t;
    assert(u.last() == t.last());
    assert(u.drop_last() =~= s + t.drop_last());
    if t.len() == 1 {
        assert(t.drop_last() =~= Seq::<char>::empty());
        assert(s + t.drop_last() =~= s);
        if u.len() > 1 {
            assert(u[u.len() - 2] == s.last());
        }
        assert(t =~= seq![t.last()]);
    } else {
        lemma_words_piece(s, t.drop_last());
        assert(u[u.len() - 2] == t[t.len() - 2]);
        let w = words(s).push(t.drop_last());
        assert(w.drop_last() =~= words(s));
        assert(t =~= t.drop_last().push(t.last()));
    }
}

/// What follows white space leaves the words before it alone.
proof fn lemma_words_keep(s: Seq<char>, u: Seq<char>)
    requires
        u.len() > 0,
        char_is_whitespace(u[0]),
    ensures
        words(s + u).len() >= words(s).len(),
        !char_is_whitespace(u.last()) ==> words(s + u).len() > words(s).len(),
        forall|j: int| 0 <= j < words(s).len() ==> #[trigger] words(s + u)[j] == words(s)[j],
    decreases u.len(),
{
    let t = s + u;
    assert(t.last() == u.last());
    assert(t.drop_last() =~= s + u.drop_last());
    if u.len() == 1 {
        assert(u.drop_last() =~= Seq::<char>::empty());
        assert(s + u.drop_last() =~= s);
    } else {
        lemma_words_keep(s, u.drop_last());
        assert(u.drop_last()[0] == u[0]);
        if !char_is_whitespace(u.last()) {
            assert(t[t.len() - 2] == u[u.len() - 2]);
            assert(u.drop_last().last() == u[u.len() - 2]);
        }
    }
}

proof fn lemma_status_word(status: u16)
    ensures
        words(status_line(status) + seq!['\r']).len() >= 2,
        words(status_line(status) + seq!['\r'])[1] == decimal_seq(status as nat),
{
    reveal_strlit("HTTP/1.1 ");
    reveal_strlit(" ");
    let p = "HTTP/1.1 "@;
    assert(p.len() == 9);
    let d = decimal_seq(status as nat);
    lemma_free_decimal(status as nat);
    lemma_decimal_not_special(status as nat, 0);
    let first = p.take(8);
    assert(p[8] == ' ');
    assert forall|i: int| 0 <= i < first.len() implies !char_is_whitespace(#[trigger] first[i]) by {
        assert(first[i] == p[i]);
        assert(p[0] == 'H' && p[1] == 'T' && p[2] == 'T' && p[3] == 'P' && p[4] == '/' && p[5] == '1'
            && p[6] == '.' && p[7] == '1');
        assert(i == 0 || i == 1 || i == 2 || i == 3 || i == 4 || i == 5 || i == 6 || i == 7);
    }
    let none = Seq::<char>::empty();
    lemma_words_piece(none, first);
    assert(none + first =~= first);
    assert(p.drop_last() =~= first);
    assert(words(p) == words(first));
    lemma_words_piece(p, d);
    let rest = " "@ + status_words(status) + seq!['\r'];
    assert(" "@.len() == 1 && " "@[0] == ' ');
    assert(rest[0] == ' ');
    lemma_words_keep(p + d, rest);
    assert(status_line(status) + seq!['\r'] =~= p + d + rest);
    assert(words(p + d)[1] == d);
}

proof fn lemma_number_round_trip(n: nat)
    ensures
        digits_value(decimal_seq(n)) == Some(n),
        decimal_seq(n).len() > 0,
        decimal_seq(n)[0] != '+',
    decreases n,
{
    lemma_decimal_first(n);
    if n < 10 {
        let s = decimal_seq(n);
        assert(s.drop_last() =~= Seq::<char>::empty());
        assert(s.last() == digit_char(n));
        assert(digits_value(s.drop_last()) == Some(0nat));
    } else {
        lemma_number_round_trip(n / 10);
        let s = decimal_seq(n);
        assert(s.drop_last() =~= decimal_seq(n / 10));
    }
}

proof fn lemma_decimal_first(n: nat)
    ensures
        decimal_seq(n).len() > 0,
        decimal_seq(n)[0] != '+',
    decreases n,
{
    if n >= 10 {
        lemma_decimal_first(n / 10);
    }
}

/// An answer is read as it was written: the status and the body come back.
pub proof fn law_answer_is_read_as_written(status: u16, body: Seq<char>)
    ensures
        response_of(answer_text(status, body)) == Ok::<(u16, Seq<char>), ResponseError>(
            (status, body),
        ),
{
    let head = answer_head(status, body);
    lemma_quiet_head(status, body);
    lemma_break_at(head, body);
    let rest = "Content-Type: application/json"@ + ("\r\n"@ + "Content-Length: "@ + decimal_seq(
        encode_utf8(body).len(),
    )) + ("\r\n"@ + "Connection: close"@);
    assert(head =~= status_line(status) + ("\r\n"@ + rest));
    lemma_first_line(status_line(status), rest);
    lemma_status_word(status);
    lemma_number_round_trip(status as nat);
}

} // verus!
