//! The opening request of a handshake: its header lines, and the lookup of
//! a header by name.

use crate::websockets::error::{WebSocketError, WebSocketErrorView};
use crate::websockets::text::{
    chars_of, contains_ignore_case, equal_ignore_case, find, spec_contains_ignore_case,
    spec_equal_ignore_case, spec_find, spec_trim, spec_trim_range, trim_range,
};
use crate::wire::push_all;
use vstd::prelude::*;
use vstd::string::StringExecFns;
use vstd::utf8::encode_utf8;

verus! {

/// The head of an HTTP request, as far as the handshake reads it.
pub struct Request {
    /// The lines before the blank line, each without the whitespace at its
    /// ends.
    pub headers: Vec<String>,
    /// The same lines as they came, line ends included, one after another.
    pub raw: Vec<u8>,
}

/// What a [`Request`] stands for in contracts.
pub struct RequestView {
    pub headers: Seq<Seq<char>>,
    pub raw: Seq<u8>,
}

/// The texts of a sequence of strings.
pub open spec fn texts(lines: Seq<String>) -> Seq<Seq<char>> {
    Seq::new(lines.len(), |i: int| lines[i]@)
}

impl View for Request {
    type V = RequestView;

    open spec fn view(&self) -> RequestView {
        RequestView { headers: texts(self.headers@), raw: self.raw@ }
    }
}

/// The header line that stands for an upgrade to WebSocket.
pub open spec fn upgrade_header() -> Seq<char> {
    "Upgrade: websocket"@
}

/// The message of a handshake that fails for want of the upgrade header.
pub open spec fn not_an_upgrade() -> Seq<char> {
    "not a websocket upgrade"@
}

/// Whether `line` is the blank line that ends the request head.
pub open spec fn spec_is_blank_line(line: Seq<char>) -> bool {
    line == seq!['\r', '\n'] || line == seq!['\n']
}

/// How many of `lines`, counted from `from`, come before the first blank
/// line: the position of that line, or the number of lines if none is
/// blank.
pub open spec fn spec_head_end(lines: Seq<Seq<char>>, from: int) -> int
    decreases lines.len() - from,
{
    if from >= lines.len() {
        lines.len() as int
    } else if spec_is_blank_line(lines[from]) {
        from
    } else {
        spec_head_end(lines, from + 1)
    }
}

/// The first `count` lines without the whitespace at their ends.
pub open spec fn spec_headers(lines: Seq<Seq<char>>, count: int) -> Seq<Seq<char>> {
    Seq::new(count as nat, |i: int| spec_trim(lines[i]))
}

/// The first `count` lines as UTF-8, one after another.
pub open spec fn spec_raw(lines: Seq<Seq<char>>, count: int) -> Seq<u8>
    decreases count,
{
    if count <= 0 {
        Seq::empty()
    } else {
        spec_raw(lines, count - 1) + encode_utf8(lines[count - 1])
    }
}

/// Whether one of `headers` asks for the upgrade: it contains
/// `Upgrade: websocket`, ASCII letters compared without regard to case.
pub open spec fn spec_is_upgrade(headers: Seq<Seq<char>>) -> bool {
    exists|i: int|
        0 <= i < headers.len() && spec_contains_ignore_case(#[trigger] headers[i], upgrade_header())
}

/// What reading a request from `lines` gives: the lines before the first
/// blank one as a request, if one of them asks for the upgrade.
pub open spec fn spec_read_request(lines: Seq<Seq<char>>) -> Result<
    RequestView,
    WebSocketErrorView,
> {
    let count = spec_head_end(lines, 0);
    let headers = spec_headers(lines, count);
    if spec_is_upgrade(headers) {
        Ok(RequestView { headers, raw: spec_raw(lines, count) })
    } else {
        Err(WebSocketErrorView::HandshakeFailed(not_an_upgrade()))
    }
}

/// The name of a header line: what stands before its first colon, without
/// the whitespace at the ends. A line without a colon has no name.
pub open spec fn spec_header_name(line: Seq<char>) -> Option<Seq<char>> {
    let colon = spec_find(line, ':', 0);
    if colon >= line.len() {
        None
    } else {
        Some(spec_trim_range(line, 0, colon))
    }
}

/// The value of a header line: everything after its first colon, without
/// the whitespace at the ends. A line without a colon has no value.
pub open spec fn spec_header_value(line: Seq<char>) -> Option<Seq<char>> {
    let colon = spec_find(line, ':', 0);
    if colon >= line.len() {
        None
    } else {
        Some(spec_trim_range(line, colon + 1, line.len() as int))
    }
}

/// Whether `line` is the header called `name`: it has a name, and that is
/// `name`, ASCII letters compared without regard to case.
pub open spec fn spec_is_header(line: Seq<char>, name: Seq<char>) -> bool {
    spec_header_name(line) matches Some(found) && spec_equal_ignore_case(found, name)
}

/// The position from `from` on of the first of `headers` that is called
/// `name`; the number of headers if none is.
pub open spec fn spec_first_match(headers: Seq<Seq<char>>, name: Seq<char>, from: int) -> int
    decreases headers.len() - from,
{
    if from >= headers.len() {
        headers.len() as int
    } else if spec_is_header(headers[from], name) {
        from
    } else {
        spec_first_match(headers, name, from + 1)
    }
}

/// The value of the first of `headers` that is called `name`.
pub open spec fn spec_get_header(headers: Seq<Seq<char>>, name: Seq<char>) -> Option<Seq<char>> {
    let at = spec_first_match(headers, name, 0);
    if at >= headers.len() {
        None
    } else {
        spec_header_value(headers[at])
    }
}

/// A header that is there has a value: the lookup finds nothing exactly
/// when no line is called `name`.
pub proof fn lemma_get_header_is_some(headers: Seq<Seq<char>>, name: Seq<char>)
    ensures
        spec_get_header(headers, name) is Some <==> exists|i: int|
            0 <= i < headers.len() && spec_is_header(#[trigger] headers[i], name),
{
    lemma_first_match(headers, name, 0);
}

/// The first match from `from` on is a match, and nothing before it is.
pub proof fn lemma_first_match(headers: Seq<Seq<char>>, name: Seq<char>, from: int)
    requires
        0 <= from,
    ensures
        from <= spec_first_match(headers, name, from) || headers.len() < from,
        spec_first_match(headers, name, from) < headers.len() ==> spec_is_header(
            headers[spec_first_match(headers, name, from)],
            name,
        ),
        forall|i: int|
            from <= i < spec_first_match(headers, name, from) && i < headers.len()
                ==> !spec_is_header(#[trigger] headers[i], name),
    decreases headers.len() - from,
{
    if from < headers.len() && !spec_is_header(headers[from], name) {
        lemma_first_match(headers, name, from + 1);
    }
}

/// Whether `line` is the blank line that ends the request head: a line end
/// and nothing else.
pub fn is_blank_line(line: &str) -> (blank: bool)
    ensures
        blank == spec_is_blank_line(line@),
{
    let chars = chars_of(line);
    if chars.len() == 1 {
        assert(chars@ =~= seq![chars@[0]]);
        chars[0] == '\n'
    } else if chars.len() == 2 {
        assert(chars@ =~= seq![chars@[0], chars@[1]]);
        chars[0] == '\r' && chars[1] == '\n'
    } else {
        false
    }
}

/// `line` without the whitespace at its ends.
pub fn trim(line: &str) -> (trimmed: String)
    ensures
        trimmed@ == spec_trim(line@),
{
    let chars = chars_of(line);
    let (start, end) = trim_range(chars.as_slice(), 0, chars.len());
    String::from_str(line.substring_char(start, end))
}

/// Whether `line` is the header called `name`: what stands before its
/// first colon, without the whitespace at the ends, is `name`, ASCII
/// letters compared without regard to case.
pub fn is_header(line: &str, name: &str) -> (found: bool)
    ensures
        found == spec_is_header(line@, name@),
{
    let chars = chars_of(line);
    let wanted = chars_of(name);
    let colon = find(chars.as_slice(), ':', 0);
    if colon >= chars.len() {
        return false;
    }
    let (start, end) = trim_range(chars.as_slice(), 0, colon);
    equal_ignore_case(&chars.as_slice()[start..end], wanted.as_slice())
}

/// The value of a header line: everything after its first colon, without
/// the whitespace at the ends.
pub fn header_value(line: &str) -> (value: Option<&str>)
    ensures
        match value {
            Some(text) => spec_header_value(line@) == Some(text@),
            None => spec_header_value(line@) is None,
        },
{
    let chars = chars_of(line);
    let colon = find(chars.as_slice(), ':', 0);
    if colon >= chars.len() {
        return None;
    }
    let (start, end) = trim_range(chars.as_slice(), colon + 1, chars.len());
    Some(line.substring_char(start, end))
}

impl Request {
    /// A request without lines.
    pub fn new() -> (request: Request)
        ensures
            request@.headers.len() == 0,
            request@.raw.len() == 0,
    {
        Request { headers: Vec::new(), raw: Vec::new() }
    }

    /// Adds one line of the request head: the line as it came goes to the
    /// raw bytes, the line without the whitespace at its ends to the
    /// headers.
    pub fn push_line(&mut self, line: &str)
        ensures
            final(self)@.headers == old(self)@.headers.push(spec_trim(line@)),
            final(self)@.raw == old(self)@.raw + encode_utf8(line@),
    {
        push_all(&mut self.raw, line.as_bytes());
        self.headers.push(trim(line));
        assert(texts(self.headers@) =~= texts(old(self).headers@).push(spec_trim(line@)));
    }

    /// Whether one of the headers asks for the upgrade to WebSocket.
    pub fn is_upgrade(&self) -> (upgrade: bool)
        ensures
            upgrade == spec_is_upgrade(self@.headers),
    {
        let pattern = chars_of("Upgrade: websocket");
        let mut i: usize = 0;
        while i < self.headers.len()
            invariant
                i <= self.headers@.len(),
                pattern@ == upgrade_header(),
                forall|k: int|
                    0 <= k < i ==> !spec_contains_ignore_case(
                        #[trigger] texts(self.headers@)[k],
                        upgrade_header(),
                    ),
            decreases self.headers@.len() - i,
        {
            let chars = chars_of(self.headers[i].as_str());
            if contains_ignore_case(chars.as_slice(), pattern.as_slice()) {
                assert(spec_contains_ignore_case(texts(self.headers@)[i as int], upgrade_header()));
                return true;
            }
            i += 1;
        }
        false
    }

    /// Looks a header up by name.
    ///
    /// A line is the header called `name` when what stands before its
    /// first colon, without the whitespace at the ends, is `name`, ASCII
    /// letters compared without regard to case. The first such line
    /// decides; its value is everything after that colon, without the
    /// whitespace at the ends. Lines without a colon are passed over.
    pub fn get_header(&self, name: &str) -> (value: Option<&str>)
        ensures
            match value {
                Some(text) => spec_get_header(self@.headers, name@) == Some(text@),
                None => spec_get_header(self@.headers, name@) is None,
            },
            value is Some <==> exists|i: int|
                0 <= i < self@.headers.len() && spec_is_header(
                    #[trigger] self@.headers[i],
                    name@,
                ),
    {
        proof {
            lemma_get_header_is_some(self@.headers, name@);
        }
        let mut i: usize = 0;
        while i < self.headers.len()
            invariant
                i <= self.headers@.len(),
                spec_first_match(self@.headers, name@, 0) == spec_first_match(
                    self@.headers,
                    name@,
                    i as int,
                ),
            decreases self.headers@.len() - i,
        {
            let line = self.headers[i].as_str();
            if is_header(line, name) {
                return header_value(line);
            }
            i += 1;
        }
        None
    }
}

/// Reads the head of a request from the lines that came in.
///
/// The lines before the first blank line make up the request; what follows
/// is left alone. Fails with [`WebSocketError::HandshakeFailed`], message
/// `not a websocket upgrade`, unless one of those lines contains
/// `Upgrade: websocket`, ASCII letters compared without regard to case.
pub fn read_handshake_request(lines: &Vec<String>) -> (result: Result<Request, WebSocketError>)
    ensures
        match result {
            Ok(request) => spec_read_request(texts(lines@)) == Ok::<
                RequestView,
                WebSocketErrorView,
            >(request@),
            Err(e) => spec_read_request(texts(lines@)) == Err::<RequestView, WebSocketErrorView>(
                e@,
            ),
        },
{
    let mut request = Request::new();
    let mut i: usize = 0;
    while i < lines.len() && !is_blank_line(lines[i].as_str())
        invariant
            i <= lines@.len(),
            spec_head_end(texts(lines@), 0) == spec_head_end(texts(lines@), i as int),
            request@.headers == spec_headers(texts(lines@), i as int),
            request@.raw == spec_raw(texts(lines@), i as int),
        decreases lines@.len() - i,
    {
        request.push_line(lines[i].as_str());
        assert(request@.headers =~= spec_headers(texts(lines@), i + 1));
        i += 1;
    }
    if request.is_upgrade() {
        Ok(request)
    } else {
        Err(WebSocketError::handshake_failed("not a websocket upgrade"))
    }
}

} // verus!
