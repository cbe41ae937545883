//! Reading the head of an HTTP request: the request line and the header
//! fields that follow it.

use vstd::prelude::*;
use vstd::string::*;
use crate::headers::Headers;
use crate::text::{split, split_text, views};

verus! {

/// The head of a request.
#[derive(Debug)]
pub struct Request {
    pub method: String,
    pub path: String,
    pub http_ver: String,
    pub headers: Headers,
}

/// What `String::from_utf8_lossy` makes of a sequence of bytes: the text they
/// encode, with U+FFFD in place of each ill-formed part.
pub uninterp spec fn utf8_lossy(bytes: Seq<u8>) -> Seq<char>;

/// The separator of lines.
pub open spec fn line_break() -> Seq<char> {
    seq!['\r', '\n']
}

/// The separator of the three parts of the request line.
pub open spec fn space() -> Seq<char> {
    seq![' ']
}

/// The separator of a field's name and value.
pub open spec fn colon_space() -> Seq<char> {
    seq![':', ' ']
}

/// The lines of a text.
pub open spec fn lines_of(text: Seq<char>) -> Seq<Seq<char>> {
    split(text, line_break())
}

/// The parts of the first line.
pub open spec fn request_line(text: Seq<char>) -> Seq<Seq<char>> {
    split(lines_of(text)[0], space())
}

/// Whether the first line names a method, a path and a version.
pub open spec fn has_request_line(text: Seq<char>) -> bool {
    request_line(text).len() >= 3
}

/// Whether a line holds a name, the separator and a value.
pub open spec fn is_field(line: Seq<char>) -> bool {
    split(line, colon_space()).len() >= 2
}

/// The position of the first line at or after `from` that is no field, or
/// the number of lines if there is none.
pub open spec fn fields_end(lines: Seq<Seq<char>>, from: int) -> int
    decreases lines.len() - from,
{
    if from < 0 || from >= lines.len() || !is_field(lines[from]) {
        from
    } else {
        fields_end(lines, from + 1)
    }
}

/// The fields that the lines from `from` up to `to` hold: of each its first
/// part as the name and its second as the value, a later line replacing an
/// earlier one of the same name.
pub open spec fn fields_in(lines: Seq<Seq<char>>, from: int, to: int) -> Map<
    Seq<char>,
    Seq<char>,
>
    decreases to - from,
{
    if from < 0 || to <= from || to > lines.len() {
        Map::empty()
    } else {
        let parts = split(lines[to - 1], colon_space());
        fields_in(lines, from, to - 1).insert(parts[0], parts[1])
    }
}

/// The header fields of a text: those of the lines after the first, up to the
/// first line that is no field.
pub open spec fn header_fields(text: Seq<char>) -> Map<Seq<char>, Seq<char>> {
    fields_in(lines_of(text), 1, fields_end(lines_of(text), 1))
}

/// What reading a text as a request gives.
pub open spec fn reads_as(text: Seq<char>, request: Request) -> bool {
    &&& request.method@ == request_line(text)[0]
    &&& request.path@ == request_line(text)[1]
    &&& request.http_ver@ == request_line(text)[2]
    &&& request.headers.wf()
    &&& request.headers@ == header_fields(text)
}

/// A split always gives at least one piece.
pub proof fn split_has_a_piece(s: Seq<char>, sep: Seq<char>)
    ensures
        split(s, sep).len() >= 1,
{
}

/// Calls `String::from_utf8_lossy` and takes the text as an owned string.
/// The text depends on the bytes alone.
#[verifier::external_body]
fn decode_lossy(buffer: &[u8]) -> (text: String)
    ensures
        text@ == utf8_lossy(buffer@),
{
    String::from_utf8_lossy(buffer).into_owned()
}

impl Request {
    /// Whether the first line of `text` has the three parts of a request line.
    pub fn starts_with_request_line(text: &str) -> (yes: bool)
        ensures
            yes == has_request_line(text@),
    {
        proof {
            reveal_strlit("\r\n");
            reveal_strlit(" ");
            assert("\r\n"@ =~= line_break());
            assert(" "@ =~= space());
            split_has_a_piece(text@, line_break());
        }
        let lines = split_text(text, "\r\n");
        assert(views(lines@)[0] == lines@[0]@);
        let first = split_text(lines[0].as_str(), " ");
        first.len() >= 3
    }

    /// Reads the head of a request from its text.
    pub fn from_text(text: &str) -> (request: Request)
        requires
            has_request_line(text@),
        ensures
            reads_as(text@, request),
    {
        proof {
            reveal_strlit("\r\n");
            reveal_strlit(" ");
            reveal_strlit(": ");
            assert("\r\n"@ =~= line_break());
            assert(" "@ =~= space());
            assert(": "@ =~= colon_space());
            split_has_a_piece(text@, line_break());
        }
        let lines = split_text(text, "\r\n");
        assert(views(lines@)[0] == lines@[0]@);
        let first = split_text(lines[0].as_str(), " ");
        assert(views(first@)[0] == first@[0]@);
        assert(views(first@)[1] == first@[1]@);
        assert(views(first@)[2] == first@[2]@);
        let method = first[0].clone();
        let path = first[1].clone();
        let http_ver = first[2].clone();
        let mut headers = Headers::new();
        let mut i: usize = 1;
        let mut more: bool = true;
        while more && i < lines.len()
            invariant
                1 <= i <= lines@.len(),
                views(lines@) == lines_of(text@),
                ": "@ == colon_space(),
                headers.wf(),
                headers@ == fields_in(lines_of(text@), 1, i as int),
                fields_end(lines_of(text@), 1) == fields_end(lines_of(text@), i as int),
                !more ==> fields_end(lines_of(text@), i as int) == i,
            decreases lines@.len() - i + (if more { 1int } else { 0int }),
        {
            assert(views(lines@)[i as int] == lines@[i as int]@);
            let parts = split_text(lines[i].as_str(), ": ");
            if parts.len() < 2 {
                more = false;
            } else {
                assert(views(parts@)[0] == parts@[0]@);
                assert(views(parts@)[1] == parts@[1]@);
                headers.insert(parts[0].clone(), parts[1].clone());
                i += 1;
            }
        }
        Request { method, path, http_ver, headers }
    }

    /// Reads the head of a request from the bytes received. Bytes that are
    /// not well-formed UTF-8 are read as U+FFFD.
    pub fn from_buffer(buffer: &[u8]) -> (request: Request)
        requires
            has_request_line(utf8_lossy(buffer@)),
        ensures
            reads_as(utf8_lossy(buffer@), request),
    {
        let text = decode_lossy(buffer);
        Request::from_text(text.as_str())
    }

    /// Reads the head of a request from the bytes received, if their first
    /// line has the three parts of a request line.
    pub fn try_from_buffer(buffer: &[u8]) -> (request: Option<Request>)
        ensures
            request is Some <==> has_request_line(utf8_lossy(buffer@)),
            request is Some ==> reads_as(utf8_lossy(buffer@), request->0),
    {
        let text = decode_lossy(buffer);
        if Request::starts_with_request_line(text.as_str()) {
            Some(Request::from_buffer(buffer))
        } else {
            None
        }
    }
}

} // verus!
