//! HTTP/1.x on the wire: reading the head of a request and writing a response.
//!
//! A request head is a request line, header lines and an empty line. Lines end
//! in a line feed, with or without a carriage return before it. The request
//! line is a method, a target and a version, each set off by one space; the
//! version is `HTTP/1.0` or `HTTP/1.1`. A header line is a name, a colon and a
//! value; spaces and tabs around the value are dropped, and the name is kept
//! as it was written. Each byte is read as one character. What follows the
//! empty line is the body, which is not read here.

use crate::request::{pair_views, IncomingRequest, IncomingRequestView};
use crate::request::{option_view, query_of};
use crate::response::{header_views, Response, ResponseView};
use crate::text::{decimal_digits, find_between, first_index_of, push_decimal, text_between};
use vstd::prelude::*;
use vstd::string::{StrSliceExecFns, StringExecFns};
use vstd::utf8::encode_utf8;

verus! {

/// Why the head of a request could not be read.
#[derive(Debug, Clone, Copy, PartialEq, Eq, Structural)]
pub enum ParseError {
    /// The empty line that ends the head has not come.
    Incomplete,
    /// The request line is not a method, a target and a version.
    BadRequestLine,
    /// The version is neither `HTTP/1.0` nor `HTTP/1.1`.
    BadVersion,
    /// A header line has no colon, or no name before it.
    BadHeader,
}

/// The request line and the header fields of a request.
pub struct HeadView {
    pub method: Seq<char>,
    pub target: Seq<char>,
    pub version: Seq<char>,
    pub headers: Seq<(Seq<char>, Seq<char>)>,
}

/// The bytes read as characters, one for one.
pub open spec fn as_chars(bytes: Seq<u8>) -> Seq<char> {
    Seq::new(bytes.len(), |i: int| bytes[i] as char)
}

/// The line without the carriage return that may end it.
pub open spec fn without_cr(line: Seq<char>) -> Seq<char> {
    if line.len() > 0 && line.last() == '\r' {
        line.drop_last()
    } else {
        line
    }
}

/// `c` is a space or a tab.
pub open spec fn is_blank(c: char) -> bool {
    c == ' ' || c == '\t'
}

/// `s` without the spaces and tabs that lead it.
pub open spec fn trim_start(s: Seq<char>) -> Seq<char>
    decreases s.len(),
{
    if s.len() > 0 && is_blank(s[0]) {
        trim_start(s.drop_first())
    } else {
        s
    }
}

/// `s` without the spaces and tabs that end it.
pub open spec fn trim_end(s: Seq<char>) -> Seq<char>
    decreases s.len(),
{
    if s.len() > 0 && is_blank(s.last()) {
        trim_end(s.drop_last())
    } else {
        s
    }
}

/// The name and the value of a header line.
pub open spec fn header_of(line: Seq<char>) -> Result<(Seq<char>, Seq<char>), ParseError> {
    if first_index_of(line, ':') <= 0 {
        Err(ParseError::BadHeader)
    } else {
        Ok(
            (
                line.take(first_index_of(line, ':')),
                trim_end(trim_start(line.skip(first_index_of(line, ':') + 1))),
            ),
        )
    }
}

/// `headers` put before what `rest` gives.
pub open spec fn after(
    headers: Seq<(Seq<char>, Seq<char>)>,
    rest: Result<Seq<(Seq<char>, Seq<char>)>, ParseError>,
) -> Result<Seq<(Seq<char>, Seq<char>)>, ParseError> {
    match rest {
        Ok(more) => Ok(headers + more),
        Err(e) => Err(e),
    }
}

/// The header fields of `text`, which starts at a header line and must hold
/// the empty line that ends the head.
pub open spec fn headers_of(text: Seq<char>) -> Result<Seq<(Seq<char>, Seq<char>)>, ParseError>
    decreases text.len(),
{
    if first_index_of(text, '\n') < 0 || first_index_of(text, '\n') >= text.len() {
        Err(ParseError::Incomplete)
    } else if without_cr(text.take(first_index_of(text, '\n'))).len() == 0 {
        Ok(Seq::empty())
    } else {
        match header_of(without_cr(text.take(first_index_of(text, '\n')))) {
            Err(e) => Err(e),
            Ok(header) => after(seq![header], headers_of(text.skip(first_index_of(text, '\n') + 1))),
        }
    }
}

/// `version` is one that this server speaks.
pub open spec fn known_version(version: Seq<char>) -> bool {
    version == "HTTP/1.0"@ || version == "HTTP/1.1"@
}

/// The head that `text` spells.
pub open spec fn head_of(text: Seq<char>) -> Result<HeadView, ParseError> {
    let end = first_index_of(text, '\n');
    if end < 0 {
        Err(ParseError::Incomplete)
    } else {
        let line = without_cr(text.take(end));
        let first = first_index_of(line, ' ');
        if first <= 0 {
            Err(ParseError::BadRequestLine)
        } else {
            let rest = line.skip(first + 1);
            let second = first_index_of(rest, ' ');
            if second <= 0 {
                Err(ParseError::BadRequestLine)
            } else if !known_version(rest.skip(second + 1)) {
                Err(ParseError::BadVersion)
            } else {
                match headers_of(text.skip(end + 1)) {
                    Err(e) => Err(e),
                    Ok(headers) => Ok(
                        HeadView {
                            method: line.take(first),
                            target: rest.take(second),
                            version: rest.skip(second + 1),
                            headers,
                        },
                    ),
                }
            }
        }
    }
}

/// The request that a head and a peer address make.
pub open spec fn request_of(head: HeadView, remote_addr: Option<Seq<char>>) -> IncomingRequestView {
    IncomingRequestView {
        method: head.method,
        path: head.target,
        headers: head.headers,
        query: query_of(head.target),
        remote_addr,
    }
}

/// The bytes as characters.
fn chars_of_bytes(bytes: &[u8]) -> (chars: Vec<char>)
    ensures
        chars@ == as_chars(bytes@),
{
    let mut chars: Vec<char> = Vec::new();
    let mut i: usize = 0;
    while i < bytes.len()
        invariant
            i <= bytes.len(),
            chars@ == as_chars(bytes@).take(i as int),
        decreases bytes.len() - i,
    {
        chars.push(bytes[i] as char);
        proof {
            assert(chars@ =~= as_chars(bytes@).take(i + 1));
        }
        i = i + 1;
    }
    proof {
        assert(as_chars(bytes@).take(i as int) =~= as_chars(bytes@));
    }
    chars
}

/// The end of `chars[from..to]` once the carriage return that may end it is
/// left out.
fn end_without_cr(chars: &Vec<char>, from: usize, to: usize) -> (end: usize)
    requires
        from <= to <= chars.len(),
    ensures
        from <= end <= to,
        chars@.subrange(from as int, end as int) == without_cr(chars@.subrange(from as int, to as int)),
{
    let ghost line = chars@.subrange(from as int, to as int);
    if to > from && chars[to - 1] == '\r' {
        proof {
            assert(line.last() == chars@[to - 1]);
            assert(line.drop_last() =~= chars@.subrange(from as int, to - 1));
        }
        to - 1
    } else {
        proof {
            if line.len() > 0 {
                assert(line.last() == chars@[to - 1]);
            }
        }
        to
    }
}

/// The start of `chars[from..to]` once leading spaces and tabs are left out.
fn start_trimmed(chars: &Vec<char>, from: usize, to: usize) -> (start: usize)
    requires
        from <= to <= chars.len(),
    ensures
        from <= start <= to,
        chars@.subrange(start as int, to as int) == trim_start(chars@.subrange(from as int, to as int)),
{
    let mut start: usize = from;
    while start < to && (chars[start] == ' ' || chars[start] == '\t')
        invariant
            from <= start <= to <= chars.len(),
            trim_start(chars@.subrange(start as int, to as int)) == trim_start(
                chars@.subrange(from as int, to as int),
            ),
        decreases to - start,
    {
        proof {
            let s = chars@.subrange(start as int, to as int);
            assert(s[0] == chars@[start as int]);
            assert(s.drop_first() =~= chars@.subrange(start + 1, to as int));
        }
        start = start + 1;
    }
    proof {
        let s = chars@.subrange(start as int, to as int);
        if s.len() > 0 {
            assert(s[0] == chars@[start as int]);
        }
    }
    start
}

/// The end of `chars[from..to]` once trailing spaces and tabs are left out.
fn end_trimmed(chars: &Vec<char>, from: usize, to: usize) -> (end: usize)
    requires
        from <= to <= chars.len(),
    ensures
        from <= end <= to,
        chars@.subrange(from as int, end as int) == trim_end(chars@.subrange(from as int, to as int)),
{
    let mut end: usize = to;
    while end > from && (chars[end - 1] == ' ' || chars[end - 1] == '\t')
        invariant
            from <= end <= to <= chars.len(),
            trim_end(chars@.subrange(from as int, end as int)) == trim_end(
                chars@.subrange(from as int, to as int),
            ),
        decreases end - from,
    {
        proof {
            let s = chars@.subrange(from as int, end as int);
            assert(s.last() == chars@[end - 1]);
            assert(s.drop_last() =~= chars@.subrange(from as int, end - 1));
        }
        end = end - 1;
    }
    proof {
        let s = chars@.subrange(from as int, end as int);
        if s.len() > 0 {
            assert(s.last() == chars@[end - 1]);
        }
    }
    end
}

/// The header field that `chars[from..to]` spells.
fn read_header(chars: &Vec<char>, from: usize, to: usize) -> (header: Result<(String, String), ParseError>)
    requires
        from <= to <= chars.len(),
    ensures
        match header {
            Ok(h) => header_of(chars@.subrange(from as int, to as int)) == Ok::<
                (Seq<char>, Seq<char>),
                ParseError,
            >((h.0@, h.1@)),
            Err(e) => header_of(chars@.subrange(from as int, to as int)) == Err::<
                (Seq<char>, Seq<char>),
                ParseError,
            >(e),
        },
{
    let ghost line = chars@.subrange(from as int, to as int);
    match find_between(chars, from, to, ':') {
        None => Err(ParseError::BadHeader),
        Some(colon) => {
            if colon == from {
                return Err(ParseError::BadHeader);
            }
            let name = text_between(chars, from, colon);
            let start = start_trimmed(chars, colon + 1, to);
            let end = end_trimmed(chars, start, to);
            let value = text_between(chars, start, end);
            proof {
                assert(line.take(colon - from) =~= name@);
                assert(line.skip(colon - from + 1) =~= chars@.subrange(colon + 1, to as int));
            }
            Ok((name, value))
        },
    }
}

/// Reads the head of a request from the bytes received so far.
pub fn parse_request(bytes: &[u8], remote_addr: Option<String>) -> (request: Result<
    IncomingRequest,
    ParseError,
>)
    ensures
        match request {
            Ok(r) => head_of(as_chars(bytes@)) is Ok && r@ == request_of(
                head_of(as_chars(bytes@))->Ok_0,
                option_view(remote_addr),
            ),
            Err(e) => head_of(as_chars(bytes@)) == Err::<HeadView, ParseError>(e),
        },
{
    let chars = chars_of_bytes(bytes);
    let n = chars.len();
    let ghost text = chars@;
    proof {
        assert(chars@.subrange(0, n as int) =~= text);
    }
    let line_feed = match find_between(&chars, 0, n, '\n') {
        None => {
            return Err(ParseError::Incomplete);
        },
        Some(k) => k,
    };
    let line_end = end_without_cr(&chars, 0, line_feed);
    let ghost line = chars@.subrange(0, line_end as int);
    proof {
        assert(text.take(line_feed as int) =~= chars@.subrange(0, line_feed as int));
    }
    let first = match find_between(&chars, 0, line_end, ' ') {
        None => {
            return Err(ParseError::BadRequestLine);
        },
        Some(k) => k,
    };
    if first == 0 {
        return Err(ParseError::BadRequestLine);
    }
    let ghost rest = line.skip(first + 1);
    proof {
        assert(rest =~= chars@.subrange(first + 1, line_end as int));
    }
    let second = match find_between(&chars, first + 1, line_end, ' ') {
        None => {
            return Err(ParseError::BadRequestLine);
        },
        Some(k) => k,
    };
    if second == first + 1 {
        return Err(ParseError::BadRequestLine);
    }
    let method = text_between(&chars, 0, first);
    let target = text_between(&chars, first + 1, second);
    let version = text_between(&chars, second + 1, line_end);
    proof {
        assert(line.take(first as int) =~= method@);
        assert(rest.take(second - first - 1) =~= target@);
        assert(rest.skip(second - first - 1 + 1) =~= version@);
    }
    let known = version == String::from_str("HTTP/1.0") || version == String::from_str("HTTP/1.1");
    if !known {
        return Err(ParseError::BadVersion);
    }
    let mut headers: Vec<(String, String)> = Vec::new();
    let mut pos: usize = line_feed + 1;
    let ghost whole = text.skip(line_feed + 1);
    let ghost m = method@;
    let ghost t = target@;
    let ghost v = version@;
    assert(head_of(text) == match headers_of(whole) {
        Err(e) => Err::<HeadView, ParseError>(e),
        Ok(found) => Ok(HeadView { method: m, target: t, version: v, headers: found }),
    });
    proof {
        assert(pair_views(headers@) =~= Seq::empty());
        assert(Seq::<(Seq<char>, Seq<char>)>::empty() + headers_of(whole)->Ok_0 =~= headers_of(
            whole,
        )->Ok_0);
    }
    loop
        invariant_except_break
            line_feed < pos <= n,
            headers_of(whole) == after(pair_views(headers@), headers_of(text.skip(pos as int))),
        invariant
            n == chars.len(),
            text == chars@,
            text == as_chars(bytes@),
            whole == text.skip(line_feed + 1),
            m == method@,
            t == target@,
            head_of(text) == match headers_of(whole) {
                Err(e) => Err::<HeadView, ParseError>(e),
                Ok(found) => Ok(HeadView { method: m, target: t, version: v, headers: found }),
            },
        ensures
            headers_of(whole) == Ok::<Seq<(Seq<char>, Seq<char>)>, ParseError>(pair_views(headers@)),
        decreases n - pos,
    {
        let ghost here = text.skip(pos as int);
        proof {
            assert(chars@.subrange(pos as int, n as int) =~= here);
        }
        let feed = match find_between(&chars, pos, n, '\n') {
            None => {
                return Err(ParseError::Incomplete);
            },
            Some(k) => k,
        };
        let end = end_without_cr(&chars, pos, feed);
        proof {
            assert(here.take(feed - pos) =~= chars@.subrange(pos as int, feed as int));
            assert(here.skip(feed - pos + 1) =~= text.skip(feed + 1));
        }
        if end == pos {
            proof {
                assert(pair_views(headers@) + Seq::<(Seq<char>, Seq<char>)>::empty() =~= pair_views(
                    headers@,
                ));
            }
            break ;
        }
        match read_header(&chars, pos, end) {
            Err(e) => {
                return Err(e);
            },
            Ok(header) => {
                let ghost before = pair_views(headers@);
                let ghost h = (header.0@, header.1@);
                headers.push(header);
                proof {
                    assert(pair_views(headers@) =~= before.push(h));
                    let next = headers_of(text.skip(feed + 1));
                    if next is Ok {
                        assert(before + (seq![h] + next->Ok_0) =~= before.push(h) + next->Ok_0);
                    }
                }
            },
        }
        pos = feed + 1;
    }
    Ok(IncomingRequest::new(method, target, headers, remote_addr))
}

/// The words that go with a status code.
pub open spec fn reason_phrase(status: u16) -> Seq<char> {
    if status == 200 {
        "OK"@
    } else if status == 204 {
        "No Content"@
    } else if status == 400 {
        "Bad Request"@
    } else if status == 500 {
        "Internal Server Error"@
    } else {
        "Unknown"@
    }
}

/// The status line of a response, with its line end.
pub open spec fn status_line(status: u16) -> Seq<char> {
    "HTTP/1.1 "@ + decimal_digits(status as nat) + " "@ + reason_phrase(status) + "\r\n"@
}

/// The lines of the header fields, each with its line end.
pub open spec fn header_lines(headers: Seq<(Seq<char>, Seq<char>)>) -> Seq<char>
    decreases headers.len(),
{
    if headers.len() == 0 {
        Seq::empty()
    } else {
        header_lines(headers.drop_last()) + headers.last().0 + ": "@ + headers.last().1 + "\r\n"@
    }
}

/// The head of a response: status line, header fields, the length of the
/// body, and the empty line.
pub open spec fn response_head(response: ResponseView) -> Seq<char> {
    status_line(response.status) + header_lines(response.headers) + "Content-Length: "@
        + decimal_digits(response.body.len()) + "\r\n\r\n"@
}

/// The bytes of a response as they go out.
pub open spec fn wire_bytes(response: ResponseView) -> Seq<u8> {
    encode_utf8(response_head(response)) + response.body
}

/// The words that go with `status`.
fn reason(status: u16) -> (phrase: &'static str)
    ensures
        phrase@ == reason_phrase(status),
{
    if status == 200 {
        "OK"
    } else if status == 204 {
        "No Content"
    } else if status == 400 {
        "Bad Request"
    } else if status == 500 {
        "Internal Server Error"
    } else {
        "Unknown"
    }
}

/// The bytes of `response` as they go out: the head, then the body.
pub fn response_bytes(response: &Response) -> (bytes: Vec<u8>)
    ensures
        bytes@ == wire_bytes(response@),
{
    let mut head = String::from_str("HTTP/1.1 ");
    push_decimal(response.status as u64, &mut head);
    head.append(" ");
    head.append(reason(response.status));
    head.append("\r\n");
    let ghost views = header_views(response.headers@);
    let ghost start = head@;
    let mut i: usize = 0;
    while i < response.headers.len()
        invariant
            i <= response.headers.len(),
            views == header_views(response.headers@),
            head@ == start + header_lines(views.take(i as int)),
        decreases response.headers.len() - i,
    {
        let ghost before = head@;
        head.append(response.headers[i].field.as_str());
        head.append(": ");
        head.append(response.headers[i].value.as_str());
        head.append("\r\n");
        proof {
            assert(views.take(i + 1).drop_last() =~= views.take(i as int));
            assert(views.take(i + 1).last() == views[i as int]);
            assert(head@ =~= start + header_lines(views.take(i + 1)));
        }
        i = i + 1;
    }
    proof {
        assert(views.take(i as int) =~= views);
    }
    head.append("Content-Length: ");
    push_decimal(response.body.len() as u64, &mut head);
    head.append("\r\n\r\n");
    proof {
        assert(head@ =~= response_head(response@));
    }
    let mut bytes = head.as_str().as_bytes_vec();
    let ghost front = bytes@;
    let mut k: usize = 0;
    while k < response.body.len()
        invariant
            k <= response.body.len(),
            bytes@ == front + response.body@.take(k as int),
        decreases response.body.len() - k,
    {
        bytes.push(response.body[k]);
        proof {
            assert(response.body@.take(k + 1) =~= response.body@.take(k as int).push(
                response.body@[k as int],
            ));
        }
        k = k + 1;
    }
    proof {
        assert(response.body@.take(k as int) =~= response.body@);
    }
    bytes
}

/// What is said of a request that could not be read.
pub open spec fn parse_error_text(error: ParseError) -> Seq<char> {
    match error {
        ParseError::Incomplete => "Bad Request: incomplete head"@,
        ParseError::BadRequestLine => "Bad Request: malformed request line"@,
        ParseError::BadVersion => "Bad Request: unsupported version"@,
        ParseError::BadHeader => "Bad Request: malformed header"@,
    }
}

/// The response to a request that could not be read: status 400 and a line
/// that says why.
pub fn bad_request(error: ParseError) -> (response: Response)
    ensures
        response@ == (ResponseView {
            status: 400,
            headers: seq![("Content-Type"@, "text/plain; charset=utf-8"@)],
            body: encode_utf8(parse_error_text(error)),
        }),
{
    let text = match error {
        ParseError::Incomplete => "Bad Request: incomplete head",
        ParseError::BadRequestLine => "Bad Request: malformed request line",
        ParseError::BadVersion => "Bad Request: unsupported version",
        ParseError::BadHeader => "Bad Request: malformed header",
    };
    let mut headers: Vec<crate::response::Header> = Vec::new();
    headers.push(
        crate::response::Header {
            field: "Content-Type".to_string(),
            value: "text/plain; charset=utf-8".to_string(),
        },
    );
    let response = Response { status: 400, headers, body: text.as_bytes_vec() };
    proof {
        assert(response@.headers =~= seq![("Content-Type"@, "text/plain; charset=utf-8"@)]);
    }
    response
}

} // verus!
