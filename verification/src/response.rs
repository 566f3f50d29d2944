//! From what a handler returns to the response that goes back.
//!
//! The rules, in order: nothing gives status 204 and an empty body; a scalar
//! gives 200 and its bytes, as `text/plain; charset=utf-8`; a record or a list
//! gives 200 and its JSON text, as `application/json`; a stream of bytes gives
//! 200 and its chunks joined, as `application/octet-stream`; a stream of items
//! gives 200 and the JSON text of each item, one per line, as
//! `application/json`; a failure gives 500 and `Error: ` with the message, as
//! `text/plain; charset=utf-8`. A content type that the handler names wins
//! over the default wherever there is a default to win over.

use crate::datum::{body_of, item_views, json_bytes, json_bytes_of, json_of, value_to_bytes, value_to_json, Datum, DatumView};
use crate::request::{option_view, request_record, request_to_value, IncomingRequest};
use vstd::prelude::*;
use vstd::string::{StrSliceExecFns, StringExecFns};
use vstd::utf8::{encode_utf8, is_ascii_chars};

verus! {

/// One header field of a response.
#[derive(Debug, PartialEq, Eq)]
pub struct Header {
    pub field: String,
    pub value: String,
}

/// A response: status code, header fields and body.
#[derive(Debug, PartialEq, Eq)]
pub struct Response {
    pub status: u16,
    pub headers: Vec<Header>,
    pub body: Vec<u8>,
}

/// The mathematical value of a [`Response`].
pub struct ResponseView {
    pub status: u16,
    pub headers: Seq<(Seq<char>, Seq<char>)>,
    pub body: Seq<u8>,
}

/// The views of header fields, in order.
pub open spec fn header_views(headers: Seq<Header>) -> Seq<(Seq<char>, Seq<char>)> {
    Seq::new(headers.len(), |i: int| (headers[i].field@, headers[i].value@))
}

impl View for Response {
    type V = ResponseView;

    open spec fn view(&self) -> ResponseView {
        ResponseView {
            status: self.status,
            headers: header_views(self.headers@),
            body: self.body@,
        }
    }
}

/// What reading a stream of bytes to its end gave.
#[derive(Debug, PartialEq, Eq)]
pub enum ByteSource {
    /// The chunks that the stream produced, in order.
    Chunks(Vec<Vec<u8>>),
    /// Reading failed, with this message.
    Failed(String),
    /// The stream had nothing to read from.
    Unavailable,
}

/// The mathematical value of a [`ByteSource`].
pub enum ByteSourceView {
    Chunks(Seq<Seq<u8>>),
    Failed(Seq<char>),
    Unavailable,
}

/// The views of chunks, in order.
pub open spec fn chunk_views(chunks: Seq<Vec<u8>>) -> Seq<Seq<u8>> {
    Seq::new(chunks.len(), |i: int| chunks[i]@)
}

impl View for ByteSource {
    type V = ByteSourceView;

    open spec fn view(&self) -> ByteSourceView {
        match self {
            ByteSource::Chunks(chunks) => ByteSourceView::Chunks(chunk_views(chunks@)),
            ByteSource::Failed(message) => ByteSourceView::Failed(message@),
            ByteSource::Unavailable => ByteSourceView::Unavailable,
        }
    }
}

/// What a handler returned for one request.
#[derive(Debug, PartialEq)]
pub enum OutboundResult {
    /// Nothing at all.
    Empty,
    /// One value, and the content type if the handler named one.
    Value { value: Datum, content_type: Option<String> },
    /// A stream of items, and the content type if the handler named one.
    ListStream { items: Vec<Datum>, content_type: Option<String> },
    /// A stream of bytes, and the content type if the handler named one.
    ByteStream { source: ByteSource, content_type: Option<String> },
    /// The handler failed, with this message.
    Failure { message: String },
}

/// The mathematical value of an [`OutboundResult`].
pub enum OutboundResultView {
    Empty,
    Value { value: DatumView, content_type: Option<Seq<char>> },
    ListStream { items: Seq<DatumView>, content_type: Option<Seq<char>> },
    ByteStream { source: ByteSourceView, content_type: Option<Seq<char>> },
    Failure { message: Seq<char> },
}

impl View for OutboundResult {
    type V = OutboundResultView;

    open spec fn view(&self) -> OutboundResultView {
        match self {
            OutboundResult::Empty => OutboundResultView::Empty,
            OutboundResult::Value { value, content_type } => OutboundResultView::Value {
                value: value@,
                content_type: option_view(*content_type),
            },
            OutboundResult::ListStream { items, content_type } => OutboundResultView::ListStream {
                items: item_views(items@),
                content_type: option_view(*content_type),
            },
            OutboundResult::ByteStream { source, content_type } => OutboundResultView::ByteStream {
                source: source@,
                content_type: option_view(*content_type),
            },
            OutboundResult::Failure { message } => OutboundResultView::Failure { message: message@ },
        }
    }
}

/// The content type of a response: the one that was named, else the default
/// of the case, else `text/plain; charset=utf-8`.
pub open spec fn inferred_content_type(
    explicit: Option<Seq<char>>,
    default: Option<Seq<char>>,
) -> Seq<char> {
    match explicit {
        Some(named) => named,
        None => match default {
            Some(fallback) => fallback,
            None => "text/plain; charset=utf-8"@,
        },
    }
}

/// The content type that was named, if one was, is ASCII.
pub open spec fn named_is_ascii(content_type: Option<Seq<char>>) -> bool {
    match content_type {
        Some(named) => is_ascii_chars(named),
        None => true,
    }
}

/// Where the response to `result` carries a content type that the handler
/// named, that content type can stand in a header: it is ASCII. A result that
/// is answered without one (nothing, a stream that could not be read, a
/// failure) fits whatever was named beside it.
pub open spec fn content_type_fits(result: OutboundResultView) -> bool {
    match result {
        OutboundResultView::Value { value, content_type } => value is Nothing || named_is_ascii(
            content_type,
        ),
        OutboundResultView::ListStream { items, content_type } => named_is_ascii(content_type),
        OutboundResultView::ByteStream { source, content_type } => !(source is Chunks)
            || named_is_ascii(content_type),
        _ => true,
    }
}

/// The chunks joined, in order.
pub open spec fn joined(chunks: Seq<Seq<u8>>) -> Seq<u8>
    decreases chunks.len(),
{
    if chunks.len() == 0 {
        Seq::empty()
    } else {
        joined(chunks.drop_last()) + chunks.last()
    }
}

/// The lines joined, with one line feed between each two.
pub open spec fn joined_lines(lines: Seq<Seq<u8>>) -> Seq<u8>
    decreases lines.len(),
{
    if lines.len() == 0 {
        Seq::empty()
    } else if lines.len() == 1 {
        lines[0]
    } else {
        joined_lines(lines.drop_last()) + seq![10u8] + lines.last()
    }
}

/// The JSON text of each item, as bytes, in order.
pub open spec fn item_lines(items: Seq<DatumView>) -> Seq<Seq<u8>> {
    Seq::new(items.len(), |i: int| json_bytes_of(json_of(items[i])))
}

/// A response with the given status, content type and body.
pub open spec fn typed_response(status: u16, content_type: Seq<char>, body: Seq<u8>) -> ResponseView {
    ResponseView { status, headers: seq![("Content-Type"@, content_type)], body }
}

/// The response that reports a failure.
pub open spec fn failure_response(message: Seq<char>) -> ResponseView {
    typed_response(500, "text/plain; charset=utf-8"@, encode_utf8("Error: "@ + message))
}

/// The response with no content.
pub open spec fn empty_response() -> ResponseView {
    ResponseView { status: 204, headers: Seq::empty(), body: Seq::empty() }
}

/// The response to a value.
pub open spec fn value_response(value: DatumView, content_type: Option<Seq<char>>) -> ResponseView {
    match value {
        DatumView::Nothing => empty_response(),
        DatumView::Record(_) => typed_response(
            200,
            inferred_content_type(content_type, Some("application/json"@)),
            body_of(value),
        ),
        DatumView::List(_) => typed_response(
            200,
            inferred_content_type(content_type, Some("application/json"@)),
            body_of(value),
        ),
        _ => typed_response(
            200,
            inferred_content_type(content_type, Some("text/plain; charset=utf-8"@)),
            body_of(value),
        ),
    }
}

/// The response to what a handler returned.
pub open spec fn response_for(result: OutboundResultView) -> ResponseView {
    match result {
        OutboundResultView::Empty => empty_response(),
        OutboundResultView::Value { value, content_type } => value_response(value, content_type),
        OutboundResultView::ListStream { items, content_type } => typed_response(
            200,
            inferred_content_type(content_type, Some("application/json"@)),
            joined_lines(item_lines(items)),
        ),
        OutboundResultView::ByteStream { source, content_type } => match source {
            ByteSourceView::Chunks(chunks) => typed_response(
                200,
                inferred_content_type(content_type, Some("application/octet-stream"@)),
                joined(chunks),
            ),
            ByteSourceView::Failed(message) => failure_response(message),
            ByteSourceView::Unavailable => failure_response("ByteStream has no reader"@),
        },
        OutboundResultView::Failure { message } => failure_response(message),
    }
}

/// What a handler's outcome comes to: its result, or the failure it raised.
pub open spec fn outcome_view(outcome: Result<OutboundResult, String>) -> OutboundResultView {
    match outcome {
        Ok(result) => result@,
        Err(message) => OutboundResultView::Failure { message: message@ },
    }
}

/// Picks the content type: the named one, else the default, else
/// `text/plain; charset=utf-8`.
pub fn infer_content_type(explicit: &Option<String>, default: Option<&str>) -> (content_type: String)
    ensures
        content_type@ == inferred_content_type(
            option_view(*explicit),
            match default {
                Some(d) => Some(d@),
                None => None,
            },
        ),
{
    match explicit {
        Some(named) => named.clone(),
        None => match default {
            Some(fallback) => fallback.to_string(),
            None => "text/plain; charset=utf-8".to_string(),
        },
    }
}

/// The `Content-Type` header field for `content_type`, which must be ASCII.
pub fn content_type_header(content_type: &str) -> (h: Header)
    requires
        is_ascii_chars(content_type@),
    ensures
        h.field@ == "Content-Type"@,
        h.value@ == content_type@,
{
    Header { field: "Content-Type".to_string(), value: content_type.to_string() }
}

/// The content types that the rules name are ASCII.
pub proof fn lemma_default_types_are_ascii()
    ensures
        is_ascii_chars("text/plain; charset=utf-8"@),
        is_ascii_chars("application/json"@),
        is_ascii_chars("application/octet-stream"@),
{
    reveal_strlit("text/plain; charset=utf-8");
    reveal_strlit("application/json");
    reveal_strlit("application/octet-stream");
}

/// The response with the given status, content type and body.
fn typed(status: u16, content_type: &str, body: Vec<u8>) -> (response: Response)
    requires
        is_ascii_chars(content_type@),
    ensures
        response@ == typed_response(status, content_type@, body@),
{
    let mut headers: Vec<Header> = Vec::new();
    headers.push(content_type_header(content_type));
    let response = Response { status, headers, body };
    proof {
        assert(response@.headers =~= seq![("Content-Type"@, content_type@)]);
    }
    response
}

/// The response with no content.
fn no_content() -> (response: Response)
    ensures
        response@ == empty_response(),
{
    let response = Response { status: 204, headers: Vec::new(), body: Vec::new() };
    proof {
        assert(response@.headers =~= Seq::empty());
    }
    response
}

/// The response that reports a failure with `message`.
pub fn failure(message: &str) -> (response: Response)
    ensures
        response@ == failure_response(message@),
{
    let text = String::from_str("Error: ").concat(message);
    proof {
        lemma_default_types_are_ascii();
    }
    typed(500, "text/plain; charset=utf-8", text.as_str().as_bytes_vec())
}

/// The chunks joined, in order.
pub fn join_chunks(chunks: &Vec<Vec<u8>>) -> (body: Vec<u8>)
    ensures
        body@ == joined(chunk_views(chunks@)),
{
    let ghost views = chunk_views(chunks@);
    let mut body: Vec<u8> = Vec::new();
    let mut i: usize = 0;
    while i < chunks.len()
        invariant
            i <= chunks.len(),
            views == chunk_views(chunks@),
            body@ == joined(views.take(i as int)),
        decreases chunks.len() - i,
    {
        let chunk = &chunks[i];
        let ghost before = body@;
        let mut k: usize = 0;
        while k < chunk.len()
            invariant
                k <= chunk.len(),
                body@ == before + chunk@.take(k as int),
            decreases chunk.len() - k,
        {
            body.push(chunk[k]);
            proof {
                assert(chunk@.take(k + 1) =~= chunk@.take(k as int).push(chunk@[k as int]));
            }
            k = k + 1;
        }
        proof {
            assert(chunk@.take(k as int) =~= chunk@);
            assert(views.take(i + 1).drop_last() =~= views.take(i as int));
            assert(views.take(i + 1).last() == chunk@);
        }
        i = i + 1;
    }
    proof {
        assert(views.take(i as int) =~= views);
    }
    body
}

/// The JSON text of each item, one per line.
pub fn join_items(items: &Vec<Datum>) -> (body: Vec<u8>)
    ensures
        body@ == joined_lines(item_lines(item_views(items@))),
{
    let ghost lines = item_lines(item_views(items@));
    let mut body: Vec<u8> = Vec::new();
    let mut i: usize = 0;
    while i < items.len()
        invariant
            i <= items.len(),
            lines == item_lines(item_views(items@)),
            lines.len() == items.len(),
            body@ == joined_lines(lines.take(i as int)),
        decreases items.len() - i,
    {
        let json = value_to_json(&items[i]);
        let line = json_bytes(&json);
        let ghost before = body@;
        proof {
            assert(line@ == lines[i as int]);
            assert(lines.take(i + 1).drop_last() =~= lines.take(i as int));
            assert(lines.take(i + 1).last() == line@);
            if i == 0 {
                assert(lines.take(1)[0] == line@);
                assert(before =~= Seq::<u8>::empty());
            }
        }
        if i > 0 {
            body.push(10u8);
        }
        let ghost start = body@;
        let mut k: usize = 0;
        while k < line.len()
            invariant
                k <= line.len(),
                body@ == start + line@.take(k as int),
            decreases line.len() - k,
        {
            body.push(line[k]);
            proof {
                assert(line@.take(k + 1) =~= line@.take(k as int).push(line@[k as int]));
            }
            k = k + 1;
        }
        proof {
            assert(line@.take(k as int) =~= line@);
            if i == 0 {
                assert(body@ =~= line@);
            } else {
                assert(body@ =~= before + seq![10u8] + line@);
            }
        }
        i = i + 1;
    }
    proof {
        assert(lines.take(i as int) =~= lines);
    }
    body
}

/// Whether the content type that was named, if one was, is ASCII.
fn is_ascii_or_absent(content_type: &Option<String>) -> (fits: bool)
    ensures
        fits == named_is_ascii(option_view(*content_type)),
{
    match content_type {
        Some(named) => named.as_str().is_ascii(),
        None => true,
    }
}

/// Whether `result` can be answered: where its response carries the content
/// type that the handler named, that content type is ASCII.
pub fn fits_header(result: &OutboundResult) -> (fits: bool)
    ensures
        fits == content_type_fits(result@),
{
    match result {
        OutboundResult::Value { value, content_type } => match value {
            Datum::Nothing => true,
            _ => is_ascii_or_absent(content_type),
        },
        OutboundResult::ListStream { items, content_type } => is_ascii_or_absent(content_type),
        OutboundResult::ByteStream { source, content_type } => match source {
            ByteSource::Chunks(_) => is_ascii_or_absent(content_type),
            _ => true,
        },
        _ => true,
    }
}

/// The response to what a handler returned.
pub fn pipeline_data_to_response(pipeline_data: OutboundResult) -> (response: Response)
    requires
        content_type_fits(pipeline_data@),
    ensures
        response@ == response_for(pipeline_data@),
{
    proof {
        lemma_default_types_are_ascii();
    }
    match pipeline_data {
        OutboundResult::Empty => no_content(),
        OutboundResult::Value { value, content_type } => {
            match value {
                Datum::Nothing => no_content(),
                Datum::Record(_) => {
                    let body = value_to_bytes(value);
                    let chosen = infer_content_type(&content_type, Some("application/json"));
                    typed(200, chosen.as_str(), body)
                },
                Datum::List(_) => {
                    let body = value_to_bytes(value);
                    let chosen = infer_content_type(&content_type, Some("application/json"));
                    typed(200, chosen.as_str(), body)
                },
                _ => {
                    let body = value_to_bytes(value);
                    let chosen = infer_content_type(
                        &content_type,
                        Some("text/plain; charset=utf-8"),
                    );
                    typed(200, chosen.as_str(), body)
                },
            }
        },
        OutboundResult::ListStream { items, content_type } => {
            let body = join_items(&items);
            let chosen = infer_content_type(&content_type, Some("application/json"));
            typed(200, chosen.as_str(), body)
        },
        OutboundResult::ByteStream { source, content_type } => match source {
            ByteSource::Chunks(chunks) => {
                let body = join_chunks(&chunks);
                let chosen = infer_content_type(&content_type, Some("application/octet-stream"));
                typed(200, chosen.as_str(), body)
            },
            ByteSource::Failed(message) => failure(message.as_str()),
            ByteSource::Unavailable => failure("ByteStream has no reader"),
        },
        OutboundResult::Failure { message } => failure(message.as_str()),
    }
}

/// The response to the outcome of a handler: to its result, or to the failure
/// it raised.
pub fn respond(outcome: Result<OutboundResult, String>) -> (response: Response)
    requires
        content_type_fits(outcome_view(outcome)),
    ensures
        response@ == response_for(outcome_view(outcome)),
{
    match outcome {
        Ok(result) => pipeline_data_to_response(result),
        Err(message) => failure(message.as_str()),
    }
}

/// Serves one request: hands the handler the value that stands for the
/// request and turns what comes back into the response.
pub fn handle_request<H: FnOnce(Datum) -> Result<OutboundResult, String>>(
    request: &IncomingRequest,
    handler: H,
) -> (response: Response)
    requires
        forall|value: Datum| value@ == request_record(request@) ==> call_requires(handler, (value,)),
        forall|value: Datum, outcome: Result<OutboundResult, String>|
            call_ensures(handler, (value,), outcome) ==> content_type_fits(outcome_view(outcome)),
    ensures
        exists|value: Datum, outcome: Result<OutboundResult, String>|
            value@ == request_record(request@) && call_ensures(handler, (value,), outcome)
                && response@ == response_for(outcome_view(outcome)),
{
    let value = request_to_value(request);
    let ghost given = value;
    let outcome = handler(value);
    let ghost got = outcome;
    let response = respond(outcome);
    proof {
        assert(given@ == request_record(request@) && call_ensures(handler, (given,), got)
            && response@ == response_for(outcome_view(got)));
    }
    response
}

} // verus!
