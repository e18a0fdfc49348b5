//! The request that this client sends, with its form on the wire, and the
//! response that the events of a parser build up.

use crate::headers::{
    fields_map, fields_set, has_name, lemma_fields_map_dom, lemma_fields_map_value, names_distinct,
    Field, Headers,
};
use crate::parser::{events_of, parse_events, response_events};
use crate::parser::{Event, EventKind, ParseEvent};
use crate::status::{
    is_registered, lemma_registered_not_empty, status_code_of, to_status_code, INVALID_REASON,
};
use crate::text::{decimal, decimal_string, decode, str_eq};
use crate::util::{Error, ErrorType, ErrorView};
use vstd::prelude::*;
use vstd::string::*;
use vstd::utf8::{decode_utf8, encode_utf8, valid_utf8};

verus! {

/// The method of a request.
#[derive(Clone, Copy, Debug, PartialEq, Eq, Structural)]
pub enum HttpMethod {
    Get,
    Post,
    Put,
    Delete,
}

impl HttpMethod {
    /// The method as it stands in a request line.
    pub open spec fn spec_name(self) -> Seq<char> {
        match self {
            HttpMethod::Get => "GET"@,
            HttpMethod::Post => "POST"@,
            HttpMethod::Put => "PUT"@,
            HttpMethod::Delete => "DELETE"@,
        }
    }

    /// The method as it stands in a request line.
    pub fn name(&self) -> (name: &'static str)
        ensures
            name@ == self.spec_name(),
    {
        match self {
            HttpMethod::Get => "GET",
            HttpMethod::Post => "POST",
            HttpMethod::Put => "PUT",
            HttpMethod::Delete => "DELETE",
        }
    }

    /// The method as it stands in a request line, as an owned string.
    pub fn to_string(&self) -> (name: String)
        ensures
            name@ == self.spec_name(),
    {
        self.name().to_owned()
    }
}

/// The name of the header that declares the length of the body.
pub const CONTENT_LENGTH: &'static str = "Content-Length";

/// A request: a method, a header block and a body.
///
/// A request always carries a `Content-Length` header, and carries it first.
/// `new` sets it to the length of the body in bytes; `add_header` can replace
/// its value, and nothing removes it.
#[derive(Debug)]
pub struct HttpRequest {
    method: HttpMethod,
    content_length: String,
    others: Headers,
    body: String,
}

/// What an [`HttpRequest`] stands for.
pub struct HttpRequestView {
    pub method: HttpMethod,
    /// The header fields, in the order in which their names were first set.
    pub headers: Seq<Field>,
    pub body: Seq<char>,
}

impl View for HttpRequest {
    type V = HttpRequestView;

    closed spec fn view(&self) -> HttpRequestView {
        HttpRequestView {
            method: self.method,
            headers: seq![(CONTENT_LENGTH@, self.content_length@)] + self.others.fields(),
            body: self.body@,
        }
    }
}

/// One header line on the wire.
pub open spec fn header_line(field: Field) -> Seq<char> {
    field.0 + ": "@ + field.1 + "\r\n"@
}

/// The header lines of the fields, one after the other.
pub open spec fn header_block(fields: Seq<Field>) -> Seq<char>
    decreases fields.len(),
{
    if fields.len() == 0 {
        Seq::empty()
    } else {
        header_block(fields.drop_last()) + header_line(fields.last())
    }
}

/// A request on the wire: the request line for the target `/`, the header
/// lines, an empty line and the body.
pub open spec fn wire_form(request: HttpRequestView) -> Seq<char> {
    request_line(request.method) + header_block(request.headers) + "\r\n"@ + request.body
}

/// The request line for the target `/`.
pub open spec fn request_line(method: HttpMethod) -> Seq<char> {
    method.spec_name() + " / HTTP/1.1\r\n"@
}

/// Whether `part` stands in `text` at place `at`.
pub open spec fn stands_at(text: Seq<char>, part: Seq<char>, at: int) -> bool {
    0 <= at && at + part.len() <= text.len() && text.subrange(at, at + part.len()) == part
}

/// The line of each field stands in the header block, behind the lines of
/// the fields before it.
pub proof fn lemma_header_block_has_line(fields: Seq<Field>, i: int)
    requires
        0 <= i < fields.len(),
    ensures
        stands_at(
            header_block(fields),
            header_line(fields[i]),
            header_block(fields.take(i)).len() as int,
        ),
    decreases fields.len(),
{
    let front = fields.drop_last();
    let block = header_block(fields);
    let line = header_line(fields[i]);
    if i == fields.len() - 1 {
        assert(fields.take(i) =~= front);
        assert(block.subrange(header_block(front).len() as int, block.len() as int) =~= line);
    } else {
        lemma_header_block_has_line(front, i);
        assert(front.take(i) =~= fields.take(i));
        let at = header_block(fields.take(i)).len() as int;
        assert(block.subrange(at, at + line.len()) =~= header_block(front).subrange(
            at,
            at + line.len(),
        ));
    }
}

/// A request on the wire starts with its request line, holds the line of
/// each of its header fields, and ends with an empty line and the body.
pub proof fn lemma_wire_form_parts(request: HttpRequestView, i: int)
    requires
        0 <= i < request.headers.len(),
    ensures
        stands_at(wire_form(request), request_line(request.method), 0),
        exists|at: int| stands_at(wire_form(request), header_line(request.headers[i]), at),
        stands_at(
            wire_form(request),
            "\r\n"@ + request.body,
            wire_form(request).len() - ("\r\n"@ + request.body).len(),
        ),
{
    let wire = wire_form(request);
    let start = request_line(request.method);
    let block = header_block(request.headers);
    let line = header_line(request.headers[i]);
    let end = "\r\n"@ + request.body;
    assert(wire =~= start + block + end);
    assert(wire.subrange(0, start.len() as int) =~= start);
    assert(wire.subrange(wire.len() - end.len(), wire.len() as int) =~= end);
    lemma_header_block_has_line(request.headers, i);
    let at = header_block(request.headers.take(i)).len() as int;
    assert(wire.subrange(start.len() + at, start.len() + at + line.len()) =~= block.subrange(
        at,
        at + line.len(),
    ));
    assert(stands_at(wire, line, start.len() + at));
}

/// Where no name occurs twice in `rest` and the name of `first` is not among
/// them, no name occurs twice in `first` followed by `rest`.
proof fn lemma_distinct_behind_first(first: Field, rest: Seq<Field>)
    requires
        names_distinct(rest),
        !has_name(rest, first.0),
    ensures
        names_distinct(seq![first] + rest),
{
    let all = seq![first] + rest;
    assert forall|i: int, j: int| 0 <= i < j < all.len() implies all[i].0 != all[j].0 by {
        assert(rest[j - 1].0 == all[j].0);
        if i > 0 {
            assert(rest[i - 1].0 == all[i].0);
        }
    }
}

/// Setting a name in `first` followed by `rest` either replaces the value of
/// `first` or sets the name in `rest`.
proof fn lemma_set_behind_first(first: Field, rest: Seq<Field>, name: Seq<char>, value: Seq<char>)
    requires
        names_distinct(rest),
        !has_name(rest, first.0),
    ensures
        fields_set(seq![first] + rest, name, value) == if name == first.0 {
            seq![(name, value)] + rest
        } else {
            seq![first] + fields_set(rest, name, value)
        },
{
    let all = seq![first] + rest;
    lemma_distinct_behind_first(first, rest);
    if name == first.0 {
        assert(all[0].0 == name);
        let c = choose|c: int| 0 <= c < all.len() && all[c].0 == name;
        assert(c == 0);
        assert(all.update(0, (name, value)) =~= seq![(name, value)] + rest);
    } else if has_name(rest, name) {
        let r = choose|r: int| 0 <= r < rest.len() && rest[r].0 == name;
        assert(all[r + 1].0 == name);
        let c = choose|c: int| 0 <= c < all.len() && all[c].0 == name;
        assert(c == r + 1);
        assert(all.update(c, (name, value)) =~= seq![first] + rest.update(r, (name, value)));
    } else {
        if has_name(all, name) {
            let c = choose|c: int| 0 <= c < all.len() && all[c].0 == name;
            assert(rest[c - 1].0 == name);
        }
        assert(all.push((name, value)) =~= seq![first] + rest.push((name, value)));
    }
}

impl HttpRequest {
    #[verifier::type_invariant]
    spec fn content_length_stands_once(self) -> bool {
        &&& names_distinct(self.others.fields())
        &&& !has_name(self.others.fields(), CONTENT_LENGTH@)
    }

    /// A request with the given method and body, and with one header:
    /// `Content-Length`, the length of the body in bytes, in decimal.
    pub fn new(method: HttpMethod, body: String) -> (request: HttpRequest)
        ensures
            request@ == (HttpRequestView {
                method,
                headers: seq![(CONTENT_LENGTH@, decimal(encode_utf8(body@).len()))],
                body: body@,
            }),
    {
        let length = body.as_str().as_bytes().len();
        let request = HttpRequest {
            method,
            content_length: decimal_string(length as u64),
            others: Headers::new(),
            body,
        };
        assert(request@.headers =~= seq![(CONTENT_LENGTH@, decimal(encode_utf8(body@).len()))]);
        request
    }

    /// Sets the header `name` to `value`. Both are taken as they are. A
    /// name that was set before keeps its place and takes the new value; a
    /// new name goes to the end.
    pub fn add_header(&mut self, name: &str, value: &str)
        ensures
            final(self)@ == (HttpRequestView {
                headers: fields_set(old(self)@.headers, name@, value@),
                ..old(self)@
            }),
    {
        proof {
            use_type_invariant(&*self);
            lemma_set_behind_first(
                (CONTENT_LENGTH@, self.content_length@),
                self.others.fields(),
                name@,
                value@,
            );
        }
        if str_eq(name, CONTENT_LENGTH) {
            self.content_length = value.to_owned();
        } else {
            let mut others = Headers::new();
            std::mem::swap(&mut others, &mut self.others);
            proof {
                lemma_fields_map_dom(others.fields(), CONTENT_LENGTH@);
            }
            others.insert(name.to_owned(), value.to_owned());
            proof {
                lemma_fields_map_dom(others.fields(), CONTENT_LENGTH@);
            }
            self.others = others;
        }
    }

    /// The method of the request.
    pub fn method(&self) -> (method: HttpMethod)
        ensures
            method == self@.method,
    {
        self.method
    }

    /// The body of the request.
    pub fn body(&self) -> (body: &str)
        ensures
            body@ == self@.body,
    {
        self.body.as_str()
    }

    /// The value of the header `name`, if the request carries it. The header
    /// `Content-Length` is always there, and no name stands twice.
    pub fn header(&self, name: &str) -> (value: Option<&String>)
        ensures
            names_distinct(self@.headers),
            has_name(self@.headers, CONTENT_LENGTH@),
            match value {
                Some(text) => has_name(self@.headers, name@) && text@ == fields_map(
                    self@.headers,
                )[name@],
                None => !has_name(self@.headers, name@),
            },
    {
        let ghost first = (CONTENT_LENGTH@, self.content_length@);
        let ghost all = self@.headers;
        proof {
            use_type_invariant(self);
            lemma_distinct_behind_first(first, self.others.fields());
            assert(all[0] == first);
            lemma_fields_map_dom(self.others.fields(), name@);
        }
        if str_eq(name, CONTENT_LENGTH) {
            proof {
                lemma_fields_map_value(all, 0);
            }
            Some(&self.content_length)
        } else {
            let found = self.others.get(name);
            proof {
                if has_name(self.others.fields(), name@) {
                    let r = choose|r: int|
                        0 <= r < self.others.fields().len() && self.others.fields()[r].0 == name@;
                    assert(all[r + 1] == self.others.fields()[r]);
                    lemma_fields_map_value(all, r + 1);
                    lemma_fields_map_value(self.others.fields(), r);
                }
                if has_name(all, name@) {
                    let c = choose|c: int| 0 <= c < all.len() && all[c].0 == name@;
                    assert(self.others.fields()[c - 1].0 == name@);
                }
            }
            found
        }
    }

    /// The request on the wire.
    pub fn to_string(&self) -> (text: String)
        ensures
            text@ == wire_form(self@),
    {
        let ghost fields = self@.headers;
        let ghost line = request_line(self.method);
        let mut text = String::new();
        text.append(self.method.name());
        text.append(" / HTTP/1.1\r\n");
        text.append(CONTENT_LENGTH);
        text.append(": ");
        text.append(self.content_length.as_str());
        text.append("\r\n");
        assert(text@ =~= line + header_block(fields.take(1))) by {
            assert(fields.take(1).drop_last() =~= Seq::<Field>::empty());
            assert(header_block(Seq::<Field>::empty()) =~= Seq::<char>::empty());
            assert(fields.take(1).last() == fields[0]);
            assert(header_block(fields.take(1)) =~= header_line(fields[0]));
        }
        let count = self.others.len();
        let mut i: usize = 0;
        while i < count
            invariant
                i <= count,
                count == self.others.fields().len(),
                fields == seq![(CONTENT_LENGTH@, self.content_length@)] + self.others.fields(),
                text@ == line + header_block(fields.take(i + 1)),
            decreases count - i,
        {
            let (name, value) = self.others.field(i);
            text.append(name);
            text.append(": ");
            text.append(value);
            text.append("\r\n");
            assert(text@ =~= line + header_block(fields.take(i + 2))) by {
                assert(fields.take(i + 2).drop_last() =~= fields.take(i + 1));
                assert(fields.take(i + 2).last() == self.others.fields()[i as int]);
            }
            i += 1;
        }
        assert(fields.take(count + 1) =~= fields);
        text.append("\r\n");
        text.append(self.body.as_str());
        text
    }
}

/// The step at which the exchange with the server failed.
#[derive(Clone, Copy, Debug, PartialEq, Eq, Structural)]
pub enum TransportFailure {
    /// No connection was made.
    Connect,
    /// The request was not written in full.
    Send,
    /// The response was not read to the end of the stream.
    Receive,
}

impl TransportFailure {
    /// The message that reports the failure.
    pub open spec fn spec_message(self) -> Seq<char> {
        match self {
            TransportFailure::Connect => "Failed to connect to server"@,
            TransportFailure::Send => "Failed to send request to server"@,
            TransportFailure::Receive => "Failed to read response from server"@,
        }
    }

    /// The message that reports the failure.
    pub fn message(&self) -> (message: &'static str)
        ensures
            message@ == self.spec_message(),
    {
        match self {
            TransportFailure::Connect => "Failed to connect to server",
            TransportFailure::Send => "Failed to send request to server",
            TransportFailure::Receive => "Failed to read response from server",
        }
    }

    /// The failure as a `NetworkError`.
    pub fn error(&self) -> (error: Error)
        ensures
            error@ == (ErrorView { kind: ErrorType::NetworkError, message: self.spec_message() }),
    {
        Error::new(ErrorType::NetworkError, self.message())
    }
}

/// The message for bytes that are no UTF-8.
pub const INVALID_ENCODING: &'static str = "Received text that is not UTF-8";

/// The message for a header value that no field name precedes.
pub const VALUE_WITHOUT_FIELD: &'static str = "Received a header value without a field";

/// The message for bytes in which the parser would read a long version.
pub const LONG_VERSION: &'static str = "Received an HTTP version number of three digits or more";

/// A response, as far as the events of a parser have built it up.
///
/// It starts empty. Each event fills one part in: the status line gives the
/// reason phrase and, through the registry, the status code; a field name
/// waits for its value; a value goes into the header block under the name
/// that waits; a piece of the body goes behind the pieces before it.
#[derive(Debug)]
pub struct HttpResponse {
    pub status_code: u16,
    pub reason: String,
    pub headers: Headers,
    pub body: String,
    /// The field name that waits for its value, if one does.
    pub pending: Option<String>,
}

/// What an [`HttpResponse`] stands for.
pub struct HttpResponseView {
    pub status_code: u16,
    pub reason: Seq<char>,
    pub headers: Map<Seq<char>, Seq<char>>,
    pub body: Seq<char>,
    /// The field name that waits for its value, if one does.
    pub pending: Option<Seq<char>>,
}

impl View for HttpResponse {
    type V = HttpResponseView;

    open spec fn view(&self) -> HttpResponseView {
        HttpResponseView {
            status_code: self.status_code,
            reason: self.reason@,
            headers: self.headers@,
            body: self.body@,
            pending: match self.pending {
                Some(name) => Some(name@),
                None => None,
            },
        }
    }
}

/// The response before any event.
pub open spec fn empty_response() -> HttpResponseView {
    HttpResponseView {
        status_code: 0,
        reason: Seq::empty(),
        headers: Map::empty(),
        body: Seq::empty(),
        pending: None,
    }
}

/// An `HttpError` with the given message.
pub open spec fn http_error(message: Seq<char>) -> ErrorView {
    ErrorView { kind: ErrorType::HttpError, message }
}

/// The response after one event, or the error that the event is refused
/// with. The bytes of every event must be UTF-8. The status code comes from
/// the reason phrase alone, by the registry. A header value needs a field
/// name that waits for it, and a name that is set again takes the later
/// value. A piece of the body is put behind what is there.
pub open spec fn after_event(before: HttpResponseView, event: Event) -> Result<
    HttpResponseView,
    ErrorView,
> {
    if !valid_utf8(event.1) {
        Err(http_error(INVALID_ENCODING@))
    } else {
        let text = decode_utf8(event.1);
        match event.0 {
            EventKind::Status => if is_registered(text) {
                Ok(HttpResponseView { status_code: status_code_of(text), reason: text, ..before })
            } else {
                Err(http_error(INVALID_REASON@ + text))
            },
            EventKind::HeaderField => Ok(HttpResponseView { pending: Some(text), ..before }),
            EventKind::HeaderValue => match before.pending {
                Some(name) => Ok(
                    HttpResponseView {
                        headers: before.headers.insert(name, text),
                        pending: None,
                        ..before
                    },
                ),
                None => Err(http_error(VALUE_WITHOUT_FIELD@)),
            },
            EventKind::Body => Ok(HttpResponseView { body: before.body + text, ..before }),
        }
    }
}

/// The response after the events in their order, or the error of the first
/// event that is refused.
pub open spec fn after_events(before: HttpResponseView, events: Seq<Event>) -> Result<
    HttpResponseView,
    ErrorView,
>
    decreases events.len(),
{
    if events.len() == 0 {
        Ok(before)
    } else {
        match after_event(before, events[0]) {
            Ok(next) => after_events(next, events.drop_first()),
            Err(error) => Err(error),
        }
    }
}

/// Whether the status code of a response is the one that the registry gives
/// for its reason phrase; before any status line, both are empty.
pub open spec fn status_matches_reason(response: HttpResponseView) -> bool {
    if response.reason.len() == 0 {
        response.status_code == 0
    } else {
        is_registered(response.reason) && response.status_code == status_code_of(response.reason)
    }
}

/// Whatever the events, the status code of the response that they build up
/// is the one that the registry gives for its reason phrase.
pub proof fn lemma_status_matches_reason(events: Seq<Event>)
    ensures
        after_events(empty_response(), events) matches Ok(response) ==> status_matches_reason(
            response,
        ),
{
    lemma_status_kept(empty_response(), events);
}

/// Events keep the status code in step with the reason phrase.
proof fn lemma_status_kept(before: HttpResponseView, events: Seq<Event>)
    requires
        status_matches_reason(before),
    ensures
        after_events(before, events) matches Ok(response) ==> status_matches_reason(response),
    decreases events.len(),
{
    if events.len() > 0 {
        match after_event(before, events[0]) {
            Ok(next) => {
                if events[0].0 == EventKind::Status {
                    lemma_registered_not_empty(decode_utf8(events[0].1));
                }
                lemma_status_kept(next, events.drop_first());
            },
            Err(_) => {},
        }
    }
}

/// Events may be applied in two runs: the response after `first` followed
/// by `second` is the response after `second`, begun from the response
/// after `first`; and a refusal in `first` is the refusal of the whole.
pub proof fn lemma_after_events_in_two_runs(
    before: HttpResponseView,
    first: Seq<Event>,
    second: Seq<Event>,
)
    ensures
        after_events(before, first + second) == match after_events(before, first) {
            Ok(between) => after_events(between, second),
            Err(error) => Err(error),
        },
    decreases first.len(),
{
    if first.len() == 0 {
        assert(first + second =~= second);
    } else {
        assert((first + second)[0] == first[0]);
        assert((first + second).drop_first() =~= first.drop_first() + second);
        match after_event(before, first[0]) {
            Ok(next) => {
                lemma_after_events_in_two_runs(next, first.drop_first(), second);
            },
            Err(_) => {},
        }
    }
}

/// What a call that applies `event` to a response has to do: on success the
/// response is the one after the event; on refusal the error is returned and
/// the response is as it was.
pub open spec fn event_applied(
    before: HttpResponseView,
    event: Event,
    after: HttpResponseView,
    result: Result<(), Error>,
) -> bool {
    match after_event(before, event) {
        Ok(next) => result is Ok && after == next,
        Err(error) => result matches Err(e) && e@ == error && after == before,
    }
}

/// What a result with a response stands for.
pub open spec fn response_of(result: Result<HttpResponse, Error>) -> Result<
    HttpResponseView,
    ErrorView,
> {
    match result {
        Ok(response) => Ok(response@),
        Err(error) => Err(error@),
    }
}

/// The response that the bytes stand for: what the events of the bytes
/// build up from the empty response. Bytes that have no events, because the
/// parser would read a long version in them, are refused.
pub open spec fn parsed_response(bytes: Seq<u8>) -> Result<HttpResponseView, ErrorView> {
    match response_events(bytes) {
        Some(events) => after_events(empty_response(), events),
        None => Err(http_error(LONG_VERSION@)),
    }
}

/// Whatever the bytes, and whatever number their status line holds, the
/// status code of the response that they stand for is the one that the
/// registry gives for its reason phrase.
pub proof fn lemma_parsed_status_matches_reason(bytes: Seq<u8>)
    ensures
        parsed_response(bytes) matches Ok(response) ==> status_matches_reason(response),
{
    match response_events(bytes) {
        Some(events) => {
            lemma_status_matches_reason(events);
        },
        None => {},
    }
}

/// The text of an event, or the error for bytes that are no UTF-8.
fn event_text(data: &[u8]) -> (result: Result<String, Error>)
    ensures
        match result {
            Ok(text) => valid_utf8(data@) && text@ == decode_utf8(data@),
            Err(error) => !valid_utf8(data@) && error@ == http_error(INVALID_ENCODING@),
        },
{
    match decode(data) {
        Some(text) => Ok(text),
        None => Err(Error::new(ErrorType::HttpError, INVALID_ENCODING)),
    }
}

impl HttpResponse {
    /// The empty response.
    pub fn new() -> (response: HttpResponse)
        ensures
            response@ == empty_response(),
    {
        HttpResponse {
            status_code: 0,
            reason: String::new(),
            headers: Headers::new(),
            body: String::new(),
            pending: None,
        }
    }

    /// Takes the reason phrase of the status line, and the status code that
    /// the registry gives for it. The code depends on the phrase alone.
    pub fn on_status(&mut self, data: &[u8]) -> (result: Result<(), Error>)
        ensures
            event_applied(old(self)@, (EventKind::Status, data@), final(self)@, result),
            result is Ok ==> final(self).status_code == status_code_of(decode_utf8(data@)),
    {
        let reason = event_text(data)?;
        let code = to_status_code(reason.as_str())?;
        self.status_code = code;
        self.reason = reason;
        Ok(())
    }

    /// Takes a field name, which then waits for its value.
    pub fn on_header_field(&mut self, data: &[u8]) -> (result: Result<(), Error>)
        ensures
            event_applied(old(self)@, (EventKind::HeaderField, data@), final(self)@, result),
    {
        let name = event_text(data)?;
        self.pending = Some(name);
        Ok(())
    }

    /// Takes a header value and sets the field whose name waits to it.
    pub fn on_header_value(&mut self, data: &[u8]) -> (result: Result<(), Error>)
        ensures
            event_applied(old(self)@, (EventKind::HeaderValue, data@), final(self)@, result),
    {
        let value = event_text(data)?;
        match self.pending.take() {
            Some(name) => {
                self.headers.insert(name, value);
                Ok(())
            },
            None => Err(Error::new(ErrorType::HttpError, VALUE_WITHOUT_FIELD)),
        }
    }

    /// Takes the body, or the next piece of a body that comes in pieces.
    pub fn on_body(&mut self, data: &[u8]) -> (result: Result<(), Error>)
        ensures
            event_applied(old(self)@, (EventKind::Body, data@), final(self)@, result),
    {
        let piece = event_text(data)?;
        self.body.append(piece.as_str());
        Ok(())
    }

    /// Applies one report of the parser.
    pub fn apply(&mut self, report: &ParseEvent) -> (result: Result<(), Error>)
        ensures
            event_applied(old(self)@, report@, final(self)@, result),
    {
        match report.kind {
            EventKind::Status => self.on_status(report.data.as_slice()),
            EventKind::HeaderField => self.on_header_field(report.data.as_slice()),
            EventKind::HeaderValue => self.on_header_value(report.data.as_slice()),
            EventKind::Body => self.on_body(report.data.as_slice()),
        }
    }

    /// The response that the reports build up from the empty response, or
    /// the error of the first report that is refused.
    pub fn from_events(reports: &[ParseEvent]) -> (result: Result<HttpResponse, Error>)
        ensures
            response_of(result) == after_events(empty_response(), events_of(reports@)),
    {
        let ghost events = events_of(reports@);
        let mut response = HttpResponse::new();
        let mut i: usize = 0;
        assert(events.skip(0) =~= events);
        while i < reports.len()
            invariant
                i <= reports.len(),
                events == events_of(reports@),
                after_events(empty_response(), events) == after_events(
                    response@,
                    events.skip(i as int),
                ),
            decreases reports.len() - i,
        {
            let ghost rest = events.skip(i as int);
            assert(rest[0] == reports[i as int]@);
            assert(rest.drop_first() =~= events.skip(i + 1));
            match response.apply(&reports[i]) {
                Ok(()) => {},
                Err(error) => {
                    return Err(error);
                },
            }
            i += 1;
        }
        Ok(response)
    }

    /// The response that the bytes stand for: the parser is run over them,
    /// and its reports are applied in their order. Where the bytes are
    /// malformed the reports end early, and the response is what they built
    /// up to there. Bytes in which the parser would read an HTTP version
    /// number of three digits or more are refused: those that begin with
    /// one, and those that hold one anywhere while more than one message
    /// stands in them.
    pub fn parse(bytes: &[u8]) -> (result: Result<HttpResponse, Error>)
        ensures
            response_of(result) == parsed_response(bytes@),
    {
        match parse_events(bytes) {
            Some(reports) => HttpResponse::from_events(reports.as_slice()),
            None => Err(Error::new(ErrorType::HttpError, LONG_VERSION)),
        }
    }
}

} // verus!
