//! The events of a response: what the streaming parser reports of the bytes
//! that it is given, as plain values.

use http_parser::{CallbackResult, HttpParser, HttpParserCallback, HttpParserType, ParseAction};
use vstd::prelude::*;
use vstd::slice::slice_to_vec;

verus! {

/// The parser of the `http_parser` crate. Nothing is read from it here.
#[verifier::external_type_specification]
#[verifier::external_body]
pub struct ExHttpParser(HttpParser);

/// What a callback tells the parser of the `http_parser` crate to do next.
#[verifier::external_type_specification]
pub struct ExParseAction(ParseAction);

/// The part of a response that an event reports.
#[derive(Clone, Copy, Debug, PartialEq, Eq, Structural)]
pub enum EventKind {
    /// The reason phrase of the status line.
    Status,
    /// The name of a header field.
    HeaderField,
    /// The value of a header field.
    HeaderValue,
    /// The body, or a piece of it.
    Body,
}

/// An event as a plain value: the part that it reports and the bytes of it.
pub type Event = (EventKind, Seq<u8>);

/// One report of the parser: a part of the response and its bytes.
#[derive(Debug)]
pub struct ParseEvent {
    pub kind: EventKind,
    pub data: Vec<u8>,
}

impl View for ParseEvent {
    type V = Event;

    open spec fn view(&self) -> Event {
        (self.kind, self.data@)
    }
}

/// The events that a list of reports stands for.
pub open spec fn events_of(reports: Seq<ParseEvent>) -> Seq<Event> {
    reports.map_values(|report: ParseEvent| report@)
}

/// The reports of one run of the parser, in the order in which it made them.
pub struct EventLog {
    pub events: Vec<ParseEvent>,
    /// Whether the run is to end where the first message is complete.
    pub first_only: bool,
    /// Whether the parser has told that a message is complete.
    pub complete: bool,
}

impl EventLog {
    /// A log without reports, for a run that ends with the first message
    /// where `first_only` is set, and with the bytes where it is not.
    pub fn new(first_only: bool) -> (log: EventLog)
        ensures
            log.events@ == Seq::<ParseEvent>::empty(),
            log.first_only == first_only,
            !log.complete,
    {
        EventLog { events: Vec::new(), first_only, complete: false }
    }

    /// Adds a report of `kind` with a copy of `data` at the end.
    pub fn record(&mut self, kind: EventKind, data: &[u8])
        ensures
            events_of(final(self).events@) == events_of(old(self).events@).push((kind, data@)),
            final(self).first_only == old(self).first_only,
            final(self).complete == old(self).complete,
    {
        self.events.push(ParseEvent { kind, data: slice_to_vec(data) });
        assert(events_of(self.events@) =~= events_of(old(self).events@).push((kind, data@)));
    }
}

/// The log takes down the four reports that a response is built from and
/// lets the parser go on after each. Where a message is complete it notes
/// that, and stops the parser if the run is to end with the first message.
impl HttpParserCallback for EventLog {
    fn on_status(&mut self, _parser: &mut HttpParser, data: &[u8]) -> (action: CallbackResult)
        ensures
            events_of(final(self).events@) == events_of(old(self).events@).push(
                (EventKind::Status, data@),
            ),
            action matches Ok(ParseAction::None),
    {
        self.record(EventKind::Status, data);
        Ok(ParseAction::None)
    }

    fn on_header_field(&mut self, _parser: &mut HttpParser, data: &[u8]) -> (action: CallbackResult)
        ensures
            events_of(final(self).events@) == events_of(old(self).events@).push(
                (EventKind::HeaderField, data@),
            ),
            action matches Ok(ParseAction::None),
    {
        self.record(EventKind::HeaderField, data);
        Ok(ParseAction::None)
    }

    fn on_header_value(&mut self, _parser: &mut HttpParser, data: &[u8]) -> (action: CallbackResult)
        ensures
            events_of(final(self).events@) == events_of(old(self).events@).push(
                (EventKind::HeaderValue, data@),
            ),
            action matches Ok(ParseAction::None),
    {
        self.record(EventKind::HeaderValue, data);
        Ok(ParseAction::None)
    }

    fn on_body(&mut self, _parser: &mut HttpParser, data: &[u8]) -> (action: CallbackResult)
        ensures
            events_of(final(self).events@) == events_of(old(self).events@).push(
                (EventKind::Body, data@),
            ),
            action matches Ok(ParseAction::None),
    {
        self.record(EventKind::Body, data);
        Ok(ParseAction::None)
    }

    fn on_message_complete(&mut self, _parser: &mut HttpParser) -> (action: CallbackResult)
        ensures
            final(self).events == old(self).events,
            final(self).first_only == old(self).first_only,
            final(self).complete,
            action is Err <==> old(self).first_only,
            action matches Ok(go_on) ==> go_on == ParseAction::None,
    {
        self.complete = true;
        if self.first_only {
            Err(String::new())
        } else {
            Ok(ParseAction::None)
        }
    }
}

/// The ASCII code of a carriage return.
pub const CARRIAGE_RETURN: u8 = 0x0d;

/// The ASCII code of a line feed.
pub const LINE_FEED: u8 = 0x0a;

/// The ASCII code of `H`.
pub const UPPER_H: u8 = 0x48;

/// The ASCII code of `T`.
pub const UPPER_T: u8 = 0x54;

/// The ASCII code of `P`.
pub const UPPER_P: u8 = 0x50;

/// The ASCII code of `/`.
pub const SLASH: u8 = 0x2f;

/// The ASCII code of `.`.
pub const DOT: u8 = 0x2e;

/// The ASCII code of `0`.
pub const DIGIT_0: u8 = 0x30;

/// The ASCII code of `9`.
pub const DIGIT_9: u8 = 0x39;

/// Whether the byte at place `k` is `byte`.
pub open spec fn byte_at(bytes: Seq<u8>, k: int, byte: u8) -> bool {
    0 <= k < bytes.len() && bytes[k] == byte
}

/// Whether the byte at place `k` is a decimal digit.
pub open spec fn digit_at(bytes: Seq<u8>, k: int) -> bool {
    0 <= k < bytes.len() && DIGIT_0 <= bytes[k] <= DIGIT_9
}

/// Whether three decimal digits stand at place `k`.
pub open spec fn three_digits_at(bytes: Seq<u8>, k: int) -> bool {
    digit_at(bytes, k) && digit_at(bytes, k + 1) && digit_at(bytes, k + 2)
}

/// Whether `HTTP/` stands at place `i` and is followed by a version whose
/// major or minor number has three digits or more.
pub open spec fn long_version_at(bytes: Seq<u8>, i: int) -> bool {
    &&& byte_at(bytes, i, UPPER_H)
    &&& byte_at(bytes, i + 1, UPPER_T)
    &&& byte_at(bytes, i + 2, UPPER_T)
    &&& byte_at(bytes, i + 3, UPPER_P)
    &&& byte_at(bytes, i + 4, SLASH)
    &&& {
        ||| three_digits_at(bytes, i + 5)
        ||| digit_at(bytes, i + 5) && byte_at(bytes, i + 6, DOT) && three_digits_at(bytes, i + 7)
        ||| digit_at(bytes, i + 5) && digit_at(bytes, i + 6) && byte_at(bytes, i + 7, DOT)
            && three_digits_at(bytes, i + 8)
    }
}

/// Whether a version with a number of three digits or more stands anywhere
/// in the bytes.
pub open spec fn has_long_version(bytes: Seq<u8>) -> bool {
    exists|i: int| long_version_at(bytes, i)
}

/// Whether the byte is a carriage return or a line feed.
pub open spec fn is_break(byte: u8) -> bool {
    byte == CARRIAGE_RETURN || byte == LINE_FEED
}

/// Whether the bytes begin, behind any carriage returns and line feeds,
/// with a long version.
pub open spec fn starts_long_version(bytes: Seq<u8>) -> bool {
    exists|p: int|
        long_version_at(bytes, p) && forall|k: int| 0 <= k < p ==> is_break(#[trigger] bytes[k])
}

/// Whether the byte `offset` places after `i` is `byte`.
fn is_byte(bytes: &[u8], i: usize, offset: usize, byte: u8) -> (found: bool)
    requires
        i < bytes@.len(),
    ensures
        found == byte_at(bytes@, i + offset, byte),
{
    offset < bytes.len() - i && bytes[i + offset] == byte
}

/// Whether the byte `offset` places after `i` is a decimal digit.
fn is_digit(bytes: &[u8], i: usize, offset: usize) -> (found: bool)
    requires
        i < bytes@.len(),
    ensures
        found == digit_at(bytes@, i + offset),
{
    offset < bytes.len() - i && DIGIT_0 <= bytes[i + offset] && bytes[i + offset] <= DIGIT_9
}

/// Whether three decimal digits stand `offset` places after `i`.
fn is_three_digits(bytes: &[u8], i: usize, offset: usize) -> (found: bool)
    requires
        i < bytes@.len(),
        offset <= 8,
    ensures
        found == three_digits_at(bytes@, i + offset),
{
    is_digit(bytes, i, offset) && is_digit(bytes, i, offset + 1) && is_digit(bytes, i, offset + 2)
}

/// Whether a long version stands at place `i`.
fn is_long_version(bytes: &[u8], i: usize) -> (found: bool)
    requires
        i < bytes@.len(),
    ensures
        found == long_version_at(bytes@, i as int),
{
    let name = is_byte(bytes, i, 0, UPPER_H) && is_byte(bytes, i, 1, UPPER_T) && is_byte(
        bytes,
        i,
        2,
        UPPER_T,
    ) && is_byte(bytes, i, 3, UPPER_P) && is_byte(bytes, i, 4, SLASH);
    let long_major = is_three_digits(bytes, i, 5);
    let long_minor = is_digit(bytes, i, 5) && is_byte(bytes, i, 6, DOT) && is_three_digits(
        bytes,
        i,
        7,
    );
    let long_minor_behind_two = is_digit(bytes, i, 5) && is_digit(bytes, i, 6) && is_byte(
        bytes,
        i,
        7,
        DOT,
    ) && is_three_digits(bytes, i, 8);
    name && (long_major || long_minor || long_minor_behind_two)
}

/// Whether a version with a number of three digits or more stands anywhere
/// in the bytes.
pub fn find_long_version(bytes: &[u8]) -> (found: bool)
    ensures
        found == has_long_version(bytes@),
{
    let mut i: usize = 0;
    while i < bytes.len()
        invariant
            i <= bytes.len(),
            forall|k: int| 0 <= k < i ==> !long_version_at(bytes@, k),
        decreases bytes.len() - i,
    {
        if is_long_version(bytes, i) {
            return true;
        }
        i += 1;
    }
    false
}

/// Whether the bytes begin, behind any carriage returns and line feeds,
/// with a long version.
pub fn find_leading_long_version(bytes: &[u8]) -> (found: bool)
    ensures
        found == starts_long_version(bytes@),
{
    let mut p: usize = 0;
    while p < bytes.len() && (bytes[p] == CARRIAGE_RETURN || bytes[p] == LINE_FEED)
        invariant
            p <= bytes.len(),
            forall|k: int| 0 <= k < p ==> is_break(#[trigger] bytes@[k]),
        decreases bytes.len() - p,
    {
        p += 1;
    }
    let found = p < bytes.len() && is_long_version(bytes, p);
    proof {
        if starts_long_version(bytes@) {
            let q = choose|q: int|
                long_version_at(bytes@, q) && forall|k: int|
                    0 <= k < q ==> is_break(#[trigger] bytes@[k]);
            assert(!is_break(bytes@[q]));
            if p < q {
                assert(is_break(bytes@[p as int]));
            }
            assert(q == p);
        }
    }
    found
}

/// One run of the parser: its reports, whether it told that a message was
/// complete, and how many bytes it says it has read.
#[derive(Debug)]
pub struct ParserRun {
    pub reports: Vec<ParseEvent>,
    pub complete: bool,
    pub consumed: usize,
}

/// What a [`ParserRun`] stands for.
pub struct ParserRunView {
    pub events: Seq<Event>,
    pub complete: bool,
    pub consumed: usize,
}

impl View for ParserRun {
    type V = ParserRunView;

    open spec fn view(&self) -> ParserRunView {
        ParserRunView {
            events: events_of(self.reports@),
            complete: self.complete,
            consumed: self.consumed,
        }
    }
}

/// What one run of the parser of the `http_parser` crate gives for the bytes
/// of a response: a fresh parser that is given all the bytes in one call,
/// with a log that ends the run with the first message where `first_only` is
/// set, and lets it go on to the end of the bytes where it is not.
pub uninterp spec fn parser_run(bytes: Seq<u8>, first_only: bool) -> ParserRunView;

/// Whether the parser can be run on the bytes. A run that ends with the
/// first message reads one version, the one that the bytes begin with; a run
/// to the end of the bytes may read a version wherever a message begins.
pub open spec fn may_run(bytes: Seq<u8>, first_only: bool) -> bool {
    if first_only {
        !starts_long_version(bytes)
    } else {
        !has_long_version(bytes)
    }
}

/// Trusted: runs a fresh `http_parser::HttpParser` of type `Response` once
/// over the bytes with `HttpParser::execute`, and hands back what it reported
/// to the log, whether the log was told that a message was complete, and the
/// number that `execute` returned. The contract claims only that these are a
/// function of the bytes and of `first_only`, and gives that function its
/// name.
///
/// The parser multiplies a version number by ten for each digit after the
/// first, in eight bits, and looks at the range afterwards: with a third
/// digit the product can leave the eight bits. It reads a version number only
/// right behind `HTTP/`, and only where a message begins: at the first byte
/// that is no carriage return or line feed, and behind a message that is
/// complete. It tells the log of every message that is complete before it
/// reads on, and returns at once when the log answers with an error.
#[verifier::external_body]
fn run_parser(bytes: &[u8], first_only: bool) -> (run: ParserRun)
    requires
        may_run(bytes@, first_only),
    ensures
        run@ == parser_run(bytes@, first_only),
{
    let mut log = EventLog::new(first_only);
    let mut parser = HttpParser::new(HttpParserType::Response);
    let consumed = parser.execute(&mut log, bytes);
    ParserRun { reports: log.events, complete: log.complete, consumed }
}

/// Whether bytes are left behind the first message of a run that ended
/// with it.
pub open spec fn leaves_bytes(run: ParserRunView, bytes: Seq<u8>) -> bool {
    run.complete && run.consumed < bytes.len()
}

/// The events of the bytes of a response, where the parser can be run on
/// them. The parser is first run to the end of the first message. Where
/// that message is all there is, its events are the events of the bytes.
/// Where bytes are left behind it, the parser is run once more, over all the
/// bytes and to their end. No run is made that could read a long version:
/// the bytes then have no events.
pub open spec fn response_events(bytes: Seq<u8>) -> Option<Seq<Event>> {
    if starts_long_version(bytes) {
        None
    } else if !leaves_bytes(parser_run(bytes, true), bytes) {
        Some(parser_run(bytes, true).events)
    } else if has_long_version(bytes) {
        None
    } else {
        Some(parser_run(bytes, false).events)
    }
}

/// What optional reports stand for.
pub open spec fn optional_events_of(reports: Option<Vec<ParseEvent>>) -> Option<Seq<Event>> {
    match reports {
        Some(reports) => Some(events_of(reports@)),
        None => None,
    }
}

/// The reports of the parser for the bytes of a response, where it can be
/// run on them.
pub fn parse_events(bytes: &[u8]) -> (reports: Option<Vec<ParseEvent>>)
    ensures
        optional_events_of(reports) == response_events(bytes@),
{
    if find_leading_long_version(bytes) {
        return None;
    }
    let first = run_parser(bytes, true);
    if !(first.complete && first.consumed < bytes.len()) {
        return Some(first.reports);
    }
    if find_long_version(bytes) {
        return None;
    }
    Some(run_parser(bytes, false).reports)
}

} // verus!
