use qvm::http::HttpResponse;
use qvm::parser::{EventKind, ParseEvent};
use qvm::status::to_status_code;
use qvm::util::ErrorType;

fn header<'a>(response: &'a HttpResponse, name: &str) -> Option<&'a str> {
    response.headers.get(name).map(|text| text.as_str())
}

fn report(kind: EventKind, data: &[u8]) -> ParseEvent {
    ParseEvent { kind, data: data.to_vec() }
}

#[test]
fn new_response_is_empty() {
    let response = HttpResponse::new();
    assert_eq!(response.status_code, 0);
    assert_eq!(response.reason, "");
    assert_eq!(response.headers.len(), 0);
    assert_eq!(response.body, "");
    assert_eq!(response.pending, None);
}

#[test]
fn status_sets_reason_and_code() {
    let mut response = HttpResponse::new();
    assert!(response.on_status(b"OK").is_ok());
    assert_eq!(response.status_code, 200);
    assert_eq!(response.reason, "OK");
}

#[test]
fn status_with_unknown_phrase_is_refused() {
    let mut response = HttpResponse::new();
    response.on_status(b"OK").unwrap();
    let error = response.on_status(b"Fine").unwrap_err();
    assert_eq!(error.kind, ErrorType::HttpError);
    assert_eq!(error.message, "Received invalid reason phrase: Fine");
    assert_eq!(response.status_code, 200);
    assert_eq!(response.reason, "OK");
}

#[test]
fn field_waits_for_its_value() {
    let mut response = HttpResponse::new();
    response.on_header_field(b"Content-Length").unwrap();
    assert_eq!(response.pending, Some(String::from("Content-Length")));
    assert_eq!(response.headers.len(), 0);
    response.on_header_value(b"5").unwrap();
    assert_eq!(response.pending, None);
    assert_eq!(header(&response, "Content-Length"), Some("5"));
}

#[test]
fn value_without_field_is_refused() {
    let mut response = HttpResponse::new();
    let error = response.on_header_value(b"5").unwrap_err();
    assert_eq!(error.kind, ErrorType::HttpError);
    assert_eq!(error.message, "Received a header value without a field");
    assert_eq!(response.headers.len(), 0);
}

#[test]
fn second_value_for_one_field_is_refused() {
    let mut response = HttpResponse::new();
    response.on_header_field(b"A").unwrap();
    response.on_header_value(b"1").unwrap();
    assert!(response.on_header_value(b"2").is_err());
    assert_eq!(header(&response, "A"), Some("1"));
}

#[test]
fn later_field_name_replaces_the_one_that_waits() {
    let mut response = HttpResponse::new();
    response.on_header_field(b"A").unwrap();
    response.on_header_field(b"B").unwrap();
    response.on_header_value(b"1").unwrap();
    assert_eq!(header(&response, "A"), None);
    assert_eq!(header(&response, "B"), Some("1"));
}

#[test]
fn repeated_field_name_takes_the_last_value() {
    let mut response = HttpResponse::new();
    response.on_header_field(b"Set-Cookie").unwrap();
    response.on_header_value(b"a=1").unwrap();
    response.on_header_field(b"Set-Cookie").unwrap();
    response.on_header_value(b"b=2").unwrap();
    assert_eq!(response.headers.len(), 1);
    assert_eq!(header(&response, "Set-Cookie"), Some("b=2"));
}

#[test]
fn field_names_are_case_sensitive() {
    let mut response = HttpResponse::new();
    response.on_header_field(b"Content-Length").unwrap();
    response.on_header_value(b"5").unwrap();
    assert_eq!(header(&response, "content-length"), None);
}

#[test]
fn body_is_taken() {
    let mut response = HttpResponse::new();
    response.on_body(b"hello").unwrap();
    assert_eq!(response.body, "hello");
}

#[test]
fn pieces_of_the_body_are_put_together() {
    let mut response = HttpResponse::new();
    response.on_body(b"abc").unwrap();
    response.on_body(b"").unwrap();
    response.on_body(b"de").unwrap();
    assert_eq!(response.body, "abcde");
}

#[test]
fn refused_piece_leaves_the_body() {
    let mut response = HttpResponse::new();
    response.on_body(b"abc").unwrap();
    assert!(response.on_body(&[0x80]).is_err());
    assert_eq!(response.body, "abc");
}

#[test]
fn bytes_that_are_no_utf8_are_refused() {
    let mut response = HttpResponse::new();
    for result in [
        response.on_status(&[0xff]),
        response.on_header_field(&[0xff]),
        response.on_header_value(&[0xff]),
        response.on_body(&[0xff]),
    ] {
        let error = result.unwrap_err();
        assert_eq!(error.kind, ErrorType::HttpError);
        assert_eq!(error.message, "Received text that is not UTF-8");
    }
    assert_eq!(response.status_code, 0);
    assert_eq!(response.body, "");
    assert_eq!(response.pending, None);
}

#[test]
fn encoding_comes_before_the_field() {
    let mut response = HttpResponse::new();
    let error = response.on_header_value(&[0xc3]).unwrap_err();
    assert_eq!(error.message, "Received text that is not UTF-8");
}

#[test]
fn refused_value_leaves_the_field_waiting() {
    let mut response = HttpResponse::new();
    response.on_header_field(b"A").unwrap();
    assert!(response.on_header_value(&[0xff]).is_err());
    assert_eq!(response.pending, Some(String::from("A")));
}

#[test]
fn apply_goes_by_the_kind() {
    let mut response = HttpResponse::new();
    response.apply(&report(EventKind::Status, b"Created")).unwrap();
    response.apply(&report(EventKind::HeaderField, b"Location")).unwrap();
    response.apply(&report(EventKind::HeaderValue, b"/v/1")).unwrap();
    response.apply(&report(EventKind::Body, b"{}")).unwrap();
    assert_eq!(response.status_code, 201);
    assert_eq!(response.reason, "Created");
    assert_eq!(header(&response, "Location"), Some("/v/1"));
    assert_eq!(response.body, "{}");
}

#[test]
fn from_no_events_is_the_empty_response() {
    let response = HttpResponse::from_events(&[]).unwrap();
    assert_eq!(response.status_code, 0);
    assert_eq!(response.reason, "");
    assert_eq!(response.headers.len(), 0);
    assert_eq!(response.body, "");
}

#[test]
fn from_events_applies_them_in_order() {
    let response = HttpResponse::from_events(&[
        report(EventKind::Status, b"OK"),
        report(EventKind::HeaderField, b"A"),
        report(EventKind::HeaderValue, b"1"),
        report(EventKind::HeaderField, b"A"),
        report(EventKind::HeaderValue, b"2"),
        report(EventKind::Body, b"x"),
        report(EventKind::Body, b"y"),
    ])
    .unwrap();
    assert_eq!(response.status_code, 200);
    assert_eq!(header(&response, "A"), Some("2"));
    assert_eq!(response.body, "xy");
}

#[test]
fn from_events_stops_at_the_first_refusal() {
    let error = HttpResponse::from_events(&[
        report(EventKind::Status, b"OK"),
        report(EventKind::HeaderValue, b"1"),
        report(EventKind::Status, b"Nope"),
    ])
    .unwrap_err();
    assert_eq!(error.message, "Received a header value without a field");
}

#[test]
fn parse_literal_response() {
    let response =
        HttpResponse::parse(b"HTTP/1.1 200 OK\r\nContent-Length: 5\r\n\r\nhello").unwrap();
    assert_eq!(response.status_code, 200);
    assert_eq!(response.reason, "OK");
    assert_eq!(response.headers.len(), 1);
    assert_eq!(header(&response, "Content-Length"), Some("5"));
    assert_eq!(response.body, "hello");
}

#[test]
fn parse_derives_the_code_from_the_phrase() {
    let response = HttpResponse::parse(b"HTTP/1.1 200 Not Found\r\n\r\n").unwrap();
    assert_eq!(response.status_code, 404);
    assert_eq!(response.reason, "Not Found");
    let response = HttpResponse::parse(b"HTTP/1.1 999 OK\r\n\r\n").unwrap();
    assert_eq!(response.status_code, 200);
}

#[test]
fn parse_refuses_an_unknown_phrase() {
    let error = HttpResponse::parse(b"HTTP/1.1 200 Fine\r\n\r\n").unwrap_err();
    assert_eq!(error.kind, ErrorType::HttpError);
    assert_eq!(error.message, "Received invalid reason phrase: Fine");
}

#[test]
fn parse_refuses_a_long_version() {
    let error = HttpResponse::parse(b"HTTP/261.1 200 OK\r\n\r\n").unwrap_err();
    assert_eq!(error.kind, ErrorType::HttpError);
    assert_eq!(error.message, "Received an HTTP version number of three digits or more");
}

#[test]
fn parse_of_no_bytes_is_the_empty_response() {
    let response = HttpResponse::parse(b"").unwrap();
    assert_eq!(response.status_code, 0);
    assert_eq!(response.reason, "");
    assert_eq!(response.body, "");
}

#[test]
fn parse_of_malformed_bytes_keeps_what_was_read() {
    let response = HttpResponse::parse(b"HTTP/1.1 200 OK\r\nBad Header\r\n\r\nbody").unwrap();
    assert_eq!(response.status_code, 200);
    assert_eq!(response.headers.len(), 0);
    assert_eq!(response.body, "");
}

#[test]
fn parse_reads_the_body_to_the_end_of_the_stream() {
    let response = HttpResponse::parse(b"HTTP/1.1 200 OK\r\nServer: s\r\n\r\nall of it").unwrap();
    assert_eq!(header(&response, "Server"), Some("s"));
    assert_eq!(response.body, "all of it");
}

#[test]
fn parse_takes_the_last_of_duplicate_fields() {
    let response =
        HttpResponse::parse(b"HTTP/1.1 200 OK\r\nX: 1\r\nX: 2\r\nContent-Length: 0\r\n\r\n")
            .unwrap();
    assert_eq!(header(&response, "X"), Some("2"));
    assert_eq!(response.headers.len(), 2);
}

#[test]
fn parse_puts_a_chunked_body_together() {
    let response = HttpResponse::parse(
        b"HTTP/1.1 200 OK\r\nTransfer-Encoding: chunked\r\n\r\n3\r\nabc\r\n2\r\nde\r\n0\r\n\r\n",
    )
    .unwrap();
    assert_eq!(response.status_code, 200);
    assert_eq!(header(&response, "Transfer-Encoding"), Some("chunked"));
    assert_eq!(response.body, "abcde");
}

#[test]
fn parse_refuses_a_body_that_is_no_utf8() {
    let error =
        HttpResponse::parse(b"HTTP/1.1 200 OK\r\nContent-Length: 1\r\n\r\n\xff").unwrap_err();
    assert_eq!(error.message, "Received text that is not UTF-8");
}

#[test]
fn status_code_is_the_one_of_the_reason() {
    let runs: Vec<Vec<ParseEvent>> = vec![
        vec![],
        vec![report(EventKind::Body, b"x")],
        vec![report(EventKind::Status, b"OK")],
        vec![report(EventKind::Status, b"OK"), report(EventKind::Status, b"Gone")],
        vec![
            report(EventKind::Status, b"Continue"),
            report(EventKind::HeaderField, b"A"),
            report(EventKind::HeaderValue, b"1"),
            report(EventKind::Status, b"I'm a teapot"),
            report(EventKind::Body, b"short and stout"),
        ],
    ];
    for reports in runs.iter() {
        let response = HttpResponse::from_events(reports).unwrap();
        if response.reason.is_empty() {
            assert_eq!(response.status_code, 0);
        } else {
            assert_eq!(to_status_code(response.reason.as_str()).unwrap(), response.status_code);
        }
    }
}

#[test]
fn events_may_be_applied_in_two_runs() {
    let all = vec![
        report(EventKind::Status, b"OK"),
        report(EventKind::HeaderField, b"A"),
        report(EventKind::HeaderValue, b"1"),
        report(EventKind::Body, b"ab"),
        report(EventKind::Body, b"cd"),
    ];
    let whole = HttpResponse::from_events(&all).unwrap();
    for cut in 0..all.len() + 1 {
        let mut response = HttpResponse::new();
        for report in all[..cut].iter() {
            response.apply(report).unwrap();
        }
        for report in all[cut..].iter() {
            response.apply(report).unwrap();
        }
        assert_eq!(response.status_code, whole.status_code);
        assert_eq!(response.reason, whole.reason);
        assert_eq!(header(&response, "A"), header(&whole, "A"));
        assert_eq!(response.body, whole.body);
        assert_eq!(response.pending, whole.pending);
    }
}

#[test]
fn parse_takes_a_long_version_in_the_body_as_body() {
    let response =
        HttpResponse::parse(b"HTTP/1.1 200 OK\r\nContent-Length: 8\r\n\r\nHTTP/123").unwrap();
    assert_eq!(response.status_code, 200);
    assert_eq!(header(&response, "Content-Length"), Some("8"));
    assert_eq!(response.body, "HTTP/123");
}

#[test]
fn parse_reads_on_behind_an_interim_response() {
    let response = HttpResponse::parse(
        b"HTTP/1.1 100 Continue\r\n\r\nHTTP/1.1 200 OK\r\nContent-Length: 2\r\n\r\nok",
    )
    .unwrap();
    assert_eq!(response.status_code, 200);
    assert_eq!(response.reason, "OK");
    assert_eq!(response.body, "ok");
}

#[test]
fn parse_refuses_a_long_version_behind_line_ends() {
    let error = HttpResponse::parse(b"\r\nHTTP/1.999 200 OK\r\n\r\n").unwrap_err();
    assert_eq!(error.kind, ErrorType::HttpError);
    assert_eq!(error.message, "Received an HTTP version number of three digits or more");
}
