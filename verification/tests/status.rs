use qvm::status::{to_status_code, REASONS, REASON_COUNT};
use qvm::util::ErrorType;

fn code(reason: &str) -> u16 {
    match to_status_code(reason) {
        Ok(code) => code,
        Err(error) => panic!("{} was refused: {}", reason, error.message),
    }
}

#[test]
fn ok_is_200() {
    assert_eq!(code("OK"), 200);
}

#[test]
fn not_found_is_404() {
    assert_eq!(code("Not Found"), 404);
}

#[test]
fn informational_phrases() {
    assert_eq!(code("Continue"), 100);
    assert_eq!(code("Switching Protocols"), 101);
    assert_eq!(code("Processing"), 102);
    assert_eq!(code("Early Hints"), 103);
}

#[test]
fn success_phrases() {
    assert_eq!(code("Created"), 201);
    assert_eq!(code("Accepted"), 202);
    assert_eq!(code("Non-Authoritative Information"), 203);
    assert_eq!(code("No Content"), 204);
    assert_eq!(code("Reset Content"), 205);
    assert_eq!(code("Partial Content"), 206);
    assert_eq!(code("Multi-Status"), 207);
    assert_eq!(code("Already Reported"), 208);
    assert_eq!(code("IM Used"), 226);
}

#[test]
fn redirection_phrases() {
    assert_eq!(code("Multiple Choices"), 300);
    assert_eq!(code("Moved Permanently"), 301);
    assert_eq!(code("Found"), 302);
    assert_eq!(code("See Other"), 303);
    assert_eq!(code("Not Modified"), 304);
    assert_eq!(code("Temporary Redirect"), 307);
    assert_eq!(code("Permanent Redirect"), 308);
}

#[test]
fn client_error_phrases() {
    assert_eq!(code("Bad Request"), 400);
    assert_eq!(code("Unauthorized"), 401);
    assert_eq!(code("Payment Required"), 402);
    assert_eq!(code("Forbidden"), 403);
    assert_eq!(code("Method Not Allowed"), 405);
    assert_eq!(code("Not Acceptable"), 406);
    assert_eq!(code("Proxy Authentication Required"), 407);
    assert_eq!(code("Request Timeout"), 408);
    assert_eq!(code("Conflict"), 409);
    assert_eq!(code("Gone"), 410);
    assert_eq!(code("Length Required"), 411);
    assert_eq!(code("Precondition Failed"), 412);
    assert_eq!(code("Payload Too Large"), 413);
    assert_eq!(code("URI Too Long"), 414);
    assert_eq!(code("Unsupported Media Type"), 415);
    assert_eq!(code("Range Not Satisfiable"), 416);
    assert_eq!(code("Expectation Failed"), 417);
    assert_eq!(code("I'm a teapot"), 418);
    assert_eq!(code("Misdirected Request"), 421);
    assert_eq!(code("Unprocessable Content"), 422);
    assert_eq!(code("Locked"), 423);
    assert_eq!(code("Failed Dependency"), 424);
    assert_eq!(code("Too Early"), 425);
    assert_eq!(code("Upgrade Required"), 426);
    assert_eq!(code("Precondition Required"), 428);
    assert_eq!(code("Too Many Requests"), 429);
    assert_eq!(code("Request Header Fields Too Large"), 431);
    assert_eq!(code("Unavailable For Legal Reasons"), 451);
}

#[test]
fn server_error_phrases() {
    assert_eq!(code("Internal Server Error"), 500);
    assert_eq!(code("Not Implemented"), 501);
    assert_eq!(code("Bad Gateway"), 502);
    assert_eq!(code("Service Unavailable"), 503);
    assert_eq!(code("Gateway Timeout"), 504);
    assert_eq!(code("HTTP Version Not Supported"), 505);
    assert_eq!(code("Variant Also Negotiates"), 506);
    assert_eq!(code("Insufficient Storage"), 507);
    assert_eq!(code("Loop Detected"), 508);
    assert_eq!(code("Not Extended"), 510);
    assert_eq!(code("Network Authentication Required"), 511);
}

#[test]
fn every_row_is_found_by_its_phrase() {
    assert_eq!(REASONS.len(), REASON_COUNT);
    for row in REASONS.iter() {
        assert_eq!(code(row.0), row.1);
    }
}

#[test]
fn every_code_is_in_range() {
    for row in REASONS.iter() {
        assert!(100 <= row.1 && row.1 <= 511);
    }
}

#[test]
fn no_phrase_stands_twice() {
    for (i, row) in REASONS.iter().enumerate() {
        for other in REASONS.iter().skip(i + 1) {
            assert_ne!(row.0, other.0);
        }
    }
}

#[test]
fn unknown_phrase_is_an_http_error() {
    let error = to_status_code("Everything Is Fine").unwrap_err();
    assert_eq!(error.kind, ErrorType::HttpError);
    assert_eq!(error.message, "Received invalid reason phrase: Everything Is Fine");
}

#[test]
fn lookup_is_case_sensitive() {
    assert!(to_status_code("ok").is_err());
    assert!(to_status_code("NOT FOUND").is_err());
    assert!(to_status_code("IM used").is_err());
}

#[test]
fn lookup_takes_no_partial_match() {
    assert!(to_status_code("Not").is_err());
    assert!(to_status_code("Not Found ").is_err());
    assert!(to_status_code(" OK").is_err());
}

#[test]
fn lookup_takes_no_number() {
    assert!(to_status_code("200").is_err());
    assert!(to_status_code("404 Not Found").is_err());
}

#[test]
fn empty_phrase_is_refused() {
    let error = to_status_code("").unwrap_err();
    assert_eq!(error.kind, ErrorType::HttpError);
    assert_eq!(error.message, "Received invalid reason phrase: ");
}
