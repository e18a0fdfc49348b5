//! The registry of reason phrases: the fixed table from the phrase of a
//! status line to its status code, and the strict lookup in it.

use crate::text::str_eq;
use crate::util::{Error, ErrorType, ErrorView};
use vstd::prelude::*;

verus! {

/// The number of phrases in the registry.
pub const REASON_COUNT: usize = 61;

/// The registered reason phrases, each with its status code.
pub const REASONS: [(&'static str, u16); 61] = [
    ("Continue", 100),
    ("Switching Protocols", 101),
    ("Processing", 102),
    ("Early Hints", 103),
    ("OK", 200),
    ("Created", 201),
    ("Accepted", 202),
    ("Non-Authoritative Information", 203),
    ("No Content", 204),
    ("Reset Content", 205),
    ("Partial Content", 206),
    ("Multi-Status", 207),
    ("Already Reported", 208),
    ("IM Used", 226),
    ("Multiple Choices", 300),
    ("Moved Permanently", 301),
    ("Found", 302),
    ("See Other", 303),
    ("Not Modified", 304),
    ("Temporary Redirect", 307),
    ("Permanent Redirect", 308),
    ("Bad Request", 400),
    ("Unauthorized", 401),
    ("Payment Required", 402),
    ("Forbidden", 403),
    ("Not Found", 404),
    ("Method Not Allowed", 405),
    ("Not Acceptable", 406),
    ("Proxy Authentication Required", 407),
    ("Request Timeout", 408),
    ("Conflict", 409),
    ("Gone", 410),
    ("Length Required", 411),
    ("Precondition Failed", 412),
    ("Payload Too Large", 413),
    ("URI Too Long", 414),
    ("Unsupported Media Type", 415),
    ("Range Not Satisfiable", 416),
    ("Expectation Failed", 417),
    ("I'm a teapot", 418),
    ("Misdirected Request", 421),
    ("Unprocessable Content", 422),
    ("Locked", 423),
    ("Failed Dependency", 424),
    ("Too Early", 425),
    ("Upgrade Required", 426),
    ("Precondition Required", 428),
    ("Too Many Requests", 429),
    ("Request Header Fields Too Large", 431),
    ("Unavailable For Legal Reasons", 451),
    ("Internal Server Error", 500),
    ("Not Implemented", 501),
    ("Bad Gateway", 502),
    ("Service Unavailable", 503),
    ("Gateway Timeout", 504),
    ("HTTP Version Not Supported", 505),
    ("Variant Also Negotiates", 506),
    ("Insufficient Storage", 507),
    ("Loop Detected", 508),
    ("Not Extended", 510),
    ("Network Authentication Required", 511),
];

/// The message that rejects a phrase outside the registry starts with this.
pub const INVALID_REASON: &'static str = "Received invalid reason phrase: ";

/// Whether row `i` of the table holds the phrase `reason`.
pub open spec fn is_row_of(i: int, reason: Seq<char>) -> bool {
    0 <= i < REASON_COUNT && REASONS[i].0@ == reason
}

/// Whether `reason` is one of the registered phrases.
pub open spec fn is_registered(reason: Seq<char>) -> bool {
    exists|i: int| is_row_of(i, reason)
}

/// The status code of a registered phrase.
pub open spec fn status_code_of(reason: Seq<char>) -> u16 {
    REASONS[choose|i: int| is_row_of(i, reason)].1
}

/// What the characters of the phrases show of two rows: no phrase is
/// shorter than two characters, and rows with the same phrase are one row.
proof fn lemma_rows(i: int, j: int)
    requires
        0 <= i < REASON_COUNT,
        0 <= j < REASON_COUNT,
    ensures
        REASONS[i].0@.len() >= 2,
        REASONS[i].0@ == REASONS[j].0@ ==> i == j,
{
    reveal_strlit("Continue");
    reveal_strlit("Switching Protocols");
    reveal_strlit("Processing");
    reveal_strlit("Early Hints");
    reveal_strlit("OK");
    reveal_strlit("Created");
    reveal_strlit("Accepted");
    reveal_strlit("Non-Authoritative Information");
    reveal_strlit("No Content");
    reveal_strlit("Reset Content");
    reveal_strlit("Partial Content");
    reveal_strlit("Multi-Status");
    reveal_strlit("Already Reported");
    reveal_strlit("IM Used");
    reveal_strlit("Multiple Choices");
    reveal_strlit("Moved Permanently");
    reveal_strlit("Found");
    reveal_strlit("See Other");
    reveal_strlit("Not Modified");
    reveal_strlit("Temporary Redirect");
    reveal_strlit("Permanent Redirect");
    reveal_strlit("Bad Request");
    reveal_strlit("Unauthorized");
    reveal_strlit("Payment Required");
    reveal_strlit("Forbidden");
    reveal_strlit("Not Found");
    reveal_strlit("Method Not Allowed");
    reveal_strlit("Not Acceptable");
    reveal_strlit("Proxy Authentication Required");
    reveal_strlit("Request Timeout");
    reveal_strlit("Conflict");
    reveal_strlit("Gone");
    reveal_strlit("Length Required");
    reveal_strlit("Precondition Failed");
    reveal_strlit("Payload Too Large");
    reveal_strlit("URI Too Long");
    reveal_strlit("Unsupported Media Type");
    reveal_strlit("Range Not Satisfiable");
    reveal_strlit("Expectation Failed");
    reveal_strlit("I'm a teapot");
    reveal_strlit("Misdirected Request");
    reveal_strlit("Unprocessable Content");
    reveal_strlit("Locked");
    reveal_strlit("Failed Dependency");
    reveal_strlit("Too Early");
    reveal_strlit("Upgrade Required");
    reveal_strlit("Precondition Required");
    reveal_strlit("Too Many Requests");
    reveal_strlit("Request Header Fields Too Large");
    reveal_strlit("Unavailable For Legal Reasons");
    reveal_strlit("Internal Server Error");
    reveal_strlit("Not Implemented");
    reveal_strlit("Bad Gateway");
    reveal_strlit("Service Unavailable");
    reveal_strlit("Gateway Timeout");
    reveal_strlit("HTTP Version Not Supported");
    reveal_strlit("Variant Also Negotiates");
    reveal_strlit("Insufficient Storage");
    reveal_strlit("Loop Detected");
    reveal_strlit("Not Extended");
    reveal_strlit("Network Authentication Required");
    // The length, the first character and the fifth tell any two rows apart.
    let a = REASONS[i].0@;
    let b = REASONS[j].0@;
    assert(a == b ==> a.len() == b.len() && a[0] == b[0]);
    assert(a == b && a.len() > 4 ==> a[4] == b[4]);
}

/// No phrase stands in two rows of the table.
pub proof fn lemma_reasons_distinct(i: int, j: int)
    requires
        0 <= i < REASON_COUNT,
        0 <= j < REASON_COUNT,
        REASONS[i].0@ == REASONS[j].0@,
    ensures
        i == j,
{
    lemma_rows(i, j);
}

/// Every row of the table is found again by its phrase: the phrase is
/// registered, and its status code is the one that stands beside it.
pub proof fn lemma_row_is_registered(i: int)
    requires
        0 <= i < REASON_COUNT,
    ensures
        is_registered(REASONS[i].0@),
        status_code_of(REASONS[i].0@) == REASONS[i].1,
{
    let reason = REASONS[i].0@;
    assert(is_row_of(i, reason));
    let j = choose|j: int| is_row_of(j, reason);
    lemma_reasons_distinct(i, j);
}

/// No registered phrase is empty.
pub proof fn lemma_registered_not_empty(reason: Seq<char>)
    requires
        is_registered(reason),
    ensures
        reason.len() > 0,
{
    let i = choose|i: int| is_row_of(i, reason);
    lemma_rows(i, i);
}

/// Every registered status code lies between 100 and 511.
pub proof fn lemma_status_code_range(reason: Seq<char>)
    requires
        is_registered(reason),
    ensures
        100 <= status_code_of(reason) <= 511,
{
    let i = choose|i: int| is_row_of(i, reason);
    assert(100 <= REASONS[i].1 <= 511);
}

/// Looks a reason phrase up in the registry. The lookup is strict: a phrase
/// that is not registered, letter for letter, is an `HttpError` that quotes
/// the phrase.
pub fn to_status_code(reason: &str) -> (result: Result<u16, Error>)
    ensures
        match result {
            Ok(code) => {
                &&& is_registered(reason@)
                &&& code == status_code_of(reason@)
                &&& 100 <= code <= 511
            },
            Err(error) => {
                &&& !is_registered(reason@)
                &&& error@ == (ErrorView {
                    kind: ErrorType::HttpError,
                    message: INVALID_REASON@ + reason@,
                })
            },
        },
{
    let mut i: usize = 0;
    while i < REASON_COUNT
        invariant
            i <= REASON_COUNT,
            forall|k: int| 0 <= k < i ==> !is_row_of(k, reason@),
        decreases REASON_COUNT - i,
    {
        if str_eq(reason, REASONS[i].0) {
            proof {
                lemma_row_is_registered(i as int);
                lemma_status_code_range(reason@);
            }
            return Ok(REASONS[i].1);
        }
        i += 1;
    }
    Err(Error::with_detail(ErrorType::HttpError, INVALID_REASON, reason))
}

} // verus!
