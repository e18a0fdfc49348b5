use qvm::util::{error_line, Error, ErrorType};

#[test]
fn kinds_have_their_names() {
    assert_eq!(ErrorType::HttpError.name(), "HttpError");
    assert_eq!(ErrorType::NetworkError.name(), "NetworkError");
    assert_eq!(ErrorType::VersionError.name(), "VersionError");
}

#[test]
fn kinds_render_as_their_names() {
    assert_eq!(ErrorType::HttpError.to_string(), "HttpError");
    assert_eq!(ErrorType::NetworkError.to_string(), "NetworkError");
    assert_eq!(ErrorType::VersionError.to_string(), "VersionError");
}

#[test]
fn error_line_paints_the_word_error() {
    assert_eq!(
        error_line(ErrorType::VersionError, "Invalid version: x"),
        "\u{1b}[1;31merror\u{1b}[0m VersionError: Invalid version: x"
    );
}

#[test]
fn error_line_of_each_kind() {
    assert_eq!(
        error_line(ErrorType::HttpError, "m"),
        "\u{1b}[1;31merror\u{1b}[0m HttpError: m"
    );
    assert_eq!(
        error_line(ErrorType::NetworkError, "Failed to connect to server"),
        "\u{1b}[1;31merror\u{1b}[0m NetworkError: Failed to connect to server"
    );
}

#[test]
fn error_line_with_empty_message() {
    assert_eq!(error_line(ErrorType::HttpError, ""), "\u{1b}[1;31merror\u{1b}[0m HttpError: ");
}

#[test]
fn error_new_keeps_the_message() {
    let error = Error::new(ErrorType::NetworkError, "Failed to connect to server");
    assert_eq!(error.kind, ErrorType::NetworkError);
    assert_eq!(error.message, "Failed to connect to server");
}

#[test]
fn error_with_detail_joins_prefix_and_detail() {
    let error = Error::with_detail(ErrorType::VersionError, "Invalid version: ", "1.x");
    assert_eq!(error.kind, ErrorType::VersionError);
    assert_eq!(error.message, "Invalid version: 1.x");
}

#[test]
fn error_renders_as_its_line() {
    let error = Error::new(ErrorType::HttpError, "Received invalid reason phrase: Nope");
    assert_eq!(
        error.to_string(),
        "\u{1b}[1;31merror\u{1b}[0m HttpError: Received invalid reason phrase: Nope"
    );
}
