//! The install command: the version that it is given, the request that it
//! sends, and what it prints of the response.

use crate::headers::has_name;
use crate::http::{
    parsed_response, HttpMethod, HttpRequest, HttpRequestView, HttpResponse, HttpResponseView,
    CONTENT_LENGTH,
};
use crate::text::{decimal, push_decimal};
use crate::util::{Error, ErrorType, ErrorView};
use vstd::prelude::*;
use vstd::string::*;

verus! {

/// A semantic version: three numbers, and the pre-release and build
/// identifiers, each empty where the version has none.
#[derive(Debug)]
pub struct Version {
    pub major: u64,
    pub minor: u64,
    pub patch: u64,
    pub pre: String,
    pub build: String,
}

/// What a [`Version`] stands for.
pub struct VersionView {
    pub major: u64,
    pub minor: u64,
    pub patch: u64,
    pub pre: Seq<char>,
    pub build: Seq<char>,
}

impl View for Version {
    type V = VersionView;

    open spec fn view(&self) -> VersionView {
        VersionView {
            major: self.major,
            minor: self.minor,
            patch: self.patch,
            pre: self.pre@,
            build: self.build@,
        }
    }
}

/// What an optional version stands for.
pub open spec fn version_of(version: Option<Version>) -> Option<VersionView> {
    match version {
        Some(version) => Some(version@),
        None => None,
    }
}

/// A version as text: the three numbers with dots between them, then the
/// pre-release behind a hyphen and the build behind a plus sign, where the
/// version has them.
pub open spec fn version_text(version: VersionView) -> Seq<char> {
    decimal(version.major as nat) + "."@ + decimal(version.minor as nat) + "."@ + decimal(
        version.patch as nat,
    ) + (if version.pre.len() > 0 {
        "-"@ + version.pre
    } else {
        Seq::empty()
    }) + (if version.build.len() > 0 {
        "+"@ + version.build
    } else {
        Seq::empty()
    })
}

/// The version that the `semver` crate reads from a text, if it reads one.
pub uninterp spec fn semver_version(text: Seq<char>) -> Option<VersionView>;

/// Trusted: calls `semver::Version::parse` on the text and moves the fields
/// of the version that it gives, one for one, into a [`Version`]; the two
/// identifiers by their `as_str`. The contract claims only that what comes
/// back is a function of the text, and gives that function its name.
#[verifier::external_body]
fn semver_parse(text: &str) -> (version: Option<Version>)
    ensures
        version_of(version) == semver_version(text@),
{
    match semver::Version::parse(text) {
        Ok(version) => Some(
            Version {
                major: version.major,
                minor: version.minor,
                patch: version.patch,
                pre: version.pre.as_str().to_string(),
                build: version.build.as_str().to_string(),
            },
        ),
        Err(_) => None,
    }
}

/// The message that rejects a text that is no version starts with this.
pub const INVALID_VERSION: &'static str = "Invalid version: ";

/// The version of a text from which `read` was read: what was read, or a
/// `VersionError` that quotes the text where nothing was.
pub open spec fn accepted_version(text: Seq<char>, read: Option<VersionView>) -> Result<
    VersionView,
    ErrorView,
> {
    match read {
        Some(version) => Ok(version),
        None => Err(ErrorView { kind: ErrorType::VersionError, message: INVALID_VERSION@ + text }),
    }
}

/// What a result with a version stands for.
pub open spec fn version_result_of(result: Result<Version, Error>) -> Result<
    VersionView,
    ErrorView,
> {
    match result {
        Ok(version) => Ok(version@),
        Err(error) => Err(error@),
    }
}

impl Version {
    /// The version that was read from `text`, or the error for a text from
    /// which none was read.
    pub fn accept(text: &str, read: Option<Version>) -> (result: Result<Version, Error>)
        ensures
            version_result_of(result) == accepted_version(text@, version_of(read)),
    {
        match read {
            Some(version) => Ok(version),
            None => Err(Error::with_detail(ErrorType::VersionError, INVALID_VERSION, text)),
        }
    }

    /// Reads a semantic version. A text that is none is a `VersionError`
    /// that quotes the text.
    pub fn parse(text: &str) -> (result: Result<Version, Error>)
        ensures
            version_result_of(result) == accepted_version(text@, semver_version(text@)),
    {
        Version::accept(text, semver_parse(text))
    }

    /// The version as text.
    pub fn to_string(&self) -> (text: String)
        ensures
            text@ == version_text(self@),
    {
        let mut text = String::new();
        push_decimal(&mut text, self.major);
        text.append(".");
        push_decimal(&mut text, self.minor);
        text.append(".");
        push_decimal(&mut text, self.patch);
        if !self.pre.as_str().is_empty() {
            text.append("-");
            text.append(self.pre.as_str());
        }
        if !self.build.as_str().is_empty() {
            text.append("+");
            text.append(self.build.as_str());
        }
        text
    }
}

/// The address of the server that the request goes to.
pub const SERVER_ADDRESS: &'static str = "127.0.0.1:8080";

/// The name of the header that names the server.
pub const HOST: &'static str = "Host";

/// The server as the request names it.
pub const HOST_VALUE: &'static str = "localhost:8080";

/// The name of the header that names this client.
pub const USER_AGENT: &'static str = "User-Agent";

/// The name of this client; its version follows.
pub const USER_AGENT_PRODUCT: &'static str = "QVM/";

/// The name of the header that names the format asked for.
pub const ACCEPTS: &'static str = "Accepts";

/// The format asked for.
pub const ACCEPTS_VALUE: &'static str = "application/json";

/// The request of the install command, for a client of the given version.
pub open spec fn install_request_view(client_version: Seq<char>) -> HttpRequestView {
    HttpRequestView {
        method: HttpMethod::Get,
        headers: seq![
            (CONTENT_LENGTH@, decimal(0)),
            (HOST@, HOST_VALUE@),
            (USER_AGENT@, USER_AGENT_PRODUCT@ + client_version),
            (ACCEPTS@, ACCEPTS_VALUE@),
        ],
        body: Seq::empty(),
    }
}

/// What is printed of a response: the status code, the reason phrase, an
/// empty line and the body.
pub open spec fn report_text(response: HttpResponseView) -> Seq<char> {
    decimal(response.status_code as nat) + " "@ + response.reason + "\n\n"@ + response.body
}

/// The request of the install command: a `GET` without body, with the
/// headers `Host`, `User-Agent` and `Accepts` behind `Content-Length`.
pub fn install_request(client_version: &str) -> (request: HttpRequest)
    ensures
        request@ == install_request_view(client_version@),
{
    let mut agent = USER_AGENT_PRODUCT.to_owned();
    agent.append(client_version);
    let mut request = HttpRequest::new(HttpMethod::Get, String::new());
    let ghost first = request@.headers;
    request.add_header(HOST, HOST_VALUE);
    let ghost second = request@.headers;
    request.add_header(USER_AGENT, agent.as_str());
    let ghost third = request@.headers;
    request.add_header(ACCEPTS, ACCEPTS_VALUE);
    proof {
        reveal_strlit("Content-Length");
        reveal_strlit("Host");
        reveal_strlit("User-Agent");
        reveal_strlit("Accepts");
        assert(CONTENT_LENGTH@.len() == 14 && HOST@.len() == 4 && USER_AGENT@.len() == 10
            && ACCEPTS@.len() == 7);
        assert(!has_name(first, HOST@));
        assert(!has_name(second, USER_AGENT@));
        assert(!has_name(third, ACCEPTS@));
        assert(request@.headers =~= install_request_view(client_version@).headers);
    }
    request
}

/// What is printed of a response.
pub fn install_report(response: &HttpResponse) -> (text: String)
    ensures
        text@ == report_text(response@),
{
    let mut text = String::new();
    push_decimal(&mut text, response.status_code as u64);
    text.append(" ");
    text.append(response.reason.as_str());
    text.append("\n\n");
    text.append(response.body.as_str());
    text
}

/// What the install command does for a version: the address that it
/// connects to and the request that it sends.
#[derive(Debug)]
pub struct Exchange {
    pub address: String,
    pub request: HttpRequest,
}

/// What an [`Exchange`] stands for.
pub struct ExchangeView {
    pub address: Seq<char>,
    pub request: HttpRequestView,
}

impl View for Exchange {
    type V = ExchangeView;

    open spec fn view(&self) -> ExchangeView {
        ExchangeView { address: self.address@, request: self.request@ }
    }
}

/// What a result with an exchange stands for.
pub open spec fn exchange_of(result: Result<Exchange, Error>) -> Result<ExchangeView, ErrorView> {
    match result {
        Ok(exchange) => Ok(exchange@),
        Err(error) => Err(error@),
    }
}

/// The first step of the install command for a version argument and what
/// was read from it: the exchange with the server, or, where no version was
/// read, a `VersionError` and nothing to connect to.
pub open spec fn install_plan(
    argument: Seq<char>,
    read: Option<VersionView>,
    client_version: Seq<char>,
) -> Result<ExchangeView, ErrorView> {
    match accepted_version(argument, read) {
        Ok(_) => Ok(
            ExchangeView {
                address: SERVER_ADDRESS@,
                request: install_request_view(client_version),
            },
        ),
        Err(error) => Err(error),
    }
}

/// The second step of the install command: what is printed of the response
/// that the received bytes stand for, or the error that refuses them.
pub open spec fn install_outcome(received: Seq<u8>) -> Result<Seq<char>, ErrorView> {
    match parsed_response(received) {
        Ok(response) => Ok(report_text(response)),
        Err(error) => Err(error),
    }
}

/// What a result with a text stands for.
pub open spec fn text_of(result: Result<String, Error>) -> Result<Seq<char>, ErrorView> {
    match result {
        Ok(text) => Ok(text@),
        Err(error) => Err(error@),
    }
}

/// Plans the exchange for a version argument from which `read` was read.
pub fn plan_install(argument: &str, read: Option<Version>, client_version: &str) -> (result:
    Result<Exchange, Error>)
    ensures
        exchange_of(result) == install_plan(argument@, version_of(read), client_version@),
{
    Version::accept(argument, read)?;
    Ok(Exchange { address: SERVER_ADDRESS.to_owned(), request: install_request(client_version) })
}

/// The first step of the install command: reads the version argument and
/// plans the exchange with the server. An argument that is no semantic
/// version gives a `VersionError`, and with it nothing to connect to.
pub fn begin_install(argument: &str, client_version: &str) -> (result: Result<Exchange, Error>)
    ensures
        exchange_of(result) == install_plan(
            argument@,
            semver_version(argument@),
            client_version@,
        ),
        semver_version(argument@) is None ==> (result matches Err(error) && error.kind
            == ErrorType::VersionError),
{
    plan_install(argument, semver_parse(argument), client_version)
}

/// The second step of the install command: reads the response from the
/// bytes that were received and gives what is printed of it.
pub fn finish_install(received: &[u8]) -> (result: Result<String, Error>)
    ensures
        text_of(result) == install_outcome(received@),
{
    let response = HttpResponse::parse(received)?;
    Ok(install_report(&response))
}

} // verus!
