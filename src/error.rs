use crate::text::{decimal, decimal_string};
use vstd::prelude::*;

verus! {

/// A malformed answer of the wiki's search API.
#[derive(Debug, Clone, Copy, PartialEq, Eq, Structural)]
pub enum InvalidApiResponse {
    OpenSearchMissingNthElement(usize),
    OpenSearchNthElementShouldBeArray(usize),
    OpenSearchArraysLengthMismatch,
}

/// Everything that can go wrong, each with the message of its cause.
#[derive(Debug)]
pub enum WikiError {
    Network(String),
    YamlParsing(String),
    JsonParsing(String),
    UrlParseError(String),
    InvalidApiResponse(InvalidApiResponse),
    NoPageFound(String),
    IO(String),
    Path(String),
    SystemTime(String),
}

/// Kinds of error, as handed to a web front end.
#[derive(Debug, Clone, Copy, PartialEq, Eq, Structural)]
pub enum WasmWikiErrorKind {
    Network,
    YamlParsing,
    JsonParsing,
    JsValueParsing,
    UrlParseError,
    InvalidApiResponse,
    NoPageFound,
}

/// An error with its kind and its message, as handed to a web front end.
#[derive(Debug)]
pub struct WasmWikiError {
    pub kind: WasmWikiErrorKind,
    pub error: String,
}

/// The text that describes a malformed search answer.
pub open spec fn api_message(e: InvalidApiResponse) -> Seq<char> {
    match e {
        InvalidApiResponse::OpenSearchMissingNthElement(n) => "missing element #"@ + decimal(
            n as nat,
        ) + " in open search response"@,
        InvalidApiResponse::OpenSearchNthElementShouldBeArray(n) => "expected element #"@
            + decimal(n as nat) + " in open search response to be an array"@,
        InvalidApiResponse::OpenSearchArraysLengthMismatch =>
            "arrays in open search response should have the same length but do not"@,
    }
}

/// The text that describes an error.
pub open spec fn error_message(e: WikiError) -> Seq<char> {
    match e {
        WikiError::Network(m) => "A network error occurred.\nERROR: "@ + m@,
        WikiError::YamlParsing(m) => "A yaml parsing/serialization error occurred.\nERROR: "@ + m@,
        WikiError::JsonParsing(m) => "A json parsing/serialization error occurred.\nERROR: "@ + m@,
        WikiError::UrlParseError(m) => "A URL parsing error occured.\nERROR: "@ + m@,
        WikiError::InvalidApiResponse(r) => "An invalid api response was received.\nERROR: "@
            + api_message(r),
        WikiError::NoPageFound(m) => m@,
        WikiError::IO(m) => "An IO error occurred.\nERROR: "@ + m@,
        WikiError::Path(m) => "A path error occurred.\nERROR: "@ + m@,
        WikiError::SystemTime(m) => "A system time error occurred.\nERROR: "@ + m@,
    }
}

fn prefixed(prefix: &str, m: &str) -> (r: String)
    ensures
        r@ == prefix@ + m@,
{
    let mut r = String::from_str(prefix);
    r.append(m);
    r
}

impl InvalidApiResponse {
    /// Describes the malformed answer.
    pub fn message(&self) -> (r: String)
        ensures
            r@ == api_message(*self),
    {
        match self {
            InvalidApiResponse::OpenSearchMissingNthElement(n) => {
                let mut r = String::from_str("missing element #");
                r.append(decimal_string(*n).as_str());
                r.append(" in open search response");
                r
            },
            InvalidApiResponse::OpenSearchNthElementShouldBeArray(n) => {
                let mut r = String::from_str("expected element #");
                r.append(decimal_string(*n).as_str());
                r.append(" in open search response to be an array");
                r
            },
            InvalidApiResponse::OpenSearchArraysLengthMismatch => String::from_str(
                "arrays in open search response should have the same length but do not",
            ),
        }
    }
}

impl WikiError {
    /// Describes the error.
    pub fn message(&self) -> (r: String)
        ensures
            r@ == error_message(*self),
    {
        match self {
            WikiError::Network(m) => prefixed("A network error occurred.\nERROR: ", m.as_str()),
            WikiError::YamlParsing(m) => prefixed(
                "A yaml parsing/serialization error occurred.\nERROR: ",
                m.as_str(),
            ),
            WikiError::JsonParsing(m) => prefixed(
                "A json parsing/serialization error occurred.\nERROR: ",
                m.as_str(),
            ),
            WikiError::UrlParseError(m) => prefixed(
                "A URL parsing error occured.\nERROR: ",
                m.as_str(),
            ),
            WikiError::InvalidApiResponse(r) => prefixed(
                "An invalid api response was received.\nERROR: ",
                r.message().as_str(),
            ),
            WikiError::NoPageFound(m) => m.clone(),
            WikiError::IO(m) => prefixed("An IO error occurred.\nERROR: ", m.as_str()),
            WikiError::Path(m) => prefixed("A path error occurred.\nERROR: ", m.as_str()),
            WikiError::SystemTime(m) => prefixed(
                "A system time error occurred.\nERROR: ",
                m.as_str(),
            ),
        }
    }

    /// A copy of the error.
    pub fn duplicate(&self) -> (r: WikiError)
        ensures
            r == *self,
    {
        match self {
            WikiError::Network(m) => WikiError::Network(m.clone()),
            WikiError::YamlParsing(m) => WikiError::YamlParsing(m.clone()),
            WikiError::JsonParsing(m) => WikiError::JsonParsing(m.clone()),
            WikiError::UrlParseError(m) => WikiError::UrlParseError(m.clone()),
            WikiError::InvalidApiResponse(r) => WikiError::InvalidApiResponse(*r),
            WikiError::NoPageFound(m) => WikiError::NoPageFound(m.clone()),
            WikiError::IO(m) => WikiError::IO(m.clone()),
            WikiError::Path(m) => WikiError::Path(m.clone()),
            WikiError::SystemTime(m) => WikiError::SystemTime(m.clone()),
        }
    }
}

/// The front-end kind of an error; errors that only the command line meets
/// have none.
pub open spec fn kind_of(e: WikiError) -> Option<WasmWikiErrorKind> {
    match e {
        WikiError::Network(_) => Some(WasmWikiErrorKind::Network),
        WikiError::YamlParsing(_) => Some(WasmWikiErrorKind::YamlParsing),
        WikiError::JsonParsing(_) => Some(WasmWikiErrorKind::JsonParsing),
        WikiError::UrlParseError(_) => Some(WasmWikiErrorKind::UrlParseError),
        WikiError::InvalidApiResponse(_) => Some(WasmWikiErrorKind::InvalidApiResponse),
        WikiError::NoPageFound(_) => Some(WasmWikiErrorKind::NoPageFound),
        _ => None,
    }
}

impl WasmWikiErrorKind {
    /// The front-end kind of an error, if it has one.
    pub fn of(e: &WikiError) -> (r: Option<WasmWikiErrorKind>)
        ensures
            r == kind_of(*e),
    {
        match e {
            WikiError::Network(_) => Some(WasmWikiErrorKind::Network),
            WikiError::YamlParsing(_) => Some(WasmWikiErrorKind::YamlParsing),
            WikiError::JsonParsing(_) => Some(WasmWikiErrorKind::JsonParsing),
            WikiError::UrlParseError(_) => Some(WasmWikiErrorKind::UrlParseError),
            WikiError::InvalidApiResponse(_) => Some(WasmWikiErrorKind::InvalidApiResponse),
            WikiError::NoPageFound(_) => Some(WasmWikiErrorKind::NoPageFound),
            _ => None,
        }
    }
}

impl WasmWikiError {
    /// The error as a front end sees it; `None` for the errors that only the
    /// command line meets.
    pub fn from_error(e: &WikiError) -> (r: Option<WasmWikiError>)
        ensures
            match r {
                Some(w) => kind_of(*e) == Some(w.kind) && w.error@ == error_message(*e),
                None => kind_of(*e) is None,
            },
    {
        match WasmWikiErrorKind::of(e) {
            Some(kind) => Some(WasmWikiError { kind, error: e.message() }),
            None => None,
        }
    }

    /// The kind of the error.
    pub fn kind(&self) -> (r: WasmWikiErrorKind)
        ensures
            r == self.kind,
    {
        self.kind
    }

    /// The message of the error.
    pub fn error(&self) -> (r: String)
        ensures
            r@ == self.error@,
    {
        self.error.clone()
    }
}

} // verus!
