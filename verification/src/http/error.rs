//! Http related errors
use super::message::{Header, Response};
use super::status;
use crate::util::Either;
use vstd::std_specs::convert::FromSpecImpl;
use vstd::prelude::*;
use vstd::slice::slice_to_vec;
use vstd::string::*;
use vstd::utf8::encode_utf8;

verus! {

/// The error of the `httparse` crate, an enum without fields. Its
/// variants are read from that crate as they stand there, so nothing about
/// them is assumed here.
#[verifier::external_type_specification]
pub struct ExHttparseError(httparse::Error);

/// `http::uri::InvalidUri`, carried along unread.
#[verifier::external_type_specification]
#[verifier::external_body]
pub struct ExInvalidUri(::http::uri::InvalidUri);

/// `http::Error`, carried along unread.
#[verifier::external_type_specification]
#[verifier::external_body]
pub struct ExHttpError(::http::Error);

/// `h2::Error`, carried along unread.
#[verifier::external_type_specification]
#[verifier::external_body]
pub struct ExH2Error(h2::Error);

/// `serde_json::Error`, carried along unread.
#[verifier::external_type_specification]
#[verifier::external_body]
pub struct ExJsonError(serde_json::Error);

/// `std::io::Error`, carried along unread.
#[verifier::external_type_specification]
#[verifier::external_body]
pub struct ExIoError(std::io::Error);

/// `std::str::Utf8Error`, carried along unread.
#[verifier::external_type_specification]
#[verifier::external_body]
pub struct ExUtf8Error(core::str::Utf8Error);

/// `std::string::FromUtf8Error`, carried along unread.
#[verifier::external_type_specification]
#[verifier::external_body]
pub struct ExFromUtf8Error(std::string::FromUtf8Error);

/// Name of the header that tells the type of a body.
pub open spec fn content_type_name() -> Seq<u8> {
    encode_utf8("content-type"@)
}

/// Type of a body of plain text.
pub open spec fn text_plain() -> Seq<u8> {
    encode_utf8("text/plain; charset=utf-8"@)
}

/// Whether `res` is the internal-server-error response with `text` as its
/// body: status 500, one header that declares plain text, the text in
/// UTF-8.
pub open spec fn is_internal_error(res: Response, text: Seq<char>) -> bool {
    &&& res.status == status::INTERNAL_SERVER_ERROR
    &&& res.headers@.len() == 1
    &&& res.headers@[0].name@ == content_type_name()
    &&& res.headers@[0].value@ == text_plain()
    &&& res.body@ == encode_utf8(text)
    &&& !res.upgrade
}

/// Builds the internal-server-error response with `text` as its body.
pub fn internal_error(text: &str) -> (res: Response)
    ensures
        is_internal_error(res, text@),
{
    let mut res = Response::new(status::INTERNAL_SERVER_ERROR);
    res.headers.push(
        Header {
            name: slice_to_vec("content-type".as_bytes()),
            value: slice_to_vec("text/plain; charset=utf-8".as_bytes()),
        },
    );
    res.body = slice_to_vec(text.as_bytes());
    res
}

/// Error that can be converted to `Response`
pub trait ResponseError {
    /// `text` is a description of this error in words.
    open spec fn describes(&self, text: String) -> bool {
        true
    }

    /// Describes the error in words.
    fn message(&self) -> (text: String)
        ensures
            self.describes(text),
    ;

    /// Create response for error
    ///
    /// Internal server error is generated by default.
    fn error_response(&self) -> (res: Response)
        default_ensures
            exists|text: String| #[trigger] self.describes(text) && is_internal_error(res, text@),
    {
        let text = self.message();
        internal_error(text.as_str())
    }
}

/// Nothing has this error, so there is nothing to say of it: its
/// description is the empty text.
impl ResponseError for core::convert::Infallible {
    open spec fn describes(&self, text: String) -> bool {
        text@ == Seq::<char>::empty()
    }

    fn message(&self) -> (text: String) {
        String::new()
    }
}

impl<'a, T: ResponseError> ResponseError for &'a T {
    open spec fn describes(&self, text: String) -> bool {
        (**self).describes(text)
    }

    fn message(&self) -> (text: String) {
        (*self).message()
    }

    /// The response is the one that the error behind the reference gives.
    fn error_response(&self) -> (res: Response)
        ensures
            call_ensures(T::error_response, (*self,), res),
    {
        (*self).error_response()
    }
}

/// An error converts to the response that it renders to.
impl<T: ResponseError> From<T> for Response {
    fn from(err: T) -> (resp: Response)
        ensures
            call_ensures(T::error_response, (&err,), resp),
    {
        err.error_response()
    }
}

impl<T: ResponseError> FromSpecImpl<T> for Response {
    /// The response is whatever the error's `error_response` gives; it is
    /// not a function of the error that could be written down here.
    open spec fn obeys_from_spec() -> bool {
        false
    }

    open spec fn from_spec(err: T) -> Response {
        arbitrary()
    }
}

/// Return `InternalServerError` for `HttpError`,
/// Response generation can return `HttpError`, so it is internal error
impl ResponseError for ::http::Error {
    open spec fn describes(&self, text: String) -> bool {
        to_string_from_display_ensures::<::http::Error>(self, text)
    }

    fn message(&self) -> (text: String) {
        self.to_string()
    }
}

/// Return `InternalServerError` for `io::Error`
impl ResponseError for std::io::Error {
    open spec fn describes(&self, text: String) -> bool {
        to_string_from_display_ensures::<std::io::Error>(self, text)
    }

    fn message(&self) -> (text: String) {
        self.to_string()
    }
}

/// `InternalServerError` for `JsonError`
impl ResponseError for serde_json::Error {
    open spec fn describes(&self, text: String) -> bool {
        to_string_from_display_ensures::<serde_json::Error>(self, text)
    }

    fn message(&self) -> (text: String) {
        self.to_string()
    }
}

/// A set of error that can occure during parsing content type
#[derive(Clone, Copy, Debug, PartialEq, Eq, Structural)]
pub enum ContentTypeError {
    /// Cannot parse content type
    ParseError,
    /// Unknown content encoding
    UnknownEncoding,
    /// Unexpected Content-Type
    Unexpected,
    /// Content-Type is expected
    Expected,
}

impl ContentTypeError {
    /// The error in words.
    pub open spec fn text(self) -> Seq<char> {
        match self {
            ContentTypeError::ParseError => "Cannot parse content type"@,
            ContentTypeError::UnknownEncoding => "Unknown content encoding"@,
            ContentTypeError::Unexpected => "Unexpected Content-Type"@,
            ContentTypeError::Expected => "Content-Type is expected"@,
        }
    }

    /// Describes the error in words.
    pub fn message(&self) -> (text: String)
        ensures
            text@ == self.text(),
    {
        match self {
            ContentTypeError::ParseError => "Cannot parse content type".to_owned(),
            ContentTypeError::UnknownEncoding => "Unknown content encoding".to_owned(),
            ContentTypeError::Unexpected => "Unexpected Content-Type".to_owned(),
            ContentTypeError::Expected => "Content-Type is expected".to_owned(),
        }
    }
}

/// The text that `{:?}` gives for a value.
///
/// Formats the value through its `Debug` impl. Nothing is claimed of the
/// text.
#[verifier::external_body]
pub(crate) fn debug_text<T: core::fmt::Debug>(value: &T) -> (text: String) {
    format!("{:?}", value)
}

/// Whether an I/O error says `message`: whatever text `to_string` gives
/// for the error is the message.
pub open spec fn io_error_says(e: std::io::Error, message: Seq<char>) -> bool {
    forall|text: String| #[trigger]
        to_string_from_display_ensures::<std::io::Error>(&e, text) ==> text@ == message
}

/// An I/O error of kind `Other` with the given message.
///
/// Calls `std::io::Error::other` with the message as the payload. Such an
/// error displays as its payload does, and a payload made of a string
/// displays as that string: the error says the message. Nothing is claimed
/// of the error's kind.
#[verifier::external_body]
pub(crate) fn io_error_other(message: &str) -> (e: std::io::Error)
    ensures
        io_error_says(e, message@),
{
    std::io::Error::other(message.to_owned())
}

/// The UTF-8 error inside the error of a failed conversion to a string.
pub assume_specification[ std::string::FromUtf8Error::utf8_error ](
    err: &std::string::FromUtf8Error,
) -> core::str::Utf8Error
;

/// A set of errors that can occur during parsing HTTP streams
#[derive(Debug)]
pub enum ParseError {
    /// An invalid `Method`, such as `GE.T`.
    Method,
    /// An invalid `Uri`, such as `exam ple.domain`.
    Uri(::http::uri::InvalidUri),
    /// An invalid `HttpVersion`, such as `HTP/1.1`
    Version,
    /// An invalid `Header`.
    Header,
    /// A message head is too large to be reasonable.
    TooLarge,
    /// A message reached EOF, but is not complete.
    Incomplete,
    /// An invalid `Status`, such as `1337 ELITE`.
    Status,
    /// A timeout occurred waiting for an IO event.
    Timeout,
    /// An `InvalidInput` occurred while trying to parse incoming stream.
    InvalidInput(&'static str),
    /// Parsing a field as string failed
    Utf8(core::str::Utf8Error),
}

impl ParseError {
    /// `text` is this error in words.
    pub open spec fn describes(&self, text: String) -> bool {
        match self {
            ParseError::Method => text@ == "Invalid Method specified"@,
            ParseError::Uri(e) => exists|inner: String| #[trigger]
                to_string_from_display_ensures::<::http::uri::InvalidUri>(e, inner) && text@
                    == "Uri error: "@ + inner@,
            ParseError::Version => text@ == "Invalid HTTP version specified"@,
            ParseError::Header => text@ == "Invalid Header provided"@,
            ParseError::TooLarge => text@ == "Message head is too large"@,
            ParseError::Incomplete => text@ == "Message is incomplete"@,
            ParseError::Status => text@ == "Invalid Status provided"@,
            ParseError::Timeout => text@ == "Timeout during parse"@,
            ParseError::InvalidInput(what) => text@
                == "`InvalidInput` occurred while trying to parse incoming stream: "@ + what@,
            ParseError::Utf8(e) => exists|inner: String| #[trigger]
                to_string_from_display_ensures::<core::str::Utf8Error>(e, inner) && text@
                    == "UTF8 error: "@ + inner@,
        }
    }

    /// Describes the error in words.
    pub fn message(&self) -> (text: String)
        ensures
            self.describes(text),
    {
        match self {
            ParseError::Method => "Invalid Method specified".to_owned(),
            ParseError::Uri(e) => {
                let inner = e.to_string();
                "Uri error: ".to_owned().concat(inner.as_str())
            },
            ParseError::Version => "Invalid HTTP version specified".to_owned(),
            ParseError::Header => "Invalid Header provided".to_owned(),
            ParseError::TooLarge => "Message head is too large".to_owned(),
            ParseError::Incomplete => "Message is incomplete".to_owned(),
            ParseError::Status => "Invalid Status provided".to_owned(),
            ParseError::Timeout => "Timeout during parse".to_owned(),
            ParseError::InvalidInput(what) => {
                "`InvalidInput` occurred while trying to parse incoming stream: ".to_owned().concat(
                    what,
                )
            },
            ParseError::Utf8(e) => {
                let inner = e.to_string();
                "UTF8 error: ".to_owned().concat(inner.as_str())
            },
        }
    }
}

impl From<::http::uri::InvalidUri> for ParseError {
    fn from(err: ::http::uri::InvalidUri) -> (r: ParseError) {
        ParseError::Uri(err)
    }
}

impl FromSpecImpl<::http::uri::InvalidUri> for ParseError {
    open spec fn obeys_from_spec() -> bool {
        true
    }

    open spec fn from_spec(err: ::http::uri::InvalidUri) -> ParseError {
        ParseError::Uri(err)
    }
}

impl From<core::str::Utf8Error> for ParseError {
    fn from(err: core::str::Utf8Error) -> (r: ParseError) {
        ParseError::Utf8(err)
    }
}

impl FromSpecImpl<core::str::Utf8Error> for ParseError {
    open spec fn obeys_from_spec() -> bool {
        true
    }

    open spec fn from_spec(err: core::str::Utf8Error) -> ParseError {
        ParseError::Utf8(err)
    }
}

impl From<std::string::FromUtf8Error> for ParseError {
    fn from(err: std::string::FromUtf8Error) -> (r: ParseError)
        ensures
            r is Utf8,
    {
        ParseError::Utf8(err.utf8_error())
    }
}

impl FromSpecImpl<std::string::FromUtf8Error> for ParseError {
    /// Which UTF-8 error comes out is not stated.
    open spec fn obeys_from_spec() -> bool {
        false
    }

    open spec fn from_spec(err: std::string::FromUtf8Error) -> ParseError {
        arbitrary()
    }
}

impl From<httparse::Error> for ParseError {
    fn from(err: httparse::Error) -> (r: ParseError) {
        match err {
            httparse::Error::HeaderName
            | httparse::Error::HeaderValue
            | httparse::Error::NewLine
            | httparse::Error::Token => ParseError::Header,
            httparse::Error::Status => ParseError::Status,
            httparse::Error::TooManyHeaders => ParseError::TooLarge,
            httparse::Error::Version => ParseError::Version,
        }
    }
}

impl FromSpecImpl<httparse::Error> for ParseError {
    open spec fn obeys_from_spec() -> bool {
        true
    }

    /// A malformed header name, header value, line end or token is a
    /// header error; the others keep their meaning.
    open spec fn from_spec(err: httparse::Error) -> ParseError {
        match err {
            httparse::Error::HeaderName => ParseError::Header,
            httparse::Error::HeaderValue => ParseError::Header,
            httparse::Error::NewLine => ParseError::Header,
            httparse::Error::Token => ParseError::Header,
            httparse::Error::Status => ParseError::Status,
            httparse::Error::TooManyHeaders => ParseError::TooLarge,
            httparse::Error::Version => ParseError::Version,
        }
    }
}

/// Blocking operation execution error
#[derive(Debug)]
pub enum BlockingError<E: core::fmt::Debug> {
    Error(E),
    Canceled,
}

impl<E: core::fmt::Debug> BlockingError<E> {
    /// Describes the error in words: the inner error as `{:?}` gives it,
    /// or a fixed text where the thread pool is gone.
    pub fn message(&self) -> (text: String)
        ensures
            self is Canceled ==> text@ == "Thread pool is gone"@,
    {
        match self {
            BlockingError::Error(e) => debug_text(e),
            BlockingError::Canceled => "Thread pool is gone".to_owned(),
        }
    }
}

/// A task that ran a blocking operation did not run to its end.
#[derive(Clone, Copy, Debug)]
pub struct JoinError;

/// The text that `{:?}` gives for an optional I/O error.
pub open spec fn describes_optional(err: Option<std::io::Error>, text: Seq<char>) -> bool {
    match err {
        None => text == "None"@,
        Some(_) => exists|inner: String| text == "Some("@ + inner@ + ")"@,
    }
}

/// Computes the text that `{:?}` gives for an optional I/O error.
fn optional_text(err: &Option<std::io::Error>) -> (text: String)
    ensures
        describes_optional(*err, text@),
{
    match err {
        None => "None".to_owned(),
        Some(e) => {
            let inner = debug_text(e);
            let text = "Some(".to_owned().concat(inner.as_str()).concat(")");
            text
        },
    }
}

/// A set of errors that can occur during payload parsing
#[derive(Debug)]
pub enum PayloadError {
    /// A payload reached EOF, but is not complete.
    Incomplete(Option<std::io::Error>),
    /// Content encoding stream corruption
    EncodingCorrupted,
    /// A payload reached size limit.
    Overflow,
    /// A payload length is unknown.
    UnknownLength,
    /// Http2 payload error
    Http2Payload(h2::Error),
    /// Parse error
    Parse(ParseError),
    /// Io error
    Io(std::io::Error),
}

impl PayloadError {
    /// `text` is this error in words.
    pub open spec fn describes(&self, text: String) -> bool {
        match self {
            PayloadError::Incomplete(err) => exists|inner: Seq<char>| #[trigger]
                describes_optional(*err, inner) && text@
                    == "A payload reached EOF, but is not complete. With error: "@ + inner,
            PayloadError::EncodingCorrupted => text@ == "Cannot decode content-encoding."@,
            PayloadError::Overflow => text@ == "A payload reached size limit."@,
            PayloadError::UnknownLength => text@ == "A payload length is unknown."@,
            PayloadError::Http2Payload(e) => to_string_from_display_ensures::<h2::Error>(e, text),
            PayloadError::Parse(e) => exists|inner: String| #[trigger]
                e.describes(inner) && text@ == "Parse error: "@ + inner@,
            PayloadError::Io(e) => to_string_from_display_ensures::<std::io::Error>(e, text),
        }
    }

    /// Describes the error in words.
    pub fn message(&self) -> (text: String)
        ensures
            self.describes(text),
    {
        match self {
            PayloadError::Incomplete(err) => {
                let inner = optional_text(err);
                "A payload reached EOF, but is not complete. With error: ".to_owned().concat(
                    inner.as_str(),
                )
            },
            PayloadError::EncodingCorrupted => "Cannot decode content-encoding.".to_owned(),
            PayloadError::Overflow => "A payload reached size limit.".to_owned(),
            PayloadError::UnknownLength => "A payload length is unknown.".to_owned(),
            PayloadError::Http2Payload(e) => e.to_string(),
            PayloadError::Parse(e) => {
                let inner = e.message();
                "Parse error: ".to_owned().concat(inner.as_str())
            },
            PayloadError::Io(e) => e.to_string(),
        }
    }
}

impl From<h2::Error> for PayloadError {
    fn from(err: h2::Error) -> (r: PayloadError) {
        PayloadError::Http2Payload(err)
    }
}

impl FromSpecImpl<h2::Error> for PayloadError {
    open spec fn obeys_from_spec() -> bool {
        true
    }

    open spec fn from_spec(err: h2::Error) -> PayloadError {
        PayloadError::Http2Payload(err)
    }
}

impl From<ParseError> for PayloadError {
    fn from(err: ParseError) -> (r: PayloadError) {
        PayloadError::Parse(err)
    }
}

impl FromSpecImpl<ParseError> for PayloadError {
    open spec fn obeys_from_spec() -> bool {
        true
    }

    open spec fn from_spec(err: ParseError) -> PayloadError {
        PayloadError::Parse(err)
    }
}

impl From<std::io::Error> for PayloadError {
    fn from(err: std::io::Error) -> (r: PayloadError) {
        PayloadError::Io(err)
    }
}

impl FromSpecImpl<std::io::Error> for PayloadError {
    open spec fn obeys_from_spec() -> bool {
        true
    }

    open spec fn from_spec(err: std::io::Error) -> PayloadError {
        PayloadError::Io(err)
    }
}

impl From<Either<PayloadError, std::io::Error>> for PayloadError {
    fn from(err: Either<PayloadError, std::io::Error>) -> (r: PayloadError) {
        match err {
            Either::Left(err) => err,
            Either::Right(err) => PayloadError::Io(err),
        }
    }
}

impl FromSpecImpl<Either<PayloadError, std::io::Error>> for PayloadError {
    open spec fn obeys_from_spec() -> bool {
        true
    }

    /// A payload error stays what it is; an I/O error is wrapped.
    open spec fn from_spec(err: Either<PayloadError, std::io::Error>) -> PayloadError {
        match err {
            Either::Left(err) => err,
            Either::Right(err) => PayloadError::Io(err),
        }
    }
}

/// Whether a payload error stands for a canceled operation: it is an I/O
/// error that says "Operation is canceled".
pub open spec fn is_canceled(r: PayloadError) -> bool {
    r matches PayloadError::Io(e) && io_error_says(e, "Operation is canceled"@)
}

/// The payload error that stands for a canceled operation.
fn canceled() -> (r: PayloadError)
    ensures
        is_canceled(r),
{
    PayloadError::Io(io_error_other("Operation is canceled"))
}

/// The text of a payload error that stands for a canceled operation says
/// so.
pub proof fn lemma_canceled_text(r: PayloadError, text: String)
    requires
        is_canceled(r),
        r.describes(text),
    ensures
        text@ == "Operation is canceled"@,
{
}

impl From<JoinError> for PayloadError {
    /// A task that did not run to its end is a canceled operation.
    fn from(err: JoinError) -> (r: PayloadError)
        ensures
            is_canceled(r),
    {
        canceled()
    }
}

impl FromSpecImpl<JoinError> for PayloadError {
    /// The result is no function of the argument that could be written
    /// down here: `from` says what holds of it.
    open spec fn obeys_from_spec() -> bool {
        false
    }

    open spec fn from_spec(err: JoinError) -> PayloadError {
        arbitrary()
    }
}

impl From<BlockingError<std::io::Error>> for PayloadError {
    /// The inner I/O error is wrapped; a canceled operation becomes an I/O
    /// error that says so.
    fn from(err: BlockingError<std::io::Error>) -> (r: PayloadError)
        ensures
            match err {
                BlockingError::Error(e) => r == PayloadError::Io(e),
                BlockingError::Canceled => is_canceled(r),
            },
    {
        match err {
            BlockingError::Error(e) => PayloadError::Io(e),
            BlockingError::Canceled => canceled(),
        }
    }
}

impl FromSpecImpl<BlockingError<std::io::Error>> for PayloadError {
    /// The result is no function of the argument that could be written
    /// down here: `from` says what holds of it.
    open spec fn obeys_from_spec() -> bool {
        false
    }

    open spec fn from_spec(err: BlockingError<std::io::Error>) -> PayloadError {
        arbitrary()
    }
}

/// A set of errors that can occur during dispatching http requests
#[derive(Debug)]
pub enum DispatchError {
    /// Service error, with the response that it renders to
    Service(Response),
    /// Upgrade service error, with its description
    Upgrade(String),
    /// Peer is disconnected, error indicates that peer is disconnected because of it
    PeerGone(Option<std::io::Error>),
    /// Http request parse error.
    Parse(ParseError),
    /// Http response encoding error.
    Encode(std::io::Error),
    /// Http/2 error
    H2(h2::Error),
    /// The first request did not complete within the specified timeout.
    SlowRequestTimeout,
    /// Disconnect timeout. Makes sense for ssl streams.
    DisconnectTimeout,
    /// Payload is not consumed
    PayloadIsNotConsumed,
    /// Malformed request
    MalformedRequest,
    /// Response body processing error, with its description
    ResponsePayload(String),
    /// Internal error
    InternalError,
    /// Unknown error
    Unknown,
}

impl DispatchError {
    /// `text` is this error in words.
    pub open spec fn describes(&self, text: String) -> bool {
        match self {
            DispatchError::Service(_) => text@ == "Service error"@,
            DispatchError::Upgrade(what) => text@ == "Upgrade service error: "@ + what@,
            DispatchError::PeerGone(err) => exists|inner: Seq<char>| #[trigger]
                describes_optional(*err, inner) && text@ == "Disconnected: "@ + inner,
            DispatchError::Parse(e) => exists|inner: String| #[trigger]
                e.describes(inner) && text@ == "Parse error: "@ + inner@,
            DispatchError::Encode(e) => exists|inner: String| #[trigger]
                to_string_from_display_ensures::<std::io::Error>(e, inner) && text@
                    == "Encode error: "@ + inner@,
            DispatchError::H2(e) => to_string_from_display_ensures::<h2::Error>(e, text),
            DispatchError::SlowRequestTimeout => text@
                == "The first request did not complete within the specified timeout"@,
            DispatchError::DisconnectTimeout => text@ == "Connection shutdown timeout"@,
            DispatchError::PayloadIsNotConsumed => text@
                == "Task is completed but request's payload is not consumed"@,
            DispatchError::MalformedRequest => text@ == "Malformed request"@,
            DispatchError::ResponsePayload(what) => text@ == "Response body processing error: "@
                + what@,
            DispatchError::InternalError => text@ == "Internal error"@,
            DispatchError::Unknown => text@ == "Unknown error"@,
        }
    }

    /// Describes the error in words.
    pub fn message(&self) -> (text: String)
        ensures
            self.describes(text),
    {
        match self {
            DispatchError::Service(_) => "Service error".to_owned(),
            DispatchError::Upgrade(what) => "Upgrade service error: ".to_owned().concat(
                what.as_str(),
            ),
            DispatchError::PeerGone(err) => {
                let inner = optional_text(err);
                "Disconnected: ".to_owned().concat(inner.as_str())
            },
            DispatchError::Parse(e) => {
                let inner = e.message();
                "Parse error: ".to_owned().concat(inner.as_str())
            },
            DispatchError::Encode(e) => {
                let inner = e.to_string();
                "Encode error: ".to_owned().concat(inner.as_str())
            },
            DispatchError::H2(e) => e.to_string(),
            DispatchError::SlowRequestTimeout => {
                "The first request did not complete within the specified timeout".to_owned()
            },
            DispatchError::DisconnectTimeout => "Connection shutdown timeout".to_owned(),
            DispatchError::PayloadIsNotConsumed => {
                "Task is completed but request's payload is not consumed".to_owned()
            },
            DispatchError::MalformedRequest => "Malformed request".to_owned(),
            DispatchError::ResponsePayload(what) => "Response body processing error: ".to_owned().concat(
                what.as_str(),
            ),
            DispatchError::InternalError => "Internal error".to_owned(),
            DispatchError::Unknown => "Unknown error".to_owned(),
        }
    }
}

impl From<ParseError> for DispatchError {
    fn from(err: ParseError) -> (r: DispatchError) {
        DispatchError::Parse(err)
    }
}

impl FromSpecImpl<ParseError> for DispatchError {
    open spec fn obeys_from_spec() -> bool {
        true
    }

    open spec fn from_spec(err: ParseError) -> DispatchError {
        DispatchError::Parse(err)
    }
}

impl From<h2::Error> for DispatchError {
    fn from(err: h2::Error) -> (r: DispatchError) {
        DispatchError::H2(err)
    }
}

impl FromSpecImpl<h2::Error> for DispatchError {
    open spec fn obeys_from_spec() -> bool {
        true
    }

    open spec fn from_spec(err: h2::Error) -> DispatchError {
        DispatchError::H2(err)
    }
}

impl From<std::io::Error> for DispatchError {
    fn from(err: std::io::Error) -> (r: DispatchError) {
        DispatchError::PeerGone(Some(err))
    }
}

impl FromSpecImpl<std::io::Error> for DispatchError {
    open spec fn obeys_from_spec() -> bool {
        true
    }

    /// An I/O error means that the peer is gone because of it.
    open spec fn from_spec(err: std::io::Error) -> DispatchError {
        DispatchError::PeerGone(Some(err))
    }
}

} // verus!
