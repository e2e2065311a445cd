use crate::response::{json_response, HttpResponse, HttpResponseView};
use vstd::prelude::*;
use vstd::std_specs::convert::FromSpecImpl;
use vstd::string::StringExecFns;

verus! {

/// The status of a request that the server could not read or accept.
pub const BAD_REQUEST: u16 = 400;

/// The status of a request for a path that the server does not know.
pub const NOT_FOUND: u16 = 404;

/// The status of a request with a method that the path does not take.
pub const METHOD_NOT_ALLOWED: u16 = 405;

/// The status of a request that failed through a fault of the server.
pub const INTERNAL_SERVER_ERROR: u16 = 500;

/// True for the statuses that blame the client: 400 to 499.
pub open spec fn is_client_error(code: u16) -> bool {
    400 <= code < 500
}

/// True for the statuses that blame the server: 500 to 599.
pub open spec fn is_server_error(code: u16) -> bool {
    500 <= code < 600
}

/// True for the client-error statuses that have a standard reason phrase.
pub open spec fn has_client_reason(code: u16) -> bool {
    ||| 400 <= code <= 418
    ||| 421 <= code <= 424
    ||| code == 426
    ||| code == 428
    ||| code == 429
    ||| code == 431
    ||| code == 451
}

/// The standard reason phrase of a status, where it has one.
pub uninterp spec fn canonical_reason(code: u16) -> Option<Seq<char>>;

/// The view of `phrase`, where there is one.
pub open spec fn phrase_view(phrase: Option<String>) -> Option<Seq<char>> {
    match phrase {
        Some(p) => Some(p@),
        None => None,
    }
}

/// `http::StatusCode::canonical_reason`, on the status with the number
/// `code`. The phrase depends on the number alone. A client-error status has
/// one exactly where `has_client_reason` says so, and the phrases of 400,
/// 404, 405 and 500 are those of the HTTP standard.
#[verifier::external_body]
fn reason_phrase(code: u16) -> (phrase: Option<String>)
    requires
        100 <= code < 1000,
    ensures
        phrase_view(phrase) == canonical_reason(code),
        is_client_error(code) ==> (phrase is Some <==> has_client_reason(code)),
        code == BAD_REQUEST ==> phrase_view(phrase) == Some("Bad Request"@),
        code == NOT_FOUND ==> phrase_view(phrase) == Some("Not Found"@),
        code == METHOD_NOT_ALLOWED ==> phrase_view(phrase) == Some("Method Not Allowed"@),
        code == INTERNAL_SERVER_ERROR ==> phrase_view(phrase) == Some("Internal Server Error"@),
{
    match http::StatusCode::from_u16(code) {
        Ok(status) => status.canonical_reason().map(String::from),
        Err(_) => None,
    }
}

/// An error raised while a request is handled. It is answered with
/// `status_code` and `external_message`; `internal_message` is for the
/// server's own log and never leaves it.
#[derive(Debug)]
pub struct HttpError {
    status_code: u16,
    external_message: String,
    internal_message: String,
}

/// What an `HttpError` is in contracts.
pub ghost struct HttpErrorView {
    pub status_code: u16,
    pub external_message: Seq<char>,
    pub internal_message: Seq<char>,
}

impl View for HttpError {
    type V = HttpErrorView;

    closed spec fn view(&self) -> HttpErrorView {
        HttpErrorView {
            status_code: self.status_code,
            external_message: self.external_message@,
            internal_message: self.internal_message@,
        }
    }
}

/// The error of a client with one message for the client and the log.
pub open spec fn client_error(code: u16, message: Seq<char>) -> HttpErrorView {
    HttpErrorView { status_code: code, external_message: message, internal_message: message }
}

/// The error of the server that tells the client no more than the standard
/// phrase of status 500.
pub open spec fn internal_error(message_internal: Seq<char>) -> HttpErrorView {
    HttpErrorView {
        status_code: INTERNAL_SERVER_ERROR,
        external_message: "Internal Server Error"@,
        internal_message: message_internal,
    }
}

/// The text in front of what a parser says of a body that it refused.
pub const INVALID_INPUT_PREFIX: &'static str = "invalid input: ";

/// The text in front of what the transport says of a request that it could
/// not deliver or a response that it could not build.
pub const PROCESSING_ERROR_PREFIX: &'static str = "error processing request: ";

impl HttpError {
    /// Every error has a status of the client-error or server-error range.
    #[verifier::type_invariant]
    spec fn status_is_error(self) -> bool {
        is_client_error(self.status_code) || is_server_error(self.status_code)
    }

    /// The status that the error is answered with.
    pub fn status_code(&self) -> (code: u16)
        ensures
            code == self@.status_code,
            is_client_error(code) || is_server_error(code),
    {
        proof {
            use_type_invariant(self);
        }
        self.status_code
    }

    /// The message that is sent to the client.
    pub fn external_message(&self) -> (message: &str)
        ensures
            message@ == self@.external_message,
    {
        self.external_message.as_str()
    }

    /// The message that is kept for the log.
    pub fn internal_message(&self) -> (message: &str)
        ensures
            message@ == self@.internal_message,
    {
        self.internal_message.as_str()
    }

    /// The error of a request that the server could not accept, with one
    /// message for the client and the log.
    pub fn for_bad_request(message: String) -> (e: Self)
        ensures
            e@ == client_error(BAD_REQUEST, message@),
    {
        HttpError::for_client_error(BAD_REQUEST, message)
    }

    /// The error of a client for a status with a standard reason phrase,
    /// which is its message for the client and the log.
    pub fn for_status(code: u16) -> (e: Self)
        requires
            is_client_error(code),
            has_client_reason(code),
        ensures
            canonical_reason(code) matches Some(phrase) && e@ == client_error(code, phrase),
            code == BAD_REQUEST ==> e@ == client_error(code, "Bad Request"@),
            code == NOT_FOUND ==> e@ == client_error(code, "Not Found"@),
            code == METHOD_NOT_ALLOWED ==> e@ == client_error(code, "Method Not Allowed"@),
    {
        let message = reason_phrase(code).unwrap();
        HttpError::for_client_error(code, message)
    }

    /// The error of a client with a status of the 4xx range and one message
    /// for the client and the log.
    pub fn for_client_error(code: u16, message: String) -> (e: Self)
        requires
            is_client_error(code),
        ensures
            e@ == client_error(code, message@),
    {
        HttpError {
            status_code: code,
            internal_message: message.clone(),
            external_message: message,
        }
    }

    /// The error of a fault of the server. The client is told the standard
    /// phrase of status 500 and nothing of `message_internal`, which goes to
    /// the log.
    pub fn for_internal_error(message_internal: String) -> (e: Self)
        ensures
            e@ == internal_error(message_internal@),
    {
        let external_message = reason_phrase(INTERNAL_SERVER_ERROR).unwrap();
        HttpError {
            status_code: INTERNAL_SERVER_ERROR,
            external_message,
            internal_message: message_internal,
        }
    }

    /// The complete response that tells the client of this error: the
    /// error's status, the headers of a JSON body and of the request's
    /// identifier, and a body with the message for the client and that
    /// identifier. The message for the log has no part in it.
    pub fn into_response(self, request_id: &str) -> (response: HttpResponse)
        ensures
            response@ == json_response(
                self@.status_code,
                request_id@,
                error_body_json(self@.external_message, request_id@),
            ),
            is_client_error(response.status_code) || is_server_error(response.status_code),
    {
        proof {
            use_type_invariant(&self);
        }
        let status_code = self.status_code;
        let body = HttpErrorResponseBody {
            message: self.external_message,
            request_id: request_id.to_owned(),
        };
        HttpResponse::for_error(status_code, request_id, body.to_json()).0
    }

    /// The error of a body that a parser refused, where `detail` is what the
    /// parser said of it.
    pub fn for_invalid_input(detail: &str) -> (e: Self)
        ensures
            e@ == client_error(BAD_REQUEST, INVALID_INPUT_PREFIX@ + detail@),
    {
        let mut message = String::from_str(INVALID_INPUT_PREFIX);
        message.append(detail);
        HttpError::for_bad_request(message)
    }

    /// The error of a request that the transport could not deliver, or of a
    /// response that it could not build, where `detail` is what it said.
    pub fn for_processing_error(detail: &str) -> (e: Self)
        ensures
            e@ == client_error(BAD_REQUEST, PROCESSING_ERROR_PREFIX@ + detail@),
    {
        let mut message = String::from_str(PROCESSING_ERROR_PREFIX);
        message.append(detail);
        HttpError::for_bad_request(message)
    }
}

/// `serde_json::Error`: why JSON was not read or written. Nothing of what
/// it holds is seen here.
#[verifier::external_type_specification]
#[verifier::external_body]
pub struct ExJsonError(serde_json::Error);

/// The body of every error response: the message for the client and the
/// identifier of the request.
#[derive(Debug, Clone, PartialEq, Eq)]
pub struct HttpErrorResponseBody {
    pub message: String,
    pub request_id: String,
}

/// The name of the field of an error body that holds the message.
pub const FIELD_MESSAGE: &'static str = "message";

/// The name of the field of an error body that holds the request's
/// identifier.
pub const FIELD_REQUEST_ID: &'static str = "request_id";

/// The body that is sent where the body of an error could not be written.
pub const FALLBACK_ERROR_BODY: &'static str =
    "{\n  \"message\": \"Internal Server Error\",\n  \"request_id\": \"\"\n}";

/// The indented JSON text of an object with two fields that hold strings.
pub uninterp spec fn pretty_json_object(
    name1: Seq<char>,
    value1: Seq<char>,
    name2: Seq<char>,
    value2: Seq<char>,
) -> Seq<char>;

/// The view of what the serializer gave: the text, where there is one.
pub open spec fn rendered_view(rendered: Result<String, serde_json::Error>) -> Option<Seq<char>> {
    match rendered {
        Ok(text) => Some(text@),
        Err(_) => None,
    }
}

/// `serde_json::to_string_pretty`, on the object that has the two given
/// fields, each holding a string. The text depends on the names and values
/// alone. It is always written: the writer fails only on a map whose keys
/// are no strings, on a value that refuses to be written and on a sink that
/// fails, and here the keys are strings, the values are strings, and the
/// sink is a vector in memory.
#[verifier::external_body]
fn write_pretty_object(name1: &str, value1: &str, name2: &str, value2: &str) -> (rendered: Result<
    String,
    serde_json::Error,
>)
    ensures
        rendered_view(rendered) == Some(pretty_json_object(name1@, value1@, name2@, value2@)),
{
    let mut object = serde_json::Map::new();
    object.insert(name1.to_string(), serde_json::Value::String(value1.to_string()));
    object.insert(name2.to_string(), serde_json::Value::String(value2.to_string()));
    serde_json::to_string_pretty(&serde_json::Value::Object(object))
}

/// The JSON text of the error body with the given message and request
/// identifier.
pub open spec fn error_body_json(message: Seq<char>, request_id: Seq<char>) -> Seq<char> {
    pretty_json_object(FIELD_MESSAGE@, message, FIELD_REQUEST_ID@, request_id)
}

/// The response to a request that failed with `status_code`, given the text
/// of its error body or the lack of one: without a body to send, the
/// response is that of a fault of the server.
pub open spec fn error_response(
    status_code: u16,
    request_id: Seq<char>,
    rendered: Option<Seq<char>>,
) -> HttpResponseView {
    match rendered {
        Some(body) => json_response(status_code, request_id, body),
        None => json_response(INTERNAL_SERVER_ERROR, request_id, FALLBACK_ERROR_BODY@),
    }
}

impl HttpErrorResponseBody {
    /// Writes the body as indented JSON. The writing does not fail.
    pub fn to_json(&self) -> (rendered: Result<String, serde_json::Error>)
        ensures
            rendered_view(rendered) == Some(error_body_json(self.message@, self.request_id@)),
    {
        write_pretty_object(
            FIELD_MESSAGE,
            self.message.as_str(),
            FIELD_REQUEST_ID,
            self.request_id.as_str(),
        )
    }
}

impl HttpResponse {
    /// The response to a request that failed with `status_code`, from what
    /// the serializer made of the error body. Where the serializer failed,
    /// the response is that of a fault of the server, and beside it stands
    /// the error of that fault, for the log: its message for the log is what
    /// the serializer said.
    pub fn for_error(
        status_code: u16,
        request_id: &str,
        rendered: Result<String, serde_json::Error>,
    ) -> (answer: (Self, Option<HttpError>))
        ensures
            answer.0@ == error_response(status_code, request_id@, rendered_view(rendered)),
            rendered is Ok ==> answer.1 is None,
            rendered is Err ==> (answer.1 matches Some(fault) && fault@.status_code
                == INTERNAL_SERVER_ERROR && fault@.external_message == "Internal Server Error"@),
    {
        match rendered {
            Ok(body) => (HttpResponse::with_json_body(status_code, request_id, body), None),
            Err(e) => {
                let fault = HttpError::for_internal_error(json_error_text(&e));
                let response = HttpResponse::with_json_body(
                    INTERNAL_SERVER_ERROR,
                    request_id,
                    FALLBACK_ERROR_BODY.to_owned(),
                );
                (response, Some(fault))
            },
        }
    }
}

/// `hyper::Error`: why a request could not be taken from a connection.
/// Nothing of what it holds is seen here.
#[verifier::external_type_specification]
#[verifier::external_body]
pub struct ExTransportError(hyper::Error);

/// `http::Error`: why a request or a response could not be built. Nothing
/// of what it holds is seen here.
#[verifier::external_type_specification]
#[verifier::external_body]
pub struct ExMessageError(http::Error);

/// What `serde_json::Error` prints of itself through `Display`. Nothing is
/// claimed of the text.
#[verifier::external_body]
fn json_error_text(error: &serde_json::Error) -> (text: String) {
    format!("{}", error)
}

/// What `hyper::Error` prints of itself through `Display`: what it says of
/// its kind, which is never empty, and behind it what its cause prints, if
/// it has one. The text is not named, because a cause prints what it likes.
#[verifier::external_body]
fn transport_error_text(error: &hyper::Error) -> (text: String)
    ensures
        text@.len() > 0,
{
    format!("{}", error)
}

/// What an `http::Error` prints of itself.
pub uninterp spec fn message_error_display(error: http::Error) -> Seq<char>;

/// What `http::Error` prints of itself through `Display`: one of seven
/// fixed texts, chosen by what the error is and by nothing else.
#[verifier::external_body]
fn message_error_text(error: &http::Error) -> (text: String)
    ensures
        text@ == message_error_display(*error),
{
    format!("{}", error)
}

/// True if `text` begins with `prefix`.
pub open spec fn starts_with(text: Seq<char>, prefix: Seq<char>) -> bool {
    prefix.len() <= text.len() && text.take(prefix.len() as int) == prefix
}

/// True of the errors that a refused body can give: status 400, and one
/// message for the client and the log that begins with `prefix`.
pub open spec fn is_bad_request_with_prefix(e: HttpErrorView, prefix: Seq<char>) -> bool {
    &&& e.status_code == BAD_REQUEST
    &&& e.external_message == e.internal_message
    &&& starts_with(e.external_message, prefix)
}

impl FromSpecImpl<serde_json::Error> for HttpError {
    open spec fn obeys_from_spec() -> bool {
        false
    }

    open spec fn from_spec(error: serde_json::Error) -> Self {
        arbitrary()
    }
}

impl From<serde_json::Error> for HttpError {
    /// A body that is no JSON, or not the JSON that was asked for, is the
    /// client's fault: status 400, with what the parser said of it.
    fn from(error: serde_json::Error) -> (e: Self)
        ensures
            is_bad_request_with_prefix(e@, INVALID_INPUT_PREFIX@),
    {
        let detail = json_error_text(&error);
        let e = HttpError::for_invalid_input(detail.as_str());
        assert((INVALID_INPUT_PREFIX@ + detail@).take(INVALID_INPUT_PREFIX@.len() as int)
            =~= INVALID_INPUT_PREFIX@);
        e
    }
}

impl FromSpecImpl<hyper::Error> for HttpError {
    open spec fn obeys_from_spec() -> bool {
        false
    }

    open spec fn from_spec(error: hyper::Error) -> Self {
        arbitrary()
    }
}

impl From<hyper::Error> for HttpError {
    /// A request that the transport could not deliver is answered with
    /// status 400 and with what the transport said of it.
    fn from(error: hyper::Error) -> (e: Self)
        ensures
            is_bad_request_with_prefix(e@, PROCESSING_ERROR_PREFIX@),
            e@.external_message.len() > PROCESSING_ERROR_PREFIX@.len(),
    {
        let detail = transport_error_text(&error);
        let e = HttpError::for_processing_error(detail.as_str());
        assert((PROCESSING_ERROR_PREFIX@ + detail@).take(PROCESSING_ERROR_PREFIX@.len() as int)
            =~= PROCESSING_ERROR_PREFIX@);
        e
    }
}

impl FromSpecImpl<http::Error> for HttpError {
    open spec fn obeys_from_spec() -> bool {
        false
    }

    open spec fn from_spec(error: http::Error) -> Self {
        arbitrary()
    }
}

impl From<http::Error> for HttpError {
    /// A response that could not be built is answered with status 400 and
    /// with what the builder said of it.
    fn from(error: http::Error) -> (e: Self)
        ensures
            e@ == client_error(
                BAD_REQUEST,
                PROCESSING_ERROR_PREFIX@ + message_error_display(error),
            ),
    {
        let detail = message_error_text(&error);
        HttpError::for_processing_error(detail.as_str())
    }
}

} // verus!
