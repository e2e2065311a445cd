use vstd::prelude::*;

verus! {

/// The name of the header that says what kind of body a response has.
pub const CONTENT_TYPE: &'static str = "content-type";

/// The content type of every body that the server writes.
pub const CONTENT_TYPE_JSON: &'static str = "application/json";

/// The name of the header that carries the identifier of the request.
pub const HEADER_REQUEST_ID: &'static str = "x-request-id";

/// A complete response: the status, the headers in the order in which they
/// are written, and the body.
#[derive(Debug, Clone, PartialEq, Eq)]
pub struct HttpResponse {
    pub status_code: u16,
    pub headers: Vec<(String, String)>,
    pub body: String,
}

/// What an `HttpResponse` is in contracts.
pub ghost struct HttpResponseView {
    pub status_code: u16,
    pub headers: Seq<(Seq<char>, Seq<char>)>,
    pub body: Seq<char>,
}

/// The views of the names and values of `headers`, in order.
pub open spec fn header_views(headers: Seq<(String, String)>) -> Seq<(Seq<char>, Seq<char>)> {
    headers.map_values(|h: (String, String)| (h.0@, h.1@))
}

impl View for HttpResponse {
    type V = HttpResponseView;

    open spec fn view(&self) -> HttpResponseView {
        HttpResponseView {
            status_code: self.status_code,
            headers: header_views(self.headers@),
            body: self.body@,
        }
    }
}

/// The headers of every response: the content type, then the identifier of
/// the request.
pub open spec fn json_headers(request_id: Seq<char>) -> Seq<(Seq<char>, Seq<char>)> {
    seq![(CONTENT_TYPE@, CONTENT_TYPE_JSON@), (HEADER_REQUEST_ID@, request_id)]
}

/// The response with the given status and JSON body, for the request with
/// the given identifier.
pub open spec fn json_response(status_code: u16, request_id: Seq<char>, body: Seq<char>) -> HttpResponseView {
    HttpResponseView { status_code, headers: json_headers(request_id), body }
}

/// The response with the given status and no body, for the request with
/// the given identifier.
pub open spec fn empty_response(status_code: u16, request_id: Seq<char>) -> HttpResponseView {
    HttpResponseView {
        status_code,
        headers: seq![(HEADER_REQUEST_ID@, request_id)],
        body: Seq::empty(),
    }
}

impl HttpResponse {
    /// A response without a body, tagged with the identifier of the request
    /// that it answers.
    pub fn without_body(status_code: u16, request_id: &str) -> (response: Self)
        ensures
            response@ == empty_response(status_code, request_id@),
    {
        let mut headers: Vec<(String, String)> = Vec::new();
        headers.push((HEADER_REQUEST_ID.to_owned(), request_id.to_owned()));
        let response = HttpResponse { status_code, headers, body: String::new() };
        assert(response@.headers =~= seq![(HEADER_REQUEST_ID@, request_id@)]);
        response
    }


    /// A response with a JSON body, marked as such and tagged with the
    /// identifier of the request that it answers.
    pub fn with_json_body(status_code: u16, request_id: &str, body: String) -> (response: Self)
        ensures
            response@ == json_response(status_code, request_id@, body@),
    {
        let mut headers: Vec<(String, String)> = Vec::new();
        headers.push((CONTENT_TYPE.to_owned(), CONTENT_TYPE_JSON.to_owned()));
        headers.push((HEADER_REQUEST_ID.to_owned(), request_id.to_owned()));
        let response = HttpResponse { status_code, headers, body };
        assert(response@.headers =~= json_headers(request_id@));
        response
    }
}

} // verus!
