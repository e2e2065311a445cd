use crate::body::{
    drained_after, drained_after_all, lemma_drain_counts_whole_body,
    lemma_reader_reads_whole_body, overflow_error, read_body, total_len, BodyDrain, BodyReader,
    BodyReaderView,
};
use crate::error::{
    client_error, error_body_json, is_client_error, HttpError, HttpErrorView, BAD_REQUEST,
    METHOD_NOT_ALLOWED, NOT_FOUND,
};
use crate::response::{json_headers, json_response, HttpResponse, HttpResponseView};
use crate::router::{
    path_segments, route_path, Method, Operation, OperationView, RouteError, RouteTable,
};
use crate::text::{decimal, lemma_decimal_one_to_one, push_decimal};
use vstd::prelude::*;
use vstd::string::StringExecFns;

verus! {

/// The message for a body on a request that takes none.
pub const EXPECTED_EMPTY_BODY: &'static str = "expected empty body";

/// True for the operations that are sent with a body.
pub open spec fn takes_body(operation: OperationView) -> bool {
    operation is CreateItem || operation is UpdateItem
}

/// What the backend is asked to do once a request has been read: the
/// operation, and the bytes of the body. The body is empty for an operation
/// that takes none.
#[derive(Debug)]
pub struct Invocation {
    pub operation: Operation,
    pub body: Vec<u8>,
}

/// What an `Invocation` is in contracts.
pub ghost struct InvocationView {
    pub operation: OperationView,
    pub body: Seq<u8>,
}

impl View for Invocation {
    type V = InvocationView;

    open spec fn view(&self) -> InvocationView {
        InvocationView { operation: self.operation@, body: self.body@ }
    }
}

/// The state of a request whose body is being taken from the connection.
pub ghost enum PendingView {
    /// The body is read and kept for the operation.
    Reading { operation: OperationView, reader: BodyReaderView },
    /// The body is read and dropped. What follows is the operation, if the
    /// body turns out empty, or the error that the request already earned.
    Discarding { then: Result<OperationView, HttpErrorView>, discarded: usize },
}

/// The error of a request that the routing table did not match.
pub open spec fn route_error(e: RouteError) -> HttpErrorView {
    match e {
        RouteError::NoRoute => client_error(NOT_FOUND, "Not Found"@),
        RouteError::MethodNotSupported => client_error(
            METHOD_NOT_ALLOWED,
            "Method Not Allowed"@,
        ),
    }
}

impl PendingView {
    /// The state of a request when its head has been read: the routing
    /// table decides what becomes of the body.
    pub open spec fn begin(collection: Seq<char>, cap: nat, method: Method, path: Seq<char>) -> PendingView {
        match route_path(collection, method, path) {
            Ok(operation) => if takes_body(operation) {
                PendingView::Reading { operation, reader: BodyReaderView::start(cap) }
            } else {
                PendingView::Discarding { then: Ok(operation), discarded: 0 }
            },
            Err(e) => PendingView::Discarding { then: Err(route_error(e)), discarded: 0 },
        }
    }

    /// The state after one more chunk of the body.
    pub open spec fn accept(self, chunk: Seq<u8>) -> PendingView {
        match self {
            PendingView::Reading { operation, reader } => PendingView::Reading {
                operation,
                reader: reader.accept(chunk),
            },
            PendingView::Discarding { then, discarded } => PendingView::Discarding {
                then,
                discarded: drained_after(discarded, chunk.len()),
            },
        }
    }

    /// The state after `chunks`, one after the other.
    pub open spec fn accept_all(self, chunks: Seq<Seq<u8>>) -> PendingView
        decreases chunks.len(),
    {
        if chunks.len() == 0 {
            self
        } else {
            self.accept_all(chunks.drop_last()).accept(chunks.last())
        }
    }

    /// True if what follows the body on the connection is still to be
    /// taken once the body has ended: a body that was read and kept is
    /// followed by its trailers, which are taken and dropped.
    pub open spec fn wants_trailers(self) -> bool {
        self matches PendingView::Reading { reader, .. } && !reader.overflowed
    }

    /// What the request comes to at the end of its body: the call to make,
    /// or the error to answer with.
    pub open spec fn conclude(self) -> Result<InvocationView, HttpErrorView> {
        match self {
            PendingView::Reading { operation, reader } => match reader.outcome() {
                Ok(body) => Ok(InvocationView { operation, body }),
                Err(e) => Err(e),
            },
            PendingView::Discarding { then, discarded } => match then {
                Ok(operation) => if discarded == 0 {
                    Ok(InvocationView { operation, body: Seq::empty() })
                } else {
                    Err(client_error(BAD_REQUEST, EXPECTED_EMPTY_BODY@))
                },
                Err(e) => Err(e),
            },
        }
    }
}

/// What a request with the given head and body comes to on a server with
/// the given collection and cap.
pub open spec fn request_outcome(
    collection: Seq<char>,
    cap: nat,
    method: Method,
    path: Seq<char>,
    chunks: Seq<Seq<u8>>,
) -> Result<InvocationView, HttpErrorView> {
    PendingView::begin(collection, cap, method, path).accept_all(chunks).conclude()
}

/// What a request comes to, said of its whole body at once: a request that
/// the routing table does not match earns the error of the table; one that
/// takes a body earns what reading the body under the cap gives; one that
/// takes none is called if the body is empty and refused if it is not.
pub open spec fn whole_request(
    collection: Seq<char>,
    cap: nat,
    method: Method,
    path: Seq<char>,
    chunks: Seq<Seq<u8>>,
) -> Result<InvocationView, HttpErrorView> {
    match route_path(collection, method, path) {
        Ok(operation) => if takes_body(operation) {
            match read_body(cap, chunks) {
                Ok(body) => Ok(InvocationView { operation, body }),
                Err(e) => Err(e),
            }
        } else if total_len(chunks) == 0 {
            Ok(InvocationView { operation, body: Seq::empty() })
        } else {
            Err(client_error(BAD_REQUEST, EXPECTED_EMPTY_BODY@))
        },
        Err(e) => Err(route_error(e)),
    }
}

/// Taking chunks changes nothing of a pending request but what its reader
/// or its drain holds.
pub proof fn lemma_accept_all_keeps_stage(pending: PendingView, chunks: Seq<Seq<u8>>)
    ensures
        match pending {
            PendingView::Reading { operation, reader } => pending.accept_all(chunks)
                == PendingView::Reading { operation, reader: reader.accept_all(chunks) },
            PendingView::Discarding { then, discarded } => pending.accept_all(chunks)
                == PendingView::Discarding {
                then,
                discarded: drained_after_all(discarded, chunks),
            },
        },
    decreases chunks.len(),
{
    if chunks.len() > 0 {
        lemma_accept_all_keeps_stage(pending, chunks.drop_last());
    }
}

/// Handling a request chunk by chunk comes to what is said of the request
/// as a whole.
pub proof fn lemma_request_outcome(
    collection: Seq<char>,
    cap: nat,
    method: Method,
    path: Seq<char>,
    chunks: Seq<Seq<u8>>,
)
    ensures
        request_outcome(collection, cap, method, path, chunks) == whole_request(
            collection,
            cap,
            method,
            path,
            chunks,
        ),
{
    lemma_accept_all_keeps_stage(PendingView::begin(collection, cap, method, path), chunks);
    lemma_reader_reads_whole_body(cap, chunks);
    lemma_drain_counts_whole_body(chunks);
}

/// A request that the routing table matches and whose body holds more bytes
/// than the cap is refused with status 400: with the error that names the
/// cap where the operation takes a body, and with the error of a body that
/// should be empty where it takes none.
pub proof fn lemma_body_over_cap_is_refused(
    collection: Seq<char>,
    cap: nat,
    method: Method,
    path: Seq<char>,
    chunks: Seq<Seq<u8>>,
)
    requires
        route_path(collection, method, path) is Ok,
        total_len(chunks) > cap,
    ensures
        request_outcome(collection, cap, method, path, chunks) matches Err(e) && e.status_code
            == BAD_REQUEST,
        route_path(collection, method, path) matches Ok(operation) && takes_body(operation)
            ==> request_outcome(collection, cap, method, path, chunks) == Err::<
            InvocationView,
            HttpErrorView,
        >(overflow_error(cap)),
        route_path(collection, method, path) matches Ok(operation) && !takes_body(operation)
            ==> request_outcome(collection, cap, method, path, chunks) == Err::<
            InvocationView,
            HttpErrorView,
        >(client_error(BAD_REQUEST, EXPECTED_EMPTY_BODY@)),
{
    lemma_request_outcome(collection, cap, method, path, chunks);
}

/// A path with no segment, with a first segment that is not the collection,
/// or with more than two segments is answered with status 404, whatever the
/// method and the body.
pub proof fn lemma_unknown_path_is_not_found(
    collection: Seq<char>,
    cap: nat,
    method: Method,
    path: Seq<char>,
    chunks: Seq<Seq<u8>>,
)
    requires
        path_segments(path).len() == 0 || path_segments(path)[0] != collection || path_segments(
            path,
        ).len() > 2,
    ensures
        request_outcome(collection, cap, method, path, chunks) == Err::<
            InvocationView,
            HttpErrorView,
        >(client_error(NOT_FOUND, "Not Found"@)),
{
    lemma_request_outcome(collection, cap, method, path, chunks);
}

/// True if the routing table has an entry for `method` on a path of
/// `segments` segments, the collection being the first.
pub open spec fn method_supported(method: Method, segments: nat) -> bool {
    if segments == 1 {
        method == Method::Get || method == Method::Post
    } else {
        method == Method::Get || method == Method::Put || method == Method::Delete
    }
}

/// On the collection or one of its items, a method without an entry in the
/// routing table is answered with status 405, whatever the body.
pub proof fn lemma_unsupported_method_is_not_allowed(
    collection: Seq<char>,
    cap: nat,
    method: Method,
    path: Seq<char>,
    chunks: Seq<Seq<u8>>,
)
    requires
        1 <= path_segments(path).len() <= 2,
        path_segments(path)[0] == collection,
        !method_supported(method, path_segments(path).len()),
    ensures
        request_outcome(collection, cap, method, path, chunks) == Err::<
            InvocationView,
            HttpErrorView,
        >(client_error(METHOD_NOT_ALLOWED, "Method Not Allowed"@)),
{
    lemma_request_outcome(collection, cap, method, path, chunks);
}

/// On the collection or one of its items, a method with an entry in the
/// routing table is matched.
pub proof fn lemma_supported_method_is_routed(collection: Seq<char>, method: Method, path: Seq<char>)
    requires
        1 <= path_segments(path).len() <= 2,
        path_segments(path)[0] == collection,
        method_supported(method, path_segments(path).len()),
    ensures
        route_path(collection, method, path) is Ok,
{
}

/// A request for an operation that takes no body is refused with status 400
/// if it has one.
pub proof fn lemma_forbidden_body_is_refused(
    collection: Seq<char>,
    cap: nat,
    method: Method,
    path: Seq<char>,
    chunks: Seq<Seq<u8>>,
)
    requires
        route_path(collection, method, path) matches Ok(operation) && !takes_body(operation),
        total_len(chunks) > 0,
    ensures
        request_outcome(collection, cap, method, path, chunks) == Err::<
            InvocationView,
            HttpErrorView,
        >(client_error(BAD_REQUEST, EXPECTED_EMPTY_BODY@)),
{
    lemma_request_outcome(collection, cap, method, path, chunks);
}

/// Every request that is refused is refused with a status of the 4xx
/// range.
pub proof fn lemma_refusals_are_client_errors(
    collection: Seq<char>,
    cap: nat,
    method: Method,
    path: Seq<char>,
    chunks: Seq<Seq<u8>>,
)
    ensures
        request_outcome(collection, cap, method, path, chunks) matches Err(e) ==> is_client_error(
            e.status_code,
        ),
{
    lemma_request_outcome(collection, cap, method, path, chunks);
}

enum Stage {
    Reading { operation: Operation, reader: BodyReader },
    Discarding { then: Result<Operation, HttpError>, drain: BodyDrain },
}

/// A request whose head has been read and whose body is being taken from
/// the connection, chunk by chunk. Whatever the request comes to, every
/// chunk is taken, to the end of the body.
pub struct PendingRequest {
    stage: Stage,
}

/// The view of an operation or the error in its place.
pub open spec fn then_view(then: Result<Operation, HttpError>) -> Result<OperationView, HttpErrorView> {
    match then {
        Ok(operation) => Ok(operation@),
        Err(e) => Err(e@),
    }
}

/// The view of a call to make or the error in its place.
pub open spec fn outcome_view(r: Result<Invocation, HttpError>) -> Result<InvocationView, HttpErrorView> {
    match r {
        Ok(invocation) => Ok(invocation@),
        Err(e) => Err(e@),
    }
}

impl View for PendingRequest {
    type V = PendingView;

    closed spec fn view(&self) -> PendingView {
        match self.stage {
            Stage::Reading { operation, reader } => PendingView::Reading {
                operation: operation@,
                reader: reader@,
            },
            Stage::Discarding { then, drain } => PendingView::Discarding {
                then: then_view(then),
                discarded: drain@,
            },
        }
    }
}

impl PendingRequest {
    /// Begins a request, from the method and path in its head: routes it
    /// with `routes` and decides what becomes of its body, of which at most
    /// `cap` bytes are kept.
    pub fn begin(routes: &RouteTable, cap: usize, method: Method, path: &str) -> (pending: Self)
        ensures
            pending@ == PendingView::begin(routes.collection(), cap as nat, method, path@),
    {
        match routes.route(method, path) {
            Ok(operation) => {
                let reads = match &operation {
                    Operation::CreateItem => true,
                    Operation::UpdateItem { .. } => true,
                    _ => false,
                };
                if reads {
                    PendingRequest {
                        stage: Stage::Reading { operation, reader: BodyReader::new(cap) },
                    }
                } else {
                    PendingRequest {
                        stage: Stage::Discarding { then: Ok(operation), drain: BodyDrain::new() },
                    }
                }
            },
            Err(RouteError::NoRoute) => PendingRequest {
                stage: Stage::Discarding {
                    then: Err(HttpError::for_status(NOT_FOUND)),
                    drain: BodyDrain::new(),
                },
            },
            Err(RouteError::MethodNotSupported) => PendingRequest {
                stage: Stage::Discarding {
                    then: Err(HttpError::for_status(METHOD_NOT_ALLOWED)),
                    drain: BodyDrain::new(),
                },
            },
        }
    }

    /// Takes the next chunk of the body.
    pub fn accept(&mut self, chunk: &[u8])
        ensures
            final(self)@ == old(self)@.accept(chunk@),
    {
        match &mut self.stage {
            Stage::Reading { reader, .. } => {
                reader.accept(chunk);
            },
            Stage::Discarding { drain, .. } => {
                drain.discard(chunk);
            },
        }
    }

    /// True if the trailers behind the body are to be taken from the
    /// connection, and dropped, before the request is ended.
    pub fn wants_trailers(&self) -> (b: bool)
        ensures
            b == self@.wants_trailers(),
    {
        match &self.stage {
            Stage::Reading { reader, .. } => !reader.overflowed(),
            Stage::Discarding { .. } => false,
        }
    }

    /// Ends the request at the end of its body: hands out the call to make,
    /// or the error to answer with.
    pub fn conclude(self) -> (r: Result<Invocation, HttpError>)
        ensures
            outcome_view(r) == self@.conclude(),
    {
        match self.stage {
            Stage::Reading { operation, reader } => match reader.finish() {
                Ok(body) => Ok(Invocation { operation, body }),
                Err(e) => Err(e),
            },
            Stage::Discarding { then, drain } => match then {
                Ok(operation) => if drain.discarded() == 0 {
                    Ok(Invocation { operation, body: Vec::new() })
                } else {
                    Err(HttpError::for_bad_request(EXPECTED_EMPTY_BODY.to_owned()))
                },
                Err(e) => Err(e),
            },
        }
    }
}

/// The text in front of the number in the identifier of a request.
pub const REQUEST_ID_PREFIX: &'static str = "req-";

/// The identifier of the request with the given number.
pub open spec fn request_id_text(number: u64) -> Seq<char> {
    REQUEST_ID_PREFIX@ + decimal(number as nat)
}

/// The identifier of the request with the given number. A server that
/// numbers its requests, no two alike, gives no two of them one identifier.
pub fn request_id(number: u64) -> (id: String)
    ensures
        id@ == request_id_text(number),
{
    let mut id = String::from_str(REQUEST_ID_PREFIX);
    push_decimal(&mut id, number);
    id
}

/// Requests with different numbers have different identifiers.
pub proof fn lemma_request_ids_differ(a: u64, b: u64)
    requires
        a != b,
    ensures
        request_id_text(a) != request_id_text(b),
{
    let prefix = REQUEST_ID_PREFIX@;
    if request_id_text(a) == request_id_text(b) {
        assert(decimal(a as nat) =~= request_id_text(a).skip(prefix.len() as int));
        assert(decimal(b as nat) =~= request_id_text(b).skip(prefix.len() as int));
        lemma_decimal_one_to_one(a as nat, b as nat);
    }
}

/// Ends a request: the response is the one that the backend's answer was
/// made into, or the one that tells of the error. This is the one place
/// where an error becomes a response.
pub fn complete_request(request_id: &str, outcome: Result<HttpResponse, HttpError>) -> (response:
    HttpResponse)
    ensures
        response@ == completed(request_id@, response_result_view(outcome)),
{
    match outcome {
        Ok(response) => response,
        Err(e) => e.into_response(request_id),
    }
}

/// The view of a response or the error in its place.
pub open spec fn response_result_view(r: Result<HttpResponse, HttpError>) -> Result<
    HttpResponseView,
    HttpErrorView,
> {
    match r {
        Ok(response) => Ok(response@),
        Err(e) => Err(e@),
    }
}

/// The response that ends a request: the given one, or the one that tells
/// of the error.
pub open spec fn completed(request_id: Seq<char>, outcome: Result<HttpResponseView, HttpErrorView>) -> HttpResponseView {
    match outcome {
        Ok(response) => response,
        Err(e) => json_response(
            e.status_code,
            request_id,
            error_body_json(e.external_message, request_id),
        ),
    }
}

/// The response to an error holds nothing of the message for the log: two
/// errors with the same status and the same message for the client give the
/// same response.
pub proof fn lemma_response_hides_internal_message(
    e1: HttpErrorView,
    e2: HttpErrorView,
    request_id: Seq<char>,
)
    requires
        e1.status_code == e2.status_code,
        e1.external_message == e2.external_message,
    ensures
        completed(request_id, Err(e1)) == completed(request_id, Err(e2)),
{
}

/// The response to an error has the error's status, carries the identifier
/// of the request, says that its body is JSON, and has for its body the
/// JSON text of the message for the client and the identifier.
pub proof fn lemma_error_response_shape(e: HttpErrorView, request_id: Seq<char>)
    ensures
        completed(request_id, Err(e)).status_code == e.status_code,
        completed(request_id, Err(e)).headers == json_headers(request_id),
        completed(request_id, Err(e)).body == error_body_json(e.external_message, request_id),
{
}

/// What a request with the given head and body is answered with where it is
/// refused: the response to the error that it comes to.
pub open spec fn refusal_response(
    collection: Seq<char>,
    cap: nat,
    method: Method,
    path: Seq<char>,
    chunks: Seq<Seq<u8>>,
    request_id: Seq<char>,
) -> HttpResponseView {
    completed(request_id, Err(request_outcome(collection, cap, method, path, chunks)->Err_0))
}

/// A request that the routing table matches and whose body holds more bytes
/// than the cap is answered with status 400, and nothing is asked of the
/// backend.
pub proof fn lemma_body_over_cap_is_answered_400(
    collection: Seq<char>,
    cap: nat,
    method: Method,
    path: Seq<char>,
    chunks: Seq<Seq<u8>>,
    request_id: Seq<char>,
)
    requires
        route_path(collection, method, path) is Ok,
        total_len(chunks) > cap,
    ensures
        request_outcome(collection, cap, method, path, chunks) is Err,
        refusal_response(collection, cap, method, path, chunks, request_id).status_code
            == BAD_REQUEST,
{
    lemma_body_over_cap_is_refused(collection, cap, method, path, chunks);
}

/// Every request that is refused is answered with a status of the 4xx
/// range, with the identifier of the request, and with a body that is the
/// JSON text of the message for the client and the identifier.
pub proof fn lemma_refusals_are_answered_in_one_form(
    collection: Seq<char>,
    cap: nat,
    method: Method,
    path: Seq<char>,
    chunks: Seq<Seq<u8>>,
    request_id: Seq<char>,
)
    requires
        request_outcome(collection, cap, method, path, chunks) is Err,
    ensures
        is_client_error(
            refusal_response(collection, cap, method, path, chunks, request_id).status_code,
        ),
        refusal_response(collection, cap, method, path, chunks, request_id).headers
            == json_headers(request_id),
        refusal_response(collection, cap, method, path, chunks, request_id).body
            == error_body_json(
            request_outcome(collection, cap, method, path, chunks)->Err_0.external_message,
            request_id,
        ),
{
    lemma_refusals_are_client_errors(collection, cap, method, path, chunks);
}

} // verus!
