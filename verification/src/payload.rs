//! The echo handler: from the parts of a request to the response status and
//! the payload that describes the request.

use vstd::prelude::*;
use crate::fields::{last_wins, written_in_turn, FieldMap};
use crate::headers::{collect_headers, header_pairs, HeaderField};
use crate::query::{parse_query, query_fields, query_order};
use crate::status::{response_status, status_of, DEFAULT_STATUS};

verus! {

/// What the transport hands over for one request, as plain values.
pub struct RequestParts {
    /// The method token, as received.
    pub method: String,
    /// The request target as received, query part included.
    pub target: String,
    /// The path part of the target.
    pub path: String,
    /// The query part of the target, without the `?`, if there is one.
    pub query: Option<String>,
    /// The header lines in the order in which the transport lists them.
    pub headers: Vec<HeaderField>,
    /// The remote peer's socket address in its `ip:port` text form.
    pub origin: String,
}

/// The mathematical content of a `RequestParts`.
pub ghost struct RequestView {
    pub method: Seq<char>,
    pub target: Seq<char>,
    pub path: Seq<char>,
    pub query: Option<Seq<char>>,
    pub headers: Seq<(Seq<char>, Seq<u8>)>,
    pub origin: Seq<char>,
}

impl View for RequestParts {
    type V = RequestView;

    open spec fn view(&self) -> RequestView {
        RequestView {
            method: self.method@,
            target: self.target@,
            path: self.path@,
            query: match self.query {
                Some(q) => Some(q@),
                None => None,
            },
            headers: Seq::new(
                self.headers@.len(),
                |i: int| (self.headers@[i].name@, self.headers@[i].value@),
            ),
            origin: self.origin@,
        }
    }
}

/// The description of a request that is sent back as the response body.
pub struct EchoPayload {
    pub url: String,
    pub path: String,
    pub method: String,
    pub headers: FieldMap,
    pub queries: FieldMap,
    pub origin: String,
}

/// The mathematical content of an `EchoPayload`.
pub ghost struct EchoView {
    pub url: Seq<char>,
    pub path: Seq<char>,
    pub method: Seq<char>,
    /// The header mapping, and its entries in the order in which they are
    /// stored and written out.
    pub headers: Map<Seq<char>, Seq<char>>,
    pub headers_in_order: Seq<(Seq<char>, Seq<char>)>,
    /// The query mapping, and its entries in the order in which they are
    /// stored and written out.
    pub queries: Map<Seq<char>, Seq<char>>,
    pub queries_in_order: Seq<(Seq<char>, Seq<char>)>,
    pub origin: Seq<char>,
}

impl View for EchoPayload {
    type V = EchoView;

    open spec fn view(&self) -> EchoView {
        EchoView {
            url: self.url@,
            path: self.path@,
            method: self.method@,
            headers: self.headers@,
            headers_in_order: self.headers.order(),
            queries: self.queries@,
            queries_in_order: self.queries.order(),
            origin: self.origin@,
        }
    }
}

impl EchoPayload {
    /// Both mappings of the payload are well formed.
    pub open spec fn wf(&self) -> bool {
        self.headers.wf() && self.queries.wf()
    }
}

/// Which of the two services answers: the plain one always responds with the
/// default status, the other lets the `status` query parameter choose.
#[derive(Clone, Copy, PartialEq, Eq, Structural)]
pub enum Variant {
    Plain,
    StatusControlled,
}

/// The (name, text) pairs recorded for the header lines of a request view.
pub open spec fn recorded_headers(headers: Seq<(Seq<char>, Seq<u8>)>) -> Seq<
    (Seq<char>, Seq<char>),
> {
    Seq::new(headers.len(), |i: int| (headers[i].0, crate::headers::header_text(headers[i].1)))
}

/// The payload that describes a request.
pub open spec fn echo_of(req: RequestView) -> EchoView {
    EchoView {
        url: req.target,
        path: req.path,
        method: req.method,
        headers: last_wins(recorded_headers(req.headers)),
        headers_in_order: written_in_turn(recorded_headers(req.headers)),
        queries: query_fields(req.query),
        queries_in_order: query_order(req.query),
        origin: req.origin,
    }
}

/// The status with which a request is answered.
pub open spec fn response_status_of(variant: Variant, req: RequestView) -> u16 {
    match variant {
        Variant::Plain => DEFAULT_STATUS,
        Variant::StatusControlled => status_of(query_fields(req.query)),
    }
}

/// Builds the payload that describes `req`.
pub fn echo(req: &RequestParts) -> (r: EchoPayload)
    ensures
        r.wf(),
        r@ == echo_of(req@),
{
    let queries = parse_query(req.query.as_ref());
    let headers = collect_headers(&req.headers);
    proof {
        assert(header_pairs(req.headers@) =~= recorded_headers(req@.headers));
    }
    EchoPayload {
        url: req.target.clone(),
        path: req.path.clone(),
        method: req.method.clone(),
        headers,
        queries,
        origin: req.origin.clone(),
    }
}

/// Answers a request: the response status and the payload to send as the
/// body. The payload does not depend on the variant.
pub fn respond(variant: Variant, req: &RequestParts) -> (r: (u16, EchoPayload))
    ensures
        r.0 == response_status_of(variant, req@),
        100 <= r.0 <= 599,
        r.1.wf(),
        r.1@ == echo_of(req@),
{
    let payload = echo(req);
    let status = match variant {
        Variant::Plain => DEFAULT_STATUS,
        Variant::StatusControlled => response_status(&payload.queries),
    };
    (status, payload)
}

/// Answers a request as the status-controlled service does.
pub fn index(req: &RequestParts) -> (r: (u16, EchoPayload))
    ensures
        r.0 == response_status_of(Variant::StatusControlled, req@),
        100 <= r.0 <= 599,
        r.1.wf(),
        r.1@ == echo_of(req@),
{
    respond(Variant::StatusControlled, req)
}

/// Two requests with the same content are described by the same payload,
/// entry for entry and in the same order, and answered with the same status:
/// nothing but the request decides the response.
pub proof fn lemma_same_request_same_response(variant: Variant, a: RequestParts, b: RequestParts)
    requires
        a@ == b@,
    ensures
        echo_of(a@) == echo_of(b@),
        response_status_of(variant, a@) == response_status_of(variant, b@),
{
}

/// A request whose target has no query part is described with an empty
/// mapping of query parameters, and is answered with the default status.
pub proof fn lemma_no_query(variant: Variant, req: RequestView)
    requires
        req.query.is_none(),
    ensures
        echo_of(req).queries == Map::<Seq<char>, Seq<char>>::empty(),
        echo_of(req).queries_in_order == Seq::<(Seq<char>, Seq<char>)>::empty(),
        response_status_of(variant, req) == DEFAULT_STATUS,
{
}

} // verus!
