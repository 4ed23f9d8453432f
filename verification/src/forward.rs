//! The forwarder's two halves.
//!
//! `prepare` turns the caller's request into a plan the transport can
//! carry out: the method must come from the fixed allow-list, a header
//! payload must parse as a JSON object of strings, and each entry the
//! wire would refuse is dropped without complaint. `conclude` turns what
//! came back from the transport into the single string handed to the
//! caller: the response encoded as JSON, or the failure's message.
//! Between the two stands the transport itself, which the caller runs.

use vstd::prelude::*;
use crate::error::ForwardError;
use crate::headers::distinct_keys;
use crate::headers::filter_valid_headers;
use crate::headers::json_string_map;
use crate::headers::lemma_filter_keeps_distinct;
use crate::headers::lemma_pairs_map_filter;
use crate::headers::pair_views;
use crate::headers::pairs_map;
use crate::headers::parse_string_map;
use crate::headers::valid_entries;
use crate::headers::wire_pair_pred;
use crate::json::encode_response;
use crate::json::response_json;
use crate::method::Method;
use crate::method::method_of;
use crate::method::parse_method;
use crate::response::collect_headers;
use crate::response::collected;
use crate::response::raw_views;

verus! {

/// What the caller asks the forwarder to do: a URL, a method name in any
/// case, an optional JSON object of request headers, an optional body.
#[derive(Debug)]
pub struct ProxyRequest {
    pub url: String,
    pub method: String,
    pub headers: Option<String>,
    pub body: Option<String>,
}

/// A request the transport can carry out: a recognised method, the URL,
/// the header pairs that survived filtering, the body unchanged.
#[derive(Debug)]
pub struct RequestPlan {
    pub method: Method,
    pub url: String,
    pub headers: Vec<(String, String)>,
    pub body: Option<String>,
}

/// Validate the caller's request and build the plan the transport will
/// run. The method must come from the fixed allow-list, read without
/// regard to case; a present header payload must parse as a JSON object
/// of strings; entries the wire would refuse are dropped without
/// complaint; the body rides along unchanged, whatever the method.
pub fn prepare(req: ProxyRequest) -> (r: Result<RequestPlan, ForwardError>)
    ensures
        r is Ok <==> (method_of(req.method@) is Some && (req.headers is None || json_string_map(
            req.headers.unwrap()@,
        ) is Some)),
        method_of(req.method@) is None ==> r == Err::<RequestPlan, ForwardError>(
            ForwardError::UnsupportedMethod(req.method),
        ),
        (method_of(req.method@) is Some && req.headers is Some && json_string_map(
            req.headers.unwrap()@,
        ) is None) ==> (r matches Err(e) && e is HeaderParse),
        r matches Ok(p) ==> {
            &&& Some(p.method) == method_of(req.method@)
            &&& p.url == req.url
            &&& p.body == req.body
            &&& distinct_keys(pair_views(p.headers@))
            &&& (req.headers is None ==> p.headers@.len() == 0)
            &&& (req.headers matches Some(h) ==> pairs_map(pair_views(p.headers@))
                == valid_entries(json_string_map(h@).unwrap()))
        },
{
    let method = match parse_method(req.method.as_str()) {
        Some(m) => m,
        None => {
            return Err(ForwardError::UnsupportedMethod(req.method));
        },
    };
    let headers: Vec<(String, String)> = match req.headers {
        None => Vec::new(),
        Some(h) => {
            match parse_string_map(h.as_str()) {
                Err(e) => {
                    return Err(ForwardError::HeaderParse(e));
                },
                Ok(pairs) => {
                    proof {
                        lemma_pairs_map_filter(pair_views(pairs@));
                        lemma_filter_keeps_distinct(pair_views(pairs@), wire_pair_pred());
                    }
                    filter_valid_headers(pairs)
                },
            }
        },
    };
    Ok(RequestPlan { method, url: req.url, headers, body: req.body })
}

/// What the caller receives on success: the numeric status, the body as
/// text, and the readable response headers, each name once.
#[derive(Debug)]
pub struct ProxyResponse {
    pub status: u16,
    pub body: String,
    pub headers: Vec<(String, String)>,
}

/// Assemble the response the caller will see. The status and body pass
/// through untouched; of the raw headers, those without readable values
/// are omitted and the rest keep their values, the last under each name
/// winning.
pub fn assemble_response(
    status: u16,
    raw_headers: &Vec<(String, Option<String>)>,
    body: String,
) -> (r: ProxyResponse)
    ensures
        r.status == status,
        r.body == body,
        pair_views(r.headers@) == collected(raw_views(raw_headers@)),
        distinct_keys(pair_views(r.headers@)),
{
    ProxyResponse { status, body, headers: collect_headers(raw_headers) }
}

impl ProxyResponse {
    /// The response as the single JSON payload handed to the caller.
    pub fn encode(&self) -> (r: String)
        ensures
            r@ == response_json(self.status as int, self.body@, pair_views(self.headers@)),
    {
        encode_response(self.status, self.body.as_str(), &self.headers)
    }
}

/// What the transport reports back: failure before any response, or a
/// response with its status, raw headers, and body text (or the failure
/// to read the body as text).
#[derive(Debug)]
pub enum TransportEvent {
    Failed(String),
    Response { status: u16, headers: Vec<(String, Option<String>)>, body: Result<String, String> },
}

/// Turn the transport's report into what the caller receives: transport
/// failure and an unreadable body each short-circuit into their error;
/// otherwise the assembled response is encoded as JSON.
pub fn conclude(ev: TransportEvent) -> (r: Result<String, ForwardError>)
    ensures
        r is Ok <==> (ev matches TransportEvent::Response { status, headers, body }
            && body is Ok),
        ev matches TransportEvent::Failed(e) ==> r == Err::<String, ForwardError>(
            ForwardError::RequestFailed(e),
        ),
        ev matches TransportEvent::Response { status, headers, body } ==> (body matches Err(e)
            ==> r == Err::<String, ForwardError>(ForwardError::BodyRead(e))),
        ev matches TransportEvent::Response { status, headers, body } ==> (body matches Ok(b)
            ==> (r matches Ok(s) && s@ == response_json(
            status as int,
            b@,
            collected(raw_views(headers@)),
        ))),
{
    match ev {
        TransportEvent::Failed(e) => Err(ForwardError::RequestFailed(e)),
        TransportEvent::Response { status, headers, body } => match body {
            Err(e) => Err(ForwardError::BodyRead(e)),
            Ok(b) => {
                let resp = assemble_response(status, &headers, b);
                Ok(resp.encode())
            },
        },
    }
}

} // verus!
