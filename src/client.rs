//! The request shape handed to the HTTP client, and its errors.
use crate::headers::{
    append_header, folded_name, header_entries, valid_header_name, valid_header_value,
    MAX_HEADERS,
};
use crate::model::{insert_param, params_after_insert};
use reqwest::header::{HeaderMap, HeaderName, HeaderValue, InvalidHeaderName, InvalidHeaderValue};
use std::collections::hash_map::RandomState;
use std::collections::HashMap;
use vstd::prelude::*;
use vstd::std_specs::hash::{builds_valid_hashers, obeys_key_model};
use vstd::utf8::encode_utf8;

verus! {

/// reqwest's error type, carried in `PigeonError`.
#[verifier::external_type_specification]
#[verifier::external_body]
pub struct ExReqwestError(reqwest::Error);

/// serde_json's error type, carried in `PigeonError`.
#[verifier::external_type_specification]
#[verifier::external_body]
pub struct ExJsonError(serde_json::Error);

/// Failures of building or sending a request.
#[derive(Debug)]
pub enum PigeonError {
    ReqwestError(reqwest::Error),
    InvalidHeaderName(InvalidHeaderName),
    InvalidHeaderValue(InvalidHeaderValue),
    JsonError(serde_json::Error),
    InvalidHeaders,
}

/// The verb of a request, in wire spelling.
#[derive(Clone, Copy, Debug, PartialEq, Eq, Structural)]
pub enum Method {
    GET,
    POST,
}

/// The transport a request is meant for.
#[derive(Clone, Copy, Debug, PartialEq, Eq, Structural)]
pub enum Protocol {
    Http,
    Tcp,
    Rpc,
    Grpc,
}

/// One header line; duplicates are allowed and order is kept.
#[derive(Clone, Debug, PartialEq, Eq)]
pub struct Header {
    pub name: String,
    pub value: String,
}

/// Whether a header's name and value are both acceptable to the client.
pub open spec fn header_ok(name: Seq<char>, value: Seq<char>) -> bool {
    valid_header_name(encode_utf8(name)) && valid_header_value(encode_utf8(value))
}

/// The pair a header adds to a header map.
pub open spec fn header_entry(name: Seq<char>, value: Seq<char>) -> (Seq<u8>, Seq<u8>) {
    (folded_name(encode_utf8(name)), encode_utf8(value))
}

/// Adds one header to a map under construction. A map already in error stays in error;
/// otherwise the header's name and value bytes are checked and the value appended.
pub(crate) fn fold_header(headers: Result<HeaderMap, PigeonError>, name: &String, value: &String) -> (r:
    Result<HeaderMap, PigeonError>)
    requires
        headers matches Ok(m) ==> header_entries(m).len() < MAX_HEADERS,
    ensures
        headers is Err ==> r matches Err(PigeonError::InvalidHeaders),
        headers matches Ok(m) ==> match r {
            Ok(m2) => header_ok(name@, value@) && header_entries(m2) == header_entries(m).insert(
                header_entry(name@, value@),
            ),
            Err(e) => !header_ok(name@, value@) && (
            if !valid_header_name(encode_utf8(name@)) {
                e is InvalidHeaderName
            } else {
                e is InvalidHeaderValue
            }),
        },
{
    match headers {
        Ok(mut map) => {
            let name_bytes = name.as_str().as_bytes();
            let value_bytes = value.as_str().as_bytes();
            if let Err(e) = HeaderName::from_bytes(name_bytes) {
                return Err(PigeonError::InvalidHeaderName(e));
            }
            if let Err(e) = HeaderValue::from_bytes(value_bytes) {
                return Err(PigeonError::InvalidHeaderValue(e));
            }
            append_header(&mut map, name_bytes, value_bytes);
            Ok(map)
        },
        Err(_) => Err(PigeonError::InvalidHeaders),
    }
}

impl Header {
    /// One step of folding a header list into a header map.
    pub fn fold(headers: Result<HeaderMap, PigeonError>, el: &Header) -> (r: Result<
        HeaderMap,
        PigeonError,
    >)
        requires
            headers matches Ok(m) ==> header_entries(m).len() < MAX_HEADERS,
        ensures
            headers is Err ==> r matches Err(PigeonError::InvalidHeaders),
            headers matches Ok(m) ==> match r {
                Ok(m2) => header_ok(el.name@, el.value@) && header_entries(m2) == header_entries(
                    m,
                ).insert(header_entry(el.name@, el.value@)),
                Err(e) => !header_ok(el.name@, el.value@) && (
                if !valid_header_name(encode_utf8(el.name@)) {
                    e is InvalidHeaderName
                } else {
                    e is InvalidHeaderValue
                }),
            },
    {
        fold_header(headers, &el.name, &el.value)
    }
}

/// A request as the client sends it.
#[derive(Clone, Debug)]
pub struct Request {
    pub protocol: Option<Protocol>,
    pub url: String,
    pub method: Method,
    pub headers: Vec<Header>,
    pub body: Option<String>,
    pub path_params: Option<HashMap<String, String>>,
    pub query_params: Option<HashMap<String, String>>,
}

impl Request {
    /// A request with only its method and url set.
    pub fn new(method: Method, url: String) -> (r: Request)
        ensures
            r.method == method,
            r.url == url,
            r.protocol is None,
            r.headers@.len() == 0,
            r.body is None,
            r.path_params is None,
            r.query_params is None,
    {
        Request {
            protocol: None,
            url,
            method,
            headers: Vec::new(),
            body: None,
            path_params: None,
            query_params: None,
        }
    }

    pub fn protocol(self, protocol: Protocol) -> (r: Request)
        ensures
            r == (Request { protocol: Some(protocol), ..self }),
    {
        Request { protocol: Some(protocol), ..self }
    }

    /// Appends `headers` after the headers already present.
    pub fn headers(self, headers: Vec<Header>) -> (r: Request)
        ensures
            r.headers@ == self.headers@ + headers@,
            r.protocol == self.protocol,
            r.url == self.url,
            r.method == self.method,
            r.body == self.body,
            r.path_params == self.path_params,
            r.query_params == self.query_params,
    {
        let mut this = self;
        let mut more = headers;
        this.headers.append(&mut more);
        this
    }

    pub fn add_header(self, header: Header) -> (r: Request)
        ensures
            r.headers@ == self.headers@.push(header),
            r.protocol == self.protocol,
            r.url == self.url,
            r.method == self.method,
            r.body == self.body,
            r.path_params == self.path_params,
            r.query_params == self.query_params,
    {
        let mut this = self;
        this.headers.push(header);
        this
    }

    pub fn body(self, body: String) -> (r: Request)
        ensures
            r == (Request { body: Some(body), ..self }),
    {
        Request { body: Some(body), ..self }
    }

    pub fn path_params(self, params: HashMap<String, String>) -> (r: Request)
        ensures
            r == (Request { path_params: Some(params), ..self }),
    {
        Request { path_params: Some(params), ..self }
    }

    /// Sets one path parameter, keeping the others.
    pub fn path_param(self, key: String, value: String) -> (r: Request)
        ensures
            r.path_params is Some,
            obeys_key_model::<String>() && builds_valid_hashers::<RandomState>() ==> r.path_params->0@
                == params_after_insert(self.path_params, key, value),
            r.protocol == self.protocol,
            r.url == self.url,
            r.method == self.method,
            r.headers == self.headers,
            r.body == self.body,
            r.query_params == self.query_params,
    {
        let params = insert_param(self.path_params, key, value);
        Request {
            protocol: self.protocol,
            url: self.url,
            method: self.method,
            headers: self.headers,
            body: self.body,
            path_params: Some(params),
            query_params: self.query_params,
        }
    }

    pub fn query_params(self, params: HashMap<String, String>) -> (r: Request)
        ensures
            r == (Request { query_params: Some(params), ..self }),
    {
        Request { query_params: Some(params), ..self }
    }

    /// Sets one query parameter, keeping the others.
    pub fn query_param(self, key: String, value: String) -> (r: Request)
        ensures
            r.query_params is Some,
            obeys_key_model::<String>() && builds_valid_hashers::<RandomState>() ==> r.query_params->0@
                == params_after_insert(self.query_params, key, value),
            r.protocol == self.protocol,
            r.url == self.url,
            r.method == self.method,
            r.headers == self.headers,
            r.body == self.body,
            r.path_params == self.path_params,
    {
        let params = insert_param(self.query_params, key, value);
        Request {
            protocol: self.protocol,
            url: self.url,
            method: self.method,
            headers: self.headers,
            body: self.body,
            path_params: self.path_params,
            query_params: Some(params),
        }
    }
}

} // verus!
