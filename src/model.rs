//! Request definitions as stored in a collection, and their staged builder.
use crate::client::{fold_header, header_entry, header_ok, PigeonError};
use crate::headers::{header_entries, valid_header_name, MAX_HEADERS};
use reqwest::header::HeaderMap;
use std::collections::HashMap;
use std::collections::hash_map::RandomState;
use vstd::multiset::Multiset;
use vstd::prelude::*;
use vstd::utf8::encode_utf8;
use vstd::std_specs::hash::{builds_valid_hashers, obeys_key_model};

verus! {

/// The verb of a request.
#[derive(Clone, Copy, Debug, PartialEq, Eq, Structural)]
pub enum Method {
    Get,
    Post,
}

impl Method {
    /// The wire form of the verb.
    pub fn as_str(&self) -> (r: &'static str)
        ensures
            r@ == method_text(*self),
    {
        match self {
            Method::Get => "GET",
            Method::Post => "POST",
        }
    }
}

/// The wire form of a verb.
pub open spec fn method_text(m: Method) -> Seq<char> {
    match m {
        Method::Get => "GET"@,
        Method::Post => "POST"@,
    }
}

/// The transport a request is meant for.
#[derive(Clone, Copy, Debug, PartialEq, Eq, Structural)]
pub enum Protocol {
    Http,
    Tcp,
    Rpc,
    Grpc,
}

/// One header line of a request; duplicates are allowed and order is kept.
#[derive(Clone, Debug, PartialEq, Eq)]
pub struct Header {
    pub name: String,
    pub value: String,
}

impl Header {
    /// One step of folding a header list into a header map.
    pub fn fold(headers: Result<HeaderMap, PigeonError>, el: &Header) -> (r: Result<
        HeaderMap,
        PigeonError,
    >)
        requires
            headers matches Ok(m) ==> header_entries(m).len() < MAX_HEADERS,
        ensures
            headers is Err ==> r matches Err(PigeonError::InvalidHeaders),
            headers matches Ok(m) ==> match r {
                Ok(m2) => header_ok(el.name@, el.value@) && header_entries(m2) == header_entries(
                    m,
                ).insert(header_entry(el.name@, el.value@)),
                Err(e) => !header_ok(el.name@, el.value@) && (
                if !valid_header_name(encode_utf8(el.name@)) {
                    e is InvalidHeaderName
                } else {
                    e is InvalidHeaderValue
                }),
            },
    {
        fold_header(headers, &el.name, &el.value)
    }
}

/// Every header of the list has an acceptable name and value.
pub open spec fn headers_ok(hs: Seq<Header>) -> bool {
    forall|i: int| 0 <= i < hs.len() ==> header_ok(#[trigger] hs[i].name@, hs[i].value@)
}

/// The pairs a list of headers puts in a header map.
pub open spec fn header_pairs(hs: Seq<Header>) -> Multiset<(Seq<u8>, Seq<u8>)>
    decreases hs.len(),
{
    if hs.len() == 0 {
        Multiset::empty()
    } else {
        header_pairs(hs.drop_last()).insert(header_entry(hs.last().name@, hs.last().value@))
    }
}

/// Marker: the builder has no name yet.
#[derive(Debug, PartialEq)]
pub struct NoName;

/// Marker: the builder holds a name.
#[derive(Debug, PartialEq)]
pub struct Name(pub String);

/// Marker: the builder has no method yet.
#[derive(Debug, PartialEq)]
pub struct NoMethod;

/// Marker: the builder holds a method.
#[derive(Debug, PartialEq)]
pub struct HasMethod(pub Method);

/// Marker: the builder has no url yet.
#[derive(Debug, PartialEq)]
pub struct NoUrl;

/// Marker: the builder holds a url.
#[derive(Debug, PartialEq)]
pub struct Url(pub String);

/// A staged builder: `build` exists only once name, method and url are all set.
#[derive(Debug, PartialEq)]
pub struct RequestBuilder<N, M, U> {
    pub name: N,
    pub method: M,
    pub url: U,
    pub protocol: Option<Protocol>,
    pub headers: Option<Vec<Header>>,
    pub body: Option<String>,
    pub path_params: Option<HashMap<String, String>>,
    pub query_params: Option<HashMap<String, String>>,
}

/// What a parameter map holds after `key` is set to `value`, where it held `old`
/// (no map at all counts as an empty one).
pub open spec fn params_after_insert(
    old: Option<HashMap<String, String>>,
    key: String,
    value: String,
) -> Map<String, String> {
    match old {
        Some(m) => m@.insert(key, value),
        None => Map::<String, String>::empty().insert(key, value),
    }
}

/// Sets `key` to `value` in the optional parameter map, creating the map if needed.
pub(crate) fn insert_param(params: Option<HashMap<String, String>>, key: String, value: String) -> (r:
    HashMap<String, String>)
    ensures
        obeys_key_model::<String>() && builds_valid_hashers::<RandomState>() ==> r@
            == params_after_insert(params, key, value),
{
    let mut m = match params {
        Some(m) => m,
        None => HashMap::new(),
    };
    m.insert(key, value);
    m
}

impl<N, M, U> RequestBuilder<N, M, U> {
    pub fn name(self, name: String) -> (r: RequestBuilder<Name, M, U>)
        ensures
            r.name == Name(name),
            r.method == self.method,
            r.url == self.url,
            r.protocol == self.protocol,
            r.headers == self.headers,
            r.body == self.body,
            r.path_params == self.path_params,
            r.query_params == self.query_params,
    {
        RequestBuilder::<Name, M, U> {
            name: Name(name),
            method: self.method,
            url: self.url,
            protocol: self.protocol,
            headers: self.headers,
            body: self.body,
            path_params: self.path_params,
            query_params: self.query_params,
        }
    }

    pub fn method(self, method: Method) -> (r: RequestBuilder<N, HasMethod, U>)
        ensures
            r.name == self.name,
            r.method == HasMethod(method),
            r.url == self.url,
            r.protocol == self.protocol,
            r.headers == self.headers,
            r.body == self.body,
            r.path_params == self.path_params,
            r.query_params == self.query_params,
    {
        RequestBuilder::<N, HasMethod, U> {
            name: self.name,
            method: HasMethod(method),
            url: self.url,
            protocol: self.protocol,
            headers: self.headers,
            body: self.body,
            path_params: self.path_params,
            query_params: self.query_params,
        }
    }

    pub fn url(self, url: String) -> (r: RequestBuilder<N, M, Url>)
        ensures
            r.name == self.name,
            r.method == self.method,
            r.url == Url(url),
            r.protocol == self.protocol,
            r.headers == self.headers,
            r.body == self.body,
            r.path_params == self.path_params,
            r.query_params == self.query_params,
    {
        RequestBuilder::<N, M, Url> {
            name: self.name,
            method: self.method,
            url: Url(url),
            protocol: self.protocol,
            headers: self.headers,
            body: self.body,
            path_params: self.path_params,
            query_params: self.query_params,
        }
    }

    pub fn protocol(self, protocol: Protocol) -> (r: RequestBuilder<N, M, U>)
        ensures
            r == (RequestBuilder { protocol: Some(protocol), ..self }),
    {
        RequestBuilder::<N, M, U> { protocol: Some(protocol), ..self }
    }

    pub fn headers(self, headers: Vec<Header>) -> (r: RequestBuilder<N, M, U>)
        ensures
            r == (RequestBuilder { headers: Some(headers), ..self }),
    {
        RequestBuilder::<N, M, U> { headers: Some(headers), ..self }
    }

    /// Appends one header after those already given.
    pub fn header(self, header: Header) -> (r: RequestBuilder<N, M, U>)
        ensures
            r.headers is Some,
            r.headers->0@ == match self.headers {
                Some(hs) => hs@.push(header),
                None => seq![header],
            },
            r.name == self.name,
            r.method == self.method,
            r.url == self.url,
            r.protocol == self.protocol,
            r.body == self.body,
            r.path_params == self.path_params,
            r.query_params == self.query_params,
    {
        let headers = match self.headers {
            Some(mut headers) => {
                headers.push(header);
                headers
            },
            None => vec![header],
        };
        RequestBuilder::<N, M, U> {
            name: self.name,
            method: self.method,
            url: self.url,
            protocol: self.protocol,
            headers: Some(headers),
            body: self.body,
            path_params: self.path_params,
            query_params: self.query_params,
        }
    }

    pub fn body(self, body: String) -> (r: RequestBuilder<N, M, U>)
        ensures
            r == (RequestBuilder { body: Some(body), ..self }),
    {
        RequestBuilder::<N, M, U> { body: Some(body), ..self }
    }

    pub fn path_params(self, path_params: HashMap<String, String>) -> (r: RequestBuilder<N, M, U>)
        ensures
            r == (RequestBuilder { path_params: Some(path_params), ..self }),
    {
        RequestBuilder::<N, M, U> { path_params: Some(path_params), ..self }
    }

    /// Sets one path parameter, keeping the others.
    pub fn path_param(self, key: String, value: String) -> (r: RequestBuilder<N, M, U>)
        ensures
            r.path_params is Some,
            obeys_key_model::<String>() && builds_valid_hashers::<RandomState>() ==> r.path_params->0@
                == params_after_insert(self.path_params, key, value),
            r.name == self.name,
            r.method == self.method,
            r.url == self.url,
            r.protocol == self.protocol,
            r.headers == self.headers,
            r.body == self.body,
            r.query_params == self.query_params,
    {
        let path_params = insert_param(self.path_params, key, value);
        RequestBuilder::<N, M, U> {
            name: self.name,
            method: self.method,
            url: self.url,
            protocol: self.protocol,
            headers: self.headers,
            body: self.body,
            path_params: Some(path_params),
            query_params: self.query_params,
        }
    }

    pub fn query_params(self, query_params: HashMap<String, String>) -> (r: RequestBuilder<
        N,
        M,
        U,
    >)
        ensures
            r == (RequestBuilder { query_params: Some(query_params), ..self }),
    {
        RequestBuilder::<N, M, U> { query_params: Some(query_params), ..self }
    }

    /// Sets one query parameter, keeping the others.
    pub fn query_param(self, key: String, value: String) -> (r: RequestBuilder<N, M, U>)
        ensures
            r.query_params is Some,
            obeys_key_model::<String>() && builds_valid_hashers::<RandomState>() ==> r.query_params->0@
                == params_after_insert(self.query_params, key, value),
            r.name == self.name,
            r.method == self.method,
            r.url == self.url,
            r.protocol == self.protocol,
            r.headers == self.headers,
            r.body == self.body,
            r.path_params == self.path_params,
    {
        let query_params = insert_param(self.query_params, key, value);
        RequestBuilder::<N, M, U> {
            name: self.name,
            method: self.method,
            url: self.url,
            protocol: self.protocol,
            headers: self.headers,
            body: self.body,
            path_params: self.path_params,
            query_params: Some(query_params),
        }
    }
}

impl RequestBuilder<Name, HasMethod, Url> {
    pub fn build(self) -> (r: Request)
        ensures
            r.name == self.name.0,
            r.method == self.method.0,
            r.url == self.url.0,
            r.protocol == self.protocol,
            r.headers@ == match self.headers {
                Some(hs) => hs@,
                None => Seq::<Header>::empty(),
            },
            r.body == self.body,
            r.path_params == self.path_params,
            r.query_params == self.query_params,
    {
        let headers = match self.headers {
            Some(hs) => hs,
            None => Vec::new(),
        };
        Request {
            name: self.name.0,
            protocol: self.protocol,
            url: self.url.0,
            method: self.method.0,
            headers,
            body: self.body,
            path_params: self.path_params,
            query_params: self.query_params,
        }
    }
}

/// A request definition. Its name is unique within a collection and names its file.
#[derive(Clone, Debug, PartialEq)]
pub struct Request {
    pub name: String,
    pub protocol: Option<Protocol>,
    pub url: String,
    pub method: Method,
    pub headers: Vec<Header>,
    pub body: Option<String>,
    pub path_params: Option<HashMap<String, String>>,
    pub query_params: Option<HashMap<String, String>>,
}

/// A request as plain values: strings as character sequences, parameter maps by content.
pub struct RequestView {
    pub name: Seq<char>,
    pub protocol: Option<Protocol>,
    pub url: Seq<char>,
    pub method: Method,
    pub headers: Seq<(Seq<char>, Seq<char>)>,
    pub body: Option<Seq<char>>,
    pub path_params: Option<Map<Seq<char>, Seq<char>>>,
    pub query_params: Option<Map<Seq<char>, Seq<char>>>,
}

/// A parameter map by content.
pub open spec fn params_view(p: Option<HashMap<String, String>>) -> Option<Map<Seq<char>, Seq<char>>> {
    match p {
        Some(m) => Some(m.deep_view()),
        None => None,
    }
}

impl View for Request {
    type V = RequestView;

    open spec fn view(&self) -> RequestView {
        RequestView {
            name: self.name@,
            protocol: self.protocol,
            url: self.url@,
            method: self.method,
            headers: self.headers@.map_values(|h: Header| (h.name@, h.value@)),
            body: match self.body {
                Some(b) => Some(b@),
                None => None,
            },
            path_params: params_view(self.path_params),
            query_params: params_view(self.query_params),
        }
    }
}

impl Request {
    /// The headers as the client's header map, in order. Fails with the error of the
    /// first header whose name or value the client does not accept.
    pub fn header_map(&self) -> (r: Result<HeaderMap, PigeonError>)
        requires
            self.headers@.len() < MAX_HEADERS,
        ensures
            r is Ok <==> headers_ok(self.headers@),
            r matches Ok(m) ==> header_entries(m) == header_pairs(self.headers@),
    {
        let mut map = HeaderMap::new();
        let mut i: usize = 0;
        while i < self.headers.len()
            invariant
                i <= self.headers@.len() < MAX_HEADERS,
                headers_ok(self.headers@.take(i as int)),
                header_entries(map) == header_pairs(self.headers@.take(i as int)),
                header_entries(map).len() == i,
            decreases self.headers@.len() - i,
        {
            let header = &self.headers[i];
            match Header::fold(Ok(map), header) {
                Ok(m) => {
                    map = m;
                },
                Err(e) => {
                    return Err(e);
                },
            }
            i += 1;
            proof {
                let t = self.headers@.take(i as int);
                assert(t.drop_last() =~= self.headers@.take(i - 1));
                assert forall|j: int| 0 <= j < t.len() implies header_ok(
                    #[trigger] t[j].name@,
                    t[j].value@,
                ) by {
                    if j < i - 1 {
                        assert(t[j] == self.headers@.take(i - 1)[j]);
                    }
                }
            }
        }
        proof {
            assert(self.headers@.take(i as int) =~= self.headers@);
        }
        Ok(map)
    }

    /// A builder with nothing set.
    pub fn builder() -> (r: RequestBuilder<NoName, NoMethod, NoUrl>)
        ensures
            r.protocol is None,
            r.headers is None,
            r.body is None,
            r.path_params is None,
            r.query_params is None,
    {
        RequestBuilder {
            name: NoName,
            method: NoMethod,
            url: NoUrl,
            protocol: None,
            headers: None,
            body: None,
            path_params: None,
            query_params: None,
        }
    }
}

} // verus!
