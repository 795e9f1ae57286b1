use carrier_pigeon::client::{self, PigeonError};
use carrier_pigeon::model::{
    HasMethod, Header, Method, Name, NoMethod, NoName, NoUrl, Protocol, Request, RequestBuilder,
    Url,
};
use reqwest::header::HeaderMap;
use std::collections::HashMap;

fn empty_builder() -> RequestBuilder<NoName, NoMethod, NoUrl> {
    RequestBuilder {
        name: NoName,
        method: NoMethod,
        url: NoUrl,
        protocol: None,
        headers: None,
        body: None,
        path_params: None,
        query_params: None,
    }
}

#[test]
fn test_header_creation() {
    let header = Header {
        name: "Content-Type".into(),
        value: "application/json".into(),
    };

    assert_eq!(header.name.as_str(), "Content-Type");
    assert_eq!(header.value.as_str(), "application/json");
}

#[test]
fn test_fold_valid_headers() {
    let header = Header {
        name: "Content-Type".into(),
        value: "application/json".into(),
    };

    let headers = HeaderMap::new();
    let result = Header::fold(Ok(headers), &header);

    assert!(result.is_ok());
    let headers = result.unwrap();
    assert_eq!(headers.get("Content-Type").unwrap(), "application/json");
}

#[test]
fn test_fold_invalid_headers() {
    let header = Header {
        name: "Content-Type".into(),
        value: "application/json".into(),
    };

    let result = Header::fold(Err(PigeonError::InvalidHeaders), &header);

    assert!(result.is_err());
}

#[test]
fn test_fold_invalid_header_name() {
    let header = Header {
        name: "\0Content-Type".into(),
        value: "application/json".into(),
    };

    let headers = HeaderMap::new();
    let result = Header::fold(Ok(headers), &header);

    assert!(result.is_err());
}

#[test]
fn test_fold_invalid_header_value() {
    let header = Header {
        name: "Content-Type".into(),
        value: "\0application/json".into(),
    };

    let headers = HeaderMap::new();
    let result = Header::fold(Ok(headers), &header);

    assert!(result.is_err());
}

#[test]
fn test_name() {
    let builder = empty_builder();
    let builder = builder.name("TestName".to_string());
    assert_eq!(builder.name, Name("TestName".to_string()));
}

#[test]
fn test_method() {
    let builder = empty_builder();
    let builder = builder.method(Method::Get);
    assert_eq!(builder.method, HasMethod(Method::Get));
}

#[test]
fn test_url() {
    let builder = empty_builder();
    let builder = builder.url("http://example.com".to_string());
    assert_eq!(builder.url, Url("http://example.com".to_string()));
}

#[test]
fn test_protocol() {
    let builder = empty_builder();
    let builder = builder.protocol(Protocol::Http);
    assert_eq!(builder.protocol, Some(Protocol::Http));
}

#[test]
fn test_headers() {
    let builder = empty_builder();
    let builder = builder.headers(vec![Header {
        name: "Content-Type".into(),
        value: "application/json".into(),
    }]);
    assert_eq!(
        builder.headers,
        Some(vec![Header {
            name: "Content-Type".into(),
            value: "application/json".into()
        }])
    );
}

#[test]
fn test_body() {
    let builder = empty_builder();
    let builder = builder.body("body content".to_string());
    assert_eq!(builder.body, Some("body content".to_string()));
}

#[test]
fn test_path_params() {
    let builder = empty_builder();
    let mut params = HashMap::new();
    params.insert("key".to_string(), "value".to_string());
    let builder = builder.path_params(params.clone());
    assert_eq!(builder.path_params, Some(params));
}

#[test]
fn test_query_params() {
    let builder = empty_builder();
    let mut params = HashMap::new();
    params.insert("key".to_string(), "value".to_string());
    let builder = builder.query_params(params.clone());
    assert_eq!(builder.query_params, Some(params));
}

fn key_value() -> HashMap<String, String> {
    let mut params = HashMap::new();
    params.insert("key".to_string(), "value".to_string());
    params
}

#[test]
fn test_build() {
    let request = empty_builder()
        .name("TestName".to_string())
        .method(Method::Get)
        .url("http://example.com".to_string())
        .protocol(Protocol::Http)
        .headers(vec![Header {
            name: "Content-Type".into(),
            value: "application/json".into(),
        }])
        .body("body content".to_string())
        .path_params(key_value())
        .query_params(key_value())
        .build();

    assert_eq!(
        request,
        Request {
            name: "TestName".to_string(),
            protocol: Some(Protocol::Http),
            url: "http://example.com".to_string(),
            method: Method::Get,
            headers: vec![Header {
                name: "Content-Type".into(),
                value: "application/json".into()
            }],
            body: Some("body content".to_string()),
            path_params: Some(key_value()),
            query_params: Some(key_value()),
        }
    );
}

#[test]
fn builder_header_appends_in_order() {
    let first = Header { name: "A".into(), value: "1".into() };
    let second = Header { name: "B".into(), value: "2".into() };
    let builder = Request::builder().header(first.clone()).header(second.clone());
    assert_eq!(builder.headers, Some(vec![first, second]));
}

#[test]
fn builder_single_params_accumulate() {
    let builder = Request::builder()
        .path_param("id".to_string(), "7".to_string())
        .path_param("org".to_string(), "x".to_string())
        .query_param("q".to_string(), "1".to_string());
    let path = builder.path_params.unwrap();
    assert_eq!(path.len(), 2);
    assert_eq!(path.get("id"), Some(&"7".to_string()));
    assert_eq!(path.get("org"), Some(&"x".to_string()));
    assert_eq!(builder.query_params.unwrap().get("q"), Some(&"1".to_string()));
}

#[test]
fn build_without_headers_gives_empty_list() {
    let request = Request::builder()
        .name("n".to_string())
        .method(Method::Post)
        .url("u".to_string())
        .build();
    assert!(request.headers.is_empty());
    assert_eq!(request.method.as_str(), "POST");
}

#[test]
fn header_map_holds_every_header() {
    let request = Request::builder()
        .name("n".to_string())
        .method(Method::Get)
        .url("u".to_string())
        .header(Header { name: "Accept".into(), value: "text/plain".into() })
        .header(Header { name: "Accept".into(), value: "text/html".into() })
        .build();
    let map = request.header_map().unwrap();
    assert_eq!(map.len(), 2);
    let values: Vec<_> = map.get_all("accept").iter().collect();
    assert_eq!(values, vec!["text/plain", "text/html"]);
}

#[test]
fn header_map_rejects_bad_name() {
    let request = Request::builder()
        .name("n".to_string())
        .method(Method::Get)
        .url("u".to_string())
        .header(Header { name: "Bad Name".into(), value: "v".into() })
        .build();
    assert!(matches!(request.header_map(), Err(PigeonError::InvalidHeaderName(_))));
}

#[test]
fn header_map_rejects_bad_value() {
    let request = Request::builder()
        .name("n".to_string())
        .method(Method::Get)
        .url("u".to_string())
        .header(Header { name: "X".into(), value: "a\nb".into() })
        .build();
    assert!(matches!(request.header_map(), Err(PigeonError::InvalidHeaderValue(_))));
}

#[test]
fn client_request_fluent_setters() {
    let request = client::Request::new(client::Method::POST, "http://h".to_string())
        .protocol(client::Protocol::Tcp)
        .add_header(client::Header { name: "A".into(), value: "1".into() })
        .headers(vec![client::Header { name: "B".into(), value: "2".into() }])
        .body("b".to_string())
        .path_param("p".to_string(), "1".to_string())
        .query_param("q".to_string(), "2".to_string());
    assert_eq!(request.url, "http://h");
    assert_eq!(request.method, client::Method::POST);
    assert_eq!(request.protocol, Some(client::Protocol::Tcp));
    assert_eq!(request.headers.len(), 2);
    assert_eq!(request.headers[0].name, "A");
    assert_eq!(request.headers[1].name, "B");
    assert_eq!(request.body, Some("b".to_string()));
    assert_eq!(request.path_params.unwrap().get("p"), Some(&"1".to_string()));
    assert_eq!(request.query_params.unwrap().get("q"), Some(&"2".to_string()));
}

#[test]
fn client_header_fold_checks_bytes() {
    let good = client::Header { name: "X-Id".into(), value: "42".into() };
    let bad = client::Header { name: "X-Id".into(), value: "\u{7f}".into() };
    let map = client::Header::fold(Ok(HeaderMap::new()), &good).unwrap();
    assert_eq!(map.get("x-id").unwrap(), "42");
    assert!(matches!(
        client::Header::fold(Ok(map), &bad),
        Err(PigeonError::InvalidHeaderValue(_))
    ));
}
