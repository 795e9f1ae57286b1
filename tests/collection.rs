use carrier_pigeon::collection::{
    Collection, Environment, EnvironmentValue, EnvironmentValues, SerializedCollection,
};
use carrier_pigeon::model::{Method, Request};
use carrier_pigeon::state::{App, GlobalState};
use carrier_pigeon::logging::RecordBuff;
use carrier_pigeon::update::{default_collection, load_collection, start_message, LoadError, Message};
use std::collections::HashMap;
use std::path::PathBuf;
use std::sync::{Arc, Mutex};

fn request(name: &str, url: &str, method: Method) -> Request {
    Request::builder().name(name.to_string()).method(method).url(url.to_string()).build()
}

fn encode_request(r: &Request) -> Option<Vec<u8>> {
    let m = match r.method {
        Method::Get => "GET",
        Method::Post => "POST",
    };
    Some(format!("{}\n{}\n{}", r.name, r.url, m).into_bytes())
}

fn decode_request(b: &Vec<u8>) -> Option<Request> {
    let text = String::from_utf8(b.clone()).ok()?;
    let parts: Vec<&str> = text.split('\n').collect();
    if parts.len() != 3 {
        return None;
    }
    let method = match parts[2] {
        "GET" => Method::Get,
        "POST" => Method::Post,
        _ => return None,
    };
    Some(request(parts[0], parts[1], method))
}

fn encode_values(v: &EnvironmentValues) -> Option<Vec<u8>> {
    let mut keys: Vec<&String> = v.keys().collect();
    keys.sort();
    let mut out = String::new();
    for k in keys {
        match &v[k] {
            EnvironmentValue::Value(x) => out.push_str(&format!("{}=v{};", k, x)),
            EnvironmentValue::Secret(x) => out.push_str(&format!("{}=s{};", k, x)),
        }
    }
    Some(out.into_bytes())
}

fn decode_values(b: &Vec<u8>) -> Option<EnvironmentValues> {
    let text = String::from_utf8(b.clone()).ok()?;
    let mut m = HashMap::new();
    for item in text.split(';').filter(|s| !s.is_empty()) {
        let (k, rest) = item.split_once('=')?;
        let value = match rest.chars().next()? {
            'v' => EnvironmentValue::Value(rest[1..].to_string()),
            's' => EnvironmentValue::Secret(rest[1..].to_string()),
            _ => return None,
        };
        m.insert(k.to_string(), value);
    }
    Some(m)
}

fn env(name: &str, pairs: &[(&str, &str)]) -> Environment {
    let mut values = HashMap::new();
    for (k, v) in pairs {
        values.insert(k.to_string(), EnvironmentValue::Value(v.to_string()));
    }
    Environment { name: name.to_string(), values }
}

fn sample() -> Collection {
    Collection {
        requests: vec![
            request("list", "http://h/list", Method::Get),
            request("create", "http://h/create", Method::Post),
            request("show", "http://h/show", Method::Get),
        ],
        environments: vec![env("dev", &[("host", "localhost")]), env("prod", &[("host", "h")])],
        save_location: None,
    }
}

fn contains_same<T: PartialEq + std::fmt::Debug>(a: &[T], b: &[T]) {
    assert_eq!(a.len(), b.len());
    for x in a {
        assert!(b.contains(x), "missing {:?}", x);
    }
}

#[test]
fn round_trip_keeps_requests_and_environments() {
    let c = sample();
    let ser = c.serialize(encode_request, encode_values);
    assert_eq!(ser.requests.len(), 3);
    assert_eq!(ser.environments.len(), 2);
    let back = Collection::deserialize(PathBuf::from("/data"), ser, decode_request, decode_values);
    contains_same(&back.requests, &c.requests);
    contains_same(&back.environments, &c.environments);
    assert_eq!(back.save_location, Some(PathBuf::from("/data")));
}

#[test]
fn environments_are_named_by_their_entry() {
    let ser = SerializedCollection {
        requests: vec![],
        environments: vec![("staging".to_string(), b"host=vs;token=ss3;".to_vec())],
    };
    let back = Collection::deserialize(PathBuf::from("/d"), ser, decode_request, decode_values);
    assert_eq!(back.environments.len(), 1);
    assert_eq!(back.environments[0].name, "staging");
    assert_eq!(
        back.environments[0].values.get("token"),
        Some(&EnvironmentValue::Secret("s3".to_string()))
    );
}

#[test]
fn same_name_keeps_one_entry_last_wins() {
    let c = Collection {
        requests: vec![
            request("dup", "http://first", Method::Get),
            request("dup", "http://second", Method::Get),
        ],
        environments: vec![],
        save_location: None,
    };
    let ser = c.serialize(encode_request, encode_values);
    assert_eq!(ser.requests.len(), 1);
    assert_eq!(ser.requests[0].0, "dup");
    assert_eq!(decode_request(&ser.requests[0].1).unwrap().url, "http://second");
}

#[test]
fn failed_encoding_is_dropped() {
    let c = sample();
    let ser = c.serialize(
        |r: &Request| if r.name == "create" { None } else { encode_request(r) },
        |_v: &EnvironmentValues| None,
    );
    assert_eq!(ser.requests.len(), 2);
    assert!(ser.requests.iter().all(|(n, _)| n != "create"));
    assert!(ser.environments.is_empty());
}

#[test]
fn one_corrupt_request_is_skipped() {
    let c = sample();
    let mut ser = c.serialize(encode_request, encode_values);
    ser.requests[1].1 = b"{not json".to_vec();
    let back = Collection::deserialize(PathBuf::from("/d"), ser, decode_request, decode_values);
    assert_eq!(back.requests.len(), 2);
    assert_eq!(back.environments.len(), 2);
}

#[test]
fn load_fails_on_unreadable_directory() {
    let r = load_collection(PathBuf::from("/d"), None, Some(vec![]), decode_request, decode_values);
    assert!(matches!(r, Err(LoadError::RequestsUnreadable)));
    let r = load_collection(PathBuf::from("/d"), Some(vec![]), None, decode_request, decode_values);
    assert!(matches!(r, Err(LoadError::EnvironmentsUnreadable)));
    let r = load_collection(
        PathBuf::from("/d"),
        Some(vec![("a".to_string(), encode_request(&request("a", "u", Method::Get)).unwrap())]),
        Some(vec![]),
        decode_request,
        decode_values,
    );
    let c = r.unwrap();
    assert_eq!(c.requests.len(), 1);
    assert_eq!(c.save_location, Some(PathBuf::from("/d")));
}

#[test]
fn first_run_creates_and_persists_one_of_each() {
    let mut app = App::builder()
        .logs(Arc::new(Mutex::new(RecordBuff::new())))
        .global_state(GlobalState { secrets: HashMap::new() })
        .work_dir(PathBuf::from("/missing"))
        .build();
    let first = start_message(PathBuf::from("/missing"), false);
    assert!(matches!(first, Message::NewCollection));
    let next = app.update(first);
    assert!(matches!(next, Some(Message::SaveCollection)));
    let created = app.collection.as_ref().unwrap();
    assert_eq!(created.requests.len(), 1);
    assert_eq!(created.environments.len(), 1);

    let ser = created.serialize(encode_request, encode_values);
    let back = load_collection(
        PathBuf::from("/missing"),
        Some(ser.requests),
        Some(ser.environments),
        decode_request,
        decode_values,
    )
    .unwrap();
    assert_eq!(back.requests.len(), 1);
    assert_eq!(back.environments.len(), 1);
    assert_eq!(default_collection().requests[0].name, "example");
}

#[test]
fn files_follow_the_directory_layout() {
    let ser = SerializedCollection {
        requests: vec![("list".to_string(), b"r1".to_vec()), ("show".to_string(), b"r2".to_vec())],
        environments: vec![("dev".to_string(), b"e1".to_vec())],
    };
    let files = ser.into_files();
    assert_eq!(
        files,
        vec![
            ("requests/list".to_string(), b"r1".to_vec()),
            ("requests/show".to_string(), b"r2".to_vec()),
            ("environments/dev".to_string(), b"e1".to_vec()),
        ]
    );
}
