//! End-to-end routing scenarios: queue creation, sticky lookups, deletion,
//! and the error answers.

use kansas::configuration::{default_health_config, BackendPoolConfig};
use kansas::error_response::error_to_response;
use kansas::handler::{build_forward_request, BackendPool, ClientIp};
use kansas::state::{
    backend_address, choose_backend, get_port, queue_map_get, queue_map_new, store_backend,
    BadBackendError, Method, ProxyRequest, UpstreamResponse,
};

fn pool_with(addresses: &[&str]) -> BackendPool {
    BackendPool::from_config(BackendPoolConfig {
        addresses: addresses.iter().map(|a| a.to_string()).collect(),
        client: None,
        health_config: default_health_config(),
    })
}

fn create_request(shard: &[u8]) -> ProxyRequest {
    ProxyRequest {
        method: Method::Other("POST".to_string()),
        path: "/api/v1/events/internal".to_string(),
        query: None,
        shard_header: Some(shard.to_vec()),
        headers: Vec::new(),
        body: Some(Vec::new()),
    }
}

fn get_request(query: &str) -> ProxyRequest {
    ProxyRequest {
        method: Method::Get,
        path: "/api/v1/events".to_string(),
        query: Some(query.to_string()),
        shard_header: None,
        headers: Vec::new(),
        body: None,
    }
}

fn delete_request(body: &[u8]) -> ProxyRequest {
    ProxyRequest {
        method: Method::Delete,
        path: "/api/v1/events".to_string(),
        query: None,
        shard_header: None,
        headers: Vec::new(),
        body: Some(body.to_vec()),
    }
}

#[test]
fn create_queue_routes_to_declared_shard_and_binds_queue() {
    let pool = pool_with(&["127.0.0.1:9801"]);
    let mut map = queue_map_new();
    let req = create_request(b"9801");

    let (port, address) = choose_backend(&pool, &map, &req).unwrap();
    assert_eq!(port, 9801);
    assert_eq!(address, "127.0.0.1:9801");

    let fwd = build_forward_request(&req, &address, &ClientIp::V4([127, 0, 0, 1]));
    assert_eq!(fwd.uri, "http://127.0.0.1:9801/api/v1/events/internal");

    let resp = UpstreamResponse { status: 200, queue_id_header: Some(b"1500:1".to_vec()) };
    store_backend(&mut map, Method::Other("POST".to_string()), &resp, port);
    assert_eq!(queue_map_get(&map, &"1500:1".to_string()), Some(9801));
}

#[test]
fn get_routes_bound_queue_to_its_shard() {
    let pool = pool_with(&["127.0.0.1:9801", "127.0.0.1:9802"]);
    let mut map = queue_map_new();
    let resp = UpstreamResponse { status: 200, queue_id_header: Some(b"1500:1".to_vec()) };
    store_backend(&mut map, Method::Other("POST".to_string()), &resp, 9801);

    let req = get_request("queue_id=1500:1&dont_block=true");
    let (port, address) = choose_backend(&pool, &map, &req).unwrap();
    assert_eq!(port, 9801);
    assert_eq!(address, "127.0.0.1:9801");

    let fwd = build_forward_request(&req, &address, &ClientIp::V4([10, 0, 0, 7]));
    assert_eq!(fwd.uri, "http://127.0.0.1:9801/api/v1/events?queue_id=1500:1&dont_block=true");
}

#[test]
fn unknown_queue_is_answered_with_the_distinguished_json_body() {
    let pool = pool_with(&["127.0.0.1:9801"]);
    let map = queue_map_new();
    let req = get_request("queue_id=unknown");

    let err = choose_backend(&pool, &map, &req).unwrap_err();
    match &err {
        BadBackendError::UnknownQueue(q) => assert_eq!(q, "unknown"),
        other => panic!("expected UnknownQueue, got {}", other.describe()),
    }
    let resp = error_to_response(err);
    assert_eq!(resp.status, 400);
    assert_eq!(resp.content_type.as_deref(), Some("application/json"));
    assert_eq!(
        resp.body,
        "{\"result\":\"error\",\"msg\":\"Bad event queue_id: unknown\",\"queue_id\":\"unknown\",\"code\":\"BAD_EVENT_QUEUE_ID\"}"
    );
}

#[test]
fn delete_forwards_the_exact_body_and_unbinds_the_queue() {
    let pool = pool_with(&["127.0.0.1:9801"]);
    let mut map = queue_map_new();
    let create = UpstreamResponse { status: 200, queue_id_header: Some(b"1500:1".to_vec()) };
    store_backend(&mut map, Method::Other("POST".to_string()), &create, 9801);

    let req = delete_request(b"queue_id=1500:1");
    let (port, address) = choose_backend(&pool, &map, &req).unwrap();
    assert_eq!((port, address.as_str()), (9801, "127.0.0.1:9801"));

    // Body fidelity: the upstream receives exactly the bytes the client sent.
    let fwd = build_forward_request(&req, &address, &ClientIp::V4([127, 0, 0, 1]));
    assert_eq!(fwd.body.as_deref(), Some(b"queue_id=1500:1".as_slice()));

    let resp = UpstreamResponse { status: 200, queue_id_header: Some(b"1500:1".to_vec()) };
    store_backend(&mut map, Method::Delete, &resp, port);
    assert_eq!(queue_map_get(&map, &"1500:1".to_string()), None);

    // The binding is gone: the same request is now refused.
    let err = choose_backend(&pool, &map, &req).unwrap_err();
    assert!(matches!(err, BadBackendError::UnknownQueue(q) if q == "1500:1"));
}

#[test]
fn non_success_responses_never_touch_the_routing_map() {
    let mut map = queue_map_new();
    let resp = UpstreamResponse { status: 502, queue_id_header: Some(b"1500:1".to_vec()) };
    store_backend(&mut map, Method::Other("POST".to_string()), &resp, 9801);
    assert_eq!(queue_map_get(&map, &"1500:1".to_string()), None);

    store_backend(
        &mut map,
        Method::Other("POST".to_string()),
        &UpstreamResponse { status: 200, queue_id_header: Some(b"1500:1".to_vec()) },
        9801,
    );
    let resp = UpstreamResponse { status: 404, queue_id_header: Some(b"1500:1".to_vec()) };
    store_backend(&mut map, Method::Delete, &resp, 9801);
    assert_eq!(queue_map_get(&map, &"1500:1".to_string()), Some(9801));
}

#[test]
fn never_routes_to_an_unconfigured_address() {
    // The routing map names a shard that is not in the pool: the resolver
    // refuses rather than routing outside the configured set.
    let pool = pool_with(&["127.0.0.1:9801"]);
    let mut map = queue_map_new();
    let resp = UpstreamResponse { status: 200, queue_id_header: Some(b"1500:1".to_vec()) };
    store_backend(&mut map, Method::Other("POST".to_string()), &resp, 9999);

    let err = choose_backend(&pool, &map, &get_request("queue_id=1500:1")).unwrap_err();
    assert!(matches!(err, BadBackendError::UnknownHost(ref a) if a == "127.0.0.1:9999"));
    let resp = error_to_response(err);
    assert_eq!(resp.status, 502);
    assert_eq!(resp.body, "");
}

#[test]
fn shard_header_errors_are_reported_exactly() {
    let map = queue_map_new();
    let mut req = create_request(b"9801");
    req.shard_header = None;
    match get_port(&map, &req).unwrap_err() {
        BadBackendError::BadRequest(m) => assert_eq!(m, "No x-tornado-shard header"),
        other => panic!("wrong error: {}", other.describe()),
    }

    let req = create_request(&[0x80, 0x81]);
    match get_port(&map, &req).unwrap_err() {
        BadBackendError::BadRequest(m) => assert_eq!(m, "Cannot convert header to string"),
        other => panic!("wrong error: {}", other.describe()),
    }

    let req = create_request(b"70000");
    match get_port(&map, &req).unwrap_err() {
        BadBackendError::BadRequest(m) => assert_eq!(m, "Failed to parse port as int"),
        other => panic!("wrong error: {}", other.describe()),
    }

    // "0" is a valid port, not special-cased.
    let req = create_request(b"0");
    assert_eq!(get_port(&map, &req).unwrap(), 0);

    // A leading plus sign is accepted, exactly as integer parsing does.
    let req = create_request(b"+9801");
    assert_eq!(get_port(&map, &req).unwrap(), 9801);
}

#[test]
fn method_and_query_errors_are_reported_exactly() {
    let map = queue_map_new();

    let mut req = get_request("queue_id=1");
    req.query = None;
    match get_port(&map, &req).unwrap_err() {
        BadBackendError::BadRequest(m) => assert_eq!(m, "No query string"),
        other => panic!("wrong error: {}", other.describe()),
    }

    let mut req = get_request("queue_id=1");
    req.method = Method::Other("PUT".to_string());
    match get_port(&map, &req).unwrap_err() {
        BadBackendError::BadRequest(m) => assert_eq!(m, "Unknown method PUT"),
        other => panic!("wrong error: {}", other.describe()),
    }

    let mut req = delete_request(b"queue_id=1");
    req.body = None;
    match get_port(&map, &req).unwrap_err() {
        BadBackendError::BadRequest(m) => assert_eq!(m, "Failed to read request body"),
        other => panic!("wrong error: {}", other.describe()),
    }

    let req = get_request("dont_block=true");
    match get_port(&map, &req).unwrap_err() {
        BadBackendError::UnknownQueue(q) => assert_eq!(q, "(missing)"),
        other => panic!("wrong error: {}", other.describe()),
    }
}

#[test]
fn non_utf8_queue_ids_are_reported_with_replacement_characters() {
    // `%FF` decodes to a byte that is not UTF-8; the lookup key and the error
    // carry the replacement character instead, and never match an ASCII key.
    let map = queue_map_new();
    let err = get_port(&map, &get_request("queue_id=%FF")).unwrap_err();
    match err {
        BadBackendError::UnknownQueue(q) => assert_eq!(q, "\u{fffd}"),
        other => panic!("wrong error: {}", other.describe()),
    }
}

#[test]
fn a_new_create_response_rebinds_a_queue() {
    // The upstream has authority: a later success create-response moves the
    // queue to the shard that answered.
    let mut map = queue_map_new();
    let resp = UpstreamResponse { status: 200, queue_id_header: Some(b"1500:1".to_vec()) };
    store_backend(&mut map, Method::Other("POST".to_string()), &resp, 9801);
    store_backend(&mut map, Method::Other("POST".to_string()), &resp, 9802);
    assert_eq!(queue_map_get(&map, &"1500:1".to_string()), Some(9802));
}

#[test]
fn backend_address_is_loopback_with_the_port() {
    assert_eq!(backend_address(9801), "127.0.0.1:9801");
    assert_eq!(backend_address(0), "127.0.0.1:0");
    assert_eq!(backend_address(65535), "127.0.0.1:65535");
}
