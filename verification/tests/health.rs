//! Health-model scenarios: probe failures demote a backend, client errors on
//! the request path never do, and an unhealthy backend is refused.

use kansas::configuration::{default_health_config, BackendPoolConfig};
use kansas::error_response::error_to_response;
use kansas::handler::BackendPool;
use kansas::health::{
    health_change_message, probe_uri, update_health, HealthCell, Healthiness, UpstreamOutcome,
};
use kansas::state::{choose_backend, queue_map_new, store_backend, BadBackendError, Method,
    ProxyRequest, UpstreamResponse};

fn pool_with(addresses: &[&str]) -> BackendPool {
    BackendPool::from_config(BackendPoolConfig {
        addresses: addresses.iter().map(|a| a.to_string()).collect(),
        client: None,
        health_config: default_health_config(),
    })
}

#[test]
fn connect_timeout_marks_the_backend_unresponsive_and_requests_get_502() {
    let pool = pool_with(&["127.0.0.1:9801"]);
    let mut map = queue_map_new();
    store_backend(
        &mut map,
        Method::Other("POST".to_string()),
        &UpstreamResponse { status: 200, queue_id_header: Some(b"1500:1".to_vec()) },
        9801,
    );

    // The probe loop observes a transport error (e.g. a connect timeout).
    let address = "127.0.0.1:9801".to_string();
    let cell = pool.find_cell(&address).unwrap();
    let changed = update_health(&address, &UpstreamOutcome::TransportError, cell, true);
    assert_eq!(
        changed.as_deref(),
        Some("Backend health change for 127.0.0.1:9801: Unresponsive")
    );
    assert_eq!(cell.load(), Healthiness::Unresponsive(None));

    // The next request for the bound queue is refused, and answered 502.
    let req = ProxyRequest {
        method: Method::Get,
        path: "/api/v1/events".to_string(),
        query: Some("queue_id=1500:1".to_string()),
        shard_header: None,
        headers: Vec::new(),
        body: None,
    };
    let err = choose_backend(&pool, &map, &req).unwrap_err();
    assert!(matches!(&err, BadBackendError::UnhealthyHost(a) if a == "127.0.0.1:9801"));
    let resp = error_to_response(err);
    assert_eq!(resp.status, 502);
    assert_eq!(resp.body, "");
}

#[test]
fn client_errors_on_the_request_path_never_demote_a_backend() {
    let cell = HealthCell::new(Healthiness::Healthy);
    let address = "127.0.0.1:9801".to_string();

    // Non-strict (request path): a 4xx answer leaves the cell alone.
    let changed = update_health(&address, &UpstreamOutcome::Response(404), &cell, false);
    assert!(changed.is_none());
    assert_eq!(cell.load(), Healthiness::Healthy);

    // Strict (probe loop): the same status demotes the backend.
    let changed = update_health(&address, &UpstreamOutcome::Response(404), &cell, true);
    assert_eq!(
        changed.as_deref(),
        Some("Backend health change for 127.0.0.1:9801: Unresponsive, status: 404 Not Found")
    );
    assert_eq!(cell.load(), Healthiness::Unresponsive(Some(404)));
}

#[test]
fn server_errors_demote_in_both_modes_and_success_restores() {
    let cell = HealthCell::new(Healthiness::Healthy);
    let address = "127.0.0.1:9802".to_string();

    let changed = update_health(&address, &UpstreamOutcome::Response(500), &cell, false);
    assert!(changed.is_some());
    assert_eq!(cell.load(), Healthiness::Unresponsive(Some(500)));

    // Deterministic outcomes converge: a second identical update is silent.
    let changed = update_health(&address, &UpstreamOutcome::Response(500), &cell, false);
    assert!(changed.is_none());
    assert_eq!(cell.load(), Healthiness::Unresponsive(Some(500)));

    let changed = update_health(&address, &UpstreamOutcome::Response(204), &cell, true);
    assert_eq!(
        changed.as_deref(),
        Some("Backend health change for 127.0.0.1:9802: Healthy")
    );
    assert_eq!(cell.load(), Healthiness::Healthy);
}

#[test]
fn unchanged_health_is_not_announced() {
    let cell = HealthCell::new(Healthiness::Healthy);
    let address = "127.0.0.1:9801".to_string();
    let changed = update_health(&address, &UpstreamOutcome::Response(200), &cell, true);
    assert!(changed.is_none());
    assert_eq!(cell.load(), Healthiness::Healthy);
}

#[test]
fn healthiness_describes_itself_as_the_log_lines_expect() {
    assert_eq!(Healthiness::Healthy.describe(), "Healthy");
    assert_eq!(Healthiness::Unresponsive(None).describe(), "Unresponsive");
    assert_eq!(
        Healthiness::Unresponsive(Some(503)).describe(),
        "Unresponsive, status: 503 Service Unavailable"
    );
    // A valid status code without a canonical reason phrase keeps the
    // fallback text.
    assert_eq!(
        Healthiness::Unresponsive(Some(599)).describe(),
        "Unresponsive, status: 599 <unknown status code>"
    );
    assert_eq!(
        health_change_message(&"127.0.0.1:9801".to_string(), &Healthiness::Unresponsive(Some(503))),
        "Backend health change for 127.0.0.1:9801: Unresponsive, status: 503 Service Unavailable"
    );
}

#[test]
fn status_texts_match_the_status_code_display() {
    for status in [200u16, 204, 301, 400, 404, 418, 500, 502, 503, 599] {
        let reference = format!(
            "Unresponsive, status: {}",
            http::StatusCode::from_u16(status).unwrap()
        );
        assert_eq!(Healthiness::Unresponsive(Some(status)).describe(), reference);
    }
}

#[test]
fn probe_uri_is_scheme_address_path() {
    assert_eq!(
        probe_uri(&"127.0.0.1:9801".to_string(), &"/".to_string()),
        "http://127.0.0.1:9801/"
    );
    assert_eq!(
        probe_uri(&"127.0.0.1:9802".to_string(), &"/health".to_string()),
        "http://127.0.0.1:9802/health"
    );
}
