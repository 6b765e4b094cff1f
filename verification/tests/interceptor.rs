use http::{HeaderValue, Method, StatusCode, Uri};
use simple_server_analytics::correlation::ConnId;
use simple_server_analytics::duration::HumanReadableDuration;
use simple_server_analytics::id::Id;
use simple_server_analytics::interceptor::{
    final_status, final_status_of, Arrived, Dispatching, RequestFacts, ResponseReport,
};
use simple_server_analytics::store::StorageError;

#[test]
fn facts_hold_the_text_given() {
    let facts = RequestFacts::new("GET", "/widgets", Some("example.com"), Some("test-agent/1.0"));
    assert_eq!(facts.method, "GET");
    assert_eq!(facts.path, "/widgets");
    assert_eq!(facts.hostname, "example.com");
    assert_eq!(facts.user_agent, "test-agent/1.0");
}

#[test]
fn a_missing_header_counts_as_empty() {
    let facts = RequestFacts::new("GET", "/", None, None);
    assert_eq!(facts.hostname, "");
    assert_eq!(facts.user_agent, "");
    let facts = RequestFacts::new("GET", "/", Some("h"), None);
    assert_eq!(facts.hostname, "h");
    assert_eq!(facts.user_agent, "");
}

#[test]
fn facts_are_read_off_the_values_of_the_stack() {
    let uri: Uri = "http://example.com/widgets?colour=red".parse().unwrap();
    let host = HeaderValue::from_static("example.com");
    let agent = HeaderValue::from_static("test-agent/1.0");
    let facts = RequestFacts::read(&Method::GET, &uri, Some(&host), Some(&agent));
    assert_eq!(facts.method, "GET");
    assert_eq!(facts.path, "/widgets");
    assert_eq!(facts.hostname, "example.com");
    assert_eq!(facts.user_agent, "test-agent/1.0");
    let facts = RequestFacts::read(&Method::DELETE, &Uri::from_static("/a/b"), None, None);
    assert_eq!(facts.method, "DELETE");
    assert_eq!(facts.path, "/a/b");
    assert_eq!(facts.hostname, "");
    assert_eq!(facts.user_agent, "");
}

#[test]
fn a_header_that_is_not_visible_ascii_counts_as_empty() {
    let host = HeaderValue::from_bytes(b"ex\xffample").unwrap();
    let agent = HeaderValue::from_bytes("agent-\u{e9}".as_bytes()).unwrap();
    let facts = RequestFacts::read(&Method::GET, &Uri::from_static("/"), Some(&host), Some(&agent));
    assert_eq!(facts.hostname, "");
    assert_eq!(facts.user_agent, "");
}

#[test]
fn a_status_that_is_not_set_counts_as_200() {
    assert_eq!(final_status(None), 200);
    assert_eq!(final_status_of(None), 200);
}

#[test]
fn a_status_that_is_set_is_kept() {
    assert_eq!(final_status(Some(500)), 500);
    assert_eq!(final_status(Some(204)), 204);
    assert_eq!(final_status_of(Some(StatusCode::NOT_FOUND)), 404);
    assert_eq!(final_status_of(Some(StatusCode::INTERNAL_SERVER_ERROR)), 500);
    assert_eq!(final_status_of(Some(StatusCode::CONTINUE)), 100);
    assert_eq!(final_status_of(Some(StatusCode::from_u16(999).unwrap())), 999);
}

#[test]
fn a_request_carries_what_the_transport_attached() {
    assert_eq!(Arrived::new(Some(ConnId(Id(7)))), Arrived { conn_id: Some(Id(7)) });
    assert_eq!(Arrived::new(None), Arrived { conn_id: None });
}

#[test]
fn the_request_report_refers_to_the_connection() {
    let facts = RequestFacts::new("GET", "/widgets", Some("example.com"), None);
    let report = Arrived::new(Some(ConnId(Id(7)))).request_report(facts.clone());
    assert_eq!(report.conn_id, Some(Id(7)));
    assert_eq!(report.facts, facts);
    let report = Arrived::new(None).request_report(facts.clone());
    assert_eq!(report.conn_id, None);
}

#[test]
fn dispatch_follows_whatever_the_store_answers() {
    let arrived = Arrived::new(Some(ConnId(Id(7))));
    assert_eq!(
        arrived.reported(Ok(Id(9))),
        Dispatching { conn_id: Some(Id(7)), req_id: Some(Id(9)) }
    );
    assert_eq!(
        arrived.reported(Err(StorageError::Io)),
        Dispatching { conn_id: Some(Id(7)), req_id: None }
    );
}

#[test]
fn a_response_is_reported_for_a_recorded_request() {
    let dispatching = Arrived::new(Some(ConnId(Id(7)))).reported(Ok(Id(9)));
    assert_eq!(
        dispatching.completed(HumanReadableDuration(12_000_000), Some(200)),
        Some(ResponseReport {
            conn_id: Some(Id(7)),
            req_id: Id(9),
            duration: HumanReadableDuration(12_000_000),
            status: 200,
        })
    );
}

#[test]
fn no_response_is_reported_for_a_request_without_record() {
    let dispatching = Arrived::new(Some(ConnId(Id(7)))).reported(Err(StorageError::PoolExhausted));
    assert_eq!(dispatching.completed(HumanReadableDuration(12_000_000), Some(200)), None);
}

#[test]
fn an_error_turned_into_a_status_is_reported_with_that_status() {
    let dispatching = Arrived::new(None).reported(Ok(Id(9)));
    let report = dispatching.completed(HumanReadableDuration(0), Some(500)).unwrap();
    assert_eq!(report.status, 500);
    assert_eq!(report.duration, HumanReadableDuration(0));
    assert_eq!(report.req_id, Id(9));
    assert_eq!(report.conn_id, None);
}

#[test]
fn a_response_without_status_is_reported_as_200() {
    let dispatching = Arrived::new(None).reported(Ok(Id(9)));
    assert_eq!(dispatching.completed(HumanReadableDuration(5), None).unwrap().status, 200);
}

#[test]
fn a_header_of_visible_ascii_gives_its_bytes_as_text() {
    let host = HeaderValue::from_bytes(b"a\tb ~!").unwrap();
    let agent = HeaderValue::from_bytes(b"").unwrap();
    let facts = RequestFacts::read(&Method::GET, &Uri::from_static("/"), Some(&host), Some(&agent));
    assert_eq!(facts.hostname, "a\tb ~!");
    assert_eq!(facts.hostname.as_bytes(), host.as_bytes());
    assert_eq!(facts.user_agent, "");
    let agent = HeaderValue::from_bytes(b"test-agent/1.0 (x11; linux)").unwrap();
    let facts = RequestFacts::read(&Method::GET, &Uri::from_static("/"), None, Some(&agent));
    assert_eq!(facts.hostname, "");
    assert_eq!(facts.user_agent.as_bytes(), agent.as_bytes());
}

#[test]
fn one_byte_beyond_visible_ascii_empties_the_header() {
    let host = HeaderValue::from_bytes(b"example.com\x80").unwrap();
    let agent = HeaderValue::from_bytes(b"\xe9").unwrap();
    let facts = RequestFacts::read(&Method::GET, &Uri::from_static("/"), Some(&host), Some(&agent));
    assert_eq!(facts.hostname, "");
    assert_eq!(facts.user_agent, "");
}

#[test]
fn every_status_code_is_recorded_as_its_own_number() {
    for number in 100..1000_u16 {
        let code = StatusCode::from_u16(number).unwrap();
        assert_eq!(final_status_of(Some(code)), number);
    }
}

#[test]
fn method_and_path_are_read_as_the_stack_names_them() {
    let methods: Vec<Method> = vec![
        Method::GET,
        Method::POST,
        Method::OPTIONS,
        Method::from_bytes(b"PROPFIND").unwrap(),
    ];
    let uri: Uri = "https://example.com:8443/a/b%20c?x=1".parse().unwrap();
    for method in methods {
        let facts = RequestFacts::read(&method, &uri, None, None);
        assert_eq!(facts.method, method.as_str());
        assert_eq!(facts.path, uri.path());
        assert_eq!(facts.path, "/a/b%20c");
    }
    let facts = RequestFacts::read(&Method::GET, &Uri::from_static("http://example.com"), None, None);
    assert_eq!(facts.path, "/");
}
