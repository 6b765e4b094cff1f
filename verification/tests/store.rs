use http::uri::Scheme;
use http::Version;
use simple_server_analytics::duration::{FormatError, HumanReadableDuration, UnitPolicy};
use simple_server_analytics::id::{Id, MARK_BITS, TIME_ORDERED_MARK};
use simple_server_analytics::store::{
    Connection, Request, Response, StoredConnection, StoredResponse, Value, CONNECTION_TABLE,
    INSERT_CONNECTION, INSERT_REQUEST, INSERT_RESPONSE, REQUEST_TABLE, RESPONSE_TABLE,
};
use simple_server_analytics::version::HttpVersion;

fn sample_connection() -> Connection {
    Connection::new(Id(7), 1_700_000_000_000, "127.0.0.1:8080", "10.0.0.5:51515", "http", HttpVersion::Http11)
}

#[test]
fn a_connection_record_holds_its_parts() {
    let c = sample_connection();
    assert_eq!(c.id, Id(7));
    assert_eq!(c.created_at, 1_700_000_000_000);
    assert_eq!(c.local_addr, "127.0.0.1:8080");
    assert_eq!(c.remote_addr, "10.0.0.5:51515");
    assert_eq!(c.http_scheme, "http");
    assert_eq!(c.http_version, HttpVersion::Http11);
}

#[test]
fn a_connection_is_stored_with_its_version_as_text() {
    let stored = sample_connection().to_stored();
    assert_eq!(
        stored,
        StoredConnection {
            id: Id(7),
            created_at: 1_700_000_000_000,
            local_addr: "127.0.0.1:8080".to_string(),
            remote_addr: "10.0.0.5:51515".to_string(),
            http_scheme: "http".to_string(),
            http_version: "HTTP/1.1".to_string(),
        }
    );
}

#[test]
fn a_stored_connection_is_restored() {
    let restored = Connection::from_stored(sample_connection().to_stored());
    assert_eq!(restored, sample_connection());
}

#[test]
fn a_stored_connection_with_a_strange_version_is_restored_as_unknown() {
    let mut stored = sample_connection().to_stored();
    stored.http_version = "SPDY/3".to_string();
    assert_eq!(Connection::from_stored(stored).http_version, HttpVersion::Unknown);
}

#[test]
fn a_minted_connection_names_scheme_and_version_as_the_stack_does() {
    let c = Connection::mint("127.0.0.1:8080", "10.0.0.5:51515", &Scheme::HTTP, Version::HTTP_11);
    assert_eq!(c.id.0 & MARK_BITS, TIME_ORDERED_MARK);
    assert_eq!(c.local_addr, "127.0.0.1:8080");
    assert_eq!(c.remote_addr, "10.0.0.5:51515");
    assert_eq!(c.http_scheme, "http");
    assert_eq!(c.http_version, HttpVersion::Http11);
    let c = Connection::mint("[::1]:443", "[::1]:50000", &Scheme::HTTPS, Version::HTTP_2);
    assert_eq!(c.http_scheme, "https");
    assert_eq!(c.http_version, HttpVersion::Http2);
}

#[test]
fn every_version_of_the_stack_is_told_apart() {
    let pairs: Vec<(Version, HttpVersion)> = vec![
        (Version::HTTP_09, HttpVersion::Http09),
        (Version::HTTP_10, HttpVersion::Http10),
        (Version::HTTP_11, HttpVersion::Http11),
        (Version::HTTP_2, HttpVersion::Http2),
        (Version::HTTP_3, HttpVersion::Http3),
    ];
    for (version, expected) in pairs {
        let c = Connection::mint("a", "b", &Scheme::HTTP, version);
        assert_eq!(c.http_version, expected);
    }
}

#[test]
fn a_minted_record_is_stamped_with_the_time_of_the_call() {
    let before = std::time::SystemTime::now()
        .duration_since(std::time::UNIX_EPOCH)
        .unwrap()
        .as_millis() as i64;
    let c = Connection::mint("a", "b", &Scheme::HTTP, Version::HTTP_11);
    let q = Request::mint(Some(c.id), "GET", "/", "", "");
    let r = Response::mint(Some(c.id), q.id, HumanReadableDuration(1), 200);
    let after = std::time::SystemTime::now()
        .duration_since(std::time::UNIX_EPOCH)
        .unwrap()
        .as_millis() as i64;
    assert!(before <= c.created_at && c.created_at <= q.created_at);
    assert!(q.created_at <= r.created_at && r.created_at <= after);
}

#[test]
fn a_request_record_holds_its_parts() {
    let q = Request::new(Id(9), 5, Some(Id(7)), "GET", "/widgets", "example.com", "test-agent/1.0");
    assert_eq!(q.id, Id(9));
    assert_eq!(q.created_at, 5);
    assert_eq!(q.conn_id, Some(Id(7)));
    assert_eq!(q.method, "GET");
    assert_eq!(q.path, "/widgets");
    assert_eq!(q.hostname, "example.com");
    assert_eq!(q.user_agent, "test-agent/1.0");
}

#[test]
fn a_minted_request_refers_to_its_connection() {
    let q = Request::mint(Some(Id(7)), "POST", "/a", "h", "ua");
    assert_eq!(q.id.0 & MARK_BITS, TIME_ORDERED_MARK);
    assert_eq!(q.conn_id, Some(Id(7)));
    assert_eq!(q.method, "POST");
    assert_eq!(q.path, "/a");
    assert_eq!(q.hostname, "h");
    assert_eq!(q.user_agent, "ua");
    assert_eq!(Request::mint(None, "GET", "/", "", "").conn_id, None);
}

#[test]
fn a_minted_response_refers_to_its_request() {
    let r = Response::mint(Some(Id(7)), Id(9), HumanReadableDuration(12_000_000), 404);
    assert_eq!(r.id.0 & MARK_BITS, TIME_ORDERED_MARK);
    assert_eq!(r.conn_id, Some(Id(7)));
    assert_eq!(r.req_id, Id(9));
    assert_eq!(r.duration, HumanReadableDuration(12_000_000));
    assert_eq!(r.status, 404);
}

#[test]
fn a_response_is_stored_with_its_duration_as_text() {
    let r = Response::new(Id(11), 6, Some(Id(7)), Id(9), HumanReadableDuration(12_000_000), 200);
    assert_eq!(
        r.to_stored(),
        StoredResponse {
            id: Id(11),
            created_at: 6,
            conn_id: Some(Id(7)),
            req_id: Id(9),
            duration: "0.012s\n".to_string(),
            status: 200,
        }
    );
}

#[test]
fn a_stored_response_is_restored() {
    let r = Response::new(Id(11), 6, None, Id(9), HumanReadableDuration(61_500_000_000), 500);
    assert_eq!(Response::from_stored_exact(r.clone().to_stored(), UnitPolicy::One), Ok(r.clone()));
    assert_eq!(
        Response::from_stored_given(r.clone().to_stored(), UnitPolicy::One, &vec![Ok(1_500_000_000)]),
        Ok(r)
    );
}

#[test]
fn a_stored_response_with_a_long_duration_is_restored_shorter() {
    let r = Response::new(Id(11), 6, None, Id(9), HumanReadableDuration(125_000_000_000), 200);
    let restored = Response::from_stored_exact(r.clone().to_stored(), UnitPolicy::One).unwrap();
    assert_eq!(restored.duration, HumanReadableDuration(65_000_000_000));
    let restored =
        Response::from_stored_given(r.to_stored(), UnitPolicy::One, &vec![Ok(5_000_000_000)]).unwrap();
    assert_eq!(restored.duration, HumanReadableDuration(65_000_000_000));
}

#[test]
fn a_stored_response_with_a_malformed_duration_is_not_restored() {
    let stored = StoredResponse {
        id: Id(11),
        created_at: 6,
        conn_id: None,
        req_id: Id(9),
        duration: "fasts".to_string(),
        status: 200,
    };
    assert_eq!(
        Response::from_stored_exact(stored.clone(), UnitPolicy::One),
        Err(FormatError::InvalidSeconds)
    );
    assert_eq!(
        Response::from_stored_given(stored.clone(), UnitPolicy::One, &vec![]),
        Err(FormatError::InvalidSeconds)
    );
    assert_eq!(
        Response::from_stored_given(stored, UnitPolicy::One, &vec![Err(FormatError::NegativeSeconds)]),
        Err(FormatError::NegativeSeconds)
    );
}

#[test]
fn a_stored_response_with_a_long_duration_is_restored_whole_with_counted_units() {
    let r = Response::new(Id(11), 6, None, Id(9), HumanReadableDuration(125_000_000_000), 200);
    assert_eq!(Response::from_stored_exact(r.clone().to_stored(), UnitPolicy::Counted), Ok(r.clone()));
    assert_eq!(
        Response::from_stored_given(r.clone().to_stored(), UnitPolicy::Counted, &vec![Ok(5_000_000_000)]),
        Ok(r)
    );
}

fn text(s: &str) -> Value {
    Value::Text(s.to_string())
}

#[test]
fn the_values_of_a_connection_row() {
    assert_eq!(
        sample_connection().to_stored().values(),
        vec![
            text("00000000000000000000000000000007"),
            Value::Integer(1_700_000_000_000),
            text("127.0.0.1:8080"),
            text("10.0.0.5:51515"),
            text("http"),
            text("HTTP/1.1"),
        ]
    );
}

#[test]
fn the_values_of_a_request_row() {
    let q = Request::new(Id(9), 5, Some(Id(7)), "GET", "/widgets", "example.com", "test-agent/1.0");
    assert_eq!(
        q.values(),
        vec![
            text("00000000000000000000000000000009"),
            Value::Integer(5),
            text("00000000000000000000000000000007"),
            text("GET"),
            text("/widgets"),
            text("example.com"),
            text("test-agent/1.0"),
        ]
    );
    let q = Request::new(Id(9), 5, None, "GET", "/", "", "");
    assert_eq!(q.values()[2], Value::Null);
}

#[test]
fn the_values_of_a_response_row() {
    let r = Response::new(Id(11), 6, Some(Id(7)), Id(9), HumanReadableDuration(12_000_000), 503);
    assert_eq!(
        r.to_stored().values(),
        vec![
            text("0000000000000000000000000000000b"),
            Value::Integer(6),
            text("00000000000000000000000000000007"),
            text("00000000000000000000000000000009"),
            text("0.012s\n"),
            Value::Integer(503),
        ]
    );
    let r = Response::new(Id(11), 6, None, Id(9), HumanReadableDuration(0), 200);
    assert_eq!(r.to_stored().values()[2], Value::Null);
}

#[test]
fn a_statement_has_a_place_for_each_value() {
    let places = |statement: &str| statement.matches('?').count();
    assert_eq!(places(INSERT_CONNECTION), sample_connection().to_stored().values().len());
    assert_eq!(places(INSERT_REQUEST), Request::new(Id(1), 0, None, "", "", "", "").values().len());
    assert_eq!(
        places(INSERT_RESPONSE),
        Response::new(Id(1), 0, None, Id(2), HumanReadableDuration(0), 200).to_stored().values().len()
    );
}

#[test]
fn tables_and_statements_name_the_same_columns() {
    let pairs: Vec<(&str, &str, &str)> = vec![
        (CONNECTION_TABLE, INSERT_CONNECTION, "sa_connection"),
        (REQUEST_TABLE, INSERT_REQUEST, "sa_request"),
        (RESPONSE_TABLE, INSERT_RESPONSE, "sa_response"),
    ];
    for (table, insert, name) in pairs {
        assert!(table.starts_with(&format!("CREATE TABLE IF NOT EXISTS {} (", name)));
        assert!(insert.starts_with(&format!("INSERT INTO {} (", name)));
        let columns = insert.split('(').nth(1).unwrap().split(')').next().unwrap();
        for column in columns.split(", ") {
            assert!(table.contains(&format!("{} TEXT", column)) || table.contains(&format!("{} INTEGER", column)));
        }
    }
}

#[test]
fn a_minted_connection_holds_the_text_of_any_scheme() {
    let scheme: Scheme = "ws+unix".parse().unwrap();
    let c = Connection::mint("a", "b", &scheme, Version::HTTP_11);
    assert_eq!(c.http_scheme, scheme.as_str());
    assert_eq!(c.http_scheme, "ws+unix");
    assert!(c.created_at >= 0);
}
