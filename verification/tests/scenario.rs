use http::uri::Scheme;
use http::{HeaderValue, Method, Uri, Version};
use simple_server_analytics::correlation::Correlation;
use simple_server_analytics::duration::{HumanReadableDuration, UnitPolicy};
use simple_server_analytics::id::Id;
use simple_server_analytics::interceptor::{Arrived, RequestFacts};
use simple_server_analytics::store::{
    Connection, Request, Response, StorageError, StoredConnection, StoredResponse,
};
use simple_server_analytics::version::HttpVersion;

/// A store in memory that refuses an identifier it holds already, and
/// every write while `broken` is set.
struct Tables {
    connections: Vec<StoredConnection>,
    requests: Vec<Request>,
    responses: Vec<StoredResponse>,
    broken: bool,
}

impl Tables {
    fn new() -> Tables {
        Tables { connections: Vec::new(), requests: Vec::new(), responses: Vec::new(), broken: false }
    }

    fn insert_connection(&mut self, record: Connection) -> Result<Id, StorageError> {
        if self.broken {
            return Err(StorageError::Io);
        }
        if self.connections.iter().any(|c| c.id == record.id) {
            return Err(StorageError::ConstraintViolation);
        }
        let id = record.id;
        self.connections.push(record.to_stored());
        Ok(id)
    }

    fn insert_request(&mut self, record: Request) -> Result<Id, StorageError> {
        if self.broken {
            return Err(StorageError::Io);
        }
        if self.requests.iter().any(|r| r.id == record.id) {
            return Err(StorageError::ConstraintViolation);
        }
        let id = record.id;
        self.requests.push(record);
        Ok(id)
    }

    fn insert_response(&mut self, record: Response) -> Result<Id, StorageError> {
        if self.broken {
            return Err(StorageError::Io);
        }
        if self.responses.iter().any(|r| r.id == record.id) {
            return Err(StorageError::ConstraintViolation);
        }
        let id = record.id;
        self.responses.push(record.to_stored());
        Ok(id)
    }
}

fn accept(tables: &mut Tables, local: &str, remote: &str) -> Correlation {
    let state = Correlation::new().accept();
    let record = Connection::mint(local, remote, &Scheme::HTTP, Version::HTTP_11);
    let outcome = tables.insert_connection(record);
    state.report(outcome).hand_over()
}

/// Handles one request on a connection; gives the status handed to the
/// caller.
fn handle(
    tables: &mut Tables,
    serving: &Correlation,
    path: &'static str,
    elapsed_nanos: u128,
    status: Option<u16>,
) -> u16 {
    let arrived = Arrived::new(serving.attach());
    let host = HeaderValue::from_static("example.com");
    let agent = HeaderValue::from_static("test-agent/1.0");
    let facts = RequestFacts::read(&Method::GET, &Uri::from_static(path), Some(&host), Some(&agent));
    let report = arrived.request_report(facts);
    let outcome = tables.insert_request(Request::mint(
        report.conn_id,
        &report.facts.method,
        &report.facts.path,
        &report.facts.hostname,
        &report.facts.user_agent,
    ));
    let dispatching = arrived.reported(outcome);
    if let Some(report) = dispatching.completed(HumanReadableDuration(elapsed_nanos), status) {
        let _ = tables.insert_response(Response::mint(
            report.conn_id,
            report.req_id,
            report.duration,
            report.status,
        ));
    }
    status.unwrap_or(200)
}

#[test]
fn one_connection_and_one_request_leave_three_rows() {
    let mut tables = Tables::new();
    let serving = accept(&mut tables, "127.0.0.1:8080", "10.0.0.5:51515");
    assert_eq!(tables.connections.len(), 1);
    let connection = tables.connections[0].clone();
    assert_eq!(connection.local_addr, "127.0.0.1:8080");
    assert_eq!(connection.remote_addr, "10.0.0.5:51515");
    assert_eq!(connection.http_scheme, "http");
    assert_eq!(connection.http_version, "HTTP/1.1");
    assert_eq!(Id::from_str(&connection.id.to_string()), Some(connection.id));
    assert!(connection.created_at > 1_600_000_000_000);
    assert_eq!(serving, Correlation::Serving { conn_id: Some(connection.id) });
    assert_eq!(
        Connection::from_stored(connection.clone()).http_version,
        HttpVersion::Http11
    );

    let status = handle(&mut tables, &serving, "/widgets", 12_000_000, Some(200));
    assert_eq!(status, 200);
    assert_eq!(tables.requests.len(), 1);
    assert_eq!(tables.responses.len(), 1);
    let request = tables.requests[0].clone();
    assert_eq!(request.method, "GET");
    assert_eq!(request.path, "/widgets");
    assert_eq!(request.hostname, "example.com");
    assert_eq!(request.user_agent, "test-agent/1.0");
    assert_eq!(request.conn_id, Some(connection.id));
    let response = tables.responses[0].clone();
    assert_eq!(response.status, 200);
    assert_eq!(response.duration, "0.012s\n");
    assert_eq!(response.conn_id, Some(connection.id));
    assert_eq!(response.req_id, request.id);
    assert_eq!(
        Response::from_stored_exact(response, UnitPolicy::One).unwrap().duration,
        HumanReadableDuration(12_000_000)
    );
}

#[test]
fn accepted_connections_have_distinct_identities() {
    let mut tables = Tables::new();
    let mut identities: Vec<Id> = Vec::new();
    for i in 0..50 {
        let serving = accept(&mut tables, "127.0.0.1:8080", &format!("10.0.0.5:{}", 50_000 + i));
        match serving {
            Correlation::Serving { conn_id: Some(id) } => {
                assert!(!identities.contains(&id));
                identities.push(id);
            }
            _ => panic!("the connection is not served under an identity"),
        }
    }
    assert_eq!(identities.len(), 50);
    assert_eq!(tables.connections.len(), 50);
    for (i, row) in tables.connections.iter().enumerate() {
        assert_eq!(row.id, identities[i]);
        assert_eq!(row.remote_addr, format!("10.0.0.5:{}", 50_000 + i));
    }
}

#[test]
fn a_record_whose_identifier_is_taken_is_refused() {
    let mut tables = Tables::new();
    let record = Connection::new(Id(7), 1, "a", "b", "http", HttpVersion::Http11);
    assert_eq!(tables.insert_connection(record.clone()), Ok(Id(7)));
    assert_eq!(tables.insert_connection(record), Err(StorageError::ConstraintViolation));
    assert_eq!(tables.connections.len(), 1);
}

#[test]
fn every_request_on_a_connection_refers_to_it() {
    let mut tables = Tables::new();
    let other = accept(&mut tables, "127.0.0.1:8080", "10.0.0.9:40000");
    let serving = accept(&mut tables, "127.0.0.1:8080", "10.0.0.5:51515");
    let id = tables.connections[1].id;
    handle(&mut tables, &other, "/elsewhere", 1, Some(200));
    for i in 0..20 {
        handle(&mut tables, &serving, "/widgets", 1_000 * i, Some(200));
    }
    assert_eq!(tables.requests.len(), 21);
    assert_eq!(tables.responses.len(), 21);
    for i in 1..21 {
        assert_eq!(tables.requests[i].conn_id, Some(id));
        assert_eq!(tables.responses[i].conn_id, Some(id));
        assert_eq!(tables.responses[i].req_id, tables.requests[i].id);
    }
    assert_eq!(tables.requests[0].conn_id, Some(tables.connections[0].id));
    assert_ne!(tables.requests[0].conn_id, Some(id));
}

#[test]
fn requests_are_served_when_the_connection_record_fails() {
    let mut tables = Tables::new();
    tables.broken = true;
    let serving = accept(&mut tables, "127.0.0.1:8080", "10.0.0.5:51515");
    assert_eq!(serving, Correlation::Serving { conn_id: None });
    assert_eq!(tables.connections.len(), 0);
    tables.broken = false;
    assert_eq!(handle(&mut tables, &serving, "/widgets", 5, Some(200)), 200);
    assert_eq!(handle(&mut tables, &serving, "/gadgets", 6, Some(404)), 404);
    assert_eq!(tables.requests.len(), 2);
    assert_eq!(tables.responses.len(), 2);
    for i in 0..2 {
        assert_eq!(tables.requests[i].conn_id, None);
        assert_eq!(tables.responses[i].conn_id, None);
        assert_eq!(tables.responses[i].req_id, tables.requests[i].id);
    }
    assert_eq!(tables.responses[1].status, 404);
}

#[test]
fn no_response_is_recorded_when_the_request_record_fails() {
    let mut tables = Tables::new();
    let serving = accept(&mut tables, "127.0.0.1:8080", "10.0.0.5:51515");
    tables.broken = true;
    assert_eq!(handle(&mut tables, &serving, "/widgets", 5, Some(200)), 200);
    tables.broken = false;
    assert_eq!(tables.requests.len(), 0);
    assert_eq!(tables.responses.len(), 0);
}

#[test]
fn an_error_turned_into_a_status_is_recorded() {
    let mut tables = Tables::new();
    let serving = accept(&mut tables, "127.0.0.1:8080", "10.0.0.5:51515");
    assert_eq!(handle(&mut tables, &serving, "/broken", 0, Some(500)), 500);
    assert_eq!(tables.responses.len(), 1);
    assert_eq!(tables.responses[0].status, 500);
    assert_eq!(tables.responses[0].duration, "");
    assert_eq!(
        Response::from_stored_exact(tables.responses[0].clone(), UnitPolicy::One).unwrap().duration,
        HumanReadableDuration(0)
    );
    assert_eq!(handle(&mut tables, &serving, "/slow", 2_500_000_000, Some(503)), 503);
    assert_eq!(tables.responses[1].status, 503);
    assert_eq!(tables.responses[1].duration, "2.5s\n");
}
