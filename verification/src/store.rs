//! The records that the analytics store keeps: one for each connection,
//! request and response.
//!
//! A record is made once and never changed. The store itself lives outside
//! this library; here are the records, their stored forms, and how a record
//! is made.

use vstd::prelude::*;
use vstd::string::StringExecFns;
use crate::duration::format::{days_in, formatted, hours_in, minutes_in, years_in};
use crate::duration::laws::{
    lemma_counted_round_trip, lemma_exact_counted_round_trip, lemma_exact_round_trip,
    lemma_round_trip, reads_back,
};
use crate::duration::parse::{parsed_exact, parsed_given, Reading};
use crate::duration::{FormatError, HumanReadableDuration, UnitPolicy, MAX_NANOS};
use crate::id::Id;
use crate::version::{lemma_label_names_version, version_named, HttpVersion};
use crate::wire::{scheme_str, scheme_text, version_kind, version_of};

verus! {

/// Why the store did not take a record.
#[derive(Debug, Clone, Copy, PartialEq, Eq, Structural, Hash)]
pub enum StorageError {
    /// The record breaks a rule of the schema.
    ConstraintViolation,
    /// No connection to the store could be had.
    PoolExhausted,
    /// Reading or writing failed.
    Io,
    /// Anything else.
    Other,
}

/// The table of connections.
pub const CONNECTION_TABLE: &'static str =
    "CREATE TABLE IF NOT EXISTS sa_connection (id TEXT PRIMARY KEY NOT NULL, created_at INTEGER NOT NULL, local_addr TEXT NOT NULL, remote_addr TEXT NOT NULL, http_scheme TEXT NOT NULL, http_version TEXT NOT NULL)";

/// The table of requests.
pub const REQUEST_TABLE: &'static str =
    "CREATE TABLE IF NOT EXISTS sa_request (id TEXT PRIMARY KEY NOT NULL, created_at INTEGER NOT NULL, conn_id TEXT, method TEXT NOT NULL, path TEXT NOT NULL, hostname TEXT NOT NULL, user_agent TEXT NOT NULL)";

/// The table of responses.
pub const RESPONSE_TABLE: &'static str =
    "CREATE TABLE IF NOT EXISTS sa_response (id TEXT PRIMARY KEY NOT NULL, created_at INTEGER NOT NULL, conn_id TEXT, req_id TEXT NOT NULL, elapsed TEXT NOT NULL, status INTEGER NOT NULL)";

/// The statement that adds a connection; its values are those of
/// `StoredConnection::values`, in order.
pub const INSERT_CONNECTION: &'static str =
    "INSERT INTO sa_connection (id, created_at, local_addr, remote_addr, http_scheme, http_version) VALUES (?, ?, ?, ?, ?, ?)";

/// The statement that adds a request; its values are those of
/// `Request::values`, in order.
pub const INSERT_REQUEST: &'static str =
    "INSERT INTO sa_request (id, created_at, conn_id, method, path, hostname, user_agent) VALUES (?, ?, ?, ?, ?, ?, ?)";

/// The statement that adds a response; its values are those of
/// `StoredResponse::values`, in order.
pub const INSERT_RESPONSE: &'static str =
    "INSERT INTO sa_response (id, created_at, conn_id, req_id, elapsed, status) VALUES (?, ?, ?, ?, ?, ?)";

/// One value of a row, as the store takes it.
#[derive(Debug, Clone, PartialEq, Eq)]
pub enum Value {
    Null,
    Integer(i64),
    Text(String),
}

/// What a value holds.
pub enum ValueView {
    Null,
    Integer(i64),
    Text(Seq<char>),
}

impl View for Value {
    type V = ValueView;

    open spec fn view(&self) -> ValueView {
        match self {
            Value::Null => ValueView::Null,
            Value::Integer(n) => ValueView::Integer(*n),
            Value::Text(text) => ValueView::Text(text@),
        }
    }
}

/// What a row of values holds.
pub open spec fn row_view(row: Seq<Value>) -> Seq<ValueView> {
    Seq::new(row.len(), |i: int| row[i]@)
}

/// An identifier that may be missing, as a value: its text, or null.
pub open spec fn optional_id_value(id: Option<Id>) -> ValueView {
    match id {
        Some(id) => ValueView::Text(id.text()),
        None => ValueView::Null,
    }
}

/// An identifier that may be missing, as a value.
fn value_of_optional_id(id: Option<Id>) -> (out: Value)
    ensures
        out@ == optional_id_value(id),
{
    match id {
        Some(id) => Value::Text(id.to_string()),
        None => Value::Null,
    }
}

/// A text as a value.
fn value_of_text(text: &String) -> (out: Value)
    ensures
        out@ == ValueView::Text(text@),
{
    Value::Text(text.clone())
}

/// One accepted transport connection.
#[derive(Debug, Clone, PartialEq, Eq)]
pub struct Connection {
    pub id: Id,
    /// Milliseconds since the Unix epoch.
    pub created_at: i64,
    pub local_addr: String,
    pub remote_addr: String,
    pub http_scheme: String,
    pub http_version: HttpVersion,
}

/// A connection as a row of text and integers.
#[derive(Debug, Clone, PartialEq, Eq)]
pub struct StoredConnection {
    pub id: Id,
    pub created_at: i64,
    pub local_addr: String,
    pub remote_addr: String,
    pub http_scheme: String,
    pub http_version: String,
}

/// One observed HTTP request.
#[derive(Debug, Clone, PartialEq, Eq)]
pub struct Request {
    pub id: Id,
    /// Milliseconds since the Unix epoch.
    pub created_at: i64,
    /// The connection that carried the request, where it is known.
    pub conn_id: Option<Id>,
    pub method: String,
    pub path: String,
    pub hostname: String,
    pub user_agent: String,
}

/// One completed request.
#[derive(Debug, Clone, PartialEq, Eq)]
pub struct Response {
    pub id: Id,
    /// Milliseconds since the Unix epoch.
    pub created_at: i64,
    /// The connection that carried the request, where it is known.
    pub conn_id: Option<Id>,
    /// The request that this response answers.
    pub req_id: Id,
    pub duration: HumanReadableDuration,
    pub status: u16,
}

/// A response as a row of text and integers.
#[derive(Debug, Clone, PartialEq, Eq)]
pub struct StoredResponse {
    pub id: Id,
    pub created_at: i64,
    pub conn_id: Option<Id>,
    pub req_id: Id,
    pub duration: String,
    pub status: u16,
}

/// What a connection record holds.
pub struct ConnectionView {
    pub id: Id,
    pub created_at: i64,
    pub local_addr: Seq<char>,
    pub remote_addr: Seq<char>,
    pub http_scheme: Seq<char>,
    pub http_version: HttpVersion,
}

/// What a stored connection row holds.
pub struct StoredConnectionView {
    pub id: Id,
    pub created_at: i64,
    pub local_addr: Seq<char>,
    pub remote_addr: Seq<char>,
    pub http_scheme: Seq<char>,
    pub http_version: Seq<char>,
}

/// What a request record holds.
pub struct RequestView {
    pub id: Id,
    pub created_at: i64,
    pub conn_id: Option<Id>,
    pub method: Seq<char>,
    pub path: Seq<char>,
    pub hostname: Seq<char>,
    pub user_agent: Seq<char>,
}

/// What a response record holds; the duration in nanoseconds.
pub struct ResponseView {
    pub id: Id,
    pub created_at: i64,
    pub conn_id: Option<Id>,
    pub req_id: Id,
    pub duration: nat,
    pub status: u16,
}

/// What a stored response row holds.
pub struct StoredResponseView {
    pub id: Id,
    pub created_at: i64,
    pub conn_id: Option<Id>,
    pub req_id: Id,
    pub duration: Seq<char>,
    pub status: u16,
}

impl View for Connection {
    type V = ConnectionView;

    open spec fn view(&self) -> ConnectionView {
        ConnectionView {
            id: self.id,
            created_at: self.created_at,
            local_addr: self.local_addr@,
            remote_addr: self.remote_addr@,
            http_scheme: self.http_scheme@,
            http_version: self.http_version,
        }
    }
}

impl View for StoredConnection {
    type V = StoredConnectionView;

    open spec fn view(&self) -> StoredConnectionView {
        StoredConnectionView {
            id: self.id,
            created_at: self.created_at,
            local_addr: self.local_addr@,
            remote_addr: self.remote_addr@,
            http_scheme: self.http_scheme@,
            http_version: self.http_version@,
        }
    }
}

impl View for Request {
    type V = RequestView;

    open spec fn view(&self) -> RequestView {
        RequestView {
            id: self.id,
            created_at: self.created_at,
            conn_id: self.conn_id,
            method: self.method@,
            path: self.path@,
            hostname: self.hostname@,
            user_agent: self.user_agent@,
        }
    }
}

impl View for Response {
    type V = ResponseView;

    open spec fn view(&self) -> ResponseView {
        ResponseView {
            id: self.id,
            created_at: self.created_at,
            conn_id: self.conn_id,
            req_id: self.req_id,
            duration: self.duration@,
            status: self.status,
        }
    }
}

impl View for StoredResponse {
    type V = StoredResponseView;

    open spec fn view(&self) -> StoredResponseView {
        StoredResponseView {
            id: self.id,
            created_at: self.created_at,
            conn_id: self.conn_id,
            req_id: self.req_id,
            duration: self.duration@,
            status: self.status,
        }
    }
}

impl ConnectionView {
    /// The row under which this connection is stored: the version as its
    /// label, all else as it is.
    pub open spec fn stored(self) -> StoredConnectionView {
        StoredConnectionView {
            id: self.id,
            created_at: self.created_at,
            local_addr: self.local_addr,
            remote_addr: self.remote_addr,
            http_scheme: self.http_scheme,
            http_version: self.http_version.label(),
        }
    }
}

impl StoredConnectionView {
    /// The connection that this row stores: the version that its label
    /// names, all else as it is.
    pub open spec fn restored(self) -> ConnectionView {
        ConnectionView {
            id: self.id,
            created_at: self.created_at,
            local_addr: self.local_addr,
            remote_addr: self.remote_addr,
            http_scheme: self.http_scheme,
            http_version: version_named(self.http_version),
        }
    }
}

impl StoredConnectionView {
    /// The values of this row: identifier and texts as text, the time as
    /// an integer.
    pub open spec fn values(self) -> Seq<ValueView> {
        seq![
            ValueView::Text(self.id.text()),
            ValueView::Integer(self.created_at),
            ValueView::Text(self.local_addr),
            ValueView::Text(self.remote_addr),
            ValueView::Text(self.http_scheme),
            ValueView::Text(self.http_version),
        ]
    }
}

impl RequestView {
    /// The values of the row under which this request is stored:
    /// identifiers and texts as text, a missing connection as null, the
    /// time as an integer.
    pub open spec fn values(self) -> Seq<ValueView> {
        seq![
            ValueView::Text(self.id.text()),
            ValueView::Integer(self.created_at),
            optional_id_value(self.conn_id),
            ValueView::Text(self.method),
            ValueView::Text(self.path),
            ValueView::Text(self.hostname),
            ValueView::Text(self.user_agent),
        ]
    }
}

impl StoredResponseView {
    /// The values of this row: identifiers and the duration as text, a
    /// missing connection as null, time and status as integers.
    pub open spec fn values(self) -> Seq<ValueView> {
        seq![
            ValueView::Text(self.id.text()),
            ValueView::Integer(self.created_at),
            optional_id_value(self.conn_id),
            ValueView::Text(self.req_id.text()),
            ValueView::Text(self.duration),
            ValueView::Integer(self.status as i64),
        ]
    }
}

impl ResponseView {
    /// The row under which this response is stored: the duration as text,
    /// all else as it is.
    pub open spec fn stored(self) -> StoredResponseView {
        StoredResponseView {
            id: self.id,
            created_at: self.created_at,
            conn_id: self.conn_id,
            req_id: self.req_id,
            duration: formatted(self.duration),
            status: self.status,
        }
    }
}

/// The response that a row stores once its duration was read as `read`.
pub open spec fn with_duration(row: StoredResponseView, read: Result<nat, FormatError>) -> Result<
    ResponseView,
    FormatError,
> {
    match read {
        Ok(nanos) => Ok(
            ResponseView {
                id: row.id,
                created_at: row.created_at,
                conn_id: row.conn_id,
                req_id: row.req_id,
                duration: nanos,
                status: row.status,
            },
        ),
        Err(e) => Err(e),
    }
}

impl StoredResponseView {
    /// The response that this row stores, its duration read under
    /// `policy` with its seconds read as `seconds` says, or why the
    /// duration cannot be read.
    pub open spec fn restored_given(self, policy: UnitPolicy, seconds: Seq<Reading>) -> Result<
        ResponseView,
        FormatError,
    > {
        with_duration(self, parsed_given(policy, self.duration, seconds))
    }

    /// The response that this row stores, its duration read under
    /// `policy` with its seconds read as exact decimals, or why the
    /// duration cannot be read.
    pub open spec fn restored_exact(self, policy: UnitPolicy) -> Result<ResponseView, FormatError> {
        with_duration(self, parsed_exact(policy, self.duration))
    }
}

/// The time by `chrono::Utc::now`, in milliseconds since the Unix epoch as
/// `timestamp_millis` counts them. The call panics where the system's
/// clock stands before 1970, so what it gives is never below zero; nothing
/// more is claimed of it.
#[verifier::external_body]
fn now_millis() -> (out: i64)
    ensures
        0 <= out,
{
    chrono::Utc::now().timestamp_millis()
}

impl Connection {
    /// The record of a connection, from its parts.
    pub fn new(
        id: Id,
        created_at: i64,
        local_addr: &str,
        remote_addr: &str,
        http_scheme: &str,
        http_version: HttpVersion,
    ) -> (out: Connection)
        ensures
            out@ == (ConnectionView {
                id,
                created_at,
                local_addr: local_addr@,
                remote_addr: remote_addr@,
                http_scheme: http_scheme@,
                http_version,
            }),
    {
        Connection {
            id,
            created_at,
            local_addr: String::from_str(local_addr),
            remote_addr: String::from_str(remote_addr),
            http_scheme: String::from_str(http_scheme),
            http_version,
        }
    }

    /// A new record for a connection that was just accepted: a fresh
    /// time-ordered identifier, the time of the call, the two addresses as
    /// given, and the scheme and version as the HTTP stack names them.
    pub fn mint(
        local_addr: &str,
        remote_addr: &str,
        http_scheme: &http::uri::Scheme,
        http_version: http::Version,
    ) -> (out: Connection)
        ensures
            out.id.is_time_ordered(),
            0 <= out.created_at,
            out@ == (ConnectionView {
                id: out.id,
                created_at: out.created_at,
                local_addr: local_addr@,
                remote_addr: remote_addr@,
                http_scheme: scheme_str(*http_scheme),
                http_version: version_kind(http_version),
            }),
    {
        let scheme = scheme_text(http_scheme);
        Connection::new(
            Id::new_time_ordered(),
            now_millis(),
            local_addr,
            remote_addr,
            scheme.as_str(),
            version_of(http_version),
        )
    }

    /// This connection as a row.
    pub fn to_stored(self) -> (out: StoredConnection)
        ensures
            out@ == self@.stored(),
    {
        StoredConnection {
            id: self.id,
            created_at: self.created_at,
            local_addr: self.local_addr,
            remote_addr: self.remote_addr,
            http_scheme: self.http_scheme,
            http_version: self.http_version.to_string(),
        }
    }

    /// The connection that a row stores.
    pub fn from_stored(stored: StoredConnection) -> (out: Connection)
        ensures
            out@ == stored@.restored(),
    {
        let http_version = match HttpVersion::from_str(stored.http_version.as_str()) {
            Ok(v) => v,
            Err(_) => HttpVersion::Unknown,
        };
        Connection {
            id: stored.id,
            created_at: stored.created_at,
            local_addr: stored.local_addr,
            remote_addr: stored.remote_addr,
            http_scheme: stored.http_scheme,
            http_version,
        }
    }
}

impl StoredConnection {
    /// The values to hand to the statement that adds a connection.
    pub fn values(&self) -> (out: Vec<Value>)
        ensures
            row_view(out@) == self@.values(),
    {
        let mut out: Vec<Value> = Vec::new();
        out.push(Value::Text(self.id.to_string()));
        out.push(Value::Integer(self.created_at));
        out.push(value_of_text(&self.local_addr));
        out.push(value_of_text(&self.remote_addr));
        out.push(value_of_text(&self.http_scheme));
        out.push(value_of_text(&self.http_version));
        assert(row_view(out@) =~= self@.values());
        out
    }
}

impl Request {
    /// The values to hand to the statement that adds a request.
    pub fn values(&self) -> (out: Vec<Value>)
        ensures
            row_view(out@) == self@.values(),
    {
        let mut out: Vec<Value> = Vec::new();
        out.push(Value::Text(self.id.to_string()));
        out.push(Value::Integer(self.created_at));
        out.push(value_of_optional_id(self.conn_id));
        out.push(value_of_text(&self.method));
        out.push(value_of_text(&self.path));
        out.push(value_of_text(&self.hostname));
        out.push(value_of_text(&self.user_agent));
        assert(row_view(out@) =~= self@.values());
        out
    }

    /// The record of a request, from its parts.
    pub fn new(
        id: Id,
        created_at: i64,
        conn_id: Option<Id>,
        method: &str,
        path: &str,
        hostname: &str,
        user_agent: &str,
    ) -> (out: Request)
        ensures
            out@ == (RequestView {
                id,
                created_at,
                conn_id,
                method: method@,
                path: path@,
                hostname: hostname@,
                user_agent: user_agent@,
            }),
    {
        Request {
            id,
            created_at,
            conn_id,
            method: String::from_str(method),
            path: String::from_str(path),
            hostname: String::from_str(hostname),
            user_agent: String::from_str(user_agent),
        }
    }

    /// A new record for a request that is about to be dispatched: a fresh
    /// time-ordered identifier, the time of the call, and all else as
    /// given.
    pub fn mint(
        conn_id: Option<Id>,
        method: &str,
        path: &str,
        hostname: &str,
        user_agent: &str,
    ) -> (out: Request)
        ensures
            out.id.is_time_ordered(),
            0 <= out.created_at,
            out@ == (RequestView {
                id: out.id,
                created_at: out.created_at,
                conn_id,
                method: method@,
                path: path@,
                hostname: hostname@,
                user_agent: user_agent@,
            }),
    {
        Request::new(
            Id::new_time_ordered(),
            now_millis(),
            conn_id,
            method,
            path,
            hostname,
            user_agent,
        )
    }
}

impl StoredResponse {
    /// The values to hand to the statement that adds a response.
    pub fn values(&self) -> (out: Vec<Value>)
        ensures
            row_view(out@) == self@.values(),
    {
        let mut out: Vec<Value> = Vec::new();
        out.push(Value::Text(self.id.to_string()));
        out.push(Value::Integer(self.created_at));
        out.push(value_of_optional_id(self.conn_id));
        out.push(Value::Text(self.req_id.to_string()));
        out.push(value_of_text(&self.duration));
        out.push(Value::Integer(self.status as i64));
        assert(row_view(out@) =~= self@.values());
        out
    }
}

impl Response {
    /// The record of a response, from its parts.
    pub fn new(
        id: Id,
        created_at: i64,
        conn_id: Option<Id>,
        req_id: Id,
        duration: HumanReadableDuration,
        status: u16,
    ) -> (out: Response)
        ensures
            out@ == (ResponseView {
                id,
                created_at,
                conn_id,
                req_id,
                duration: duration@,
                status,
            }),
    {
        Response { id, created_at, conn_id, req_id, duration, status }
    }

    /// A new record for a request whose dispatch has ended: a fresh
    /// time-ordered identifier, the time of the call, and all else as
    /// given.
    pub fn mint(
        conn_id: Option<Id>,
        req_id: Id,
        duration: HumanReadableDuration,
        status: u16,
    ) -> (out: Response)
        ensures
            out.id.is_time_ordered(),
            0 <= out.created_at,
            out@ == (ResponseView {
                id: out.id,
                created_at: out.created_at,
                conn_id,
                req_id,
                duration: duration@,
                status,
            }),
    {
        Response::new(Id::new_time_ordered(), now_millis(), conn_id, req_id, duration, status)
    }

    /// This response as a row.
    pub fn to_stored(self) -> (out: StoredResponse)
        ensures
            out@ == self@.stored(),
    {
        StoredResponse {
            id: self.id,
            created_at: self.created_at,
            conn_id: self.conn_id,
            req_id: self.req_id,
            duration: self.duration.to_string(),
            status: self.status,
        }
    }

    /// The response that a row stores, or why its duration cannot be read.
    /// The duration is read under `policy`; `seconds` holds what the
    /// numerals of its tokens of seconds were read as, in the order of
    /// `seconds_numerals`.
    pub fn from_stored_given(
        stored: StoredResponse,
        policy: UnitPolicy,
        seconds: &Vec<Reading>,
    ) -> (out: Result<Response, FormatError>)
        ensures
            match out {
                Ok(response) => stored@.restored_given(policy, seconds@) == Ok::<
                    ResponseView,
                    FormatError,
                >(response@),
                Err(e) => stored@.restored_given(policy, seconds@) == Err::<
                    ResponseView,
                    FormatError,
                >(e),
            },
    {
        let read = HumanReadableDuration::from_str_given(stored.duration.as_str(), policy, seconds);
        Response::with_duration(stored, read)
    }

    /// The response that a row stores, or why its duration cannot be read.
    /// The duration is read under `policy`, its seconds as exact decimals.
    pub fn from_stored_exact(stored: StoredResponse, policy: UnitPolicy) -> (out: Result<
        Response,
        FormatError,
    >)
        ensures
            match out {
                Ok(response) => stored@.restored_exact(policy) == Ok::<ResponseView, FormatError>(
                    response@,
                ),
                Err(e) => stored@.restored_exact(policy) == Err::<ResponseView, FormatError>(e),
            },
    {
        let read = HumanReadableDuration::from_str_exact(stored.duration.as_str(), policy);
        Response::with_duration(stored, read)
    }

    /// The response that a row stores, once its duration was read.
    fn with_duration(stored: StoredResponse, read: Result<HumanReadableDuration, FormatError>) -> (out:
        Result<Response, FormatError>)
        ensures
            match (out, read) {
                (Ok(response), Ok(d)) => with_duration(stored@, Ok(d@)) == Ok::<
                    ResponseView,
                    FormatError,
                >(response@),
                (Err(e), Err(f)) => e == f,
                _ => false,
            },
    {
        match read {
            Ok(duration) => Ok(
                Response {
                    id: stored.id,
                    created_at: stored.created_at,
                    conn_id: stored.conn_id,
                    req_id: stored.req_id,
                    duration,
                    status: stored.status,
                },
            ),
            Err(e) => Err(e),
        }
    }
}

/// A connection is restored from its row as it was.
pub proof fn lemma_connection_round_trip(connection: ConnectionView)
    ensures
        connection.stored().restored() == connection,
{
    lemma_label_names_version(connection.http_version);
}

/// With one unit to a token, and the seconds of its duration read as what
/// was written, a response is restored from its row as it was exactly when
/// each of the whole years, days, hours and minutes of its duration is
/// zero or one.
pub proof fn lemma_response_round_trip(response: ResponseView, seconds: Seq<Reading>)
    requires
        reads_back(seconds, response.duration),
    ensures
        response.stored().restored_given(UnitPolicy::One, seconds) == Ok::<
            ResponseView,
            FormatError,
        >(response) <==> (years_in(response.duration) <= 1 && days_in(response.duration) <= 1
            && hours_in(response.duration) <= 1 && minutes_in(response.duration) <= 1),
{
    lemma_round_trip(response.duration, seconds);
}

/// With the numerals of the units read, and the seconds read as what was
/// written, a response whose duration can be held is restored from its row
/// as it was.
pub proof fn lemma_response_round_trip_counted(response: ResponseView, seconds: Seq<Reading>)
    requires
        response.duration <= MAX_NANOS,
        reads_back(seconds, response.duration),
    ensures
        response.stored().restored_given(UnitPolicy::Counted, seconds) == Ok::<
            ResponseView,
            FormatError,
        >(response),
{
    lemma_counted_round_trip(response.duration, seconds);
}

/// The same two hold with the seconds read as exact decimals.
pub proof fn lemma_response_round_trip_exact(response: ResponseView)
    ensures
        response.stored().restored_exact(UnitPolicy::One) == Ok::<ResponseView, FormatError>(
            response,
        ) <==> (years_in(response.duration) <= 1 && days_in(response.duration) <= 1 && hours_in(
            response.duration,
        ) <= 1 && minutes_in(response.duration) <= 1),
        response.duration <= MAX_NANOS ==> response.stored().restored_exact(UnitPolicy::Counted)
            == Ok::<ResponseView, FormatError>(response),
{
    lemma_exact_round_trip(response.duration);
    if response.duration <= MAX_NANOS {
        lemma_exact_counted_round_trip(UnitPolicy::Counted, response.duration);
    }
}

} // verus!
