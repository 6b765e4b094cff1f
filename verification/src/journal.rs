//! A model of the analytics store and of the writes that reach it, and what
//! holds of the records that a connection and its requests leave behind.
//!
//! The store keeps three tables and only ever adds to them. Within a table
//! no identifier occurs twice: a record whose identifier is taken is
//! refused. A write may also fail for reasons of the store's own; what
//! fails then is named for each write as its fault.

use vstd::prelude::*;
use crate::correlation::Correlation;
use crate::duration::HumanReadableDuration;
use crate::id::Id;
use crate::interceptor::{status_or_default, Arrived, RequestFactsView, ResponseReport};
use crate::store::{ConnectionView, RequestView, ResponseView, StorageError};

verus! {

/// What the store holds: its three tables, oldest record first.
pub struct Journal {
    pub connections: Seq<ConnectionView>,
    pub requests: Seq<RequestView>,
    pub responses: Seq<ResponseView>,
}

/// What comes of a write: the fault where there is one, a refusal where
/// the identifier is taken, the identifier otherwise.
pub open spec fn write_outcome(id: Id, taken: bool, fault: Option<StorageError>) -> Result<
    Id,
    StorageError,
> {
    match fault {
        Some(e) => Err(e),
        None => if taken {
            Err(StorageError::ConstraintViolation)
        } else {
            Ok(id)
        },
    }
}

impl Journal {
    /// The store before anything was written.
    pub open spec fn empty() -> Journal {
        Journal {
            connections: Seq::<ConnectionView>::empty(),
            requests: Seq::<RequestView>::empty(),
            responses: Seq::<ResponseView>::empty(),
        }
    }

    /// Whether a connection record bears the identifier `id`.
    pub open spec fn has_connection(self, id: Id) -> bool {
        exists|i: int| 0 <= i < self.connections.len() && (#[trigger] self.connections[i]).id == id
    }

    /// Whether a request record bears the identifier `id`.
    pub open spec fn has_request(self, id: Id) -> bool {
        exists|i: int| 0 <= i < self.requests.len() && (#[trigger] self.requests[i]).id == id
    }

    /// Whether a response record bears the identifier `id`.
    pub open spec fn has_response(self, id: Id) -> bool {
        exists|i: int| 0 <= i < self.responses.len() && (#[trigger] self.responses[i]).id == id
    }

    /// Whether no identifier occurs twice within a table.
    pub open spec fn well_formed(self) -> bool {
        &&& forall|i: int, j: int|
            0 <= i < j < self.connections.len() ==> (#[trigger] self.connections[i]).id != (
            #[trigger] self.connections[j]).id
        &&& forall|i: int, j: int|
            0 <= i < j < self.requests.len() ==> (#[trigger] self.requests[i]).id != (
            #[trigger] self.requests[j]).id
        &&& forall|i: int, j: int|
            0 <= i < j < self.responses.len() ==> (#[trigger] self.responses[i]).id != (
            #[trigger] self.responses[j]).id
    }

    /// What the store answers when asked to write a connection record.
    pub open spec fn connection_outcome(
        self,
        record: ConnectionView,
        fault: Option<StorageError>,
    ) -> Result<Id, StorageError> {
        write_outcome(record.id, self.has_connection(record.id), fault)
    }

    /// What the store answers when asked to write a request record.
    pub open spec fn request_outcome(
        self,
        record: RequestView,
        fault: Option<StorageError>,
    ) -> Result<Id, StorageError> {
        write_outcome(record.id, self.has_request(record.id), fault)
    }

    /// What the store answers when asked to write a response record.
    pub open spec fn response_outcome(
        self,
        record: ResponseView,
        fault: Option<StorageError>,
    ) -> Result<Id, StorageError> {
        write_outcome(record.id, self.has_response(record.id), fault)
    }

    /// The store after it was asked to write a connection record.
    pub open spec fn with_connection(
        self,
        record: ConnectionView,
        fault: Option<StorageError>,
    ) -> Journal {
        if self.connection_outcome(record, fault) is Ok {
            Journal { connections: self.connections.push(record), ..self }
        } else {
            self
        }
    }

    /// The store after it was asked to write a request record.
    pub open spec fn with_request(self, record: RequestView, fault: Option<StorageError>) -> Journal {
        if self.request_outcome(record, fault) is Ok {
            Journal { requests: self.requests.push(record), ..self }
        } else {
            self
        }
    }

    /// The store after it was asked to write a response record.
    pub open spec fn with_response(
        self,
        record: ResponseView,
        fault: Option<StorageError>,
    ) -> Journal {
        if self.response_outcome(record, fault) is Ok {
            Journal { responses: self.responses.push(record), ..self }
        } else {
            self
        }
    }
}

/// One accepted connection: the record made for it, and the fault that its
/// write meets, if any.
pub struct Accept {
    pub record: ConnectionView,
    pub fault: Option<StorageError>,
}

/// The store after the connections `accepts` were accepted one after
/// another.
pub open spec fn accepted(journal: Journal, accepts: Seq<Accept>) -> Journal
    decreases accepts.len(),
{
    if accepts.len() == 0 {
        journal
    } else {
        accepted(journal, accepts.drop_last()).with_connection(
            accepts.last().record,
            accepts.last().fault,
        )
    }
}

/// The state in which the connection `accepts[i]` is served.
pub open spec fn serving_of(journal: Journal, accepts: Seq<Accept>, i: int) -> Correlation {
    Correlation::serving_after(
        accepted(journal, accepts.take(i)).connection_outcome(accepts[i].record, accepts[i].fault),
    )
}

/// The identity under which a connection is served, if it has one.
pub open spec fn identity(serving: Correlation) -> Option<Id> {
    match serving {
        Correlation::Serving { conn_id } => conn_id,
        _ => None,
    }
}

/// One request on a connection and all that befalls it: what was read of
/// it, the identifiers and times made for its two records, the faults that
/// their writes meet, and how dispatch ended.
pub struct Exchange {
    pub facts: RequestFactsView,
    pub request_id: Id,
    pub request_at: i64,
    pub request_fault: Option<StorageError>,
    pub elapsed: HumanReadableDuration,
    pub status: Option<u16>,
    pub response_id: Id,
    pub response_at: i64,
    pub response_fault: Option<StorageError>,
}

impl Exchange {
    /// The request record that is made for this exchange on a connection
    /// known as `conn_id`.
    pub open spec fn request_record(self, conn_id: Option<Id>) -> RequestView {
        RequestView {
            id: self.request_id,
            created_at: self.request_at,
            conn_id,
            method: self.facts.method,
            path: self.facts.path,
            hostname: self.facts.hostname,
            user_agent: self.facts.user_agent,
        }
    }

    /// The response record that is made for this exchange from what the
    /// interceptor reports.
    pub open spec fn response_record(self, report: ResponseReport) -> ResponseView {
        ResponseView {
            id: self.response_id,
            created_at: self.response_at,
            conn_id: report.conn_id,
            req_id: report.req_id,
            duration: report.duration@,
            status: report.status,
        }
    }

    /// Whether the store takes this exchange's request record.
    pub open spec fn request_written(self, journal: Journal) -> bool {
        self.request_fault is None && !journal.has_request(self.request_id)
    }

    /// Whether the store takes this exchange's response record.
    pub open spec fn response_written(self, journal: Journal) -> bool {
        self.request_written(journal) && self.response_fault is None && !journal.has_response(
            self.response_id,
        )
    }
}

/// The store after one request was handled on a connection that is served
/// in the state `serving`.
pub open spec fn exchanged(journal: Journal, serving: Correlation, x: Exchange) -> Journal {
    let arrived = Arrived::carrying(serving.attached());
    let request = x.request_record(arrived.conn_id);
    let dispatching = arrived.dispatching(journal.request_outcome(request, x.request_fault));
    let recorded = journal.with_request(request, x.request_fault);
    match dispatching.response_report(x.elapsed, x.status) {
        Some(report) => recorded.with_response(x.response_record(report), x.response_fault),
        None => recorded,
    }
}

/// The store after the requests `xs` were handled one after another on one
/// connection.
pub open spec fn served(journal: Journal, serving: Correlation, xs: Seq<Exchange>) -> Journal
    decreases xs.len(),
{
    if xs.len() == 0 {
        journal
    } else {
        exchanged(served(journal, serving, xs.drop_last()), serving, xs.last())
    }
}

/// A connection whose record the store does not take is served all the
/// same, without identity; one whose record is taken is served under the
/// record's identifier.
pub proof fn lemma_serving_after(outcome: Result<Id, StorageError>)
    ensures
        Correlation::serving_after(outcome) is Serving,
        identity(Correlation::serving_after(outcome)) == match outcome {
            Ok(id) => Some(id),
            Err(_) => None::<Id>,
        },
{
}

/// Writing a connection record keeps identifiers apart, adds the record at
/// the end where the store takes it, and changes nothing where it does
/// not.
pub proof fn lemma_with_connection(
    journal: Journal,
    record: ConnectionView,
    fault: Option<StorageError>,
)
    requires
        journal.well_formed(),
    ensures
        journal.with_connection(record, fault).well_formed(),
        journal.with_connection(record, fault).requests == journal.requests,
        journal.with_connection(record, fault).responses == journal.responses,
        journal.connection_outcome(record, fault) is Ok ==> journal.connection_outcome(
            record,
            fault,
        ) == Ok::<Id, StorageError>(record.id) && !journal.has_connection(record.id)
            && journal.with_connection(record, fault).connections == journal.connections.push(
            record,
        ),
        journal.connection_outcome(record, fault) is Err ==> journal.with_connection(record, fault)
            == journal,
{
}

/// How a connection is served does not depend on what is accepted after
/// it.
pub proof fn lemma_serving_of_front(journal: Journal, accepts: Seq<Accept>, i: int)
    requires
        0 <= i < accepts.len() - 1,
    ensures
        serving_of(journal, accepts.drop_last(), i) == serving_of(journal, accepts, i),
{
    assert(accepts.drop_last().take(i) =~= accepts.take(i));
}

/// Whatever befalls the writes, the store never comes to hold an
/// identifier twice, keeps what it held, and holds the record of every
/// accepted connection that is served under an identity: that identity is
/// the identifier of the connection's own record.
pub proof fn lemma_accepted_keeps_identities(journal: Journal, accepts: Seq<Accept>)
    requires
        journal.well_formed(),
    ensures
        accepted(journal, accepts).well_formed(),
        accepted(journal, accepts).requests == journal.requests,
        accepted(journal, accepts).responses == journal.responses,
        journal.connections.len() <= accepted(journal, accepts).connections.len()
            <= journal.connections.len() + accepts.len(),
        forall|i: int|
            0 <= i < journal.connections.len() ==> accepted(journal, accepts).connections[i]
                == journal.connections[i],
        forall|i: int|
            0 <= i < accepts.len() ==> (identity(#[trigger] serving_of(journal, accepts, i))
                matches Some(id) ==> id == accepts[i].record.id && accepted(
                journal,
                accepts,
            ).has_connection(id)),
    decreases accepts.len(),
{
    if accepts.len() > 0 {
        let front = accepts.drop_last();
        let last = accepts.last();
        let n = front.len() as int;
        lemma_accepted_keeps_identities(journal, front);
        let before = accepted(journal, front);
        let after = accepted(journal, accepts);
        assert(accepts.take(n) =~= front);
        lemma_serving_after(before.connection_outcome(last.record, last.fault));
        lemma_with_connection(before, last.record, last.fault);
        assert forall|i: int| 0 <= i < accepts.len() implies (identity(
            #[trigger] serving_of(journal, accepts, i),
        ) matches Some(id) ==> id == accepts[i].record.id && after.has_connection(id)) by {
            if i < n {
                lemma_serving_of_front(journal, accepts, i);
                if let Some(id) = identity(serving_of(journal, accepts, i)) {
                    let k = choose|k: int|
                        0 <= k < before.connections.len() && (#[trigger] before.connections[k]).id
                            == id;
                    assert(after.connections[k] == before.connections[k]);
                }
            } else if let Some(id) = identity(serving_of(journal, accepts, i)) {
                assert(after.connections[after.connections.len() - 1].id == id);
            }
        }
    }
}

/// Of N accepted connections whose records the store took, each is served
/// under the identifier of its own record, no two under the same, and the
/// store holds the N records, in order, after those it held before.
pub proof fn lemma_accepted_connections(journal: Journal, accepts: Seq<Accept>)
    requires
        journal.well_formed(),
        forall|i: int|
            0 <= i < accepts.len() ==> identity(#[trigger] serving_of(journal, accepts, i))
                is Some,
    ensures
        accepted(journal, accepts).well_formed(),
        accepted(journal, accepts).connections.len() == journal.connections.len() + accepts.len(),
        accepted(journal, accepts).requests == journal.requests,
        accepted(journal, accepts).responses == journal.responses,
        forall|i: int|
            0 <= i < journal.connections.len() ==> accepted(journal, accepts).connections[i]
                == journal.connections[i],
        forall|i: int|
            0 <= i < accepts.len() ==> identity(#[trigger] serving_of(journal, accepts, i))
                == Some(accepts[i].record.id) && accepted(
                journal,
                accepts,
            ).connections[journal.connections.len() + i] == accepts[i].record,
        forall|i: int, j: int|
            0 <= i < j < accepts.len() ==> identity(#[trigger] serving_of(journal, accepts, i))
                != identity(#[trigger] serving_of(journal, accepts, j)),
    decreases accepts.len(),
{
    if accepts.len() > 0 {
        let front = accepts.drop_last();
        let last = accepts.last();
        let n = front.len() as int;
        assert forall|i: int| 0 <= i < front.len() implies identity(
            #[trigger] serving_of(journal, front, i),
        ) is Some by {
            lemma_serving_of_front(journal, accepts, i);
        }
        lemma_accepted_connections(journal, front);
        let before = accepted(journal, front);
        let after = accepted(journal, accepts);
        assert(accepts.take(n) =~= front);
        assert(serving_of(journal, accepts, n) == Correlation::serving_after(
            before.connection_outcome(last.record, last.fault),
        ));
        lemma_serving_after(before.connection_outcome(last.record, last.fault));
        lemma_with_connection(before, last.record, last.fault);
        assert(after.connections == before.connections.push(last.record));
        assert forall|i: int| 0 <= i < accepts.len() implies identity(
            #[trigger] serving_of(journal, accepts, i),
        ) == Some(accepts[i].record.id) && after.connections[journal.connections.len() + i]
            == accepts[i].record by {
            if i < n {
                lemma_serving_of_front(journal, accepts, i);
                assert(before.connections[journal.connections.len() + i] == front[i].record);
            }
        }
        assert forall|i: int, j: int| 0 <= i < j < accepts.len() implies identity(
            #[trigger] serving_of(journal, accepts, i),
        ) != identity(#[trigger] serving_of(journal, accepts, j)) by {
            assert(after.connections[journal.connections.len() + i].id != after.connections[journal.connections.len()
                + j].id);
        }
    }
}

/// What one request leaves in the store. Its request record refers to the
/// connection's identity and is written unless its write fails. Its
/// response record is written if the request record was and its own write
/// does not fail; it refers to the connection's identity and to the
/// request's own record, and holds the time that dispatch took and the
/// status that dispatch ended with, whatever that status is. Nothing else
/// changes, and no identifier comes to occur twice.
pub proof fn lemma_exchanged(journal: Journal, serving: Correlation, x: Exchange)
    requires
        journal.well_formed(),
    ensures
        exchanged(journal, serving, x).well_formed(),
        exchanged(journal, serving, x).connections == journal.connections,
        exchanged(journal, serving, x).requests == if x.request_written(journal) {
            journal.requests.push(x.request_record(identity(serving)))
        } else {
            journal.requests
        },
        exchanged(journal, serving, x).responses == if x.response_written(journal) {
            journal.responses.push(
                ResponseView {
                    id: x.response_id,
                    created_at: x.response_at,
                    conn_id: identity(serving),
                    req_id: x.request_id,
                    duration: x.elapsed@,
                    status: status_or_default(x.status),
                },
            )
        } else {
            journal.responses
        },
{
}

/// Whether the request record `r` was made for one of the exchanges `xs`
/// on a connection known as `conn_id`.
pub open spec fn is_request_of(r: RequestView, xs: Seq<Exchange>, conn_id: Option<Id>) -> bool {
    exists|k: int| 0 <= k < xs.len() && r == (#[trigger] xs[k]).request_record(conn_id)
}

/// Whether the response record `r` was made for one of the exchanges `xs`
/// on a connection known as `conn_id`, and refers to the request record
/// of that same exchange.
pub open spec fn is_response_of(r: ResponseView, xs: Seq<Exchange>, conn_id: Option<Id>) -> bool {
    exists|k: int|
        0 <= k < xs.len() && r.id == (#[trigger] xs[k]).response_id && r.req_id == xs[k].request_id
            && r.conn_id == conn_id && r.duration == xs[k].elapsed@ && r.status
            == status_or_default(xs[k].status)
}

/// Of the requests handled on one connection, every request record that
/// reaches the store refers to the connection's identity, and every
/// response record refers to it too, and to the record of its own request.
/// The records that the store held before stay as they were.
pub proof fn lemma_served(journal: Journal, serving: Correlation, xs: Seq<Exchange>)
    requires
        journal.well_formed(),
    ensures
        served(journal, serving, xs).well_formed(),
        served(journal, serving, xs).connections == journal.connections,
        journal.requests.len() <= served(journal, serving, xs).requests.len(),
        journal.responses.len() <= served(journal, serving, xs).responses.len(),
        forall|i: int|
            0 <= i < journal.requests.len() ==> served(journal, serving, xs).requests[i]
                == journal.requests[i],
        forall|i: int|
            0 <= i < journal.responses.len() ==> served(journal, serving, xs).responses[i]
                == journal.responses[i],
        forall|i: int|
            journal.requests.len() <= i < served(journal, serving, xs).requests.len()
                ==> is_request_of(
                #[trigger] served(journal, serving, xs).requests[i],
                xs,
                identity(serving),
            ),
        forall|i: int|
            journal.responses.len() <= i < served(journal, serving, xs).responses.len()
                ==> is_response_of(
                #[trigger] served(journal, serving, xs).responses[i],
                xs,
                identity(serving),
            ),
    decreases xs.len(),
{
    if xs.len() > 0 {
        let front = xs.drop_last();
        let last = xs.last();
        let n = front.len() as int;
        let c = identity(serving);
        lemma_served(journal, serving, front);
        let before = served(journal, serving, front);
        let after = served(journal, serving, xs);
        lemma_exchanged(before, serving, last);
        assert forall|i: int| journal.requests.len() <= i < after.requests.len() implies is_request_of(
            #[trigger] after.requests[i],
            xs,
            c,
        ) by {
            if i < before.requests.len() {
                assert(after.requests[i] == before.requests[i]);
                let k = choose|k: int|
                    0 <= k < front.len() && before.requests[i] == (#[trigger] front[k]).request_record(
                        c,
                    );
                assert(xs[k] == front[k]);
            } else {
                assert(after.requests[i] == xs[n].request_record(c));
            }
        }
        assert forall|i: int|
            journal.responses.len() <= i < after.responses.len() implies is_response_of(
            #[trigger] after.responses[i],
            xs,
            c,
        ) by {
            let r = after.responses[i];
            if i < before.responses.len() {
                assert(r == before.responses[i]);
                let k = choose|k: int|
                    0 <= k < front.len() && r.id == (#[trigger] front[k]).response_id && r.req_id
                        == front[k].request_id && r.conn_id == c && r.duration == front[k].elapsed@
                        && r.status == status_or_default(front[k].status);
                assert(xs[k] == front[k]);
            } else {
                assert(r.id == xs[n].response_id);
            }
        }
    }
}

/// On a connection whose record the store did not take, every record that
/// its requests leave in the store is without a connection.
pub proof fn lemma_served_without_identity(
    journal: Journal,
    failure: StorageError,
    xs: Seq<Exchange>,
)
    requires
        journal.well_formed(),
    ensures
        forall|i: int|
            journal.requests.len() <= i < served(
                journal,
                Correlation::serving_after(Err(failure)),
                xs,
            ).requests.len() ==> (#[trigger] served(
                journal,
                Correlation::serving_after(Err(failure)),
                xs,
            ).requests[i]).conn_id is None,
        forall|i: int|
            journal.responses.len() <= i < served(
                journal,
                Correlation::serving_after(Err(failure)),
                xs,
            ).responses.len() ==> (#[trigger] served(
                journal,
                Correlation::serving_after(Err(failure)),
                xs,
            ).responses[i]).conn_id is None,
{
    let serving = Correlation::serving_after(Err(failure));
    lemma_serving_after(Err(failure));
    lemma_served(journal, serving, xs);
    let after = served(journal, serving, xs);
    assert forall|i: int| journal.requests.len() <= i < after.requests.len() implies (
    #[trigger] after.requests[i]).conn_id is None by {
        assert(is_request_of(after.requests[i], xs, identity(serving)));
    }
    assert forall|i: int| journal.responses.len() <= i < after.responses.len() implies (
    #[trigger] after.responses[i]).conn_id is None by {
        assert(is_response_of(after.responses[i], xs, identity(serving)));
    }
}

} // verus!
