//! The transport correlation layer: how a connection comes by its identity,
//! and how that identity reaches every request decoded from the connection.
//!
//! One accept cycle runs `Idle`, `Accepted`, `Correlated`, `Serving`,
//! `Closed`. A step that does not fit the state it finds changes nothing.

use vstd::prelude::*;
use vstd::string::StringExecFns;
use crate::id::Id;
use crate::store::StorageError;
use crate::version::HttpVersion;
use crate::wire::{scheme_str, scheme_text, version_kind, version_of};

verus! {

/// The identity of a connection, as it is attached to a request.
#[derive(Debug, Clone, Copy, PartialEq, Eq, Structural, PartialOrd, Ord, Hash)]
pub struct ConnId(pub Id);

/// Where one accept cycle stands.
#[derive(Debug, Clone, Copy, PartialEq, Eq, Structural, Hash)]
pub enum Correlation {
    /// Waiting for a connection.
    Idle,
    /// A connection was accepted; its record is on its way to the store.
    Accepted,
    /// The store has answered: the connection has its identity, or goes on
    /// without one.
    Correlated { conn_id: Option<Id> },
    /// The byte stream is with the HTTP engine.
    Serving { conn_id: Option<Id> },
    /// The stream was closed or the engine is done.
    Closed,
}

/// What can happen in an accept cycle.
#[derive(Debug, Clone, Copy, PartialEq, Eq, Hash)]
pub enum Step {
    /// The acceptor yields a connection.
    Accept,
    /// The store answers the connection's record.
    Report(Result<Id, StorageError>),
    /// The stream is handed to the HTTP engine.
    HandOver,
    /// The stream is closed, or the engine is done with it.
    Close,
}

impl Correlation {
    /// The state after a connection was accepted.
    pub open spec fn after_accept(self) -> Correlation {
        match self {
            Correlation::Idle => Correlation::Accepted,
            _ => self,
        }
    }

    /// The state after the store answered the connection's record: the
    /// identity where the record was written, none where it was not.
    pub open spec fn after_report(self, outcome: Result<Id, StorageError>) -> Correlation {
        match self {
            Correlation::Accepted => Correlation::Correlated {
                conn_id: match outcome {
                    Ok(id) => Some(id),
                    Err(_) => None,
                },
            },
            _ => self,
        }
    }

    /// The state after the stream was handed to the HTTP engine.
    pub open spec fn after_hand_over(self) -> Correlation {
        match self {
            Correlation::Correlated { conn_id } => Correlation::Serving { conn_id },
            _ => self,
        }
    }

    /// The state after the stream was closed.
    pub open spec fn after_close(self) -> Correlation {
        match self {
            Correlation::Serving { conn_id } => Correlation::Closed,
            _ => self,
        }
    }

    /// What is attached to a request decoded in this state: the
    /// connection's identity while serving, where there is one.
    pub open spec fn attached(self) -> Option<ConnId> {
        match self {
            Correlation::Serving { conn_id: Some(id) } => Some(ConnId(id)),
            _ => None,
        }
    }

    /// The state after one step.
    pub open spec fn after(self, step: Step) -> Correlation {
        match step {
            Step::Accept => self.after_accept(),
            Step::Report(outcome) => self.after_report(outcome),
            Step::HandOver => self.after_hand_over(),
            Step::Close => self.after_close(),
        }
    }

    /// The state after the steps `steps`, taken in order.
    pub open spec fn after_all(self, steps: Seq<Step>) -> Correlation
        decreases steps.len(),
    {
        if steps.len() == 0 {
            self
        } else {
            self.after_all(steps.drop_last()).after(steps.last())
        }
    }

    /// How far along its cycle a state is.
    pub open spec fn rank(self) -> nat {
        match self {
            Correlation::Idle => 0,
            Correlation::Accepted => 1,
            Correlation::Correlated { .. } => 2,
            Correlation::Serving { .. } => 3,
            Correlation::Closed => 4,
        }
    }

    /// The identity that a state holds, if it holds one.
    pub open spec fn held(self) -> Option<Id> {
        match self {
            Correlation::Correlated { conn_id } => conn_id,
            Correlation::Serving { conn_id } => conn_id,
            _ => None,
        }
    }

    /// The state in which serving starts for a connection whose record the
    /// store answered with `outcome`.
    pub open spec fn serving_after(outcome: Result<Id, StorageError>) -> Correlation {
        Correlation::Idle.after_accept().after_report(outcome).after_hand_over()
    }

    /// A cycle that waits for a connection.
    pub fn new() -> (out: Correlation)
        ensures
            out == Correlation::Idle,
    {
        Correlation::Idle
    }

    /// A connection was accepted.
    pub fn accept(self) -> (out: Correlation)
        ensures
            out == self.after_accept(),
    {
        match self {
            Correlation::Idle => Correlation::Accepted,
            _ => self,
        }
    }

    /// The store answered the connection's record. A record that was not
    /// written leaves the connection without identity, and in service.
    pub fn report(self, outcome: Result<Id, StorageError>) -> (out: Correlation)
        ensures
            out == self.after_report(outcome),
    {
        match self {
            Correlation::Accepted => Correlation::Correlated {
                conn_id: match outcome {
                    Ok(id) => Some(id),
                    Err(_) => None,
                },
            },
            _ => self,
        }
    }

    /// The stream was handed to the HTTP engine.
    pub fn hand_over(self) -> (out: Correlation)
        ensures
            out == self.after_hand_over(),
    {
        match self {
            Correlation::Correlated { conn_id } => Correlation::Serving { conn_id },
            _ => self,
        }
    }

    /// The stream was closed, or the engine is done with it.
    pub fn close(self) -> (out: Correlation)
        ensures
            out == self.after_close(),
    {
        match self {
            Correlation::Serving { conn_id } => Correlation::Closed,
            _ => self,
        }
    }

    /// Takes one step.
    pub fn step(self, step: Step) -> (out: Correlation)
        ensures
            out == self.after(step),
    {
        match step {
            Step::Accept => self.accept(),
            Step::Report(outcome) => self.report(outcome),
            Step::HandOver => self.hand_over(),
            Step::Close => self.close(),
        }
    }

    /// What to attach to a request that was just decoded from the stream.
    pub fn attach(&self) -> (out: Option<ConnId>)
        ensures
            out == self.attached(),
    {
        match self {
            Correlation::Serving { conn_id: Some(id) } => Some(ConnId(*id)),
            _ => None,
        }
    }
}

/// What is known of a connection that is kept in memory only: a random
/// identifier and the transport's account of the connection.
#[derive(Debug, Clone, PartialEq, Eq)]
pub struct ConnectionInfo {
    pub id: Id,
    pub local_addr: String,
    pub remote_addr: String,
    pub http_scheme: String,
    pub http_version: HttpVersion,
}

impl ConnectionInfo {
    /// The account of a connection that was just accepted, under a fresh
    /// random identifier.
    pub fn mint(
        local_addr: &str,
        remote_addr: &str,
        http_scheme: &http::uri::Scheme,
        http_version: http::Version,
    ) -> (out: ConnectionInfo)
        ensures
            out.id.is_random(),
            out.local_addr@ == local_addr@,
            out.remote_addr@ == remote_addr@,
            out.http_scheme@ == scheme_str(*http_scheme),
            out.http_version == version_kind(http_version),
    {
        ConnectionInfo {
            id: Id::new_random(),
            local_addr: String::from_str(local_addr),
            remote_addr: String::from_str(remote_addr),
            http_scheme: scheme_text(http_scheme),
            http_version: version_of(http_version),
        }
    }

    /// What to attach to every request decoded from this connection.
    pub fn attach(&self) -> (out: ConnId)
        ensures
            out == ConnId(self.id),
    {
        ConnId(self.id)
    }
}

/// A step never takes a cycle back, and moves it on by one state at most.
pub proof fn lemma_steps_advance(state: Correlation, step: Step)
    ensures
        state.rank() <= state.after(step).rank() <= state.rank() + 1,
        state.after(step).rank() == state.rank() ==> state.after(step) == state,
{
}

/// Whatever the steps of a cycle, an identity that is held, and so any
/// that is attached to a request, is one that the store gave for the
/// connection's record, at a step before.
pub proof fn lemma_identity_was_reported(steps: Seq<Step>, id: Id)
    requires
        Correlation::Idle.after_all(steps).held() == Some(id),
    ensures
        exists|i: int| 0 <= i < steps.len() && #[trigger] steps[i] == Step::Report(Ok(id)),
    decreases steps.len(),
{
    if steps.len() > 0 {
        let front = steps.drop_last();
        let before = Correlation::Idle.after_all(front);
        if before.held() == Some(id) {
            lemma_identity_was_reported(front, id);
            let i = choose|i: int| 0 <= i < front.len() && #[trigger] front[i] == Step::Report(Ok(id));
            assert(steps[i] == front[i]);
        } else {
            assert(steps[steps.len() - 1] == Step::Report(Ok(id)));
        }
    }
}

/// Only a state that is serving attaches anything, and what it attaches is
/// the identity it holds.
pub proof fn lemma_attached_is_held(state: Correlation)
    ensures
        match state.attached() {
            Some(ConnId(id)) => state is Serving && state.held() == Some(id),
            None => !(state is Serving) || state.held() is None,
        },
{
}

} // verus!
