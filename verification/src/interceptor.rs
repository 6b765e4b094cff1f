//! The request and response interceptor: what is recorded around the
//! dispatch of one request.
//!
//! A request arrives with the identity of its connection, where the
//! transport layer attached one. Its record is asked of the store; whatever
//! the store answers, the request is dispatched. When dispatch has ended,
//! in whatever way, a response record is asked of the store, unless the
//! request has no record to refer to.

use vstd::prelude::*;
use vstd::string::StringExecFns;
use crate::correlation::ConnId;
use crate::duration::HumanReadableDuration;
use crate::id::Id;
use crate::store::StorageError;
use crate::wire::{
    default_status_number, header_bytes, header_seen, header_text, lemma_visible_text, method_str,
    method_text, path_text, status_number, status_value, uri_path, visible_ascii, visible_bytes,
};

verus! {

/// What is recorded of a request: its method and path, and the host and
/// user agent that its headers name.
#[derive(Debug, Clone, PartialEq, Eq)]
pub struct RequestFacts {
    pub method: String,
    pub path: String,
    pub hostname: String,
    pub user_agent: String,
}

/// What `RequestFacts` holds.
pub struct RequestFactsView {
    pub method: Seq<char>,
    pub path: Seq<char>,
    pub hostname: Seq<char>,
    pub user_agent: Seq<char>,
}

impl View for RequestFacts {
    type V = RequestFactsView;

    open spec fn view(&self) -> RequestFactsView {
        RequestFactsView {
            method: self.method@,
            path: self.path@,
            hostname: self.hostname@,
            user_agent: self.user_agent@,
        }
    }
}

/// The text of a header that may be missing: the empty text where it is.
pub open spec fn header_or_empty(value: Option<Seq<char>>) -> Seq<char> {
    match value {
        Some(text) => text,
        None => Seq::<char>::empty(),
    }
}

/// The status to record for a response whose status may not be set: 200
/// where it is not.
pub open spec fn status_or_default(status: Option<u16>) -> u16 {
    match status {
        Some(number) => number,
        None => 200,
    }
}

/// The text of a header that may be missing.
fn text_or_empty(value: Option<&str>) -> (out: String)
    ensures
        out@ == header_or_empty(
            match value {
                Some(text) => Some(text@),
                None => None,
            },
        ),
{
    match value {
        Some(text) => String::from_str(text),
        None => String::new(),
    }
}

impl RequestFacts {
    /// The facts of a request, from plain text. A missing header counts as
    /// the empty text.
    pub fn new(method: &str, path: &str, host: Option<&str>, user_agent: Option<&str>) -> (out:
        RequestFacts)
        ensures
            out@ == (RequestFactsView {
                method: method@,
                path: path@,
                hostname: header_or_empty(
                    match host {
                        Some(text) => Some(text@),
                        None => None,
                    },
                ),
                user_agent: header_or_empty(
                    match user_agent {
                        Some(text) => Some(text@),
                        None => None,
                    },
                ),
            }),
    {
        RequestFacts {
            method: String::from_str(method),
            path: String::from_str(path),
            hostname: text_or_empty(host),
            user_agent: text_or_empty(user_agent),
        }
    }

    /// The facts of a request, read off the method, the URI and the two
    /// header values as the HTTP stack holds them: the method's text, the
    /// URI's path, and of each header its bytes as text. A header that is
    /// missing, or that holds more than visible ASCII, counts as the empty
    /// text.
    pub fn read(
        method: &http::Method,
        uri: &http::Uri,
        host: Option<&http::HeaderValue>,
        user_agent: Option<&http::HeaderValue>,
    ) -> (out: RequestFacts)
        ensures
            out@ == (RequestFactsView {
                method: method_str(*method),
                path: uri_path(*uri),
                hostname: header_or_empty(header_seen(host)),
                user_agent: header_or_empty(header_seen(user_agent)),
            }),
            host is None ==> out.hostname@ == Seq::<char>::empty(),
            user_agent is None ==> out.user_agent@ == Seq::<char>::empty(),
            visible_ascii(out.hostname@),
            visible_ascii(out.user_agent@),
    {
        proof {
            if let Some(held) = host {
                if visible_bytes(header_bytes(*held)) {
                    lemma_visible_text(header_bytes(*held));
                }
            }
            if let Some(held) = user_agent {
                if visible_bytes(header_bytes(*held)) {
                    lemma_visible_text(header_bytes(*held));
                }
            }
        }
        let host_text = match host {
            Some(value) => header_text(value),
            None => None,
        };
        let agent_text = match user_agent {
            Some(value) => header_text(value),
            None => None,
        };
        let method = method_text(method);
        let path = path_text(uri);
        RequestFacts::new(
            method.as_str(),
            path.as_str(),
            match &host_text {
                Some(text) => Some(text.as_str()),
                None => None,
            },
            match &agent_text {
                Some(text) => Some(text.as_str()),
                None => None,
            },
        )
    }
}

/// The status number to record, from the status that the response carries
/// after dispatch, if it carries one.
pub fn final_status(status: Option<u16>) -> (out: u16)
    ensures
        out == status_or_default(status),
{
    match status {
        Some(number) => number,
        None => default_status_number(),
    }
}

/// The status to record for a response whose status code may not be set:
/// the number of the code, and 200 where there is none.
pub open spec fn status_of(code: Option<http::StatusCode>) -> u16 {
    match code {
        Some(code) => status_value(code),
        None => 200,
    }
}

/// The status number to record, from the status code that the response
/// carries after dispatch, if it carries one.
pub fn final_status_of(code: Option<http::StatusCode>) -> (out: u16)
    ensures
        out == status_of(code),
        100 <= out <= 999,
{
    match code {
        Some(code) => status_number(&code),
        None => default_status_number(),
    }
}

/// What is asked of the store before dispatch.
#[derive(Debug, Clone, PartialEq, Eq)]
pub struct RequestReport {
    pub conn_id: Option<Id>,
    pub facts: RequestFacts,
}

/// What is asked of the store after dispatch.
#[derive(Debug, Clone, Copy, PartialEq, Eq, Structural, Hash)]
pub struct ResponseReport {
    pub conn_id: Option<Id>,
    pub req_id: Id,
    pub duration: HumanReadableDuration,
    pub status: u16,
}

/// A request that has arrived and is not yet dispatched.
#[derive(Debug, Clone, Copy, PartialEq, Eq, Structural, Hash)]
pub struct Arrived {
    pub conn_id: Option<Id>,
}

/// A request in dispatch: the identities under which it is known.
#[derive(Debug, Clone, Copy, PartialEq, Eq, Structural, Hash)]
pub struct Dispatching {
    pub conn_id: Option<Id>,
    /// The request's own record, where the store took it.
    pub req_id: Option<Id>,
}

impl Arrived {
    /// The identity behind what a request carries.
    pub open spec fn carrying(attached: Option<ConnId>) -> Arrived {
        Arrived {
            conn_id: match attached {
                Some(ConnId(id)) => Some(id),
                None => None,
            },
        }
    }

    /// The dispatch that follows the store's answer: under the request's
    /// identity where the record was written, under none where it was not.
    pub open spec fn dispatching(self, outcome: Result<Id, StorageError>) -> Dispatching {
        Dispatching {
            conn_id: self.conn_id,
            req_id: match outcome {
                Ok(id) => Some(id),
                Err(_) => None,
            },
        }
    }

    /// A request arrives, with what the transport layer attached to it.
    pub fn new(attached: Option<ConnId>) -> (out: Arrived)
        ensures
            out == Arrived::carrying(attached),
    {
        Arrived {
            conn_id: match attached {
                Some(ConnId(id)) => Some(id),
                None => None,
            },
        }
    }

    /// What to ask of the store before dispatch.
    pub fn request_report(&self, facts: RequestFacts) -> (out: RequestReport)
        ensures
            out.conn_id == self.conn_id,
            out.facts == facts,
    {
        RequestReport { conn_id: self.conn_id, facts }
    }

    /// The store has answered. Dispatch follows whatever the answer.
    pub fn reported(self, outcome: Result<Id, StorageError>) -> (out: Dispatching)
        ensures
            out == self.dispatching(outcome),
    {
        Dispatching {
            conn_id: self.conn_id,
            req_id: match outcome {
                Ok(id) => Some(id),
                Err(_) => None,
            },
        }
    }
}

impl Dispatching {
    /// What is asked of the store once dispatch has ended after `elapsed`
    /// with the status `status`: a response record that refers to the
    /// request's record, or nothing where the request has no record.
    pub open spec fn response_report(
        self,
        elapsed: HumanReadableDuration,
        status: Option<u16>,
    ) -> Option<ResponseReport> {
        match self.req_id {
            Some(req_id) => Some(
                ResponseReport {
                    conn_id: self.conn_id,
                    req_id,
                    duration: elapsed,
                    status: status_or_default(status),
                },
            ),
            None => None,
        }
    }

    /// Dispatch has ended, by a response, an error turned into a status, or
    /// the client's leaving.
    pub fn completed(self, elapsed: HumanReadableDuration, status: Option<u16>) -> (out: Option<
        ResponseReport,
    >)
        ensures
            out == self.response_report(elapsed, status),
    {
        match self.req_id {
            Some(req_id) => Some(
                ResponseReport {
                    conn_id: self.conn_id,
                    req_id,
                    duration: elapsed,
                    status: final_status(status),
                },
            ),
            None => None,
        }
    }
}

} // verus!
