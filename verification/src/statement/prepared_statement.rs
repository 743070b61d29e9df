//! The life of a prepared statement, as the session sees it.
//!
//! The session sends the requests and receives the responses; what to do
//! next is decided here. A statement is absent until the server has
//! prepared it. When the server answers an EXECUTE with the error that it
//! does not know the statement's id, the statement is prepared again and
//! the EXECUTE is sent once more; when that one meets the same error, the
//! error goes to the caller.
use crate::frame::types::{bytes_as_slice, bytes_of};
use bytes::Bytes;
use vstd::prelude::*;

verus! {

/// Where a prepared statement stands.
#[derive(Debug)]
pub enum PreparedState {
    /// The server has not prepared the statement.
    Absent,
    /// The server has prepared the statement under `id`. `retried` holds
    /// while the EXECUTE that is under way is the one that was sent again
    /// after the statement had to be prepared again.
    Ready { id: Bytes, retried: bool },
    /// The statement is being prepared again, and an EXECUTE waits for it.
    Repreparing,
}

/// What `PreparedState` stands for in contracts.
pub enum PreparedStateView {
    Absent,
    Ready { id: Seq<u8>, retried: bool },
    Repreparing,
}

impl View for PreparedState {
    type V = PreparedStateView;

    open spec fn view(&self) -> PreparedStateView {
        match self {
            PreparedState::Absent => PreparedStateView::Absent,
            PreparedState::Ready { id, retried } => PreparedStateView::Ready {
                id: bytes_of(*id),
                retried: *retried,
            },
            PreparedState::Repreparing => PreparedStateView::Repreparing,
        }
    }
}

/// What the server answered.
#[derive(Debug)]
pub enum PreparedEvent {
    /// A PREPARE succeeded and gave the statement this id.
    Prepared { id: Bytes },
    /// An EXECUTE succeeded.
    Executed,
    /// An EXECUTE met the error that the server does not know this id.
    Unprepared { unknown_id: Bytes },
    /// A request met any other error.
    Failed,
}

/// What `PreparedEvent` stands for in contracts.
pub enum PreparedEventView {
    Prepared { id: Seq<u8> },
    Executed,
    Unprepared { unknown_id: Seq<u8> },
    Failed,
}

impl View for PreparedEvent {
    type V = PreparedEventView;

    open spec fn view(&self) -> PreparedEventView {
        match self {
            PreparedEvent::Prepared { id } => PreparedEventView::Prepared { id: bytes_of(*id) },
            PreparedEvent::Executed => PreparedEventView::Executed,
            PreparedEvent::Unprepared { unknown_id } => PreparedEventView::Unprepared {
                unknown_id: bytes_of(*unknown_id),
            },
            PreparedEvent::Failed => PreparedEventView::Failed,
        }
    }
}

/// What the session does next.
#[derive(Debug, Clone, Copy, PartialEq, Eq)]
pub enum PreparedAction {
    /// Hand the outcome to the caller: the request is done.
    Complete,
    /// Send PREPARE with the text of the statement.
    Prepare,
    /// Send the EXECUTE again, under the id that the statement has now.
    Execute,
    /// Hand the error to the caller.
    Surface,
}

/// The state after an event, and what to do.
///
/// A prepared statement is ready, under the id that the server gave, for
/// as long as its EXECUTEs succeed. The first EXECUTE that the server
/// refuses for not knowing the statement's id has the statement prepared
/// again; once that is done the EXECUTE is sent again. If the server then
/// refuses it for the same reason, the error is surfaced and the statement
/// is absent. The ids are compared byte by byte: an error that names
/// another id is surfaced and changes nothing. Any other error is surfaced;
/// it leaves a ready statement ready. An event that the state does not
/// wait for is surfaced and changes nothing.
pub open spec fn next(state: PreparedStateView, event: PreparedEventView) -> (
    PreparedStateView,
    PreparedAction,
) {
    match (state, event) {
        (PreparedStateView::Absent, PreparedEventView::Prepared { id }) => (
            PreparedStateView::Ready { id, retried: false },
            PreparedAction::Complete,
        ),
        (PreparedStateView::Ready { .. }, PreparedEventView::Prepared { id }) => (
            PreparedStateView::Ready { id, retried: false },
            PreparedAction::Complete,
        ),
        (PreparedStateView::Repreparing, PreparedEventView::Prepared { id }) => (
            PreparedStateView::Ready { id, retried: true },
            PreparedAction::Execute,
        ),
        (PreparedStateView::Ready { id, .. }, PreparedEventView::Executed) => (
            PreparedStateView::Ready { id, retried: false },
            PreparedAction::Complete,
        ),
        (PreparedStateView::Ready { id, retried }, PreparedEventView::Unprepared { unknown_id }) => {
            if unknown_id != id {
                (state, PreparedAction::Surface)
            } else if retried {
                (PreparedStateView::Absent, PreparedAction::Surface)
            } else {
                (PreparedStateView::Repreparing, PreparedAction::Prepare)
            }
        },
        (PreparedStateView::Ready { id, .. }, PreparedEventView::Failed) => (
            PreparedStateView::Ready { id, retried: false },
            PreparedAction::Surface,
        ),
        (PreparedStateView::Repreparing, PreparedEventView::Failed) => (
            PreparedStateView::Absent,
            PreparedAction::Surface,
        ),
        _ => (state, PreparedAction::Surface),
    }
}

/// Whether two slices hold the same bytes.
fn same_bytes(a: &[u8], b: &[u8]) -> (r: bool)
    ensures
        r == (a@ == b@),
{
    if a.len() != b.len() {
        return false;
    }
    let mut i: usize = 0;
    while i < a.len()
        invariant
            i <= a@.len(),
            a@.len() == b@.len(),
            forall|j: int| 0 <= j < i ==> a@[j] == b@[j],
        decreases a@.len() - i,
    {
        if a[i] != b[i] {
            return false;
        }
        i += 1;
    }
    assert(a@ =~= b@);
    true
}

/// Takes an event and gives the state that follows and what to do next.
pub fn step(state: PreparedState, event: PreparedEvent) -> (r: (PreparedState, PreparedAction))
    ensures
        (r.0@, r.1) == next(state@, event@),
{
    match (state, event) {
        (PreparedState::Absent, PreparedEvent::Prepared { id }) => (
            PreparedState::Ready { id, retried: false },
            PreparedAction::Complete,
        ),
        (PreparedState::Ready { .. }, PreparedEvent::Prepared { id }) => (
            PreparedState::Ready { id, retried: false },
            PreparedAction::Complete,
        ),
        (PreparedState::Repreparing, PreparedEvent::Prepared { id }) => (
            PreparedState::Ready { id, retried: true },
            PreparedAction::Execute,
        ),
        (PreparedState::Ready { id, .. }, PreparedEvent::Executed) => (
            PreparedState::Ready { id, retried: false },
            PreparedAction::Complete,
        ),
        (PreparedState::Ready { id, retried }, PreparedEvent::Unprepared { unknown_id }) => {
            if !same_bytes(bytes_as_slice(&unknown_id), bytes_as_slice(&id)) {
                (PreparedState::Ready { id, retried }, PreparedAction::Surface)
            } else if retried {
                (PreparedState::Absent, PreparedAction::Surface)
            } else {
                (PreparedState::Repreparing, PreparedAction::Prepare)
            }
        },
        (PreparedState::Ready { id, .. }, PreparedEvent::Failed) => (
            PreparedState::Ready { id, retried: false },
            PreparedAction::Surface,
        ),
        (PreparedState::Repreparing, PreparedEvent::Failed) => (
            PreparedState::Absent,
            PreparedAction::Surface,
        ),
        (state, _) => (state, PreparedAction::Surface),
    }
}

/// One unknown id has the statement prepared again and the EXECUTE sent
/// again, under the id that the server gave anew, which may be the one it
/// had. A second unknown id in a row is surfaced, and so there is never a
/// second retry.
pub proof fn lemma_one_retry(id: Seq<u8>, new_id: Seq<u8>)
    ensures
        next(
            PreparedStateView::Ready { id, retried: false },
            PreparedEventView::Unprepared { unknown_id: id },
        ) == (PreparedStateView::Repreparing, PreparedAction::Prepare),
        next(PreparedStateView::Repreparing, PreparedEventView::Prepared { id: new_id }) == (
            PreparedStateView::Ready { id: new_id, retried: true },
            PreparedAction::Execute,
        ),
        next(
            PreparedStateView::Ready { id: new_id, retried: true },
            PreparedEventView::Unprepared { unknown_id: new_id },
        ) == (PreparedStateView::Absent, PreparedAction::Surface),
        next(
            PreparedStateView::Ready { id: new_id, retried: true },
            PreparedEventView::Executed,
        ) == (PreparedStateView::Ready { id: new_id, retried: false }, PreparedAction::Complete),
{
}

} // verus!
