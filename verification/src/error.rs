//! The ways in which an operation of the store can fail.
use vstd::prelude::*;
use vstd::string::*;
use crate::statement::Intent;

verus! {

/// What the backend said when it refused: its numeric code and its message,
/// either of which may be absent.
#[derive(Debug, Clone, PartialEq, Eq)]
pub struct BackendFault {
    pub code: Option<isize>,
    pub message: Option<String>,
}

/// A backend fault as the contracts see it.
pub struct Fault {
    pub code: Option<isize>,
    pub message: Option<Seq<char>>,
}

impl View for BackendFault {
    type V = Fault;

    open spec fn view(&self) -> Fault {
        Fault {
            code: self.code,
            message: match self.message {
                Some(text) => Some(text@),
                None => None,
            },
        }
    }
}

/// A failed operation of the store.
#[derive(Debug, Clone, PartialEq, Eq)]
#[allow(inconsistent_fields)]
pub enum StoreError {
    /// No backend location was supplied.
    ConfigurationMissing,
    /// No session with the backend could be opened.
    BackendUnavailable { intent: Intent, user_id: Option<u64>, fault: BackendFault },
    /// The backend refused the statement, or handed back a row that is no
    /// link record.
    StatementError { intent: Intent, user_id: Option<u64>, fault: BackendFault },
    /// A batch of deletions stopped after at least one of them was carried
    /// out. `pending` holds the links that were not confirmed deleted, the
    /// one that failed first.
    PartialBatchFailure { user_id: u64, pending: Vec<String>, fault: BackendFault },
}

/// A failed operation as the contracts see it.
#[allow(inconsistent_fields)]
pub enum Failure {
    ConfigurationMissing,
    BackendUnavailable { intent: Intent, user_id: Option<u64>, fault: Fault },
    StatementError { intent: Intent, user_id: Option<u64>, fault: Fault },
    PartialBatchFailure { user_id: u64, pending: Seq<Seq<char>>, fault: Fault },
}

impl View for StoreError {
    type V = Failure;

    open spec fn view(&self) -> Failure {
        match *self {
            StoreError::ConfigurationMissing => Failure::ConfigurationMissing,
            StoreError::BackendUnavailable { intent, user_id, fault } => {
                Failure::BackendUnavailable { intent, user_id, fault: fault@ }
            },
            StoreError::StatementError { intent, user_id, fault } => {
                Failure::StatementError { intent, user_id, fault: fault@ }
            },
            StoreError::PartialBatchFailure { user_id, pending, fault } => {
                Failure::PartialBatchFailure {
                    user_id,
                    pending: pending@.map_values(|text: String| text@),
                    fault: fault@,
                }
            },
        }
    }
}

impl Failure {
    /// Whether this is the failure of a single statement with that intent
    /// for that user: the backend was out of reach or refused it.
    pub open spec fn is_failure_of(self, intent: Intent, user_id: Option<u64>) -> bool {
        match self {
            Failure::BackendUnavailable { intent: i, user_id: u, .. } => i == intent && u
                == user_id,
            Failure::StatementError { intent: i, user_id: u, .. } => i == intent && u == user_id,
            _ => false,
        }
    }
}

/// The views of a run of link texts.
pub open spec fn texts_of(links: Seq<&str>) -> Seq<Seq<char>> {
    links.map_values(|text: &str| text@)
}

/// What a batch of deletions reports when the deletion of `links[failed_at]`
/// is refused with `fault`. When nothing was deleted before, that is the
/// statement's own failure. Otherwise it is a partial failure that lists the
/// links from the refused one on.
pub open spec fn batch_failure_of(
    user_id: u64,
    links: Seq<Seq<char>>,
    failed_at: int,
    fault: Fault,
) -> Failure {
    if failed_at == 0 {
        Failure::StatementError {
            intent: Intent::DeleteByUserAndLink,
            user_id: Some(user_id),
            fault,
        }
    } else {
        Failure::PartialBatchFailure {
            user_id,
            pending: links.skip(failed_at),
            fault,
        }
    }
}

/// Builds the report of a batch of deletions that was refused at
/// `links[failed_at]`.
pub fn batch_failure(user_id: u64, links: &Vec<&str>, failed_at: usize, fault: BackendFault) -> (error:
    StoreError)
    requires
        failed_at < links.len(),
    ensures
        error@ == batch_failure_of(user_id, texts_of(links@), failed_at as int, fault@),
{
    if failed_at == 0 {
        return StoreError::StatementError {
            intent: Intent::DeleteByUserAndLink,
            user_id: Some(user_id),
            fault,
        };
    }
    let mut pending: Vec<String> = Vec::new();
    let mut i: usize = failed_at;
    while i < links.len()
        invariant
            failed_at <= i <= links.len(),
            pending@.map_values(|text: String| text@) == texts_of(links@).subrange(
                failed_at as int,
                i as int,
            ),
        decreases links.len() - i,
    {
        let ghost before = pending@;
        pending.push(String::from_str(links[i]));
        proof {
            assert(pending@.map_values(|text: String| text@) =~= before.map_values(
                |text: String| text@,
            ).push(links@[i as int]@));
            assert(texts_of(links@).subrange(failed_at as int, i + 1) =~= texts_of(
                links@,
            ).subrange(failed_at as int, i as int).push(links@[i as int]@));
        }
        i = i + 1;
    }
    proof {
        assert(texts_of(links@).subrange(failed_at as int, links.len() as int) =~= texts_of(
            links@,
        ).skip(failed_at as int));
    }
    StoreError::PartialBatchFailure { user_id, pending, fault }
}

} // verus!
