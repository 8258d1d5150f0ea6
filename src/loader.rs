//! The policy that loads the word list: a cached copy if there is one, else a
//! download that is stored for the next run before it is used.
//!
//! The steps that touch the disk or the network are taken by the caller, who
//! reports each outcome as an event and takes the next action from `step`.
use vstd::prelude::*;

use crate::dataset::{convert_to_dataset, dataset_of, Dataset};
use crate::solver::texts;

verus! {

/// The word list could not be downloaded.
pub struct FetchError {
    /// What went wrong.
    pub reason: String,
}

/// A downloaded word list could not be stored.
pub struct PersistError {
    /// What went wrong.
    pub reason: String,
}

/// Where the loading stands.
pub enum LoadState {
    /// The cache is being looked up; the state loading starts in.
    LookingUp,
    /// The word list is being downloaded.
    Fetching,
    /// The downloaded word list `raw` is being stored.
    Persisting { raw: String },
    /// Loading is over.
    Finished,
}

/// The outcome of the step last taken.
pub enum LoadEvent {
    /// The cache holds the word list `raw`.
    CacheHit { raw: String },
    /// The cache holds no word list.
    CacheMiss,
    /// The download returned the word list `raw`.
    Fetched { raw: String },
    /// The download failed.
    FetchFailed { reason: String },
    /// The word list was stored.
    Persisted,
    /// The word list could not be stored.
    PersistFailed { reason: String },
}

/// What to do next.
pub enum LoadAction {
    /// Download the word list.
    Fetch,
    /// Store the word list `raw` in the cache, as it is.
    Persist { raw: String },
    /// Use `dataset`; where `warning` holds an error, report it: the word
    /// list will be downloaded again on the next run.
    Deliver { dataset: Dataset, warning: Option<PersistError> },
    /// Stop: there is no word list.
    Abort { error: FetchError },
    /// The event does not belong to this state: nothing to do.
    Ignore,
}

/// Whether `a` delivers the dataset of the word list `raw`, with a warning of
/// `warning` if that is `Some`.
pub open spec fn delivers(a: LoadAction, raw: Seq<char>, warning: Option<Seq<char>>) -> bool {
    match a {
        LoadAction::Deliver { dataset, warning: w } => {
            &&& texts(dataset@) == dataset_of(raw)
            &&& forall|i: int|
                0 <= i < dataset@.len() ==> (#[trigger] dataset@[i]).wf() && dataset@[i]@.len() > 0
            &&& match (w, warning) {
                (None, None) => true,
                (Some(e), Some(reason)) => e.reason@ == reason,
                _ => false,
            }
        },
        _ => false,
    }
}

impl LoadState {
    /// The state that loading starts in: the first thing to do is to look up
    /// the cache.
    pub fn start() -> (r: LoadState)
        ensures
            r is LookingUp,
    {
        LoadState::LookingUp
    }
}

/// The next state and action, after `event` in `state`.
///
/// A cached word list is used as it is, with no download. Otherwise the word
/// list is downloaded and stored before it is used; a failed download stops
/// the loading, a failed store does not, but is reported. Cached and
/// downloaded lists are read the same way.
pub fn step(state: LoadState, event: LoadEvent) -> (r: (LoadState, LoadAction))
    ensures
        match (state, event) {
            (LoadState::LookingUp, LoadEvent::CacheHit { raw }) => {
                r.0 is Finished && delivers(r.1, raw@, None)
            },
            (LoadState::LookingUp, LoadEvent::CacheMiss) => r.0 is Fetching && r.1 is Fetch,
            (LoadState::Fetching, LoadEvent::Fetched { raw }) => {
                &&& r.0 matches LoadState::Persisting { raw: kept } && kept@ == raw@
                &&& r.1 matches LoadAction::Persist { raw: out } && out@ == raw@
            },
            (LoadState::Fetching, LoadEvent::FetchFailed { reason }) => {
                &&& r.0 is Finished
                &&& r.1 matches LoadAction::Abort { error } && error.reason@ == reason@
            },
            (LoadState::Persisting { raw }, LoadEvent::Persisted) => {
                r.0 is Finished && delivers(r.1, raw@, None)
            },
            (LoadState::Persisting { raw }, LoadEvent::PersistFailed { reason }) => {
                r.0 is Finished && delivers(r.1, raw@, Some(reason@))
            },
            _ => r.0 == state && r.1 is Ignore,
        },
{
    match (state, event) {
        (LoadState::LookingUp, LoadEvent::CacheHit { raw }) => {
            let dataset = convert_to_dataset(raw);
            (LoadState::Finished, LoadAction::Deliver { dataset, warning: None })
        },
        (LoadState::LookingUp, LoadEvent::CacheMiss) => (LoadState::Fetching, LoadAction::Fetch),
        (LoadState::Fetching, LoadEvent::Fetched { raw }) => {
            let out = raw.clone();
            (LoadState::Persisting { raw }, LoadAction::Persist { raw: out })
        },
        (LoadState::Fetching, LoadEvent::FetchFailed { reason }) => {
            (LoadState::Finished, LoadAction::Abort { error: FetchError { reason } })
        },
        (LoadState::Persisting { raw }, LoadEvent::Persisted) => {
            let dataset = convert_to_dataset(raw);
            (LoadState::Finished, LoadAction::Deliver { dataset, warning: None })
        },
        (LoadState::Persisting { raw }, LoadEvent::PersistFailed { reason }) => {
            let dataset = convert_to_dataset(raw);
            (
                LoadState::Finished,
                LoadAction::Deliver { dataset, warning: Some(PersistError { reason }) },
            )
        },
        (state, _) => (state, LoadAction::Ignore),
    }
}

} // verus!
