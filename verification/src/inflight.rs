//! Coalescing of concurrent requests for one key: the first to come leads and does the work,
//! the others wait for what it publishes.
use vstd::hash_map::StringHashMap;
use vstd::prelude::*;

use crate::error::{copy_outcome, outcome_view, ErrorView, GoogleError};

verus! {

/// The requests in flight by key, each with the handle on which its waiters wait.
#[verifier::reject_recursive_types(H)]
pub struct InflightRequests<H> {
    entries: StringHashMap<H>,
}

impl<H> View for InflightRequests<H> {
    type V = Map<Seq<char>, H>;

    closed spec fn view(&self) -> Map<Seq<char>, H> {
        self.entries@
    }
}

/// The table after a request for a key: the key is in it, with its earlier handle if it had one.
pub open spec fn joined<H>(table: Map<Seq<char>, H>, key: Seq<char>, fresh: H) -> Map<
    Seq<char>,
    H,
> {
    if table.dom().contains(key) {
        table
    } else {
        table.insert(key, fresh)
    }
}

impl<H> InflightRequests<H> {
    /// A table without requests.
    pub fn new() -> (table: Self)
        ensures
            table@ == Map::<Seq<char>, H>::empty(),
    {
        InflightRequests { entries: StringHashMap::new() }
    }

    /// Starts the run of one caller on a key. Who is first leads, and its handle stands for the
    /// key from then on; the others follow on the handle that stands for it already.
    pub fn run(&mut self, key: String, fresh: H) -> (state: RunState)
        ensures
            final(self)@ == joined(old(self)@, key@, fresh),
            state@ == run_started(!old(self)@.dom().contains(key@)),
    {
        if self.entries.contains_key(key.as_str()) {
            RunState::Waiting
        } else {
            self.entries.insert(key, fresh);
            RunState::Operating
        }
    }

    /// The handle that stands for a key.
    pub fn get(&self, key: &str) -> (handle: Option<&H>)
        ensures
            match handle {
                Some(handle) => self@.dom().contains(key@) && *handle == self@[key@],
                None => !self@.dom().contains(key@),
            },
    {
        self.entries.get(key)
    }

    /// Ends the work on a key.
    pub fn remove(&mut self, key: &str)
        ensures
            final(self)@ == old(self)@.remove(key@),
    {
        self.entries.remove(key);
    }
}

/// The result of one piece of work, once it is there.
pub struct InflightEntry {
    result: Option<Result<Vec<u8>, GoogleError>>,
}

impl InflightEntry {
    /// What has been published.
    pub closed spec fn published(self) -> Option<Result<Seq<u8>, ErrorView>> {
        match self.result {
            Some(outcome) => Some(outcome_view(outcome)),
            None => None,
        }
    }

    pub fn new() -> (entry: Self)
        ensures
            entry.published() is None,
    {
        InflightEntry { result: None }
    }

    /// A copy of what has been published; `None` means to wait on.
    pub fn wait(&self) -> (outcome: Option<Result<Vec<u8>, GoogleError>>)
        ensures
            match outcome {
                Some(outcome) => self.published() == Some(outcome_view(outcome)),
                None => self.published() is None,
            },
    {
        match &self.result {
            Some(outcome) => Some(copy_outcome(outcome)),
            None => None,
        }
    }

    /// Publishes the result.
    pub fn finish(&mut self, outcome: Result<Vec<u8>, GoogleError>)
        ensures
            final(self).published() == Some(outcome_view(outcome)),
    {
        self.result = Some(outcome);
    }
}

/// How far one caller has come.
pub enum RunState {
    /// It follows, and waits for what the leader publishes.
    Waiting,
    /// It leads, and does the work.
    Operating,
    /// It leads, and publishes the result before it ends the work on the key.
    Publishing { outcome: Result<Vec<u8>, GoogleError> },
    /// It has its result.
    Done { outcome: Result<Vec<u8>, GoogleError> },
}

/// How far one caller has come, by the views of the results.
pub enum RunView {
    Waiting,
    Operating,
    Publishing { outcome: Result<Seq<u8>, ErrorView> },
    Done { outcome: Result<Seq<u8>, ErrorView> },
}

impl View for RunState {
    type V = RunView;

    open spec fn view(&self) -> RunView {
        match *self {
            RunState::Waiting => RunView::Waiting,
            RunState::Operating => RunView::Operating,
            RunState::Publishing { outcome } => RunView::Publishing {
                outcome: outcome_view(outcome),
            },
            RunState::Done { outcome } => RunView::Done { outcome: outcome_view(outcome) },
        }
    }
}

/// How a caller starts: the leader works, a follower waits.
pub open spec fn run_started(leads: bool) -> RunView {
    if leads {
        RunView::Operating
    } else {
        RunView::Waiting
    }
}

/// After a result: the leader has it from its work and publishes it, a follower has it from the
/// leader and is done.
pub open spec fn run_resolved(state: RunView, outcome: Result<Seq<u8>, ErrorView>) -> RunView {
    match state {
        RunView::Operating => RunView::Publishing { outcome },
        _ => RunView::Done { outcome },
    }
}

impl RunState {
    /// Takes a result: that of the work, or the one that the leader published.
    pub fn on_resolved(self, outcome: Result<Vec<u8>, GoogleError>) -> (next: Self)
        requires
            self@ is Operating || self@ is Waiting,
        ensures
            next@ == run_resolved(self@, outcome_view(outcome)),
    {
        match self {
            RunState::Operating => RunState::Publishing { outcome },
            _ => RunState::Done { outcome },
        }
    }

    /// Takes the word that the result is published and the key free again.
    pub fn on_published(self) -> (next: Self)
        requires
            self@ is Publishing,
        ensures
            next@ == (RunView::Done { outcome: self@->Publishing_outcome }),
    {
        match self {
            RunState::Publishing { outcome } => RunState::Done { outcome },
            other => other,
        }
    }
}

/// One change of the table.
pub enum TableChange<H> {
    Join { key: Seq<char>, fresh: H },
    Remove { key: Seq<char> },
}

/// The table after one change.
pub open spec fn changed<H>(table: Map<Seq<char>, H>, change: TableChange<H>) -> Map<
    Seq<char>,
    H,
> {
    match change {
        TableChange::Join { key, fresh } => joined(table, key, fresh),
        TableChange::Remove { key } => table.remove(key),
    }
}

/// The table after a sequence of changes.
pub open spec fn changed_by_all<H>(
    table: Map<Seq<char>, H>,
    changes: Seq<TableChange<H>>,
) -> Map<Seq<char>, H>
    decreases changes.len(),
{
    if changes.len() == 0 {
        table
    } else {
        changed(changed_by_all(table, changes.drop_last()), changes.last())
    }
}

/// From the request that leads on a key until the key is removed, every request for the key
/// follows, on the handle of the leader, whatever happens to other keys.
pub proof fn requests_share_one_leader<H>(
    table: Map<Seq<char>, H>,
    key: Seq<char>,
    handle: H,
    changes: Seq<TableChange<H>>,
)
    requires
        !table.dom().contains(key),
        forall|i: int|
            0 <= i < changes.len() ==> #[trigger] changes[i] != (TableChange::<H>::Remove { key }),
    ensures
        ({
            let later = changed_by_all(joined(table, key, handle), changes);
            later.dom().contains(key) && later[key] == handle
        }),
    decreases changes.len(),
{
    if changes.len() > 0 {
        let earlier = changes.drop_last();
        assert forall|i: int| 0 <= i < earlier.len() implies #[trigger] earlier[i] != (
        TableChange::<H>::Remove { key }) by {
            assert(earlier[i] == changes[i]);
        }
        requests_share_one_leader(table, key, handle, earlier);
        assert(changes[changes.len() - 1] == changes.last());
    }
}

/// Once a key is removed, the next request for it leads.
pub proof fn removal_frees_the_key<H>(table: Map<Seq<char>, H>, key: Seq<char>, fresh: H)
    ensures
        !table.remove(key).dom().contains(key),
        joined(table.remove(key), key, fresh)[key] == fresh,
{
}

/// Leader and followers of one piece of work end with one result, success or failure: what the
/// leader's work gave is what it publishes and returns, and what a follower finds published is
/// what it returns.
pub proof fn followers_get_what_the_leader_gets(outcome: Result<Seq<u8>, ErrorView>)
    ensures
        run_resolved(run_started(true), outcome) == (RunView::Publishing { outcome }),
        run_resolved(run_started(false), outcome) == (RunView::Done { outcome }),
{
}

/// Who finds its key free leads, who finds it taken waits; no other key is touched.
pub proof fn the_first_on_a_key_leads<H>(
    table: Map<Seq<char>, H>,
    key: Seq<char>,
    fresh: H,
    other: Seq<char>,
)
    requires
        other != key,
    ensures
        run_started(true) is Operating,
        run_started(false) is Waiting,
        joined(table, key, fresh).dom().contains(key),
        joined(table, key, fresh)[key] == if table.dom().contains(key) {
            table[key]
        } else {
            fresh
        },
        joined(table, key, fresh).dom().contains(other) <==> table.dom().contains(other),
        table.dom().contains(other) ==> joined(table, key, fresh)[other] == table[other],
{
}

/// The states of a run show what they hold.
pub proof fn runs_show_what_they_hold(outcome: Result<Vec<u8>, GoogleError>)
    ensures
        RunState::Waiting@ == RunView::Waiting,
        RunState::Operating@ == RunView::Operating,
        (RunState::Publishing { outcome })@ == (RunView::Publishing {
            outcome: outcome_view(outcome),
        }),
        (RunState::Done { outcome })@ == (RunView::Done { outcome: outcome_view(outcome) }),
{
}

} // verus!
