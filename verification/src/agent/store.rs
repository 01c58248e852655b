//! Versioned storage of per-session agent state.
use vstd::prelude::*;

use super::state::{AgentState, StateView};
use crate::assoc::{
    assoc_map, lemma_assoc_absent, lemma_assoc_last, lemma_assoc_update,
};
use crate::model::event::{coded_message, coded_text};
use crate::text::{append, blank, concat3, decimal, decimal_text, is_blank, same_text, text_option};

verus! {

/// Result returned by a state-store operation.
pub type StateStoreResult<T> = Result<T, StateStoreError>;

/// A structured state persistence failure.
#[derive(Debug, PartialEq, Eq)]
pub struct StateStoreError {
    /// Human-readable failure description.
    pub message: String,
    /// Stable backend or application error code.
    pub code: Option<String>,
    /// Whether retrying after reloading state may succeed.
    pub retryable: bool,
}

/// What a persistence failure holds.
#[verifier::ext_equal]
pub struct StoreErrorView {
    pub message: Seq<char>,
    pub code: Option<Seq<char>>,
    pub retryable: bool,
}

impl View for StateStoreError {
    type V = StoreErrorView;

    open spec fn view(&self) -> StoreErrorView {
        StoreErrorView {
            message: self.message@,
            code: text_option(self.code),
            retryable: self.retryable,
        }
    }
}

impl Clone for StateStoreError {
    fn clone(&self) -> (copied: StateStoreError)
        ensures
            copied == self,
    {
        StateStoreError {
            message: self.message.clone(),
            code: self.code.clone(),
            retryable: self.retryable,
        }
    }
}

/// An optional revision as it is shown.
pub open spec fn revision_text(revision: Option<u64>) -> Seq<char> {
    match revision {
        Some(revision) => "Some("@ + decimal_text(revision as nat) + ")"@,
        None => "None"@,
    }
}

/// The failure of a write that expects another revision.
pub open spec fn conflict_error(expected: Option<u64>, actual: Option<u64>) -> StoreErrorView {
    StoreErrorView {
        message: "state revision conflict: expected "@ + revision_text(expected) + ", found "@
            + revision_text(actual),
        code: Some("revision_conflict"@),
        retryable: true,
    }
}

/// The failure of a write after the last revision.
pub open spec fn overflow_error() -> StoreErrorView {
    StoreErrorView {
        message: "state revision cannot be incremented"@,
        code: Some("revision_overflow"@),
        retryable: false,
    }
}

fn show_revision(revision: Option<u64>) -> (text: String)
    ensures
        text@ == revision_text(revision),
{
    match revision {
        Some(revision) => concat3("Some(", decimal(revision).as_str(), ")"),
        None => "None".to_owned(),
    }
}

impl StateStoreError {
    /// Creates a non-retryable state-store error.
    pub fn new(message: &str) -> (error: StateStoreError)
        ensures
            error@ == (StoreErrorView { message: message@, code: None, retryable: false }),
    {
        StateStoreError { message: message.to_owned(), code: None, retryable: false }
    }

    /// Attaches a stable error code.
    pub fn with_code(self, code: &str) -> (error: StateStoreError)
        ensures
            error@ == (StoreErrorView { code: Some(code@), ..self@ }),
    {
        let mut error = self;
        error.code = Some(code.to_owned());
        error
    }

    /// Marks whether retrying the operation may succeed.
    pub fn with_retryable(self, retryable: bool) -> (error: StateStoreError)
        ensures
            error@ == (StoreErrorView { retryable, ..self@ }),
    {
        let mut error = self;
        error.retryable = retryable;
        error
    }

    /// The failure of a write that expects another revision.
    pub fn conflict(expected: Option<u64>, actual: Option<u64>) -> (error: StateStoreError)
        ensures
            error@ == conflict_error(expected, actual),
    {
        let mut message = "state revision conflict: expected ".to_owned();
        append(&mut message, show_revision(expected).as_str());
        append(&mut message, ", found ");
        append(&mut message, show_revision(actual).as_str());
        StateStoreError::new(message.as_str()).with_code("revision_conflict").with_retryable(true)
    }

    /// What the error says.
    pub fn to_string(&self) -> (text: String)
        ensures
            text@ == coded_text("state store error"@, self@.code, self@.message),
    {
        coded_message("state store error", &self.code, self.message.as_str())
    }
}

/// Stable identity of one user's conversation session.
#[derive(Debug, PartialEq, Eq, Hash, PartialOrd, Ord)]
pub struct StateKey {
    pub(crate) user_id: String,
    pub(crate) session_id: String,
}

/// What a session key holds.
#[verifier::ext_equal]
pub struct KeyView {
    pub user_id: Seq<char>,
    pub session_id: Seq<char>,
}

impl View for StateKey {
    type V = KeyView;

    open(crate) spec fn view(&self) -> KeyView {
        KeyView { user_id: self.user_id@, session_id: self.session_id@ }
    }
}

impl Clone for StateKey {
    fn clone(&self) -> (copied: StateKey)
        ensures
            copied@ == self@,
    {
        StateKey { user_id: self.user_id.clone(), session_id: self.session_id.clone() }
    }
}

/// What is wrong with the parts of a session key, if anything.
pub open spec fn key_fault(user_id: Seq<char>, session_id: Seq<char>) -> Option<StoreErrorView> {
    if blank(user_id) {
        Some(
            StoreErrorView {
                message: "state user id cannot be empty"@,
                code: Some("invalid_user_id"@),
                retryable: false,
            },
        )
    } else if blank(session_id) {
        Some(
            StoreErrorView {
                message: "state session id cannot be empty"@,
                code: Some("invalid_session_id"@),
                retryable: false,
            },
        )
    } else {
        None
    }
}

impl StateKey {
    /// Creates a validated user/session key.
    pub fn new(user_id: &str, session_id: &str) -> (result: StateStoreResult<StateKey>)
        ensures
            match result {
                Ok(key) => key_fault(user_id@, session_id@) is None && key@ == (KeyView {
                    user_id: user_id@,
                    session_id: session_id@,
                }),
                Err(error) => key_fault(user_id@, session_id@) == Some(error@),
            },
    {
        if is_blank(user_id) {
            return Err(
                StateStoreError::new("state user id cannot be empty").with_code("invalid_user_id"),
            );
        }
        if is_blank(session_id) {
            return Err(
                StateStoreError::new("state session id cannot be empty").with_code(
                    "invalid_session_id",
                ),
            );
        }
        Ok(StateKey { user_id: user_id.to_owned(), session_id: session_id.to_owned() })
    }

    /// The user identifier.
    pub fn user_id(&self) -> (user_id: &str)
        ensures
            user_id@ == self@.user_id,
    {
        self.user_id.as_str()
    }

    /// The session identifier.
    pub fn session_id(&self) -> (session_id: &str)
        ensures
            session_id@ == self@.session_id,
    {
        self.session_id.as_str()
    }

    /// Whether two keys name the same session.
    pub fn same(&self, other: &StateKey) -> (result: bool)
        ensures
            result == (self@ == other@),
    {
        same_text(self.user_id.as_str(), other.user_id.as_str()) && same_text(
            self.session_id.as_str(),
            other.session_id.as_str(),
        )
    }
}

/// One persisted agent state and its optimistic-concurrency revision.
#[derive(Debug, PartialEq, Eq)]
pub struct StateRecord {
    pub(crate) revision: u64,
    pub(crate) state: AgentState,
}

/// What a record holds.
#[verifier::ext_equal]
pub struct RecordView {
    pub revision: u64,
    pub state: StateView,
}

impl View for StateRecord {
    type V = RecordView;

    open(crate) spec fn view(&self) -> RecordView {
        RecordView { revision: self.revision, state: self.state@ }
    }
}

impl Clone for StateRecord {
    fn clone(&self) -> (copied: StateRecord)
        ensures
            copied@ == self@,
    {
        StateRecord { revision: self.revision, state: self.state.clone() }
    }
}

impl StateRecord {
    /// A record from its stored parts, with a positive revision.
    pub fn from_parts(revision: u64, state: AgentState) -> (result: Result<StateRecord, String>)
        ensures
            match result {
                Ok(record) => revision > 0 && record@ == (RecordView { revision, state: state@ }),
                Err(fault) => revision == 0 && fault@
                    == "state record revision must be greater than zero"@,
            },
    {
        if revision == 0 {
            return Err("state record revision must be greater than zero".to_owned());
        }
        Ok(StateRecord { revision, state })
    }

    /// The monotonically increasing store revision.
    pub fn revision(&self) -> (revision: u64)
        ensures
            revision == self@.revision,
    {
        self.revision
    }

    /// The persisted agent state.
    pub fn state(&self) -> (state: &AgentState)
        ensures
            state@ == self@.state,
    {
        &self.state
    }

    /// The persisted agent state.
    pub fn into_state(self) -> (state: AgentState)
        ensures
            state@ == self@.state,
    {
        self.state
    }
}

/// Process-local state storage with compare-and-swap updates.
#[derive(Debug)]
pub struct InMemoryStateStore {
    records: Vec<(StateKey, StateRecord)>,
}

impl View for InMemoryStateStore {
    type V = Map<KeyView, RecordView>;

    closed spec fn view(&self) -> Map<KeyView, RecordView> {
        assoc_map(record_pairs(self.records@))
    }
}

spec fn record_pairs(records: Seq<(StateKey, StateRecord)>) -> Seq<(KeyView, RecordView)> {
    records.map_values(|record: (StateKey, StateRecord)| (record.0@, record.1@))
}

/// The revision of a key, if it has a record.
pub open spec fn revision_of(records: Map<KeyView, RecordView>, key: KeyView) -> Option<u64> {
    if records.contains_key(key) {
        Some(records[key].revision)
    } else {
        None
    }
}

/// What a write gives: the new record, or why there is none.
pub open spec fn saved(
    records: Map<KeyView, RecordView>,
    key: KeyView,
    expected: Option<u64>,
    state: StateView,
) -> Result<RecordView, StoreErrorView> {
    let actual = revision_of(records, key);
    if actual != expected {
        Err(conflict_error(expected, actual))
    } else {
        match actual {
            Some(revision) => if revision == u64::MAX {
                Err(overflow_error())
            } else {
                Ok(RecordView { revision: (revision + 1) as u64, state })
            },
            None => Ok(RecordView { revision: 1, state }),
        }
    }
}

impl Default for InMemoryStateStore {
    fn default() -> (store: InMemoryStateStore)
        ensures
            store@ == Map::<KeyView, RecordView>::empty(),
    {
        InMemoryStateStore::new()
    }
}

impl InMemoryStateStore {
    /// Creates an empty state store.
    pub fn new() -> (store: InMemoryStateStore)
        ensures
            store@ == Map::<KeyView, RecordView>::empty(),
    {
        let store = InMemoryStateStore { records: Vec::new() };
        assert(record_pairs(store.records@) =~= Seq::empty());
        store
    }

    fn position(&self, key: &StateKey) -> (index: Option<usize>)
        ensures
            match index {
                Some(i) => i < self.records@.len() && self.records@[i as int].0@ == key@ && forall|
                    j: int,
                |
                    i < j < self.records@.len() ==> (#[trigger] self.records@[j]).0@ != key@,
                None => forall|j: int|
                    0 <= j < self.records@.len() ==> (#[trigger] self.records@[j]).0@ != key@,
            },
    {
        let mut i: usize = self.records.len();
        while i > 0
            invariant
                i <= self.records@.len(),
                forall|j: int|
                    i <= j < self.records@.len() ==> (#[trigger] self.records@[j]).0@ != key@,
            decreases i,
        {
            i -= 1;
            if self.records[i].0.same(key) {
                return Some(i);
            }
        }
        None
    }

    /// The current record, or `None` when the session has never been saved.
    pub fn load(&self, key: &StateKey) -> (record: Option<StateRecord>)
        ensures
            match record {
                Some(found) => self@.contains_key(key@) && found@ == self@[key@],
                None => !self@.contains_key(key@),
            },
    {
        let ghost pairs = record_pairs(self.records@);
        match self.position(key) {
            Some(i) => {
                proof {
                    assert forall|j: int| i < j < pairs.len() implies (#[trigger] pairs[j]).0
                        != pairs[i as int].0 by {
                        assert(self.records@[j].0@ != key@);
                    }
                    lemma_assoc_last(pairs, i as int);
                }
                Some(self.records[i].1.clone())
            },
            None => {
                proof {
                    assert forall|j: int| 0 <= j < pairs.len() implies (#[trigger] pairs[j]).0
                        != key@ by {
                        assert(self.records@[j].0@ != key@);
                    }
                    lemma_assoc_absent(pairs, key@);
                }
                None
            },
        }
    }

    /// Saves a state only if its current revision equals `expected_revision`, where
    /// `None` creates a record that was absent.
    pub fn save(&mut self, key: StateKey, expected_revision: Option<u64>, state: AgentState) -> (result:
        StateStoreResult<StateRecord>)
        ensures
            match (result, saved(old(self)@, key@, expected_revision, state@)) {
                (Ok(record), Ok(expected)) => record@ == expected && final(self)@ == old(
                    self,
                )@.insert(key@, expected),
                (Err(error), Err(expected)) => error@ == expected && final(self)@ == old(self)@,
                _ => false,
            },
    {
        let actual: Option<u64> = match self.load(&key) {
            Some(record) => Some(record.revision),
            None => None,
        };
        let agrees = match (actual, expected_revision) {
            (Some(a), Some(b)) => a == b,
            (None, None) => true,
            _ => false,
        };
        if !agrees {
            return Err(StateStoreError::conflict(expected_revision, actual));
        }
        let revision: u64 = match actual {
            Some(revision) => {
                if revision == u64::MAX {
                    return Err(
                        StateStoreError::new("state revision cannot be incremented").with_code(
                            "revision_overflow",
                        ),
                    );
                }
                revision + 1
            },
            None => 1,
        };
        let record = StateRecord { revision, state };
        let returned = record.clone();
        let ghost before = record_pairs(self.records@);
        match self.position(&key) {
            Some(i) => {
                proof {
                    assert forall|j: int| i < j < before.len() implies (#[trigger] before[j]).0
                        != before[i as int].0 by {
                        assert(self.records@[j].0@ != key@);
                    }
                    lemma_assoc_update(before, i as int, record@);
                }
                let ghost changed = before.update(i as int, (key@, record@));
                self.records[i] = (key, record);
                assert(record_pairs(self.records@) =~= changed);
            },
            None => {
                let ghost longer = before.push((key@, record@));
                self.records.push((key, record));
                assert(record_pairs(self.records@) =~= longer);
                assert(longer.drop_last() =~= before);
            },
        }
        Ok(returned)
    }
}

/// A read gives back what the last successful write of its key wrote, and writes
/// of other keys leave it alone.
pub proof fn reads_give_back_writes(
    records: Map<KeyView, RecordView>,
    key: KeyView,
    expected: Option<u64>,
    state: StateView,
    other: KeyView,
)
    requires
        saved(records, key, expected, state) is Ok,
    ensures
        ({
            let record = saved(records, key, expected, state)->Ok_0;
            let after = records.insert(key, record);
            &&& after[key].state == state
            &&& revision_of(after, key) == Some(record.revision)
            &&& other != key ==> revision_of(after, other) == revision_of(records, other) && (
            records.contains_key(other) ==> after[other] == records[other])
        }),
{
}

/// A write with a stale revision is refused as a conflict worth a retry.
pub proof fn stale_writes_are_refused(
    records: Map<KeyView, RecordView>,
    key: KeyView,
    expected: Option<u64>,
    state: StateView,
)
    requires
        revision_of(records, key) != expected,
    ensures
        saved(records, key, expected, state) == Err::<RecordView, StoreErrorView>(
            conflict_error(expected, revision_of(records, key)),
        ),
        saved(records, key, expected, state)->Err_0.retryable,
{
}

/// Each successful write has a greater revision than the one before it, so of two
/// writes that expect the same revision at most one succeeds.
pub proof fn revisions_grow(
    records: Map<KeyView, RecordView>,
    key: KeyView,
    expected: Option<u64>,
    first: StateView,
    second: StateView,
)
    requires
        saved(records, key, expected, first) is Ok,
    ensures
        ({
            let record = saved(records, key, expected, first)->Ok_0;
            &&& record.revision > 0
            &&& expected matches Some(revision) ==> record.revision == revision + 1
            &&& saved(records.insert(key, record), key, expected, second) is Err
        }),
{
}

} // verus!
