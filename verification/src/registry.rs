//! The daemon's table of sessions: runtime metadata, state store and the
//! most recent diffs of each session.
use vstd::prelude::*;

use crate::clock::now_unix_ms;
use crate::copy::copy_diff;
use crate::diffspec::{apply_diff_spec, StateErrorV, StoreV};
use crate::model::DiffV;
use crate::protocol::{SessionId, SessionMode, UiDiffBatch, UiSnapshot};
use crate::state::{err_view, StateError, UiStateStore};
use crate::strmap::StrMap;
use crate::text::seq_less;

verus! {

/// How many diffs a session keeps for diagnostics.
pub const MAX_RECENT_DIFFS: usize = 16;

/// Runtime metadata of a session; instants are Unix milliseconds.
#[derive(Clone, Debug, PartialEq, Eq)]
pub struct SessionRuntime {
    pub session_id: SessionId,
    pub mode: SessionMode,
    pub backend_id: String,
    pub connected_at_unix_ms: i64,
    pub subscribed_at_unix_ms: Option<i64>,
    pub closed_at_unix_ms: Option<i64>,
    pub shallow: Option<bool>,
    pub last_revision: Option<u64>,
}

/// View of session runtime metadata.
#[verifier::ext_equal]
pub struct RuntimeV {
    pub session_id: Seq<char>,
    pub mode: SessionMode,
    pub backend_id: Seq<char>,
    pub connected_at_unix_ms: i64,
    pub subscribed_at_unix_ms: Option<i64>,
    pub closed_at_unix_ms: Option<i64>,
    pub shallow: Option<bool>,
    pub last_revision: Option<u64>,
}

impl View for SessionRuntime {
    type V = RuntimeV;

    open spec fn view(&self) -> RuntimeV {
        RuntimeV {
            session_id: self.session_id@,
            mode: self.mode,
            backend_id: self.backend_id@,
            connected_at_unix_ms: self.connected_at_unix_ms,
            subscribed_at_unix_ms: self.subscribed_at_unix_ms,
            closed_at_unix_ms: self.closed_at_unix_ms,
            shallow: self.shallow,
            last_revision: self.last_revision,
        }
    }
}

impl SessionRuntime {
    /// Metadata of a session connected at `connected_at_unix_ms`.
    pub fn new_at(session_id: SessionId, mode: SessionMode, backend_id: &str, connected_at_unix_ms: i64) -> (r: Self)
        ensures
            r@ == (RuntimeV {
                session_id: session_id@,
                mode,
                backend_id: backend_id@,
                connected_at_unix_ms,
                subscribed_at_unix_ms: None,
                closed_at_unix_ms: None,
                shallow: None,
                last_revision: None,
            }),
    {
        SessionRuntime {
            session_id,
            mode,
            backend_id: String::from_str(backend_id),
            connected_at_unix_ms,
            subscribed_at_unix_ms: None,
            closed_at_unix_ms: None,
            shallow: None,
            last_revision: None,
        }
    }

    /// Metadata of a session connected now.
    pub fn new(session_id: SessionId, mode: SessionMode, backend_id: &str) -> (r: Self)
        ensures
            r@.session_id == session_id@,
            r@.mode == mode,
            r@.backend_id == backend_id@,
            r@.subscribed_at_unix_ms is None,
            r@.closed_at_unix_ms is None,
            r@.shallow is None,
            r@.last_revision is None,
    {
        let now = now_unix_ms();
        Self::new_at(session_id, mode, backend_id, now)
    }
}

/// One session: metadata, state, and the last diffs applied (oldest first).
#[derive(Debug)]
pub struct SessionRecord {
    pub runtime: SessionRuntime,
    pub state: UiStateStore,
    recent_diffs: Vec<UiDiffBatch>,
}

/// View of a session record.
pub struct RecordV {
    pub runtime: RuntimeV,
    pub state: StoreV,
    pub recent: Seq<DiffV>,
}

impl View for SessionRecord {
    type V = RecordV;

    closed spec fn view(&self) -> RecordV {
        RecordV {
            runtime: self.runtime@,
            state: self.state@,
            recent: self.recent_diffs@.map_values(|d: UiDiffBatch| d@),
        }
    }
}

/// `recent` with `d` appended, the oldest dropped when it already holds the maximum.
pub open spec fn push_recent(recent: Seq<DiffV>, d: DiffV) -> Seq<DiffV> {
    if recent.len() >= MAX_RECENT_DIFFS {
        recent.drop_first().push(d)
    } else {
        recent.push(d)
    }
}

/// Why a registry operation failed.
#[derive(Debug)]
pub enum SessionError {
    NotFound(SessionId),
    State(StateError),
}

/// View of a registry error.
pub enum SessionErrorV {
    NotFound(Seq<char>),
    State(StateErrorV),
}

impl View for SessionError {
    type V = SessionErrorV;

    open spec fn view(&self) -> SessionErrorV {
        match self {
            SessionError::NotFound(s) => SessionErrorV::NotFound(s@),
            SessionError::State(e) => SessionErrorV::State(e@),
        }
    }
}

/// The error of a result, as a view.
pub open spec fn session_err_view(r: Result<(), SessionError>) -> Option<SessionErrorV> {
    match r {
        Ok(_) => None,
        Err(e) => Some(e@),
    }
}

/// The registry after applying `d` to session `id`, and the error, if any.
/// The session's state changes as `apply_diff_spec` says; on success its
/// last revision follows the state and the diff joins its recent diffs.
pub open spec fn registry_apply_diff(m: Map<Seq<char>, RecordV>, id: Seq<char>, d: DiffV) -> (Map<Seq<char>, RecordV>, Option<SessionErrorV>) {
    if !m.contains_key(id) {
        (m, Some(SessionErrorV::NotFound(id)))
    } else {
        let rec = m[id];
        let (st, e) = apply_diff_spec(rec.state, d);
        match e {
            Some(err) => (m.insert(id, RecordV { state: st, ..rec }), Some(SessionErrorV::State(err))),
            None => (
                m.insert(
                    id,
                    RecordV {
                        state: st,
                        runtime: RuntimeV { last_revision: Some(st.rev), ..rec.runtime },
                        recent: push_recent(rec.recent, d),
                    },
                ),
                None,
            ),
        }
    }
}

/// All sessions, by id.
#[derive(Debug)]
pub struct SessionRegistry {
    sessions: StrMap<SessionRecord>,
}

impl View for SessionRegistry {
    type V = Map<Seq<char>, RecordV>;

    closed spec fn view(&self) -> Map<Seq<char>, RecordV> {
        self.sessions@.map_values(|r: SessionRecord| r@)
    }
}

impl SessionRegistry {
    /// Entries sorted by id; no session keeps more than the maximum of recent diffs.
    pub closed spec fn wf(&self) -> bool {
        &&& self.sessions.wf()
        &&& forall|k: Seq<char>| #[trigger] self.sessions@.contains_key(k) ==> self.sessions@[k].recent_diffs@.len() <= MAX_RECENT_DIFFS
    }

    /// Session ids in ascending order.
    pub closed spec fn ids(&self) -> Seq<Seq<char>> {
        self.sessions.entries@.map_values(|e: (String, SessionRecord)| e.0@)
    }

    /// An empty registry.
    pub fn new() -> (r: Self)
        ensures
            r.wf(),
            r@ == Map::<Seq<char>, RecordV>::empty(),
    {
        let r = SessionRegistry { sessions: StrMap::new() };
        assert(r@ =~= Map::<Seq<char>, RecordV>::empty());
        r
    }

    /// Every recorded session keeps at most the maximum of recent diffs.
    pub proof fn lemma_recent_bounded(&self, id: Seq<char>)
        requires
            self.wf(),
            self@.contains_key(id),
        ensures
            self@[id].recent.len() <= MAX_RECENT_DIFFS,
    {
        assert(self.sessions@.contains_key(id));
    }

    /// The ids ascend strictly, and are exactly the sessions' keys.
    pub proof fn lemma_ids(&self)
        requires
            self.wf(),
        ensures
            forall|i: int, j: int| 0 <= i < j < self.ids().len() ==> seq_less(#[trigger] self.ids()[i], #[trigger] self.ids()[j]),
            forall|k: Seq<char>| #[trigger] self@.contains_key(k) <==> self.ids().contains(k),
            self.ids().no_duplicates(),
            self.ids().len() == self@.dom().len(),
    {
        let e = self.sessions.entries@;
        let ids = self.ids();
        assert forall|k: Seq<char>| #[trigger] self@.contains_key(k) <==> ids.contains(k) by {
            if self@.contains_key(k) {
                let i = crate::strmap::key_index(e, k);
                assert(ids[i] == k);
            }
            if ids.contains(k) {
                let i = choose|i: int| 0 <= i < ids.len() && ids[i] == k;
                assert(e[i].0@ == k);
                assert(crate::strmap::has_key(e, k));
            }
        }
        assert forall|i: int, j: int| 0 <= i < j < ids.len() implies ids[i] != ids[j] by {
            assert(seq_less(e[i].0@, e[j].0@));
            crate::text::lemma_seq_less_irreflexive(e[i].0@);
        }
        assert(ids.to_set() =~= self@.dom());
        ids.unique_seq_to_set();
    }
}

impl SessionRegistry {
    /// The view after replacing one session's record.
    proof fn lemma_put(&self, old_map: Map<Seq<char>, SessionRecord>, k: Seq<char>, rec: SessionRecord)
        requires
            self.sessions@ == old_map.remove(k).insert(k, rec),
        ensures
            self@ == old_map.map_values(|r: SessionRecord| r@).insert(k, rec@),
    {
        assert(self@ =~= old_map.map_values(|r: SessionRecord| r@).insert(k, rec@));
    }

    /// Registers a session with an empty state, replacing one with the same id.
    pub fn open_session(&mut self, runtime: SessionRuntime)
        requires
            old(self).wf(),
        ensures
            final(self).wf(),
            final(self)@ == old(self)@.insert(
                runtime.session_id@,
                RecordV { runtime: runtime@, state: StoreV { snapshot: None, rev: 0, resync: None }, recent: Seq::empty() },
            ),
    {
        let key = runtime.session_id.0.clone();
        let rec = SessionRecord { runtime, state: UiStateStore::default(), recent_diffs: Vec::new() };
        self.sessions.insert(key, rec);
        proof {
            assert(rec@.recent =~= Seq::<DiffV>::empty());
            assert(self@ =~= old(self)@.insert(runtime.session_id@, rec@));
        }
    }

    /// Records that the session subscribed at `now_unix_ms`, and how deeply.
    pub fn mark_subscribed_at(&mut self, session_id: &SessionId, shallow: bool, now_unix_ms: i64) -> (r: Result<(), SessionError>)
        requires
            old(self).wf(),
        ensures
            final(self).wf(),
            old(self)@.contains_key(session_id@) ==> r is Ok && final(self)@ == old(self)@.insert(
                session_id@,
                RecordV {
                    runtime: RuntimeV {
                        subscribed_at_unix_ms: Some(now_unix_ms),
                        shallow: Some(shallow),
                        ..old(self)@[session_id@].runtime
                    },
                    ..old(self)@[session_id@]
                },
            ),
            !old(self)@.contains_key(session_id@) ==> final(self)@ == old(self)@
                && session_err_view(r) == Some(SessionErrorV::NotFound(session_id@)),
    {
        match self.sessions.find(session_id.0.as_str()) {
            None => Err(SessionError::NotFound(SessionId(session_id.0.clone()))),
            Some(i) => {
                let ghost m0 = self.sessions@;
                let (k, mut rec) = self.sessions.remove_at(i);
                rec.runtime.subscribed_at_unix_ms = Some(now_unix_ms);
                rec.runtime.shallow = Some(shallow);
                self.sessions.insert(k, rec);
                proof {
                    self.lemma_put(m0, session_id@, rec);
                    assert(rec@.recent == m0[session_id@]@.recent);
                }
                Ok(())
            },
        }
    }

    /// Records that the session subscribed now.
    pub fn mark_subscribed(&mut self, session_id: &SessionId, shallow: bool) -> (r: Result<(), SessionError>)
        requires
            old(self).wf(),
        ensures
            final(self).wf(),
            old(self)@.contains_key(session_id@) <==> r is Ok,
            !old(self)@.contains_key(session_id@) ==> final(self)@ == old(self)@,
            old(self)@.contains_key(session_id@) ==> final(self)@.contains_key(session_id@)
                && final(self)@[session_id@].runtime.subscribed_at_unix_ms is Some
                && final(self)@ == old(self)@.insert(
                    session_id@,
                    RecordV {
                        runtime: RuntimeV {
                            shallow: Some(shallow),
                            subscribed_at_unix_ms: final(self)@[session_id@].runtime.subscribed_at_unix_ms,
                            ..old(self)@[session_id@].runtime
                        },
                        ..old(self)@[session_id@]
                    },
                ),
    {
        let now = now_unix_ms();
        self.mark_subscribed_at(session_id, shallow, now)
    }

    /// Installs a full snapshot: the revision follows it and recent diffs are dropped.
    pub fn apply_snapshot(&mut self, session_id: &SessionId, snapshot: UiSnapshot) -> (r: Result<(), SessionError>)
        requires
            old(self).wf(),
        ensures
            final(self).wf(),
            old(self)@.contains_key(session_id@) ==> r is Ok && final(self)@ == old(self)@.insert(
                session_id@,
                RecordV {
                    runtime: RuntimeV { last_revision: Some(snapshot.rev), ..old(self)@[session_id@].runtime },
                    state: StoreV { snapshot: Some(snapshot@), rev: snapshot.rev, resync: None },
                    recent: Seq::empty(),
                },
            ),
            !old(self)@.contains_key(session_id@) ==> final(self)@ == old(self)@
                && session_err_view(r) == Some(SessionErrorV::NotFound(session_id@)),
    {
        match self.sessions.find(session_id.0.as_str()) {
            None => Err(SessionError::NotFound(SessionId(session_id.0.clone()))),
            Some(i) => {
                let ghost m0 = self.sessions@;
                let ghost snap_view = snapshot@;
                let (k, mut rec) = self.sessions.remove_at(i);
                rec.runtime.last_revision = Some(snapshot.rev);
                rec.state.replace_snapshot(snapshot);
                rec.recent_diffs = Vec::new();
                self.sessions.insert(k, rec);
                proof {
                    self.lemma_put(m0, session_id@, rec);
                    assert(rec@.recent =~= Seq::<DiffV>::empty());
                }
                Ok(())
            },
        }
    }

    /// Applies a diff to a session (see `registry_apply_diff`).
    pub fn apply_diff(&mut self, session_id: &SessionId, diff: &UiDiffBatch) -> (r: Result<(), SessionError>)
        requires
            old(self).wf(),
        ensures
            final(self).wf(),
            (final(self)@, session_err_view(r)) == registry_apply_diff(old(self)@, session_id@, diff@),
    {
        match self.sessions.find(session_id.0.as_str()) {
            None => Err(SessionError::NotFound(SessionId(session_id.0.clone()))),
            Some(i) => {
                let ghost m0 = self.sessions@;
                let (k, mut rec) = self.sessions.remove_at(i);
                let ghost rec0 = rec@;
                let res = rec.state.apply_diff(diff);
                match res {
                    Err(e) => {
                        self.sessions.insert(k, rec);
                        proof {
                            self.lemma_put(m0, session_id@, rec);
                            assert(rec@ == (RecordV { state: rec.state@, ..rec0 }));
                        }
                        Err(SessionError::State(e))
                    },
                    Ok(()) => {
                        rec.runtime.last_revision = Some(rec.state.revision());
                        let ghost before = rec.recent_diffs@.map_values(|d: UiDiffBatch| d@);
                        if rec.recent_diffs.len() >= MAX_RECENT_DIFFS {
                            rec.recent_diffs.remove(0);
                            assert(rec.recent_diffs@.map_values(|d: UiDiffBatch| d@) =~= before.drop_first());
                        }
                        let ghost mid = rec.recent_diffs@.map_values(|d: UiDiffBatch| d@);
                        rec.recent_diffs.push(copy_diff(diff));
                        assert(rec.recent_diffs@.map_values(|d: UiDiffBatch| d@) =~= mid.push(diff@));
                        self.sessions.insert(k, rec);
                        proof {
                            self.lemma_put(m0, session_id@, rec);
                        }
                        Ok(())
                    },
                }
            },
        }
    }

    /// Records that the session closed at `now_unix_ms`.
    pub fn close_session_at(&mut self, session_id: &SessionId, now_unix_ms: i64) -> (r: Result<(), SessionError>)
        requires
            old(self).wf(),
        ensures
            final(self).wf(),
            old(self)@.contains_key(session_id@) ==> r is Ok && final(self)@ == old(self)@.insert(
                session_id@,
                RecordV {
                    runtime: RuntimeV { closed_at_unix_ms: Some(now_unix_ms), ..old(self)@[session_id@].runtime },
                    ..old(self)@[session_id@]
                },
            ),
            !old(self)@.contains_key(session_id@) ==> final(self)@ == old(self)@
                && session_err_view(r) == Some(SessionErrorV::NotFound(session_id@)),
    {
        match self.sessions.find(session_id.0.as_str()) {
            None => Err(SessionError::NotFound(SessionId(session_id.0.clone()))),
            Some(i) => {
                let ghost m0 = self.sessions@;
                let (k, mut rec) = self.sessions.remove_at(i);
                rec.runtime.closed_at_unix_ms = Some(now_unix_ms);
                self.sessions.insert(k, rec);
                proof {
                    self.lemma_put(m0, session_id@, rec);
                    assert(rec@.recent == m0[session_id@]@.recent);
                }
                Ok(())
            },
        }
    }

    /// Records that the session closed now.
    pub fn close_session(&mut self, session_id: &SessionId) -> (r: Result<(), SessionError>)
        requires
            old(self).wf(),
        ensures
            final(self).wf(),
            old(self)@.contains_key(session_id@) <==> r is Ok,
            !old(self)@.contains_key(session_id@) ==> final(self)@ == old(self)@,
            old(self)@.contains_key(session_id@) ==> final(self)@.contains_key(session_id@)
                && final(self)@[session_id@].runtime.closed_at_unix_ms is Some
                && final(self)@ == old(self)@.insert(
                    session_id@,
                    RecordV {
                        runtime: RuntimeV {
                            closed_at_unix_ms: final(self)@[session_id@].runtime.closed_at_unix_ms,
                            ..old(self)@[session_id@].runtime
                        },
                        ..old(self)@[session_id@]
                    },
                ),
    {
        let now = now_unix_ms();
        self.close_session_at(session_id, now)
    }

    /// The session's runtime metadata.
    pub fn runtime(&self, session_id: &SessionId) -> (r: Option<&SessionRuntime>)
        requires
            self.wf(),
        ensures
            r is Some <==> self@.contains_key(session_id@),
            r matches Some(rt) ==> rt@ == self@[session_id@].runtime,
    {
        match self.sessions.get(session_id.0.as_str()) {
            Some(rec) => Some(&rec.runtime),
            None => None,
        }
    }

    /// The session's state store.
    pub fn state(&self, session_id: &SessionId) -> (r: Option<&UiStateStore>)
        requires
            self.wf(),
        ensures
            r is Some <==> self@.contains_key(session_id@),
            r matches Some(st) ==> st@ == self@[session_id@].state,
    {
        match self.sessions.get(session_id.0.as_str()) {
            Some(rec) => Some(&rec.state),
            None => None,
        }
    }

    /// Copies of the session's recent diffs, oldest first.
    pub fn recent_diffs(&self, session_id: &SessionId) -> (r: Option<Vec<UiDiffBatch>>)
        requires
            self.wf(),
        ensures
            r is Some <==> self@.contains_key(session_id@),
            r matches Some(v) ==> v@.map_values(|d: UiDiffBatch| d@) == self@[session_id@].recent,
    {
        match self.sessions.get(session_id.0.as_str()) {
            Some(rec) => {
                let mut out: Vec<UiDiffBatch> = Vec::new();
                let mut i: usize = 0;
                while i < rec.recent_diffs.len()
                    invariant
                        i <= rec.recent_diffs@.len(),
                        out@.len() == i,
                        forall|j: int| 0 <= j < i ==> #[trigger] out@[j]@ == rec.recent_diffs@[j]@,
                    decreases rec.recent_diffs@.len() - i,
                {
                    out.push(copy_diff(&rec.recent_diffs[i]));
                    i = i + 1;
                }
                assert(out@.map_values(|d: UiDiffBatch| d@) =~= rec@.recent);
                Some(out)
            },
            None => None,
        }
    }

    /// Number of sessions.
    pub fn len(&self) -> (r: usize)
        requires
            self.wf(),
        ensures
            r == self@.dom().len(),
    {
        proof {
            self.lemma_ids();
        }
        self.sessions.len()
    }

    /// Whether there is no session.
    pub fn is_empty(&self) -> (r: bool)
        requires
            self.wf(),
        ensures
            r == (self@.dom().len() == 0),
    {
        self.len() == 0
    }

    /// Session ids in ascending order.
    pub fn session_ids(&self) -> (r: Vec<SessionId>)
        requires
            self.wf(),
        ensures
            r@.map_values(|s: SessionId| s@) == self.ids(),
    {
        let mut out: Vec<SessionId> = Vec::new();
        let mut i: usize = 0;
        while i < self.sessions.entries.len()
            invariant
                i <= self.sessions.entries@.len(),
                out@.len() == i,
                forall|j: int| 0 <= j < i ==> #[trigger] out@[j]@ == self.sessions.entries@[j].0@,
            decreases self.sessions.entries@.len() - i,
        {
            out.push(SessionId(self.sessions.entries[i].0.clone()));
            i = i + 1;
        }
        assert(out@.map_values(|s: SessionId| s@) =~= self.ids());
        out
    }

    /// Number of sessions not closed.
    pub fn active_len(&self) -> (r: usize)
        requires
            self.wf(),
        ensures
            r == count_open(self@, self.ids()),
    {
        let mut n: usize = 0;
        let mut i: usize = 0;
        proof {
            self.lemma_ids();
        }
        while i < self.sessions.entries.len()
            invariant
                self.wf(),
                i <= self.sessions.entries@.len(),
                n <= i,
                n == count_open(self@, self.ids().take(i as int)),
            decreases self.sessions.entries@.len() - i,
        {
            let ghost k = self.sessions.entries@[i as int].0@;
            proof {
                self.lemma_entry(i as int);
                assert(self.ids().take(i + 1).drop_last() =~= self.ids().take(i as int));
            }
            if self.sessions.entries[i].1.runtime.closed_at_unix_ms.is_none() {
                n = n + 1;
            }
            i = i + 1;
        }
        assert(self.ids().take(i as int) =~= self.ids());
        n
    }

    /// Number of sessions whose state asks for a resync.
    pub fn resync_required_count(&self) -> (r: usize)
        requires
            self.wf(),
        ensures
            r == count_resync(self@, self.ids()),
    {
        let mut n: usize = 0;
        let mut i: usize = 0;
        while i < self.sessions.entries.len()
            invariant
                self.wf(),
                i <= self.sessions.entries@.len(),
                n <= i,
                n == count_resync(self@, self.ids().take(i as int)),
            decreases self.sessions.entries@.len() - i,
        {
            proof {
                self.lemma_entry(i as int);
                assert(self.ids().take(i + 1).drop_last() =~= self.ids().take(i as int));
            }
            if self.sessions.entries[i].1.state.resync_reason().is_some() {
                n = n + 1;
            }
            i = i + 1;
        }
        assert(self.ids().take(i as int) =~= self.ids());
        n
    }

    /// Entry `i` is the record stored under its key.
    proof fn lemma_entry(&self, i: int)
        requires
            self.wf(),
            0 <= i < self.sessions.entries@.len(),
        ensures
            self@.contains_key(self.sessions.entries@[i].0@),
            self@[self.sessions.entries@[i].0@] == self.sessions.entries@[i].1@,
            self.ids()[i] == self.sessions.entries@[i].0@,
    {
        let e = self.sessions.entries@;
        let k = e[i].0@;
        assert(crate::strmap::has_key(e, k));
        let j = crate::strmap::key_index(e, k);
        crate::strmap::lemma_sorted_unique(e, i, j);
    }
}

/// How many of `ids` name a session that is not closed.
pub open spec fn count_open(m: Map<Seq<char>, RecordV>, ids: Seq<Seq<char>>) -> nat
    decreases ids.len(),
{
    if ids.len() == 0 {
        0
    } else {
        count_open(m, ids.drop_last()) + (if m[ids.last()].runtime.closed_at_unix_ms is None {
            1nat
        } else {
            0nat
        })
    }
}

/// How many of `ids` name a session whose state asks for a resync.
pub open spec fn count_resync(m: Map<Seq<char>, RecordV>, ids: Seq<Seq<char>>) -> nat
    decreases ids.len(),
{
    if ids.len() == 0 {
        0
    } else {
        count_resync(m, ids.drop_last()) + (if m[ids.last()].state.resync is Some {
            1nat
        } else {
            0nat
        })
    }
}

impl Default for SessionRegistry {
    fn default() -> (r: Self)
        ensures
            r.wf(),
            r@ == Map::<Seq<char>, RecordV>::empty(),
    {
        Self::new()
    }
}


/// The text of a registry error, as the daemon reports it.
pub open spec fn session_error_message(e: SessionErrorV) -> Seq<char> {
    match e {
        SessionErrorV::NotFound(s) => "unknown session `"@ + s + "`"@,
        SessionErrorV::State(x) => crate::state::state_error_message(x),
    }
}

impl SessionError {
    /// The error's text.
    pub fn message(&self) -> (r: String)
        ensures
            r@ == session_error_message(self@),
    {
        match self {
            SessionError::NotFound(s) => {
                let mut t = String::from_str("unknown session `");
                t.append(s.0.as_str());
                t.append("`");
                t
            },
            SessionError::State(e) => e.message(),
        }
    }
}

} // verus!
