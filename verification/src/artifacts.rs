//! The artifact index and its retention rules: which artifacts a cleanup
//! removes, and what the store reports about itself. Reading, writing and
//! deleting the files themselves is left to the caller.
use vstd::prelude::*;

use crate::model::DescriptorV;
use crate::protocol::{ArtifactDescriptor, ArtifactId, SessionId, SessionMode};
use crate::strmap::StrMap;

verus! {

/// How long and how many artifacts are kept.
#[derive(Clone, Copy, Debug, PartialEq, Eq, Structural)]
pub struct ArtifactRetentionPolicy {
    pub max_age_seconds: u64,
    pub max_bytes: u64,
    pub max_count: usize,
    pub cleanup_interval_seconds: u64,
}

impl Default for ArtifactRetentionPolicy {
    /// One day, 256 MiB, 512 artifacts, a cleanup every five minutes.
    fn default() -> (r: Self)
        ensures
            r == (ArtifactRetentionPolicy {
                max_age_seconds: 86_400,
                max_bytes: 268_435_456,
                max_count: 512,
                cleanup_interval_seconds: 300,
            }),
    {
        ArtifactRetentionPolicy {
            max_age_seconds: 24 * 60 * 60,
            max_bytes: 256 * 1024 * 1024,
            max_count: 512,
            cleanup_interval_seconds: 5 * 60,
        }
    }
}

/// Daemon configuration.
#[derive(Clone, Debug, PartialEq, Eq)]
pub struct AgentConfig {
    pub bind_addr: String,
    pub artifact_dir: String,
    pub default_mode: SessionMode,
    pub artifact_retention: ArtifactRetentionPolicy,
}

impl Default for AgentConfig {
    fn default() -> (r: Self)
        ensures
            r.bind_addr@ == "127.0.0.1:50051"@,
            r.artifact_dir@ == "var/artifacts"@,
            r.default_mode == SessionMode::EnterpriseUi,
            r.artifact_retention == (ArtifactRetentionPolicy {
                max_age_seconds: 86_400,
                max_bytes: 268_435_456,
                max_count: 512,
                cleanup_interval_seconds: 300,
            }),
    {
        AgentConfig {
            bind_addr: String::from_str("127.0.0.1:50051"),
            artifact_dir: String::from_str("var/artifacts"),
            default_mode: SessionMode::EnterpriseUi,
            artifact_retention: ArtifactRetentionPolicy::default(),
        }
    }
}

/// One stored artifact.
#[derive(Clone, Debug, PartialEq, Eq)]
pub struct ArtifactRecord {
    pub descriptor: ArtifactDescriptor,
    pub session_id: Option<SessionId>,
    pub path: String,
    pub created_at_unix_ms: i64,
    /// Its place among the store's writes: a later write has a larger one,
    /// which orders artifacts written in the same millisecond.
    pub write_seq: u64,
}

/// What a cleanup did.
#[derive(Clone, Debug, PartialEq, Eq)]
pub struct ArtifactCleanupOutcome {
    pub removed_count: usize,
    pub removed_bytes: u64,
    pub remaining_count: usize,
    pub remaining_bytes: u64,
    pub ran_at_unix_ms: i64,
    pub reason: String,
}

/// Whether the store is within its limits.
#[derive(Clone, Copy, Debug, PartialEq, Eq, Structural)]
pub enum ArtifactStorePressureState {
    Healthy,
    MaxCountExceeded,
    MaxBytesExceeded,
}

/// What the store reports about itself.
#[derive(Clone, Debug, PartialEq, Eq)]
pub struct ArtifactStoreStatus {
    pub artifact_count: usize,
    pub total_bytes: u64,
    pub max_count: usize,
    pub max_bytes: u64,
    pub max_age_seconds: u64,
    pub cleanup_interval_seconds: u64,
    pub cleanup_runs: u64,
    pub deleted_artifact_count: u64,
    pub deleted_bytes: u64,
    pub last_cleanup_at_unix_ms: Option<i64>,
    pub last_cleanup_reason: Option<String>,
    pub pressure_state: ArtifactStorePressureState,
}

/// Why an artifact operation failed; file errors carry the path and the
/// system's message.
#[derive(Clone, Debug, PartialEq, Eq)]
pub enum ArtifactError {
    CreateDir { path: String, message: String },
    NotFound(ArtifactId),
    WriteFile { path: String, message: String },
    ReadDir { path: String, message: String },
    ReadDirEntry { path: String, message: String },
    ReadFile { path: String, message: String },
    Metadata { path: String, message: String },
    DeleteFile { path: String, message: String },
}

/// The pressure state for a count and a byte total under a policy.
pub open spec fn pressure(count: int, bytes: int, p: ArtifactRetentionPolicy) -> ArtifactStorePressureState {
    if count > p.max_count {
        ArtifactStorePressureState::MaxCountExceeded
    } else if bytes > p.max_bytes {
        ArtifactStorePressureState::MaxBytesExceeded
    } else {
        ArtifactStorePressureState::Healthy
    }
}

/// Count first, then bytes, against the policy's limits.
pub fn artifact_pressure_state(artifact_count: usize, total_bytes: u64, retention: &ArtifactRetentionPolicy) -> (r: ArtifactStorePressureState)
    ensures
        r == pressure(artifact_count as int, total_bytes as int, *retention),
{
    if artifact_count > retention.max_count {
        ArtifactStorePressureState::MaxCountExceeded
    } else if total_bytes > retention.max_bytes {
        ArtifactStorePressureState::MaxBytesExceeded
    } else {
        ArtifactStorePressureState::Healthy
    }
}

/// A file extension for a MIME type.
pub open spec fn mime_extension(mime: Seq<char>) -> Seq<char> {
    if mime == "application/json"@ {
        "json"@
    } else if mime == "image/jpeg"@ {
        "jpg"@
    } else if mime == "image/png"@ {
        "png"@
    } else if mime == "text/plain"@ {
        "txt"@
    } else {
        "bin"@
    }
}

/// The file extension an artifact of this MIME type is stored with.
pub fn extension_for_mime(mime_type: &str) -> (r: &'static str)
    ensures
        r@ == mime_extension(mime_type@),
{
    if crate::text::str_equal(mime_type, "application/json") {
        "json"
    } else if crate::text::str_equal(mime_type, "image/jpeg") {
        "jpg"
    } else if crate::text::str_equal(mime_type, "image/png") {
        "png"
    } else if crate::text::str_equal(mime_type, "text/plain") {
        "txt"
    } else {
        "bin"
    }
}

/// The file name of an artifact: its id, a dot, the extension of its type.
pub fn artifact_file_name(artifact_id: &ArtifactId, mime_type: &str) -> (r: String)
    ensures
        r@ == artifact_id@ + "."@ + mime_extension(mime_type@),
{
    let mut name = artifact_id.0.clone();
    name.append(".");
    name.append(extension_for_mime(mime_type));
    name
}

/// An artifact as the retention rules see it.
pub struct EntryV {
    pub id: Seq<char>,
    pub created: i64,
    pub seq: u64,
    pub size: u64,
}

/// `e` comes after creation time `c` and write number `q`.
pub open spec fn later(e: EntryV, c: i64, q: u64) -> bool {
    e.created > c || (e.created == c && e.seq > q)
}

/// First position at or after `i` that comes after creation time `c` and
/// write number `q` (or the end).
pub open spec fn created_slot(s: Seq<EntryV>, c: i64, q: u64, i: int) -> int
    decreases s.len() - i,
{
    if i < 0 || i >= s.len() {
        s.len() as int
    } else if later(s[i], c, q) {
        i
    } else {
        created_slot(s, c, q, i + 1)
    }
}

/// Entries ordered by creation time, then by write number.
pub open spec fn sort_by_created(s: Seq<EntryV>) -> Seq<EntryV>
    decreases s.len(),
{
    if s.len() == 0 {
        s
    } else {
        let t = sort_by_created(s.drop_last());
        t.insert(created_slot(t, s.last().created, s.last().seq, 0), s.last())
    }
}

/// Entries created before `cut`, in order.
pub open spec fn expired(s: Seq<EntryV>, cut: int) -> Seq<EntryV>
    decreases s.len(),
{
    if s.len() == 0 {
        s
    } else if s.last().created < cut {
        expired(s.drop_last(), cut).push(s.last())
    } else {
        expired(s.drop_last(), cut)
    }
}

/// Total size of the entries.
pub open spec fn sum_sizes(s: Seq<EntryV>) -> nat
    decreases s.len(),
{
    if s.len() == 0 {
        0
    } else {
        sum_sizes(s.drop_last()) + s.last().size as nat
    }
}

/// `a - b`, or zero when `b` is larger.
pub open spec fn sat_sub(a: int, b: int) -> int {
    if a > b {
        a - b
    } else {
        0
    }
}

/// Going through `s` oldest first with `count` artifacts and `bytes` bytes
/// left, skipping expired ones, removes each artifact met while over a
/// limit. Gives the removed entries and the count and bytes left.
pub open spec fn trim(s: Seq<EntryV>, cut: int, count: int, bytes: int, max_count: int, max_bytes: int) -> (Seq<EntryV>, int, int)
    decreases s.len(),
{
    if s.len() == 0 {
        (s, count, bytes)
    } else if s[0].created < cut {
        trim(s.drop_first(), cut, count, bytes, max_count, max_bytes)
    } else if count > max_count || bytes > max_bytes {
        let (r, c, b) = trim(
            s.drop_first(),
            cut,
            sat_sub(count, 1),
            sat_sub(bytes, s[0].size as int),
            max_count,
            max_bytes,
        );
        (seq![s[0]] + r, c, b)
    } else {
        trim(s.drop_first(), cut, count, bytes, max_count, max_bytes)
    }
}

/// The cutoff time: `max_age_seconds` before `now`, in milliseconds.
pub open spec fn cutoff(now: i64, max_age_seconds: u64) -> int {
    now - max_age_seconds * 1000
}

/// The artifacts a cleanup removes, in removal order: first every expired
/// one (oldest first), then, oldest first, each one met while the rest are
/// still over the count or byte limit.
pub open spec fn cleanup_plan(entries: Seq<EntryV>, total_bytes: u64, now: i64, p: ArtifactRetentionPolicy) -> Seq<EntryV> {
    let s = sort_by_created(entries);
    let cut = cutoff(now, p.max_age_seconds);
    let ex = expired(s, cut);
    ex + trim(
        s,
        cut,
        s.len() - ex.len(),
        sat_sub(total_bytes as int, sum_sizes(ex) as int),
        p.max_count as int,
        p.max_bytes as int,
    ).0
}

/// An artifact's id, creation time and size.
pub struct EntryRow {
    pub id: String,
    pub created: i64,
    pub seq: u64,
    pub size: u64,
}

impl View for EntryRow {
    type V = EntryV;

    open spec fn view(&self) -> EntryV {
        EntryV { id: self.id@, created: self.created, seq: self.seq, size: self.size }
    }
}

/// The rows' views.
pub open spec fn rows_view(v: Seq<EntryRow>) -> Seq<EntryV> {
    v.map_values(|r: EntryRow| r@)
}

/// First position before `end` that comes after time `c` and write `q`.
fn created_slot_exec(v: &Vec<EntryRow>, end: usize, c: i64, q: u64) -> (r: usize)
    requires
        end <= v@.len(),
    ensures
        r as int == created_slot(rows_view(v@).take(end as int), c, q, 0),
        r <= end,
{
    let ghost s = rows_view(v@).take(end as int);
    let mut j: usize = 0;
    while j < end && !(v[j].created > c || (v[j].created == c && v[j].seq > q))
        invariant
            j <= end <= v@.len(),
            s == rows_view(v@).take(end as int),
            created_slot(s, c, q, 0) == created_slot(s, c, q, j as int),
        decreases end - j,
    {
        j = j + 1;
    }
    j
}

/// Orders rows by creation time, equal times keeping their order.
fn sort_rows_by_created(v: &mut Vec<EntryRow>)
    ensures
        rows_view(final(v)@) == sort_by_created(rows_view(old(v)@)),
{
    let ghost orig = rows_view(v@);
    let mut i: usize = 0;
    assert(orig.take(0) =~= Seq::<EntryV>::empty());
    while i < v.len()
        invariant
            i <= v@.len() == orig.len(),
            rows_view(v@).take(i as int) == sort_by_created(orig.take(i as int)),
            rows_view(v@).skip(i as int) == orig.skip(i as int),
        decreases v@.len() - i,
    {
        let ghost before = rows_view(v@);
        let ghost sorted = before.take(i as int);
        assert(before[i as int] == orig[i as int]) by {
            assert(before.skip(i as int)[0] == orig.skip(i as int)[0]);
        }
        let row = v.remove(i);
        let ghost mid = rows_view(v@);
        assert(mid =~= before.remove(i as int));
        assert(mid.take(i as int) =~= sorted);
        let pos = created_slot_exec(v, i, row.created, row.seq);
        v.insert(pos, row);
        assert(rows_view(v@) =~= mid.insert(pos as int, row@));
        proof {
            let t = orig.take(i + 1);
            assert(t.drop_last() =~= orig.take(i as int));
            assert(t.last() == row@);
            let after = rows_view(v@);
            assert forall|j: int| 0 <= j < i + 1 implies #[trigger] after.take(i + 1)[j] == mid.take(i as int).insert(pos as int, row@)[j] by {
                if j > pos {
                    assert(after[j] == mid[j - 1]);
                }
            }
            assert(after.take(i + 1) =~= mid.take(i as int).insert(pos as int, row@));
            assert forall|j: int| 0 <= j < after.len() - (i + 1) implies #[trigger] after.skip(i + 1)[j] == orig.skip(i + 1)[j] by {
                assert(after[i + 1 + j] == mid[i + j]);
                assert(mid[i + j] == before[i + 1 + j]);
                assert(before.skip(i as int)[1 + j] == orig.skip(i as int)[1 + j]);
            }
            assert(after.skip(i + 1) =~= orig.skip(i + 1));
        }
        i = i + 1;
    }
    assert(rows_view(v@).take(v@.len() as int) =~= rows_view(v@));
    assert(orig.take(orig.len() as int) =~= orig);
}

/// `expired` and `sum_sizes` grow one entry at a time.
proof fn lemma_expired_step(s: Seq<EntryV>, i: int, cut: int)
    requires
        0 <= i < s.len(),
    ensures
        expired(s.take(i + 1), cut) == (if s[i].created < cut {
            expired(s.take(i), cut).push(s[i])
        } else {
            expired(s.take(i), cut)
        }),
{
    assert(s.take(i + 1).drop_last() =~= s.take(i));
}

/// The ids of the artifacts a cleanup at `now` removes (see `cleanup_plan`).
pub fn plan_cleanup(rows: Vec<EntryRow>, total_bytes: u64, now: i64, p: &ArtifactRetentionPolicy) -> (r: Vec<String>)
    ensures
        r@.map_values(|x: String| x@) == cleanup_plan(rows_view(rows@), total_bytes, now, *p).map_values(|e: EntryV| e.id),
{
    let ghost entries = rows_view(rows@);
    let mut v = rows;
    sort_rows_by_created(&mut v);
    let ghost s = rows_view(v@);
    let cut: i128 = now as i128 - (p.max_age_seconds as i128) * 1000;
    let ghost cuti = cutoff(now, p.max_age_seconds);
    assert(cut == cuti);
    // expired entries, with the count and bytes left
    let mut out: Vec<String> = Vec::new();
    let ghost mut ex: Seq<EntryV> = Seq::empty();
    let mut count: usize = v.len();
    let mut bytes: u64 = total_bytes;
    let mut i: usize = 0;
    assert(s.take(0) =~= Seq::<EntryV>::empty());
    while i < v.len()
        invariant
            i <= v@.len(),
            s == rows_view(v@),
            cut == cuti,
            ex == expired(s.take(i as int), cuti),
            out@.map_values(|x: String| x@) == ex.map_values(|e: EntryV| e.id),
            count as int == v@.len() - ex.len(),
            bytes as int == sat_sub(total_bytes as int, sum_sizes(ex) as int),
            ex.len() <= i,
        decreases v@.len() - i,
    {
        proof {
            lemma_expired_step(s, i as int, cuti);
        }
        if (v[i].created as i128) < cut {
            let idc = v[i].id.clone();
            assert(idc@ == s[i as int].id);
            let ghost old_out = out@;
            out.push(idc);
            proof {
                assert(out@.map_values(|x: String| x@) =~= old_out.map_values(|x: String| x@).push(idc@));
                let old_ex = ex;
                ex = ex.push(s[i as int]);
                assert(ex.drop_last() =~= old_ex);
                assert(out@.map_values(|x: String| x@) =~= ex.map_values(|e: EntryV| e.id));
            }
            count = count - 1;
            bytes = if bytes > v[i].size {
                bytes - v[i].size
            } else {
                0
            };
        }
        i = i + 1;
    }
    assert(s.take(v@.len() as int) =~= s);
    // over-limit entries, oldest first
    let ghost acc0 = out@.map_values(|x: String| x@);
    let ghost want = trim(s, cuti, count as int, bytes as int, p.max_count as int, p.max_bytes as int);
    let mut j: usize = 0;
    assert(s.skip(0) =~= s);
    let ghost mut taken: Seq<EntryV> = Seq::empty();
    while j < v.len()
        invariant
            j <= v@.len(),
            s == rows_view(v@),
            cut == cuti,
            want.0 == taken + trim(s.skip(j as int), cuti, count as int, bytes as int, p.max_count as int, p.max_bytes as int).0,
            out@.map_values(|x: String| x@) == acc0 + taken.map_values(|e: EntryV| e.id),
        decreases v@.len() - j,
    {
        let ghost rest = s.skip(j as int);
        assert(rest[0] == s[j as int]);
        assert(rest.drop_first() =~= s.skip(j + 1));
        if (v[j].created as i128) < cut {
        } else if count > p.max_count || bytes > p.max_bytes {
            let idc = v[j].id.clone();
            assert(idc@ == s[j as int].id);
            let ghost old_out = out@;
            out.push(idc);
            proof {
                assert(out@.map_values(|x: String| x@) =~= old_out.map_values(|x: String| x@).push(idc@));
                let old_taken = taken;
                taken = taken.push(s[j as int]);
                assert(taken =~= old_taken + seq![s[j as int]]);
                assert(out@.map_values(|x: String| x@) =~= acc0 + taken.map_values(|e: EntryV| e.id));
            }
            count = if count > 0 {
                count - 1
            } else {
                0
            };
            bytes = if bytes > v[j].size {
                bytes - v[j].size
            } else {
                0
            };
        }
        j = j + 1;
    }
    assert(s.skip(v@.len() as int) =~= Seq::<EntryV>::empty());
    proof {
        let plan = cleanup_plan(entries, total_bytes, now, *p);
        assert(plan == ex + want.0);
        assert(plan.map_values(|e: EntryV| e.id) =~= ex.map_values(|e: EntryV| e.id) + taken.map_values(|e: EntryV| e.id));
    }
    out
}

/// Counters the store keeps about its own activity.
#[derive(Clone, Debug, Default, PartialEq, Eq)]
pub struct ArtifactStoreMetrics {
    pub total_written_bytes: u64,
    pub deleted_artifact_count: u64,
    pub deleted_bytes: u64,
    pub cleanup_runs: u64,
    pub last_cleanup_at_unix_ms: Option<i64>,
    pub last_cleanup_reason: Option<String>,
}

/// The index of stored artifacts, by id, with the retention policy.
#[derive(Debug)]
pub struct ArtifactStore {
    root: String,
    artifacts: StrMap<ArtifactRecord>,
    retention: ArtifactRetentionPolicy,
    metrics: ArtifactStoreMetrics,
    total_bytes: u64,
    writes: u64,
}

/// An index entry as the retention rules see it.
pub open spec fn record_entry(e: (String, ArtifactRecord)) -> EntryV {
    EntryV { id: e.0@, created: e.1.created_at_unix_ms, seq: e.1.write_seq, size: e.1.descriptor.size_bytes }
}

impl ArtifactStore {
    /// The index entries, by ascending id.
    pub closed spec fn entries(&self) -> Seq<EntryV> {
        self.artifacts.entries@.map_values(|e: (String, ArtifactRecord)| record_entry(e))
    }

    /// The records by id.
    pub closed spec fn records(&self) -> Map<Seq<char>, ArtifactRecord> {
        self.artifacts@
    }

    /// The byte total the store reports.
    pub closed spec fn total(&self) -> u64 {
        self.total_bytes
    }

    /// The store's counters.
    pub closed spec fn metrics_view(&self) -> ArtifactStoreMetrics {
        self.metrics
    }

    /// How many artifacts the store has indexed (saturating).
    pub closed spec fn write_count(&self) -> u64 {
        self.writes
    }

    /// The retention policy.
    pub closed spec fn policy(&self) -> ArtifactRetentionPolicy {
        self.retention
    }

    /// The directory the files live in.
    pub closed spec fn root_view(&self) -> Seq<char> {
        self.root@
    }

    /// Entries sorted by id.
    pub closed spec fn wf(&self) -> bool {
        self.artifacts.wf()
    }

    /// An empty index for files under `root`.
    pub fn new(root: &str, retention: ArtifactRetentionPolicy) -> (r: Self)
        ensures
            r.wf(),
            r.records() == Map::<Seq<char>, ArtifactRecord>::empty(),
            r.entries().len() == 0,
            r.total() == 0,
            r.metrics_view() == (ArtifactStoreMetrics {
                total_written_bytes: 0,
                deleted_artifact_count: 0,
                deleted_bytes: 0,
                cleanup_runs: 0,
                last_cleanup_at_unix_ms: None,
                last_cleanup_reason: None,
            }),
            r.policy() == retention,
            r.root_view() == root@,
    {
        ArtifactStore {
            root: String::from_str(root),
            artifacts: StrMap::new(),
            retention,
            metrics: ArtifactStoreMetrics {
                total_written_bytes: 0,
                deleted_artifact_count: 0,
                deleted_bytes: 0,
                cleanup_runs: 0,
                last_cleanup_at_unix_ms: None,
                last_cleanup_reason: None,
            },
            total_bytes: 0,
            writes: 0,
        }
    }

    /// The directory the files live in.
    pub fn root(&self) -> (r: &str)
        ensures
            r@ == self.root_view(),
    {
        self.root.as_str()
    }

    /// The retention policy.
    pub fn retention(&self) -> (r: &ArtifactRetentionPolicy)
        ensures
            *r == self.policy(),
    {
        &self.retention
    }

    /// Counts the files a startup sweep deleted, when it deleted any.
    pub fn record_startup_sweep(&mut self, removed_count: u64, removed_bytes: u64, now_unix_ms: i64)
        requires
            old(self).metrics_view().cleanup_runs < u64::MAX,
            old(self).metrics_view().deleted_artifact_count + removed_count <= u64::MAX,
            old(self).metrics_view().deleted_bytes + removed_bytes <= u64::MAX,
        ensures
            final(self).wf() == old(self).wf(),
            final(self).records() == old(self).records(),
            final(self).entries() == old(self).entries(),
            final(self).total() == old(self).total(),
            final(self).policy() == old(self).policy(),
            final(self).root_view() == old(self).root_view(),
            removed_count == 0 ==> final(self).metrics_view() == old(self).metrics_view(),
            removed_count > 0 ==> {
                let m0 = old(self).metrics_view();
                let m1 = final(self).metrics_view();
                &&& m1.cleanup_runs == m0.cleanup_runs + 1
                &&& m1.deleted_artifact_count == m0.deleted_artifact_count + removed_count
                &&& m1.deleted_bytes == m0.deleted_bytes + removed_bytes
                &&& m1.total_written_bytes == m0.total_written_bytes
                &&& m1.last_cleanup_at_unix_ms == Some(now_unix_ms)
                &&& m1.last_cleanup_reason matches Some(t) && t@ == "startup_orphan_sweep"@
            },
    {
        if removed_count > 0 {
            self.metrics.cleanup_runs = self.metrics.cleanup_runs + 1;
            self.metrics.deleted_artifact_count = self.metrics.deleted_artifact_count + removed_count;
            self.metrics.deleted_bytes = self.metrics.deleted_bytes + removed_bytes;
            self.metrics.last_cleanup_at_unix_ms = Some(now_unix_ms);
            self.metrics.last_cleanup_reason = Some(String::from_str("startup_orphan_sweep"));
        }
    }
}

/// A copy of a descriptor.
pub fn copy_descriptor(d: &ArtifactDescriptor) -> (r: ArtifactDescriptor)
    ensures
        r@ == d@,
{
    ArtifactDescriptor {
        artifact_id: ArtifactId(d.artifact_id.0.clone()),
        kind: d.kind.clone(),
        mime_type: d.mime_type.clone(),
        size_bytes: d.size_bytes,
    }
}

impl ArtifactStore {
    /// Indexes an artifact whose file was written: its descriptor, owner,
    /// path and creation time. Returns the descriptor.
    pub fn register_written(
        &mut self,
        artifact_id: ArtifactId,
        session_id: Option<SessionId>,
        kind: &str,
        mime_type: &str,
        size_bytes: u64,
        path: &str,
        now_unix_ms: i64,
    ) -> (r: ArtifactDescriptor)
        requires
            old(self).wf(),
            old(self).total() + size_bytes <= u64::MAX,
            old(self).metrics_view().total_written_bytes + size_bytes <= u64::MAX,
        ensures
            final(self).wf(),
            r@ == (DescriptorV { artifact_id: artifact_id@, kind: kind@, mime_type: mime_type@, size_bytes }),
            final(self).records().contains_key(artifact_id@),
            final(self).records() == old(self).records().insert(artifact_id@, final(self).records()[artifact_id@]),
            final(self).records()[artifact_id@].descriptor@ == r@,
            final(self).records()[artifact_id@].path@ == path@,
            final(self).records()[artifact_id@].created_at_unix_ms == now_unix_ms,
            final(self).records()[artifact_id@].session_id == session_id,
            final(self).records()[artifact_id@].write_seq == old(self).write_count(),
            final(self).write_count() == (if old(self).write_count() < u64::MAX { old(self).write_count() + 1 } else { u64::MAX as int }),
            final(self).total() == old(self).total() + size_bytes,
            final(self).metrics_view() == (ArtifactStoreMetrics {
                total_written_bytes: (old(self).metrics_view().total_written_bytes + size_bytes) as u64,
                ..old(self).metrics_view()
            }),
            final(self).policy() == old(self).policy(),
            final(self).root_view() == old(self).root_view(),
    {
        let descriptor = ArtifactDescriptor {
            artifact_id: ArtifactId(artifact_id.0.clone()),
            kind: String::from_str(kind),
            mime_type: String::from_str(mime_type),
            size_bytes,
        };
        let record = ArtifactRecord {
            descriptor: copy_descriptor(&descriptor),
            session_id,
            path: String::from_str(path),
            created_at_unix_ms: now_unix_ms,
            write_seq: self.writes,
        };
        let ghost rec = record;
        if self.writes < u64::MAX {
            self.writes = self.writes + 1;
        }
        self.total_bytes = self.total_bytes + size_bytes;
        self.metrics.total_written_bytes = self.metrics.total_written_bytes + size_bytes;
        self.artifacts.insert(artifact_id.0, record);
        assert(self.artifacts@ == old(self).artifacts@.insert(artifact_id@, rec));
        descriptor
    }
}

impl ArtifactStore {
    /// The descriptor of an indexed artifact.
    pub fn descriptor(&self, artifact_id: &ArtifactId) -> (r: Option<&ArtifactDescriptor>)
        requires
            self.wf(),
        ensures
            r is Some <==> self.records().contains_key(artifact_id@),
            r matches Some(d) ==> *d == self.records()[artifact_id@].descriptor,
    {
        match self.artifacts.get(artifact_id.0.as_str()) {
            Some(rec) => Some(&rec.descriptor),
            None => None,
        }
    }

    /// The file path of an indexed artifact, or `NotFound`.
    pub fn path_of(&self, artifact_id: &ArtifactId) -> (r: Result<&str, ArtifactError>)
        requires
            self.wf(),
        ensures
            r is Ok <==> self.records().contains_key(artifact_id@),
            r matches Ok(p) ==> p@ == self.records()[artifact_id@].path@,
            r matches Err(e) ==> e matches ArtifactError::NotFound(id) && id@ == artifact_id@,
    {
        match self.artifacts.get(artifact_id.0.as_str()) {
            Some(rec) => Ok(rec.path.as_str()),
            None => Err(ArtifactError::NotFound(ArtifactId(artifact_id.0.clone()))),
        }
    }

    /// Ids of the artifacts a cleanup at `now_unix_ms` removes, in order
    /// (see `cleanup_plan`).
    pub fn cleanup_candidates(&self, now_unix_ms: i64) -> (r: Vec<ArtifactId>)
        requires
            self.wf(),
        ensures
            r@.map_values(|a: ArtifactId| a@) == cleanup_plan(self.entries(), self.total(), now_unix_ms, self.policy()).map_values(|e: EntryV| e.id),
    {
        let mut rows: Vec<EntryRow> = Vec::new();
        let mut i: usize = 0;
        while i < self.artifacts.entries.len()
            invariant
                i <= self.artifacts.entries@.len(),
                rows_view(rows@) == self.entries().take(i as int),
            decreases self.artifacts.entries@.len() - i,
        {
            let e = &self.artifacts.entries[i];
            let row = EntryRow { id: e.0.clone(), created: e.1.created_at_unix_ms, seq: e.1.write_seq, size: e.1.descriptor.size_bytes };
            let ghost old_rows = rows_view(rows@);
            rows.push(row);
            assert(rows_view(rows@) =~= old_rows.push(row@));
            assert(self.entries().take(i + 1) =~= self.entries().take(i as int).push(row@));
            i = i + 1;
        }
        assert(self.entries().take(i as int) =~= self.entries());
        let ids = plan_cleanup(rows, self.total_bytes, now_unix_ms, &self.retention);
        let mut out: Vec<ArtifactId> = Vec::new();
        let mut j: usize = 0;
        while j < ids.len()
            invariant
                j <= ids@.len(),
                out@.map_values(|a: ArtifactId| a@) == ids@.map_values(|x: String| x@).take(j as int),
            decreases ids@.len() - j,
        {
            let ghost o = out@.map_values(|a: ArtifactId| a@);
            out.push(ArtifactId(ids[j].clone()));
            assert(out@.map_values(|a: ArtifactId| a@) =~= o.push(ids@[j as int]@));
            assert(ids@.map_values(|x: String| x@).take(j + 1) =~= ids@.map_values(|x: String| x@).take(j as int).push(ids@[j as int]@));
            j = j + 1;
        }
        assert(ids@.map_values(|x: String| x@).take(j as int) =~= ids@.map_values(|x: String| x@));
        out
    }

    /// Drops an artifact from the index, returning its record.
    pub fn remove_record(&mut self, artifact_id: &ArtifactId) -> (r: Option<ArtifactRecord>)
        requires
            old(self).wf(),
        ensures
            final(self).wf(),
            r is Some <==> old(self).records().contains_key(artifact_id@),
            r matches Some(rec) ==> rec == old(self).records()[artifact_id@],
            final(self).records() == old(self).records().remove(artifact_id@),
            final(self).total() == old(self).total(),
            final(self).metrics_view() == old(self).metrics_view(),
            final(self).policy() == old(self).policy(),
            final(self).root_view() == old(self).root_view(),
    {
        match self.artifacts.find(artifact_id.0.as_str()) {
            Some(i) => {
                let (_, rec) = self.artifacts.remove_at(i);
                Some(rec)
            },
            None => {
                assert(old(self).records().remove(artifact_id@) =~= old(self).records());
                None
            },
        }
    }

    /// Closes a cleanup that removed `removed_count` artifacts of
    /// `removed_bytes` bytes: the byte total is recounted from the index, the
    /// counters advance, and the outcome is reported.
    pub fn finish_cleanup(&mut self, removed_count: usize, removed_bytes: u64, now_unix_ms: i64, reason: &str) -> (r: ArtifactCleanupOutcome)
        requires
            old(self).wf(),
            sum_sizes(old(self).entries()) <= u64::MAX,
            old(self).metrics_view().cleanup_runs < u64::MAX,
            old(self).metrics_view().deleted_artifact_count + removed_count <= u64::MAX,
            old(self).metrics_view().deleted_bytes + removed_bytes <= u64::MAX,
        ensures
            final(self).wf(),
            final(self).records() == old(self).records(),
            final(self).entries() == old(self).entries(),
            final(self).total() == sum_sizes(old(self).entries()),
            final(self).policy() == old(self).policy(),
            final(self).root_view() == old(self).root_view(),
            ({
                let m0 = old(self).metrics_view();
                let m1 = final(self).metrics_view();
                &&& m1.cleanup_runs == m0.cleanup_runs + 1
                &&& m1.deleted_artifact_count == m0.deleted_artifact_count + removed_count
                &&& m1.deleted_bytes == m0.deleted_bytes + removed_bytes
                &&& m1.total_written_bytes == m0.total_written_bytes
                &&& m1.last_cleanup_at_unix_ms == Some(now_unix_ms)
                &&& m1.last_cleanup_reason matches Some(t) && t@ == reason@
            }),
            r.removed_count == removed_count,
            r.removed_bytes == removed_bytes,
            r.remaining_count == old(self).entries().len(),
            r.remaining_bytes == sum_sizes(old(self).entries()),
            r.ran_at_unix_ms == now_unix_ms,
            r.reason@ == reason@,
    {
        let mut total: u64 = 0;
        let mut i: usize = 0;
        proof {
            lemma_sum_prefix_bounded(self.entries(), 0);
        }
        while i < self.artifacts.entries.len()
            invariant
                i <= self.artifacts.entries@.len(),
                self.entries().len() == self.artifacts.entries@.len(),
                total == sum_sizes(self.entries().take(i as int)),
                sum_sizes(self.entries()) <= u64::MAX,
            decreases self.artifacts.entries@.len() - i,
        {
            proof {
                assert(self.entries().take(i + 1).drop_last() =~= self.entries().take(i as int));
                lemma_sum_prefix_bounded(self.entries(), i + 1);
            }
            total = total + self.artifacts.entries[i].1.descriptor.size_bytes;
            i = i + 1;
        }
        assert(self.entries().take(i as int) =~= self.entries());
        self.total_bytes = total;
        self.metrics.cleanup_runs = self.metrics.cleanup_runs + 1;
        self.metrics.deleted_artifact_count = self.metrics.deleted_artifact_count + removed_count as u64;
        self.metrics.deleted_bytes = self.metrics.deleted_bytes + removed_bytes;
        self.metrics.last_cleanup_at_unix_ms = Some(now_unix_ms);
        self.metrics.last_cleanup_reason = Some(String::from_str(reason));
        ArtifactCleanupOutcome {
            removed_count,
            removed_bytes,
            remaining_count: self.artifacts.entries.len(),
            remaining_bytes: total,
            ran_at_unix_ms: now_unix_ms,
            reason: String::from_str(reason),
        }
    }

    /// The store's counters.
    pub fn metrics(&self) -> (r: &ArtifactStoreMetrics)
        ensures
            *r == self.metrics_view(),
    {
        &self.metrics
    }

    /// The total size of the indexed artifacts, when it fits in 64 bits.
    pub fn indexed_bytes(&self) -> (r: Option<u64>)
        requires
            self.wf(),
        ensures
            r == (if sum_sizes(self.entries()) <= u64::MAX {
                Some(sum_sizes(self.entries()) as u64)
            } else {
                None::<u64>
            }),
    {
        let mut total: u64 = 0;
        let mut i: usize = 0;
        while i < self.artifacts.entries.len()
            invariant
                i <= self.artifacts.entries@.len(),
                self.entries().len() == self.artifacts.entries@.len(),
                total == sum_sizes(self.entries().take(i as int)),
            decreases self.artifacts.entries@.len() - i,
        {
            proof {
                assert(self.entries().take(i + 1).drop_last() =~= self.entries().take(i as int));
                lemma_sum_prefix_bounded(self.entries(), i + 1);
            }
            let size = self.artifacts.entries[i].1.descriptor.size_bytes;
            if total > u64::MAX - size {
                proof {
                    lemma_sum_prefix_bounded(self.entries(), i + 1);
                }
                return None;
            }
            total = total + size;
            i = i + 1;
        }
        assert(self.entries().take(i as int) =~= self.entries());
        Some(total)
    }

    /// What the store reports about itself.
    pub fn status(&self) -> (r: ArtifactStoreStatus)
        ensures
            r.artifact_count == self.entries().len(),
            r.total_bytes == self.total(),
            r.max_count == self.policy().max_count,
            r.max_bytes == self.policy().max_bytes,
            r.max_age_seconds == self.policy().max_age_seconds,
            r.cleanup_interval_seconds == self.policy().cleanup_interval_seconds,
            r.cleanup_runs == self.metrics_view().cleanup_runs,
            r.deleted_artifact_count == self.metrics_view().deleted_artifact_count,
            r.deleted_bytes == self.metrics_view().deleted_bytes,
            r.last_cleanup_at_unix_ms == self.metrics_view().last_cleanup_at_unix_ms,
            crate::text::opt_view(r.last_cleanup_reason) == crate::text::opt_view(self.metrics_view().last_cleanup_reason),
            r.pressure_state == pressure(self.entries().len() as int, self.total() as int, self.policy()),
    {
        ArtifactStoreStatus {
            artifact_count: self.artifacts.entries.len(),
            total_bytes: self.total_bytes,
            max_count: self.retention.max_count,
            max_bytes: self.retention.max_bytes,
            max_age_seconds: self.retention.max_age_seconds,
            cleanup_interval_seconds: self.retention.cleanup_interval_seconds,
            cleanup_runs: self.metrics.cleanup_runs,
            deleted_artifact_count: self.metrics.deleted_artifact_count,
            deleted_bytes: self.metrics.deleted_bytes,
            last_cleanup_at_unix_ms: self.metrics.last_cleanup_at_unix_ms,
            last_cleanup_reason: crate::text::copy_opt_string(&self.metrics.last_cleanup_reason),
            pressure_state: artifact_pressure_state(self.artifacts.entries.len(), self.total_bytes, &self.retention),
        }
    }
}

/// A prefix's size total is at most the whole's.
proof fn lemma_sum_prefix_bounded(s: Seq<EntryV>, i: int)
    requires
        0 <= i <= s.len(),
    ensures
        sum_sizes(s.take(i)) <= sum_sizes(s),
    decreases s.len() - i,
{
    if i < s.len() {
        lemma_sum_prefix_bounded(s, i + 1);
        assert(s.take(i + 1).drop_last() =~= s.take(i));
    } else {
        assert(s.take(i) =~= s);
    }
}


/// Number of entries not created before `cut`.
pub open spec fn kept_count(s: Seq<EntryV>, cut: int) -> nat
    decreases s.len(),
{
    if s.len() == 0 {
        0
    } else {
        (if s[0].created >= cut { 1nat } else { 0nat }) + kept_count(s.drop_first(), cut)
    }
}

/// Total size of the entries not created before `cut`.
pub open spec fn kept_sum(s: Seq<EntryV>, cut: int) -> nat
    decreases s.len(),
{
    if s.len() == 0 {
        0
    } else {
        (if s[0].created >= cut { s[0].size as nat } else { 0nat }) + kept_sum(s.drop_first(), cut)
    }
}

/// The counts can be taken from the back as well as from the front.
proof fn lemma_kept_last(s: Seq<EntryV>, cut: int)
    requires
        s.len() > 0,
    ensures
        kept_count(s, cut) == kept_count(s.drop_last(), cut) + (if s.last().created >= cut { 1nat } else { 0nat }),
        kept_sum(s, cut) == kept_sum(s.drop_last(), cut) + (if s.last().created >= cut { s.last().size as nat } else { 0nat }),
    decreases s.len(),
{
    if s.len() > 1 {
        lemma_kept_last(s.drop_first(), cut);
        assert(s.drop_first().drop_last() =~= s.drop_last().drop_first());
        assert(s.drop_last()[0] == s[0]);
        assert(s.drop_first().last() == s.last());
        assert(kept_count(s.drop_last(), cut) == (if s[0].created >= cut { 1nat } else { 0nat }) + kept_count(s.drop_last().drop_first(), cut));
        assert(kept_sum(s.drop_last(), cut) == (if s[0].created >= cut { s[0].size as nat } else { 0nat }) + kept_sum(s.drop_last().drop_first(), cut));
    } else {
        assert(s.drop_first().len() == 0);
        assert(s.drop_last().len() == 0);
        assert(s.last() == s[0]);
        reveal_with_fuel(kept_count, 2);
        reveal_with_fuel(kept_sum, 2);
    }
}

/// Every entry is either expired or kept.
proof fn lemma_expired_split(s: Seq<EntryV>, cut: int)
    ensures
        s.len() == expired(s, cut).len() + kept_count(s, cut),
        sum_sizes(s) == sum_sizes(expired(s, cut)) + kept_sum(s, cut),
    decreases s.len(),
{
    if s.len() > 0 {
        lemma_expired_split(s.drop_last(), cut);
        lemma_kept_last(s, cut);
        if s.last().created < cut {
            let e = expired(s.drop_last(), cut);
            assert(e.push(s.last()).drop_last() =~= e);
        }
    }
}

/// Sum of a concatenation.
proof fn lemma_sum_concat(a: Seq<EntryV>, b: Seq<EntryV>)
    ensures
        sum_sizes(a + b) == sum_sizes(a) + sum_sizes(b),
    decreases b.len(),
{
    if b.len() > 0 {
        lemma_sum_concat(a, b.drop_last());
        assert((a + b).drop_last() =~= a + b.drop_last());
    } else {
        assert(a + b =~= a);
    }
}

/// A creation slot lies within the sequence.
proof fn lemma_created_slot_range(s: Seq<EntryV>, c: i64, q: u64, i: int)
    requires
        0 <= i <= s.len(),
    ensures
        i <= created_slot(s, c, q, i) <= s.len(),
        created_slot(s, c, q, i) < s.len() ==> later(s[created_slot(s, c, q, i)], c, q),
    decreases s.len() - i,
{
    if i < s.len() && !later(s[i], c, q) {
        lemma_created_slot_range(s, c, q, i + 1);
    }
}

/// Sorting keeps the number and the total size of the entries.
proof fn lemma_sort_sum(s: Seq<EntryV>)
    ensures
        sort_by_created(s).len() == s.len(),
        sum_sizes(sort_by_created(s)) == sum_sizes(s),
    decreases s.len(),
{
    if s.len() > 0 {
        let t = sort_by_created(s.drop_last());
        lemma_sort_sum(s.drop_last());
        let k = created_slot(t, s.last().created, s.last().seq, 0);
        lemma_created_slot_range(t, s.last().created, s.last().seq, 0);
        let a = t.subrange(0, k);
        let b = t.subrange(k, t.len() as int);
        assert(t =~= a + b);
        assert(t.insert(k, s.last()) =~= a + (seq![s.last()] + b));
        lemma_sum_concat(a, b);
        lemma_sum_concat(a, seq![s.last()] + b);
        lemma_sum_concat(seq![s.last()], b);
        assert(seq![s.last()].drop_last() =~= Seq::<EntryV>::empty());
        assert(sum_sizes(seq![s.last()]) == s.last().size) by {
            reveal_with_fuel(sum_sizes, 2);
        }
        assert(sort_by_created(s) == t.insert(k, s.last()));
    }
}

/// Going through the entries while over a limit removes entries until the
/// count and bytes left are within both limits.
proof fn lemma_trim_limits(s: Seq<EntryV>, cut: int, count: int, bytes: int, max_count: int, max_bytes: int)
    requires
        max_count >= 0,
        max_bytes >= 0,
        count >= kept_count(s, cut),
        bytes >= kept_sum(s, cut),
        (count <= max_count && bytes <= max_bytes) || (count == kept_count(s, cut) && bytes == kept_sum(s, cut)),
    ensures
        trim(s, cut, count, bytes, max_count, max_bytes).1 <= max_count,
        trim(s, cut, count, bytes, max_count, max_bytes).2 <= max_bytes,
        trim(s, cut, count, bytes, max_count, max_bytes).1 == count - trim(s, cut, count, bytes, max_count, max_bytes).0.len(),
        trim(s, cut, count, bytes, max_count, max_bytes).2 == bytes - sum_sizes(trim(s, cut, count, bytes, max_count, max_bytes).0),
    decreases s.len(),
{
    if s.len() == 0 {
    } else if s[0].created < cut {
        lemma_trim_limits(s.drop_first(), cut, count, bytes, max_count, max_bytes);
    } else if count > max_count || bytes > max_bytes {
        lemma_trim_limits(s.drop_first(), cut, count - 1, bytes - s[0].size, max_count, max_bytes);
        let r = trim(s.drop_first(), cut, count - 1, bytes - s[0].size, max_count, max_bytes).0;
        lemma_sum_concat(seq![s[0]], r);
        assert(seq![s[0]].drop_last() =~= Seq::<EntryV>::empty());
        assert(sum_sizes(seq![s[0]]) == s[0].size) by {
            reveal_with_fuel(sum_sizes, 2);
        }
    } else {
        lemma_trim_limits(s.drop_first(), cut, count, bytes, max_count, max_bytes);
    }
}

/// Retention is enforced: once the artifacts a cleanup plans to remove are
/// gone, at most `max_count` artifacts of at most `max_bytes` bytes in all
/// are left, whenever the recorded byte total is the sum of the sizes.
pub proof fn lemma_cleanup_enforces_limits(entries: Seq<EntryV>, total_bytes: u64, now: i64, p: ArtifactRetentionPolicy)
    requires
        total_bytes == sum_sizes(entries),
    ensures
        entries.len() - cleanup_plan(entries, total_bytes, now, p).len() <= p.max_count,
        sum_sizes(entries) - sum_sizes(cleanup_plan(entries, total_bytes, now, p)) <= p.max_bytes,
{
    let s = sort_by_created(entries);
    let cut = cutoff(now, p.max_age_seconds);
    let ex = expired(s, cut);
    lemma_sort_sum(entries);
    lemma_expired_split(s, cut);
    let count = s.len() - ex.len();
    let bytes = sat_sub(total_bytes as int, sum_sizes(ex) as int);
    assert(bytes == kept_sum(s, cut));
    lemma_trim_limits(s, cut, count, bytes, p.max_count as int, p.max_bytes as int);
    let r = trim(s, cut, count, bytes, p.max_count as int, p.max_bytes as int).0;
    lemma_sum_concat(ex, r);
}

/// Sorting by creation time keeps exactly the same entries.
proof fn lemma_sort_contains(s: Seq<EntryV>, x: EntryV)
    ensures
        sort_by_created(s).contains(x) <==> s.contains(x),
    decreases s.len(),
{
    if s.len() > 0 {
        let d = s.drop_last();
        let t = sort_by_created(d);
        lemma_sort_contains(d, x);
        lemma_sort_sum(d);
        let k = created_slot(t, s.last().created, s.last().seq, 0);
        lemma_created_slot_range(t, s.last().created, s.last().seq, 0);
        let u = t.insert(k, s.last());
        assert(u == sort_by_created(s));
        if u.contains(x) {
            let i = choose|i: int| 0 <= i < u.len() && u[i] == x;
            if i < k {
                assert(t[i] == x);
            } else if i > k {
                assert(t[i - 1] == x);
            }
            if x != s.last() {
                assert(t.contains(x));
                let j = choose|j: int| 0 <= j < d.len() && d[j] == x;
                assert(s[j] == x);
            } else {
                assert(s[s.len() - 1] == x);
            }
        }
        if s.contains(x) {
            let i = choose|i: int| 0 <= i < s.len() && s[i] == x;
            if i == s.len() - 1 {
                assert(u[k] == x);
            } else {
                assert(d[i] == x);
                assert(t.contains(x));
                let j = choose|j: int| 0 <= j < t.len() && t[j] == x;
                if j < k {
                    assert(u[j] == x);
                } else {
                    assert(u[j + 1] == x);
                }
            }
        }
    }
}

/// The expired entries are exactly those created before the cutoff.
proof fn lemma_expired_contains(s: Seq<EntryV>, cut: int, x: EntryV)
    ensures
        expired(s, cut).contains(x) <==> (s.contains(x) && x.created < cut),
    decreases s.len(),
{
    if s.len() > 0 {
        let d = s.drop_last();
        lemma_expired_contains(d, cut, x);
        let e = expired(d, cut);
        if s.contains(x) {
            let i = choose|i: int| 0 <= i < s.len() && s[i] == x;
            if i < s.len() - 1 {
                assert(d[i] == x);
            }
        }
        if d.contains(x) {
            let i = choose|i: int| 0 <= i < d.len() && d[i] == x;
            assert(s[i] == x);
        }
        if s.last().created < cut {
            assert(expired(s, cut) == e.push(s.last()));
            if e.push(s.last()).contains(x) {
                let i = choose|i: int| 0 <= i < e.len() + 1 && e.push(s.last())[i] == x;
                if i < e.len() {
                    assert(e[i] == x);
                }
            }
            if e.contains(x) {
                let i = choose|i: int| 0 <= i < e.len() && e[i] == x;
                assert(e.push(s.last())[i] == x);
            }
            assert(e.push(s.last())[e.len() as int] == s.last());
        }
    }
}

/// Trimming removes only entries it was given.
proof fn lemma_trim_contains(s: Seq<EntryV>, cut: int, count: int, bytes: int, max_count: int, max_bytes: int, x: EntryV)
    requires
        trim(s, cut, count, bytes, max_count, max_bytes).0.contains(x),
    ensures
        s.contains(x),
    decreases s.len(),
{
    let d = s.drop_first();
    if s.len() > 0 {
        if s[0].created < cut {
            lemma_trim_contains(d, cut, count, bytes, max_count, max_bytes, x);
        } else if count > max_count || bytes > max_bytes {
            let r = trim(d, cut, sat_sub(count, 1), sat_sub(bytes, s[0].size as int), max_count, max_bytes).0;
            let i = choose|i: int| 0 <= i < r.len() + 1 && (seq![s[0]] + r)[i] == x;
            if i == 0 {
                assert(s[0] == x);
            } else {
                assert(r[i - 1] == x);
                lemma_trim_contains(d, cut, sat_sub(count, 1), sat_sub(bytes, s[0].size as int), max_count, max_bytes, x);
            }
        } else {
            lemma_trim_contains(d, cut, count, bytes, max_count, max_bytes, x);
        }
        if d.contains(x) {
            let j = choose|j: int| 0 <= j < d.len() && d[j] == x;
            assert(s[j + 1] == x);
        }
    }
}

/// A cleanup leaves nothing expired and removes only artifacts it has:
/// every artifact created before the cutoff is in the plan, and every
/// planned one is an artifact of the store.
pub proof fn lemma_cleanup_removes_expired(entries: Seq<EntryV>, total_bytes: u64, now: i64, p: ArtifactRetentionPolicy, x: EntryV)
    ensures
        entries.contains(x) && x.created < cutoff(now, p.max_age_seconds) ==> cleanup_plan(entries, total_bytes, now, p).contains(x),
        cleanup_plan(entries, total_bytes, now, p).contains(x) ==> entries.contains(x),
{
    let s = sort_by_created(entries);
    let cut = cutoff(now, p.max_age_seconds);
    let ex = expired(s, cut);
    let r = trim(s, cut, s.len() - ex.len(), sat_sub(total_bytes as int, sum_sizes(ex) as int), p.max_count as int, p.max_bytes as int).0;
    let plan = ex + r;
    assert(plan == cleanup_plan(entries, total_bytes, now, p));
    lemma_sort_contains(entries, x);
    lemma_expired_contains(s, cut, x);
    if ex.contains(x) {
        let i = choose|i: int| 0 <= i < ex.len() && ex[i] == x;
        assert(plan[i] == x);
    }
    if plan.contains(x) {
        let i = choose|i: int| 0 <= i < plan.len() && plan[i] == x;
        if i >= ex.len() {
            assert(r[i - ex.len()] == x);
            lemma_trim_contains(s, cut, s.len() - ex.len(), sat_sub(total_bytes as int, sum_sizes(ex) as int), p.max_count as int, p.max_bytes as int, x);
        } else {
            assert(ex[i] == x);
        }
    }
}

/// The slot for a key comes no later than any entry after that key.
proof fn lemma_created_slot_before(s: Seq<EntryV>, c: i64, q: u64, i: int, j: int)
    requires
        0 <= i <= j < s.len(),
        later(s[j], c, q),
    ensures
        created_slot(s, c, q, i) <= j,
    decreases j - i,
{
    if !later(s[i], c, q) {
        lemma_created_slot_before(s, c, q, i + 1, j);
    }
}

/// Every entry other than the one at `w` comes before it in creation
/// order (earlier time, or the same time and an earlier write).
pub open spec fn newest_at(entries: Seq<EntryV>, w: int) -> bool {
    &&& 0 <= w < entries.len()
    &&& forall|i: int| 0 <= i < entries.len() && i != w ==> later(entries[w], (#[trigger] entries[i]).created, entries[i].seq)
}

/// Sorting puts the newest entry last, after all the others.
proof fn lemma_sort_newest_last(entries: Seq<EntryV>, w: int)
    requires
        newest_at(entries, w),
    ensures
        sort_by_created(entries).len() == entries.len(),
        sort_by_created(entries).last() == entries[w],
        forall|i: int| 0 <= i < sort_by_created(entries).len() - 1 ==> later(
            entries[w],
            (#[trigger] sort_by_created(entries)[i]).created,
            sort_by_created(entries)[i].seq,
        ),
    decreases entries.len(),
{
    let x = entries[w];
    let d = entries.drop_last();
    let v = entries.last();
    let t = sort_by_created(d);
    lemma_sort_sum(entries);
    lemma_sort_sum(d);
    lemma_created_slot_range(t, v.created, v.seq, 0);
    let k = created_slot(t, v.created, v.seq, 0);
    let u = t.insert(k, v);
    assert(u == sort_by_created(entries));
    if w == entries.len() - 1 {
        assert forall|i: int| 0 <= i < t.len() implies later(x, (#[trigger] t[i]).created, t[i].seq) by {
            lemma_sort_contains(d, t[i]);
            assert(t.contains(t[i]));
            let j = choose|j: int| 0 <= j < d.len() && d[j] == t[i];
            assert(entries[j] == t[i]);
        }
        if k < t.len() {
            assert(later(x, t[k].created, t[k].seq));
            assert(later(t[k], v.created, v.seq));
            assert(false);
        }
        assert(k == t.len());
        assert forall|i: int| 0 <= i < u.len() - 1 implies later(x, (#[trigger] u[i]).created, u[i].seq) by {
            assert(u[i] == t[i]);
        }
    } else {
        assert forall|i: int| 0 <= i < d.len() && i != w implies later(d[w], (#[trigger] d[i]).created, d[i].seq) by {
            assert(d[i] == entries[i]);
        }
        assert(d[w] == x);
        lemma_sort_newest_last(d, w);
        assert(later(x, v.created, v.seq));
        lemma_created_slot_before(t, v.created, v.seq, 0, t.len() - 1);
        assert(u.last() == t.last());
        assert forall|i: int| 0 <= i < u.len() - 1 implies later(x, (#[trigger] u[i]).created, u[i].seq) by {
            if i < k {
                assert(u[i] == t[i]);
            } else if i > k {
                assert(u[i] == t[i - 1]);
            }
        }
    }
}

/// Trimming never removes the last entry when it is not expired, fits the
/// byte limit alone, and comes after every other entry.
proof fn lemma_trim_keeps_last(s: Seq<EntryV>, cut: int, count: int, bytes: int, max_count: int, max_bytes: int)
    requires
        s.len() > 0,
        s.last().created >= cut,
        s.last().size <= max_bytes,
        max_count >= 1,
        forall|i: int| 0 <= i < s.len() - 1 ==> later(s.last(), (#[trigger] s[i]).created, s[i].seq),
        count >= kept_count(s, cut),
        bytes >= kept_sum(s, cut),
        (count <= max_count && bytes <= max_bytes) || (count == kept_count(s, cut) && bytes == kept_sum(s, cut)),
    ensures
        !trim(s, cut, count, bytes, max_count, max_bytes).0.contains(s.last()),
    decreases s.len(),
{
    let x = s.last();
    let d = s.drop_first();
    if s.len() == 1 {
        assert(d.len() == 0);
        assert(kept_count(d, cut) == 0);
        assert(kept_sum(d, cut) == 0);
        assert(kept_count(s, cut) == 1);
        assert(kept_sum(s, cut) == x.size);
        assert(trim(s, cut, count, bytes, max_count, max_bytes).0 == trim(d, cut, count, bytes, max_count, max_bytes).0);
    } else {
        assert(d.last() == x);
        assert(s[0] != x) by {
            assert(later(x, s[0].created, s[0].seq));
        }
        assert forall|i: int| 0 <= i < d.len() - 1 implies later(d.last(), (#[trigger] d[i]).created, d[i].seq) by {
            assert(d[i] == s[i + 1]);
        }
        if s[0].created < cut {
            lemma_trim_keeps_last(d, cut, count, bytes, max_count, max_bytes);
        } else if count > max_count || bytes > max_bytes {
            lemma_trim_keeps_last(d, cut, count - 1, bytes - s[0].size, max_count, max_bytes);
            let r = trim(d, cut, count - 1, bytes - s[0].size, max_count, max_bytes).0;
            if (seq![s[0]] + r).contains(x) {
                let i = choose|i: int| 0 <= i < r.len() + 1 && (seq![s[0]] + r)[i] == x;
                if i > 0 {
                    assert(r[i - 1] == x);
                }
            }
        } else {
            lemma_trim_keeps_last(d, cut, count, bytes, max_count, max_bytes);
        }
    }
}

/// Writing an artifact never loses it to the retention that follows: a
/// cleanup keeps the newest artifact when it is not expired, it alone fits
/// the byte limit, and at least one artifact may be kept.
pub proof fn lemma_cleanup_keeps_newest(entries: Seq<EntryV>, w: int, total_bytes: u64, now: i64, p: ArtifactRetentionPolicy)
    requires
        newest_at(entries, w),
        total_bytes == sum_sizes(entries),
        entries[w].created >= cutoff(now, p.max_age_seconds),
        entries[w].size <= p.max_bytes,
        p.max_count >= 1,
    ensures
        !cleanup_plan(entries, total_bytes, now, p).contains(entries[w]),
{
    let x = entries[w];
    let s = sort_by_created(entries);
    let cut = cutoff(now, p.max_age_seconds);
    let ex = expired(s, cut);
    lemma_sort_newest_last(entries, w);
    lemma_sort_sum(entries);
    lemma_expired_split(s, cut);
    lemma_expired_contains(s, cut, x);
    let count = s.len() - ex.len();
    let bytes = sat_sub(total_bytes as int, sum_sizes(ex) as int);
    assert(bytes == kept_sum(s, cut));
    lemma_trim_keeps_last(s, cut, count, bytes, p.max_count as int, p.max_bytes as int);
    let r = trim(s, cut, count, bytes, p.max_count as int, p.max_bytes as int).0;
    let plan = ex + r;
    assert(plan == cleanup_plan(entries, total_bytes, now, p));
    if plan.contains(x) {
        let i = choose|i: int| 0 <= i < plan.len() && plan[i] == x;
        if i < ex.len() {
            assert(ex[i] == x);
        } else {
            assert(r[i - ex.len()] == x);
        }
    }
}

} // verus!
