//! The change detector: stores, clocks and the event-to-operation logic.
//!
//! A `Detector` owns the process-wide state of the pipeline — the snapshot
//! store, the last-operation index, the temp-content cache, the rename
//! buffer, the rapid-mode sequence cache and the Lamport clock — and turns
//! observed file contents into operations. The caller (an event pump)
//! watches the filesystem, reads file contents, and feeds them in; every
//! decision about what to emit and how state changes is made, and proved,
//! here.
//!
//! A ghost history records every operation ever handed out, so that the
//! ordering laws — Lamport monotonicity, ignored-path invariance, causal
//! parent links — can be stated over all emissions at once.

use vstd::prelude::*;
use vstd::utf8::encode_utf8;
use crate::classify::{is_temp_path, should_track, temp_path, trackable};
use crate::clock::LamportClock;
use crate::diff::{
    apply_delete, apply_insert, apply_replace, at_longest_common_prefix, compute_diff, is_append,
    TextDiff,
};
use crate::ops::{Operation, OperationType, Position};
use crate::pathmap::PathMap;
use crate::snapshot::{
    build_snapshot_fast, build_snapshot_minimal, byte_length, extend_snapshot,
    lemma_encode_len_ge, line_col_from_snapshot, FileSnapshot,
};
use crate::strutil::str_to_chars;

verus! {

/// Most snapshots the store may hold before eviction runs.
pub const PREV_STATE_LIMIT: usize = 2048;

/// How far past the limit the store may grow before a batch eviction.
pub const SNAPSHOT_EVICT_SLACK: usize = 100;

/// Most entries the temp-content cache may hold.
pub const TEMP_CACHE_LIMIT: usize = 256;

/// Largest file, in bytes, that is tracked at all.
pub const MAX_TRACKED_FILE_BYTES: u64 = 1_000_000;

/// How many sequence numbers apart two rapid events on one path must be
/// not to be treated as duplicates.
pub const RAPID_DEDUP_WINDOW: u64 = 100;

/// The Lamport time of an operation's position is below `c`.
pub open spec fn lamport_below(op: Operation, c: u64) -> bool {
    match op.op_type.position_lamport() {
        Some(l) => l < c,
        None => true,
    }
}

/// Every positioned operation in `h` has Lamport time below `c`.
pub open spec fn history_clock_bounded(h: Seq<Operation>, c: u64) -> bool {
    forall|i: int| 0 <= i < h.len() ==> lamport_below(#[trigger] h[i], c)
}

/// Lamport times of positioned operations are strictly increasing in
/// emission order.
pub open spec fn lamport_increasing(h: Seq<Operation>) -> bool {
    forall|i: int, j: int|
        0 <= i < j < h.len() ==> match (
            (#[trigger] h[i]).op_type.position_lamport(),
            (#[trigger] h[j]).op_type.position_lamport(),
        ) {
            (Some(a), Some(b)) => a < b,
            _ => true,
        }
}

/// A path operations may be emitted for: trackable, and no temp
/// artifact.
pub open spec fn emittable(p: Seq<char>) -> bool {
    trackable(p) && !temp_path(p)
}

/// Every emitted operation names a trackable, non-temp path.
pub open spec fn paths_trackable(h: Seq<Operation>) -> bool {
    forall|i: int| 0 <= i < h.len() ==> emittable((#[trigger] h[i]).file_path@)
}

/// Each operation carries at most one parent, and that parent is the id
/// of an operation emitted earlier.
pub open spec fn parents_linked(h: Seq<Operation>) -> bool {
    forall|j: int|
        0 <= j < h.len() ==> (#[trigger] h[j]).parent_ops@.len() <= 1 && (h[j].parent_ops@.len()
            == 1 ==> exists|i: int| 0 <= i < j && (#[trigger] h[i]).id == h[j].parent_ops@[0])
}

/// Every id the last-operation index records was actually emitted.
pub open spec fn index_ids_emitted(m: Map<Seq<char>, u128>, h: Seq<Operation>) -> bool {
    forall|p: Seq<char>|
        m.contains_key(p) ==> exists|i: int| 0 <= i < h.len() && (#[trigger] h[i]).id == m[p]
}

/// The parent set an operation for `p` receives: the recorded id, or none.
pub open spec fn singleton_parents(m: Map<Seq<char>, u128>, p: Seq<char>) -> Seq<u128> {
    if m.contains_key(p) {
        seq![m[p]]
    } else {
        Seq::<u128>::empty()
    }
}

/// The content fits under the tracked-file size cap.
pub open spec fn content_fits(c: Seq<char>) -> bool {
    encode_utf8(c).len() <= MAX_TRACKED_FILE_BYTES
}

/// Applying the character-level edit `t` to `old_text` yields `new_text`
/// exactly, and the edit's payload is faithful: lengths are character
/// counts, a replace names the text it removes, and file-level operations
/// never stand for edits.
pub open spec fn edit_applies(old_text: Seq<char>, t: OperationType, new_text: Seq<char>) -> bool {
    match t {
        OperationType::Insert { position, content, length } => {
            &&& content@.len() > 0
            &&& length == content@.len()
            &&& position.offset <= old_text.len()
            &&& new_text == apply_insert(old_text, position.offset as int, content@)
        },
        OperationType::Delete { position, length } => {
            &&& length > 0
            &&& position.offset + length <= old_text.len()
            &&& new_text == apply_delete(old_text, position.offset as int, length as int)
        },
        OperationType::Replace { position, old_content, new_content } => {
            &&& old_content@.len() > 0
            &&& new_content@.len() > 0
            &&& position.offset + old_content@.len() <= old_text.len()
            &&& old_text.subrange(position.offset as int, position.offset + old_content@.len())
                == old_content@
            &&& new_text == apply_replace(
                old_text,
                position.offset as int,
                old_content@,
                new_content@,
            )
        },
        _ => false,
    }
}

/// Appending a freshly linked operation keeps each parent the id of an
/// earlier operation.
proof fn lemma_parents_extend(h0: Seq<Operation>, op: Operation, m0: Map<Seq<char>, u128>)
    requires
        parents_linked(h0),
        index_ids_emitted(m0, h0),
        op.parent_ops@ == singleton_parents(m0, op.file_path@),
    ensures
        parents_linked(h0.push(op)),
{
    let h = h0.push(op);
    let path = op.file_path@;
    assert forall|j: int| 0 <= j < h.len() implies (#[trigger] h[j]).parent_ops@.len() <= 1 && (
    h[j].parent_ops@.len() == 1 ==> exists|i: int|
        0 <= i < j && (#[trigger] h[i]).id == h[j].parent_ops@[0]) by {
        if j < h.len() - 1 {
            assert(h[j] == h0[j]);
            if h0[j].parent_ops@.len() == 1 {
                let w = choose|i: int|
                    0 <= i < j && (#[trigger] h0[i]).id == h0[j].parent_ops@[0];
                assert(h[w] == h0[w]);
                assert(h[w].id == h[j].parent_ops@[0]);
            }
        } else {
            assert(h[j] == op);
            if op.parent_ops@.len() == 1 {
                assert(m0.contains_key(path)) by {
                    if !m0.contains_key(path) {
                        assert(op.parent_ops@ == Seq::<u128>::empty());
                    }
                }
                assert(op.parent_ops@ == seq![m0[path]]);
                assert(op.parent_ops@[0] == m0[path]);
                let w = choose|i: int| 0 <= i < h0.len() && (#[trigger] h0[i]).id == m0[path];
                assert(h[w] == h0[w]);
                assert(h[w].id == h[j].parent_ops@[0]);
                assert(0 <= w < j);
            }
        }
    }
}

/// After recording the fresh id, every id in the index was emitted.
proof fn lemma_index_extend(
    h0: Seq<Operation>,
    op: Operation,
    m0: Map<Seq<char>, u128>,
    path: Seq<char>,
)
    requires
        index_ids_emitted(m0, h0),
    ensures
        index_ids_emitted(m0.insert(path, op.id), h0.push(op)),
{
    let h = h0.push(op);
    assert forall|p: Seq<char>| m0.insert(path, op.id).contains_key(p) implies exists|i: int|
        0 <= i < h.len() && (#[trigger] h[i]).id == m0.insert(path, op.id)[p] by {
        if p == path {
            assert(h[h.len() - 1].id == m0.insert(path, op.id)[p]);
        } else {
            let w = choose|i: int| 0 <= i < h0.len() && (#[trigger] h0[i]).id == m0[p];
            assert(h[w].id == m0.insert(path, op.id)[p]);
        }
    }
}

/// The clock still bounds every Lamport time after the append.
proof fn lemma_clock_bound_extend(h0: Seq<Operation>, op: Operation, clock: u64)
    requires
        history_clock_bounded(h0, clock),
        lamport_below(op, clock),
    ensures
        history_clock_bounded(h0.push(op), clock),
{
    let h = h0.push(op);
    assert forall|i: int| 0 <= i < h.len() implies lamport_below(#[trigger] h[i], clock) by {
        if i < h.len() - 1 {
            assert(h[i] == h0[i]);
        }
    }
}

/// Lamport times stay strictly increasing: the appended operation's time,
/// when it has one, dominates the whole history.
proof fn lemma_increasing_extend(h0: Seq<Operation>, op: Operation)
    requires
        lamport_increasing(h0),
        match op.op_type.position_lamport() {
            Some(l) => history_clock_bounded(h0, l),
            None => true,
        },
    ensures
        lamport_increasing(h0.push(op)),
{
    let h = h0.push(op);
    assert forall|i: int, j: int| 0 <= i < j < h.len() implies match (
        (#[trigger] h[i]).op_type.position_lamport(),
        (#[trigger] h[j]).op_type.position_lamport(),
    ) {
        (Some(a), Some(b)) => a < b,
        _ => true,
    } by {
        if j < h.len() - 1 {
            assert(h[i] == h0[i] && h[j] == h0[j]);
        } else {
            assert(h[i] == h0[i]);
            assert(h[j] == op);
            match op.op_type.position_lamport() {
                Some(l) => {
                    assert(lamport_below(h0[i], l));
                },
                None => {},
            }
        }
    }
}

/// Emitted paths stay trackable after the append.
proof fn lemma_trackable_extend(h0: Seq<Operation>, op: Operation)
    requires
        paths_trackable(h0),
        emittable(op.file_path@),
    ensures
        paths_trackable(h0.push(op)),
{
    let h = h0.push(op);
    assert forall|i: int| 0 <= i < h.len() implies emittable((#[trigger] h[i]).file_path@) by {
        if i < h.len() - 1 {
            assert(h[i] == h0[i]);
        }
    }
}

/// The character offset a character-level edit names; file-level
/// operations name none.
pub open spec fn edit_offset_of(t: OperationType) -> int {
    match t {
        OperationType::Insert { position, .. } => position.offset as int,
        OperationType::Delete { position, .. } => position.offset as int,
        OperationType::Replace { position, .. } => position.offset as int,
        _ => -1,
    }
}

/// What the caller should do next with a path an event named.
pub enum PathAction {
    /// The path is a temp artifact: read it and cache its content.
    CacheTemp,
    /// Nothing to do: the path is ignored, or the rapid detector
    /// suppressed a near-duplicate.
    Skip,
    /// Read the file and run full detection.
    Detect,
}

/// The change detector and all its process-wide state.
pub struct Detector {
    /// This process's stable actor id.
    pub actor_id: String,
    /// The Lamport clock, advanced once per positioned operation.
    pub clock: LamportClock,
    /// Per-file snapshots of last observed content.
    pub snapshots: PathMap<FileSnapshot>,
    /// Per-file id of the last emitted operation.
    pub last_ops: PathMap<u128>,
    /// Content captured from temp files, keyed by path.
    pub temp_cache: PathMap<String>,
    /// The pending rename-from path, if any.
    pub rename_source: Option<String>,
    /// Per-path sequence number of the last rapid acknowledgement.
    pub rapid_seen: PathMap<u64>,
    /// The rapid detector's monotonic sequence counter.
    pub rapid_sequence: u64,
    /// Whether the rapid detector is switched off.
    pub rapid_disabled: bool,
    /// Operations that passed the append-and-publish sink.
    pub ops_processed: u64,
    /// Every operation ever emitted, in emission order.
    pub history: Ghost<Seq<Operation>>,
}

impl Detector {
    /// Well-formedness: stores intact and bounded, snapshots internally
    /// consistent and under the size cap, the history governed by the
    /// clock, its paths emittable and its parent links sound.
    pub open spec fn wf(&self) -> bool {
        &&& self.snapshots.wf()
        &&& self.last_ops.wf()
        &&& self.temp_cache.wf()
        &&& self.rapid_seen.wf()
        &&& self.snapshots.spec_len() <= PREV_STATE_LIMIT + SNAPSHOT_EVICT_SLACK
        &&& self.temp_cache.spec_len() <= TEMP_CACHE_LIMIT
        &&& forall|p: Seq<char>|
            self.snapshots@.contains_key(p) ==> (#[trigger] self.snapshots@[p]).wf()
                && self.snapshots@[p].byte_len <= MAX_TRACKED_FILE_BYTES
        &&& forall|p: Seq<char>|
            self.rapid_seen@.contains_key(p) ==> (#[trigger] self.rapid_seen@[p])
                <= self.rapid_sequence
        &&& history_clock_bounded(self.history@, self.clock.value())
        &&& lamport_increasing(self.history@)
        &&& paths_trackable(self.history@)
        &&& parents_linked(self.history@)
        &&& index_ids_emitted(self.last_ops@, self.history@)
    }

    /// A fresh detector with empty stores and a zeroed clock.
    pub fn new(actor_id: String, rapid_disabled: bool) -> (r: Self)
        ensures
            r.wf(),
            r.actor_id@ == actor_id@,
            r.history@ == Seq::<Operation>::empty(),
            r.snapshots@ == Map::<Seq<char>, FileSnapshot>::empty(),
            r.last_ops@ == Map::<Seq<char>, u128>::empty(),
            r.temp_cache@ == Map::<Seq<char>, String>::empty(),
            r.clock.value() == 0,
            r.rapid_disabled == rapid_disabled,
    {
        Detector {
            actor_id,
            clock: LamportClock::new(),
            snapshots: PathMap::new(),
            last_ops: PathMap::new(),
            temp_cache: PathMap::new(),
            rename_source: None,
            rapid_seen: PathMap::new(),
            rapid_sequence: 0,
            rapid_disabled,
            ops_processed: 0,
            history: Ghost(Seq::empty()),
        }
    }

    /// Builds an operation for `path`, links it to the last one recorded
    /// for that path, records its id, and appends it to the history.
    fn emit(&mut self, path: &String, op_type: OperationType) -> (op: Operation)
        requires
            old(self).last_ops.wf(),
            index_ids_emitted(old(self).last_ops@, old(self).history@),
            parents_linked(old(self).history@),
            history_clock_bounded(old(self).history@, old(self).clock.value()),
            lamport_increasing(old(self).history@),
            paths_trackable(old(self).history@),
            emittable(path@),
            match op_type.position_lamport() {
                Some(l) => l < old(self).clock.value() && history_clock_bounded(
                    old(self).history@,
                    l,
                ),
                None => true,
            },
        ensures
            final(self).last_ops.wf(),
            op.op_type == op_type,
            op.file_path@ == path@,
            op.actor_id@ == old(self).actor_id@,
            op.parent_ops@ == singleton_parents(old(self).last_ops@, path@),
            final(self).last_ops@ == old(self).last_ops@.insert(path@, op.id),
            final(self).history@ == old(self).history@.push(op),
            final(self).snapshots == old(self).snapshots,
            final(self).temp_cache == old(self).temp_cache,
            final(self).clock == old(self).clock,
            final(self).actor_id == old(self).actor_id,
            final(self).rename_source == old(self).rename_source,
            final(self).rapid_seen == old(self).rapid_seen,
            final(self).rapid_sequence == old(self).rapid_sequence,
            final(self).rapid_disabled == old(self).rapid_disabled,
            final(self).ops_processed == old(self).ops_processed,
            index_ids_emitted(final(self).last_ops@, final(self).history@),
            parents_linked(final(self).history@),
            history_clock_bounded(final(self).history@, final(self).clock.value()),
            lamport_increasing(final(self).history@),
            paths_trackable(final(self).history@),
    {
        let base = Operation::new(path.clone(), op_type, self.actor_id.clone());
        let op = match self.last_ops.get(path) {
            Some(prev_id) => {
                let mut parents: Vec<u128> = Vec::new();
                parents.push(*prev_id);
                proof {
                    assert(parents@ =~= seq![old(self).last_ops@[path@]]);
                }
                base.with_parents(parents)
            },
            None => base,
        };
        self.last_ops.insert(path.clone(), op.id);
        proof {
            lemma_parents_extend(self.history@, op, old(self).last_ops@);
            lemma_index_extend(self.history@, op, old(self).last_ops@, path@);
            lemma_clock_bound_extend(self.history@, op, self.clock.value());
            lemma_increasing_extend(self.history@, op);
            lemma_trackable_extend(self.history@, op);
            self.history@ = self.history@.push(op);
        }
        op
    }
}

impl Detector {
    /// Runs change detection for `path` against the newly observed
    /// `content` (`None` when the file could not be read or decoded) and
    /// hands back the operations to emit: at most one.
    ///
    /// The contract carries the pipeline's laws through this entry point:
    /// identity idempotence (no operation exactly when the content equals
    /// the snapshot), diff correctness (an emitted edit applies to the
    /// prior snapshot to give the new content byte for byte), the append
    /// fast path (a pure append yields one insert of the suffix at the old
    /// character count), the per-file causal chain (parents come from the
    /// last-operation index, which then records the new id), and the
    /// single Lamport tick per positioned operation.
    pub fn detect_operations(&mut self, path: &String, content: Option<String>) -> (ops: Vec<
        Operation,
    >)
        requires
            old(self).wf(),
            old(self).clock.value() < u64::MAX,
        ensures
            final(self).wf(),
            final(self).history@ == old(self).history@ + ops@,
            ops@.len() <= 1,
            final(self).temp_cache == old(self).temp_cache,
            final(self).rename_source == old(self).rename_source,
            final(self).rapid_seen == old(self).rapid_seen,
            final(self).rapid_sequence == old(self).rapid_sequence,
            final(self).rapid_disabled == old(self).rapid_disabled,
            final(self).actor_id == old(self).actor_id,
            final(self).ops_processed == old(self).ops_processed,
            final(self).clock.value() >= old(self).clock.value(),
            forall|k: Seq<char>|
                #[trigger] final(self).snapshots@.contains_key(k) && k != path@ ==> old(self).snapshots@.contains_key(k) && final(self).snapshots@[k] == old(self).snapshots@[k],
            (!emittable(path@) || content is None) ==> ops@.len() == 0 && final(self).snapshots
                == old(self).snapshots && final(self).last_ops == old(self).last_ops && final(self).clock == old(self).clock,
            emittable(path@) ==> (content matches Some(c) ==> !content_fits(c@) ==> ops@.len()
                == 0 && final(self).snapshots@ == old(self).snapshots@.remove(path@)
                && final(self).last_ops == old(self).last_ops && final(self).clock == old(self).clock),
            emittable(path@) ==> (content matches Some(c) ==> (content_fits(c@) && !old(self).snapshots@.contains_key(path@)) ==> ops@.len() == 1 && (
            ops@[0].op_type matches OperationType::FileCreate { content: cc } && cc@ == c@)
                && ops@[0].file_path@ == path@ && ops@[0].parent_ops@ == Seq::<u128>::empty()
                && final(self).snapshots@.contains_key(path@) && final(self).snapshots@[path@].content@ == c@ && final(self).last_ops@ == old(self).last_ops@.insert(path@, ops@[0].id) && final(self).clock == old(self).clock),
            emittable(path@) ==> (content matches Some(c) ==> (content_fits(c@) && old(self).snapshots@.contains_key(path@)) ==> ({
                let prev = old(self).snapshots@[path@].content@;
                &&& (ops@.len() == 0 <==> c@ == prev)
                &&& final(self).snapshots@.contains_key(path@)
                &&& final(self).snapshots@[path@].content@ == c@
                &&& (ops@.len() == 1 ==> edit_applies(prev, ops@[0].op_type, c@)
                    && at_longest_common_prefix(prev, c@, edit_offset_of(ops@[0].op_type))
                    && ops@[0].file_path@ == path@ && ops@[0].actor_id@ == old(self).actor_id@
                    && ops@[0].parent_ops@ == singleton_parents(old(self).last_ops@, path@)
                    && final(self).last_ops@ == old(self).last_ops@.insert(path@, ops@[0].id)
                    && ops@[0].op_type.position_lamport() == Some(old(self).clock.value())
                    && final(self).clock.value() == old(self).clock.value() + 1)
                &&& (ops@.len() == 0 ==> final(self).last_ops == old(self).last_ops && final(self).clock == old(self).clock)
                &&& (is_append(prev, c@) ==> ops@.len() == 1 && (
                ops@[0].op_type matches OperationType::Insert { position, content: ic, .. }
                    && position.offset == prev.len() && ic@ == c@.skip(prev.len() as int)))
            })),
    {
        let mut ops: Vec<Operation> = Vec::new();
        assert(ops@ =~= Seq::<Operation>::empty());
        if !should_track(path) || is_temp_path(path.as_str()) {
            assert(self.history@ =~= old(self).history@ + ops@);
            return ops;
        }
        let c = match content {
            Some(c) => c,
            None => {
                assert(self.history@ =~= old(self).history@ + ops@);
                return ops;
            },
        };
        let nb = byte_length(c.as_str());
        if nb as u64 > MAX_TRACKED_FILE_BYTES {
            self.snapshots.remove(path);
            assert(self.history@ =~= old(self).history@ + ops@);
            return ops;
        }
        match self.snapshots.remove(path) {
            None => {
                // first observation: a create carrying the whole content
                let snap = build_snapshot_minimal(c.as_str());
                update_prev_state(&mut self.snapshots, path, snap);
                self.last_ops.remove(path);
                let ghost cg = c@;
                let op = self.emit(path, OperationType::FileCreate { content: c });
                proof {
                    assert(op.parent_ops@ =~= Seq::<u128>::empty());
                    assert(self.last_ops@ =~= old(self).last_ops@.insert(path@, op.id));
                }
                ops.push(op);
                proof {
                    assert(ops@ =~= seq![op]);
                    assert(self.history@ =~= old(self).history@ + ops@);
                }
                ops
            },
            Some(prev_snap) => {
                let ghost prev = prev_snap.content@;
                proof {
                    assert(prev == old(self).snapshots@[path@].content@);
                    lemma_encode_len_ge(prev);
                }
                let old_chars = str_to_chars(prev_snap.content.as_str());
                let new_chars = str_to_chars(c.as_str());
                let d = compute_diff(&old_chars, &new_chars);
                match d {
                    TextDiff::Unchanged => {
                        update_prev_state(&mut self.snapshots, path, prev_snap);
                        proof {
                            assert(self.snapshots@ =~= old(self).snapshots@);
                            assert(self.history@ =~= old(self).history@ + ops@);
                        }
                        ops
                    },
                    TextDiff::Insert { offset, content: ins, length } => {
                        let (line, col) = line_col_from_snapshot(&prev_snap, offset);
                        let appended = offset == prev_snap.char_len;
                        let ins_text = ins.clone();
                        let lam = self.clock.tick();
                        let pos = Position::new(line, col, offset, self.actor_id.clone(), lam);
                        let op = self.emit(
                            path,
                            OperationType::Insert { position: pos, content: ins, length },
                        );
                        ops.push(op);
                        if appended {
                            let mut snap = prev_snap;
                            extend_snapshot(&mut snap, ins_text.as_str());
                            proof {
                                assert(snap.content@ =~= c@) by {
                                    assert(prev.skip(prev.len() as int)
                                        =~= Seq::<char>::empty());
                                    assert(prev.take(prev.len() as int) =~= prev);
                                }
                            }
                            update_prev_state(&mut self.snapshots, path, snap);
                        } else {
                            let snap = Self::rebuild_snapshot(&c, nb, prev_snap.byte_len);
                            update_prev_state(&mut self.snapshots, path, snap);
                        }
                        proof {
                            assert(ops@ =~= seq![op]);
                            assert(self.history@ =~= old(self).history@ + ops@);
                        }
                        ops
                    },
                    TextDiff::Delete { offset, length } => {
                        let (line, col) = line_col_from_snapshot(&prev_snap, offset);
                        let lam = self.clock.tick();
                        let pos = Position::new(line, col, offset, self.actor_id.clone(), lam);
                        let op = self.emit(path, OperationType::Delete { position: pos, length });
                        ops.push(op);
                        let snap = Self::rebuild_snapshot(&c, nb, prev_snap.byte_len);
                        update_prev_state(&mut self.snapshots, path, snap);
                        proof {
                            assert(ops@ =~= seq![op]);
                            assert(self.history@ =~= old(self).history@ + ops@);
                        }
                        ops
                    },
                    TextDiff::Replace { offset, old_content, new_content } => {
                        let (line, col) = line_col_from_snapshot(&prev_snap, offset);
                        let lam = self.clock.tick();
                        let pos = Position::new(line, col, offset, self.actor_id.clone(), lam);
                        let op = self.emit(
                            path,
                            OperationType::Replace { position: pos, old_content, new_content },
                        );
                        ops.push(op);
                        let snap = Self::rebuild_snapshot(&c, nb, prev_snap.byte_len);
                        update_prev_state(&mut self.snapshots, path, snap);
                        proof {
                            assert(ops@ =~= seq![op]);
                            assert(self.history@ =~= old(self).history@ + ops@);
                        }
                        ops
                    },
                }
            },
        }
    }

    /// Rebuilds the snapshot after a non-append edit: a minimal one for a
    /// small change in byte length, a fully indexed one otherwise.
    fn rebuild_snapshot(c: &String, nb: usize, prev_bytes: u64) -> (snap: FileSnapshot)
        requires
            nb == encode_utf8(c@).len(),
        ensures
            snap.wf(),
            snap.content@ == c@,
            snap.byte_len == nb,
    {
        let small = if nb as u64 >= prev_bytes {
            nb as u64 - prev_bytes <= 10
        } else {
            prev_bytes - nb as u64 <= 10
        };
        if small {
            build_snapshot_minimal(c.as_str())
        } else {
            build_snapshot_fast(c.as_str())
        }
    }

    /// Handles a removal notification. A temp path only loses its cached
    /// content; a tracked path loses snapshot and last-operation record
    /// and one `FileDelete` is emitted, whose parent is the recorded id —
    /// the record is then cleared, so the file's causal chain ends here.
    pub fn on_remove(&mut self, path: &String) -> (ops: Vec<Operation>)
        requires
            old(self).wf(),
        ensures
            final(self).wf(),
            final(self).history@ == old(self).history@ + ops@,
            final(self).clock == old(self).clock,
            final(self).actor_id == old(self).actor_id,
            final(self).rename_source == old(self).rename_source,
            final(self).rapid_seen == old(self).rapid_seen,
            final(self).rapid_sequence == old(self).rapid_sequence,
            final(self).rapid_disabled == old(self).rapid_disabled,
            final(self).ops_processed == old(self).ops_processed,
            final(self).temp_cache@ == old(self).temp_cache@.remove(path@),
            temp_path(path@) || !trackable(path@) ==> ops@.len() == 0 && final(self).snapshots
                == old(self).snapshots && final(self).last_ops == old(self).last_ops,
            !temp_path(path@) && trackable(path@) ==> ops@.len() == 1 && (
            ops@[0].op_type is FileDelete) && ops@[0].file_path@ == path@
                && ops@[0].parent_ops@ == singleton_parents(old(self).last_ops@, path@) && final(self).snapshots@ == old(self).snapshots@.remove(path@) && final(self).last_ops@ == old(self).last_ops@.remove(path@),
    {
        let mut ops: Vec<Operation> = Vec::new();
        assert(ops@ =~= Seq::<Operation>::empty());
        self.temp_cache.remove(path);
        if is_temp_path(path.as_str()) {
            assert(self.history@ =~= old(self).history@ + ops@);
            return ops;
        }
        if !should_track(path) {
            assert(self.history@ =~= old(self).history@ + ops@);
            return ops;
        }
        self.snapshots.remove(path);
        let op = self.emit(path, OperationType::FileDelete);
        self.last_ops.remove(path);
        proof {
            assert(self.last_ops@ =~= old(self).last_ops@.remove(path@));
            lemma_index_shrink(self.last_ops@, old(self).last_ops@.insert(path@, op.id),
                self.history@);
        }
        ops.push(op);
        proof {
            assert(ops@ =~= seq![op]);
            assert(self.history@ =~= old(self).history@ + ops@);
        }
        ops
    }

    /// Rapid change acknowledgement: no I/O, only the process-wide
    /// sequence counter. An event on a path seen within the dedup window
    /// is suppressed; otherwise the path's sequence is refreshed and the
    /// caller proceeds to full detection. With rapid mode disabled every
    /// event proceeds.
    pub fn rapid_check(&mut self, path: &String) -> (proceed: bool)
        requires
            old(self).wf(),
            old(self).rapid_sequence < u64::MAX,
        ensures
            final(self).wf(),
            final(self).history@ == old(self).history@,
            final(self).snapshots == old(self).snapshots,
            final(self).last_ops == old(self).last_ops,
            final(self).temp_cache == old(self).temp_cache,
            final(self).clock == old(self).clock,
            final(self).actor_id == old(self).actor_id,
            final(self).rename_source == old(self).rename_source,
            final(self).rapid_disabled == old(self).rapid_disabled,
            final(self).ops_processed == old(self).ops_processed,
            old(self).rapid_disabled ==> proceed && final(self).rapid_seen == old(self).rapid_seen
                && final(self).rapid_sequence == old(self).rapid_sequence,
            !old(self).rapid_disabled ==> ({
                let s = old(self).rapid_sequence;
                &&& final(self).rapid_sequence == s + 1
                &&& proceed == !(old(self).rapid_seen@.contains_key(path@) && s - old(self).rapid_seen@[path@] < RAPID_DEDUP_WINDOW)
                &&& (proceed ==> final(self).rapid_seen@ == old(self).rapid_seen@.insert(path@, s))
                &&& (!proceed ==> final(self).rapid_seen@ == old(self).rapid_seen@)
            }),
    {
        if self.rapid_disabled {
            return true;
        }
        let s = self.rapid_sequence;
        self.rapid_sequence = s + 1;
        let suppressed = match self.rapid_seen.get(path) {
            Some(cached) => s - *cached < RAPID_DEDUP_WINDOW,
            None => false,
        };
        if suppressed {
            return false;
        }
        self.rapid_seen.insert(path.clone(), s);
        proof {
            assert forall|p: Seq<char>| self.rapid_seen@.contains_key(p) implies (
            #[trigger] self.rapid_seen@[p]) <= self.rapid_sequence by {
                if p != path@ {
                    assert(old(self).rapid_seen@.contains_key(p));
                }
            }
        }
        true
    }

    /// Dispatch for a create/modify notification: temp artifacts have
    /// their content cached, ignored paths are skipped, and otherwise the
    /// rapid detector decides whether full detection runs.
    pub fn on_path_event(&mut self, path: &String) -> (action: PathAction)
        requires
            old(self).wf(),
            old(self).rapid_sequence < u64::MAX,
        ensures
            final(self).wf(),
            final(self).history@ == old(self).history@,
            final(self).snapshots == old(self).snapshots,
            final(self).last_ops == old(self).last_ops,
            final(self).temp_cache == old(self).temp_cache,
            final(self).clock == old(self).clock,
            temp_path(path@) ==> (action is CacheTemp) && final(self).rapid_seen == old(self).rapid_seen,
            !temp_path(path@) && !trackable(path@) ==> (action is Skip) && final(self).rapid_seen
                == old(self).rapid_seen,
            !temp_path(path@) && trackable(path@) && old(self).rapid_disabled ==> (
            action is Detect),
            !temp_path(path@) && trackable(path@) && !old(self).rapid_disabled ==> ((
            action is Detect) == !(old(self).rapid_seen@.contains_key(path@) && old(self).rapid_sequence - old(self).rapid_seen@[path@] < RAPID_DEDUP_WINDOW)) && ((
            action is Skip) == !(action is Detect)),
    {
        if is_temp_path(path.as_str()) {
            return PathAction::CacheTemp;
        }
        if !should_track(path) {
            return PathAction::Skip;
        }
        if self.rapid_check(path) {
            PathAction::Detect
        } else {
            PathAction::Skip
        }
    }

    /// Captures the content read from a temp artifact, for recovery when
    /// a later rename reveals its final path. The cache stays bounded;
    /// the fresh entry always survives.
    pub fn store_temp_content(&mut self, path: &String, content: String)
        requires
            old(self).wf(),
        ensures
            final(self).wf(),
            final(self).history@ == old(self).history@,
            final(self).snapshots == old(self).snapshots,
            final(self).last_ops == old(self).last_ops,
            final(self).clock == old(self).clock,
            final(self).rename_source == old(self).rename_source,
            !temp_path(path@) ==> final(self).temp_cache == old(self).temp_cache,
            temp_path(path@) ==> final(self).temp_cache@.contains_key(path@) && final(self).temp_cache@[path@] == content && forall|k: Seq<char>|
                #[trigger] final(self).temp_cache@.contains_key(k) && k != path@ ==> old(self).temp_cache@.contains_key(k) && final(self).temp_cache@[k] == old(self).temp_cache@[k],
    {
        if !is_temp_path(path.as_str()) {
            return ;
        }
        if self.temp_cache.len() >= TEMP_CACHE_LIMIT {
            self.temp_cache.evict_to(TEMP_CACHE_LIMIT - 1);
        }
        let ghost mid = self.temp_cache@;
        self.temp_cache.insert(path.clone(), content);
        proof {
            assert forall|k: Seq<char>|
                #[trigger] self.temp_cache@.contains_key(k) && k != path@ implies old(self).temp_cache@.contains_key(k) && self.temp_cache@[k] == old(self).temp_cache@[k] by {
                assert(mid.contains_key(k) && mid[k] == old(self).temp_cache@[k]);
            }
        }
    }

    /// Remembers (or clears) the pending rename-from path.
    pub fn remember_rename_source(&mut self, path: Option<String>)
        requires
            old(self).wf(),
        ensures
            final(self).wf(),
            final(self).rename_source == path,
            final(self).history@ == old(self).history@,
            final(self).snapshots == old(self).snapshots,
            final(self).last_ops == old(self).last_ops,
            final(self).temp_cache == old(self).temp_cache,
            final(self).clock == old(self).clock,
    {
        self.rename_source = path;
    }

    /// Takes the pending rename-from path, clearing the buffer.
    pub fn take_rename_source(&mut self) -> (r: Option<String>)
        requires
            old(self).wf(),
        ensures
            final(self).wf(),
            r == old(self).rename_source,
            final(self).rename_source is None,
            final(self).history@ == old(self).history@,
            final(self).snapshots == old(self).snapshots,
            final(self).last_ops == old(self).last_ops,
            final(self).temp_cache == old(self).temp_cache,
            final(self).clock == old(self).clock,
    {
        let r = core::option::Option::take(&mut self.rename_source);
        r
    }

    /// The emission sink's decision once the external log's `append`
    /// returned: publish exactly when the operation was newly inserted —
    /// a duplicate is never republished — and advance the throughput
    /// counter. The second result says a throughput snapshot is due
    /// (every hundredth operation).
    pub fn after_append(&mut self, appended: bool) -> (r: (bool, bool))
        requires
            old(self).wf(),
        ensures
            final(self).wf(),
            r.0 == appended,
            final(self).history@ == old(self).history@,
            final(self).snapshots == old(self).snapshots,
            final(self).last_ops == old(self).last_ops,
            final(self).temp_cache == old(self).temp_cache,
            final(self).clock == old(self).clock,
            !appended ==> final(self).ops_processed == old(self).ops_processed && !r.1,
            appended ==> final(self).ops_processed as int == if old(self).ops_processed
                < u64::MAX {
                old(self).ops_processed + 1
            } else {
                old(self).ops_processed as int
            },
            appended ==> r.1 == (final(self).ops_processed % 100 == 0),
    {
        if !appended {
            return (false, false);
        }
        if self.ops_processed < u64::MAX {
            self.ops_processed = self.ops_processed + 1;
        }
        (true, self.ops_processed % 100 == 0)
    }
}

/// The map after a binding moved from `from` to `to`.
pub open spec fn moved_entry<V>(m: Map<Seq<char>, V>, from: Seq<char>, to: Seq<char>) -> Map<
    Seq<char>,
    V,
> {
    if m.contains_key(from) {
        m.remove(from).insert(to, m[from])
    } else {
        m
    }
}

/// A path takes part in a rename as a real file: trackable and no temp
/// artifact.
pub open spec fn rename_eligible(p: Seq<char>) -> bool {
    trackable(p) && !temp_path(p)
}

impl Detector {
    /// Pairs a rename-from with a rename-to and performs the rename
    /// transition. The second result, when set, names a path the caller
    /// should read and feed to `detect_operations` as a plain write.
    ///
    /// Between real tracked files the snapshot and the last-operation
    /// record move with the file and exactly one `FileRename` is emitted —
    /// never a `FileDelete`/`FileCreate` pair — whose parent continues the
    /// renamed file's chain. An editor atomic save (temp artifact renamed
    /// onto a tracked file) recovers the captured temp content and runs
    /// the diff engine against it, so a previously tracked file sees a
    /// single edit and never a `FileCreate`.
    pub fn on_rename(&mut self, old_path: &String, new_path: &String) -> (r: (
        Vec<Operation>,
        Option<String>,
    ))
        requires
            old(self).wf(),
            old(self).clock.value() < u64::MAX,
        ensures
            final(self).wf(),
            final(self).history@ == old(self).history@ + r.0@,
            final(self).rename_source is None,
            final(self).actor_id == old(self).actor_id,
            final(self).rapid_seen == old(self).rapid_seen,
            final(self).rapid_sequence == old(self).rapid_sequence,
            final(self).rapid_disabled == old(self).rapid_disabled,
            final(self).ops_processed == old(self).ops_processed,
            ({
                let oldp = old_path@;
                let newp = new_path@;
                let cache0 = if oldp == newp {
                    old(self).temp_cache@
                } else {
                    moved_entry(old(self).temp_cache@, oldp, newp)
                };
                // an editor atomic save: a temp artifact lands on a real path
                &&& (temp_path(oldp) && !temp_path(newp) ==> {
                    &&& (!trackable(newp) ==> r.0@.len() == 0 && r.1 is None && final(self).snapshots == old(self).snapshots && final(self).last_ops == old(self).last_ops && final(self).clock == old(self).clock && final(self).temp_cache@
                        == cache0.remove(newp))
                    &&& (trackable(newp) && !cache0.contains_key(newp) ==> r.0@.len() == 0 && (
                    r.1 matches Some(p) && p@ == newp) && final(self).snapshots == old(self).snapshots && final(self).last_ops == old(self).last_ops && final(self).clock
                        == old(self).clock && final(self).temp_cache@ == cache0)
                    &&& (trackable(newp) && cache0.contains_key(newp) ==> ({
                        let recovered = cache0[newp]@;
                        &&& r.1 is None
                        &&& final(self).temp_cache@ == cache0.remove(newp)
                        &&& r.0@.len() <= 1
                        &&& (content_fits(recovered) && old(self).snapshots@.contains_key(newp)
                            ==> {
                            &&& (r.0@.len() == 0 <==> recovered == old(self).snapshots@[newp].content@)
                            &&& (r.0@.len() == 1 ==> edit_applies(
                                old(self).snapshots@[newp].content@,
                                r.0@[0].op_type,
                                recovered,
                            ) && !(r.0@[0].op_type is FileCreate) && r.0@[0].file_path@ == newp)
                        })
                    }))
                })
                // a real tracked file moved: its state follows it and one
                // rename is emitted in place of any delete/create pair
                &&& (rename_eligible(oldp) && rename_eligible(newp) ==> ({
                    let snaps1 = moved_entry(old(self).snapshots@, oldp, newp);
                    let last1 = moved_entry(old(self).last_ops@, oldp, newp);
                    &&& r.0@.len() == 1
                    &&& r.1 is None
                    &&& (r.0@[0].op_type matches OperationType::FileRename {
                        old_path: po,
                        new_path: pn,
                    } && po@ == oldp && pn@ == newp)
                    &&& r.0@[0].file_path@ == newp
                    &&& r.0@[0].parent_ops@ == singleton_parents(last1, newp)
                    &&& final(self).snapshots@ == snaps1
                    &&& final(self).last_ops@ == last1.insert(newp, r.0@[0].id)
                    &&& final(self).clock == old(self).clock
                    &&& final(self).temp_cache@ == cache0
                }))
                // only the destination is a real file: process it as a write
                &&& (!rename_eligible(oldp) && !temp_path(oldp) && rename_eligible(newp)
                    ==> r.0@.len() == 0 && (r.1 matches Some(p) && p@ == newp) && final(self).snapshots == old(self).snapshots && final(self).last_ops == old(self).last_ops)
                // the file left trackable space: from our view it is deleted
                &&& (rename_eligible(oldp) && !rename_eligible(newp) ==> {
                    &&& r.1 is None
                    &&& r.0@.len() == 1
                    &&& (r.0@[0].op_type is FileDelete)
                    &&& r.0@[0].file_path@ == oldp
                    &&& r.0@[0].parent_ops@ == singleton_parents(old(self).last_ops@, oldp)
                    &&& final(self).snapshots@ == old(self).snapshots@.remove(oldp)
                    &&& final(self).last_ops@ == old(self).last_ops@.remove(oldp)
                    &&& final(self).temp_cache@ == cache0.remove(oldp)
                })
                // neither side is a real tracked file: nothing is emitted
                &&& (!rename_eligible(oldp) && !rename_eligible(newp) && !(temp_path(oldp)
                    && !temp_path(newp)) ==> r.0@.len() == 0 && r.1 is None && final(self).snapshots == old(self).snapshots && final(self).last_ops == old(self).last_ops)
            }),
    {
        self.rename_source = None;
        let same = crate::strutil::str_eq(old_path.as_str(), new_path.as_str());
        if !same {
            self.temp_cache.move_entry(old_path, new_path.clone());
        }
        let ghost cache0 = self.temp_cache@;
        let old_temp = is_temp_path(old_path.as_str());
        let new_temp = is_temp_path(new_path.as_str());
        let mut ops: Vec<Operation> = Vec::new();
        assert(ops@ =~= Seq::<Operation>::empty());
        if old_temp && !new_temp {
            if !should_track(new_path) {
                self.temp_cache.remove(new_path);
                assert(self.history@ =~= old(self).history@ + ops@);
                return (ops, None);
            }
            match self.temp_cache.remove(new_path) {
                Some(content) => {
                    let ops2 = self.detect_operations(new_path, Some(content));
                    proof {
                        assert(self.history@ =~= old(self).history@ + ops2@);
                    }
                    return (ops2, None);
                },
                None => {
                    proof {
                        assert(self.temp_cache@ =~= cache0);
                        assert(self.history@ =~= old(self).history@ + ops@);
                    }
                    return (ops, Some(new_path.clone()));
                },
            }
        }
        let old_ok = should_track(old_path) && !old_temp;
        let new_ok = should_track(new_path) && !new_temp;
        if old_ok && new_ok {
            self.snapshots.move_entry(old_path, new_path.clone());
            self.last_ops.move_entry(old_path, new_path.clone());
            proof {
                assert forall|p: Seq<char>| self.last_ops@.contains_key(p) implies exists|i: int|
                    0 <= i < self.history@.len() && (#[trigger] self.history@[i]).id
                        == self.last_ops@[p] by {
                    let src = if p == new_path@ && old(self).last_ops@.contains_key(old_path@) {
                        old_path@
                    } else {
                        p
                    };
                    assert(old(self).last_ops@.contains_key(src) && self.last_ops@[p] == old(self).last_ops@[src]);
                    let w = choose|i: int|
                        0 <= i < self.history@.len() && (#[trigger] self.history@[i]).id == old(self).last_ops@[src];
                    assert(self.history@[w].id == self.last_ops@[p]);
                }
                assert forall|p: Seq<char>| self.snapshots@.contains_key(p) implies (
                #[trigger] self.snapshots@[p]).wf() && self.snapshots@[p].byte_len
                    <= MAX_TRACKED_FILE_BYTES by {
                    let src = if p == new_path@ && old(self).snapshots@.contains_key(old_path@) {
                        old_path@
                    } else {
                        p
                    };
                    assert(old(self).snapshots@.contains_key(src) && self.snapshots@[p] == old(self).snapshots@[src]);
                }
            }
            let op = self.emit(
                new_path,
                OperationType::FileRename {
                    old_path: old_path.clone(),
                    new_path: new_path.clone(),
                },
            );
            ops.push(op);
            proof {
                assert(ops@ =~= seq![op]);
                assert(self.history@ =~= old(self).history@ + ops@);
            }
            return (ops, None);
        }
        if !old_ok && new_ok {
            assert(self.history@ =~= old(self).history@ + ops@);
            return (ops, Some(new_path.clone()));
        }
        if old_ok && !new_ok {
            let ops2 = self.on_remove(old_path);
            proof {
                assert(self.history@ =~= old(self).history@ + ops2@);
            }
            return (ops2, None);
        }
        assert(self.history@ =~= old(self).history@ + ops@);
        (ops, None)
    }
}

/// Dropping an entry from the index keeps every recorded id emitted.
proof fn lemma_index_shrink(
    m_small: Map<Seq<char>, u128>,
    m_big: Map<Seq<char>, u128>,
    h: Seq<Operation>,
)
    requires
        index_ids_emitted(m_big, h),
        forall|p: Seq<char>|
            #[trigger] m_small.contains_key(p) ==> m_big.contains_key(p) && m_small[p] == m_big[p],
    ensures
        index_ids_emitted(m_small, h),
{
    assert forall|p: Seq<char>| m_small.contains_key(p) implies exists|i: int|
        0 <= i < h.len() && (#[trigger] h[i]).id == m_small[p] by {
        let w = choose|i: int| 0 <= i < h.len() && (#[trigger] h[i]).id == m_big[p];
        assert(h[w].id == m_small[p]);
    }
}

/// Inserts a snapshot for `path`, evicting oldest entries first when the
/// store has grown past its slack. The fresh snapshot always survives.
fn update_prev_state(snapshots: &mut PathMap<FileSnapshot>, path: &String, snap: FileSnapshot)
    requires
        old(snapshots).wf(),
        old(snapshots).spec_len() <= PREV_STATE_LIMIT + SNAPSHOT_EVICT_SLACK,
    ensures
        final(snapshots).wf(),
        final(snapshots).spec_len() <= PREV_STATE_LIMIT + SNAPSHOT_EVICT_SLACK,
        final(snapshots)@.contains_key(path@),
        final(snapshots)@[path@] == snap,
        forall|k: Seq<char>|
            #[trigger] final(snapshots)@.contains_key(k) && k != path@ ==> old(
                snapshots,
            )@.contains_key(k) && final(snapshots)@[k] == old(snapshots)@[k],
        old(snapshots).spec_len() < PREV_STATE_LIMIT + SNAPSHOT_EVICT_SLACK ==> final(snapshots)@
            == old(snapshots)@.insert(path@, snap),
{
    if snapshots.len() >= PREV_STATE_LIMIT + SNAPSHOT_EVICT_SLACK {
        snapshots.evict_to(PREV_STATE_LIMIT);
    }
    let ghost mid = snapshots@;
    snapshots.insert(path.clone(), snap);
    proof {
        assert forall|k: Seq<char>|
            snapshots@.contains_key(k) && k != path@ implies old(snapshots)@.contains_key(k)
            && snapshots@[k] == old(snapshots)@[k] by {
            assert(mid.contains_key(k) && mid[k] == old(snapshots)@[k]);
        }
    }
}

/// Lamport monotonicity: of any two operations with a position, emitted
/// in that order by this detector, the later one's Lamport time is
/// strictly greater.
pub proof fn lemma_lamport_monotonic(d: &Detector, i: int, j: int, li: u64, lj: u64)
    requires
        d.wf(),
        0 <= i < j < d.history@.len(),
        d.history@[i].op_type.position_lamport() == Some(li),
        d.history@[j].op_type.position_lamport() == Some(lj),
    ensures
        li < lj,
{
}

/// Ignored-path invariance: no operation is ever emitted with a path
/// whose components intersect the ignore set — nor for a temp artifact.
pub proof fn lemma_ignored_path_invariance(d: &Detector, i: int)
    requires
        d.wf(),
        0 <= i < d.history@.len(),
    ensures
        trackable(d.history@[i].file_path@),
        !temp_path(d.history@[i].file_path@),
{
}

/// Bounded memory: after any sequence of events, the snapshot store holds
/// at most `PREV_STATE_LIMIT + SNAPSHOT_EVICT_SLACK` entries and the
/// temp-content cache at most `TEMP_CACHE_LIMIT`.
pub proof fn lemma_bounded_memory(d: &Detector)
    requires
        d.wf(),
    ensures
        d.snapshots.spec_len() <= PREV_STATE_LIMIT + SNAPSHOT_EVICT_SLACK,
        d.temp_cache.spec_len() <= TEMP_CACHE_LIMIT,
{
}

/// Causal soundness of parent links: an operation carries at most one
/// parent, and a parent is always the id of an operation emitted earlier.
/// Which id an operation receives — the recorded predecessor for its
/// path, or none after a delete, a rename away or an eviction — is fixed
/// by the contracts of the emitting functions.
pub proof fn lemma_parents_are_earlier_ids(d: &Detector, j: int)
    requires
        d.wf(),
        0 <= j < d.history@.len(),
        d.history@[j].parent_ops@.len() == 1,
    ensures
        exists|i: int|
            0 <= i < j && (#[trigger] d.history@[i]).id == d.history@[j].parent_ops@[0],
{
    assert((d.history@[j]).parent_ops@.len() == 1);
}

/// Whether an operation's total wall time falls in the display-suppressed
/// window that brackets editor atomic-save delays. Suppression affects
/// only the operator-visible print stream, never emission.
pub fn display_suppressed(total_us: u64) -> (r: bool)
    ensures
        r == (5000 <= total_us <= 15000),
{
    5000 <= total_us && total_us <= 15000
}

} // verus!
