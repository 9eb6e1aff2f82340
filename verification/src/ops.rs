//! The operation data model: positions, operation kinds, and operations.
//!
//! An operation is the unit of output of the detection pipeline. It carries
//! a fresh 128-bit id, a wall-clock timestamp (informational only), the
//! acting process's id, the file it concerns, the edit itself, and the ids
//! of the operations it causally depends on.

use vstd::prelude::*;
use crate::strutil::{dec_digits, u64_to_string};
use vstd::string::*;

verus! {

/// A CRDT-resilient cursor. Stable identity is `(actor_id, lamport, offset)`;
/// line and column are informational and recomputed at emission time.
pub struct Position {
    /// Lamport timestamp taken when the operation was built.
    pub lamport_timestamp: u64,
    /// The process that emitted the operation.
    pub actor_id: String,
    /// Character offset into the prior snapshot.
    pub offset: usize,
    /// 1-based line, informational.
    pub line: usize,
    /// 1-based column, informational.
    pub column: usize,
}

/// What `Position::stable_id` renders: actor, Lamport time and offset,
/// joined by colons.
pub open spec fn stable_id_chars(actor: Seq<char>, lamport: u64, offset: u64) -> Seq<char> {
    actor + seq![':'] + dec_digits(lamport as nat) + seq![':'] + dec_digits(offset as nat)
}

impl Position {
    pub fn new(line: usize, column: usize, offset: usize, actor_id: String, lamport: u64) -> (r:
        Self)
        ensures
            r.lamport_timestamp == lamport,
            r.actor_id@ == actor_id@,
            r.offset == offset,
            r.line == line,
            r.column == column,
    {
        Position { lamport_timestamp: lamport, actor_id, offset, line, column }
    }

    /// A stable identifier that survives code transformations.
    pub fn stable_id(&self) -> (r: String)
        ensures
            r@ == stable_id_chars(self.actor_id@, self.lamport_timestamp, self.offset as u64),
    {
        let mut out = self.actor_id.clone();
        out.append(":");
        let lam = u64_to_string(self.lamport_timestamp);
        out.append(lam.as_str());
        out.append(":");
        let off = u64_to_string(self.offset as u64);
        out.append(off.as_str());
        proof {
            reveal_strlit(":");
            assert(out@ =~= stable_id_chars(
                self.actor_id@,
                self.lamport_timestamp,
                self.offset as u64,
            ));
        }
        out
    }
}

impl Clone for Position {
    fn clone(&self) -> (r: Self)
        ensures
            r.lamport_timestamp == self.lamport_timestamp,
            r.actor_id@ == self.actor_id@,
            r.offset == self.offset,
            r.line == self.line,
            r.column == self.column,
    {
        Position {
            lamport_timestamp: self.lamport_timestamp,
            actor_id: self.actor_id.clone(),
            offset: self.offset,
            line: self.line,
            column: self.column,
        }
    }
}

/// The closed set of edits the pipeline can emit.
pub enum OperationType {
    Insert { position: Position, content: String, length: usize },
    Delete { position: Position, length: usize },
    Replace { position: Position, old_content: String, new_content: String },
    FileCreate { content: String },
    FileDelete,
    FileRename { old_path: String, new_path: String },
}

impl OperationType {
    /// The position carried by the edit, if it has one. Only `Insert`,
    /// `Delete` and `Replace` carry a position; the file-level operations
    /// do not advance the Lamport clock.
    pub open spec fn position_lamport(&self) -> Option<u64> {
        match self {
            OperationType::Insert { position, .. } => Some(position.lamport_timestamp),
            OperationType::Delete { position, .. } => Some(position.lamport_timestamp),
            OperationType::Replace { position, .. } => Some(position.lamport_timestamp),
            _ => None,
        }
    }

    /// Whether the edit is a character-level one (carries a position).
    pub open spec fn is_char_edit(&self) -> bool {
        self.position_lamport() is Some
    }
}

/// The unit of output.
pub struct Operation {
    /// Globally unique 128-bit identifier.
    pub id: u128,
    /// Wall-clock milliseconds at build time, informational only.
    pub timestamp_ms: i64,
    /// The process that emitted the operation.
    pub actor_id: String,
    /// The file the operation concerns.
    pub file_path: String,
    /// The edit itself.
    pub op_type: OperationType,
    /// Ids of the operations this one causally depends on: locally, always
    /// the id of the last operation emitted for this file, empty on the
    /// first.
    pub parent_ops: Vec<u128>,
}

/// Relies on uuid::Uuid::new_v4: a freshly drawn random 128-bit value.
/// Nothing can be promised of a random draw.
#[verifier::external_body]
fn fresh_op_id() -> u128 {
    uuid::Uuid::new_v4().as_u128()
}

/// Relies on chrono::Utc::now: the wall-clock time in milliseconds.
/// Nothing can be promised of the clock.
#[verifier::external_body]
pub(crate) fn now_millis() -> i64 {
    chrono::Utc::now().timestamp_millis()
}

impl Operation {
    /// Builds an operation with a fresh id, the current wall-clock time,
    /// and no parents yet.
    pub fn new(file_path: String, op_type: OperationType, actor_id: String) -> (r: Self)
        ensures
            r.actor_id@ == actor_id@,
            r.file_path@ == file_path@,
            r.op_type == op_type,
            r.parent_ops@ == Seq::<u128>::empty(),
    {
        Operation {
            id: fresh_op_id(),
            timestamp_ms: now_millis(),
            actor_id,
            file_path,
            op_type,
            parent_ops: Vec::new(),
        }
    }

    /// Replaces the parent set.
    pub fn with_parents(self, parents: Vec<u128>) -> (r: Self)
        ensures
            r.id == self.id,
            r.timestamp_ms == self.timestamp_ms,
            r.actor_id@ == self.actor_id@,
            r.file_path@ == self.file_path@,
            r.op_type == self.op_type,
            r.parent_ops@ == parents@,
    {
        Operation {
            id: self.id,
            timestamp_ms: self.timestamp_ms,
            actor_id: self.actor_id,
            file_path: self.file_path,
            op_type: self.op_type,
            parent_ops: parents,
        }
    }

    /// The Lamport timestamp of the operation's position, where it has one.
    pub fn lamport(&self) -> (r: Option<u64>)
        ensures
            r == self.op_type.position_lamport(),
    {
        match &self.op_type {
            OperationType::Insert { position, .. } => Some(position.lamport_timestamp),
            OperationType::Delete { position, .. } => Some(position.lamport_timestamp),
            OperationType::Replace { position, .. } => Some(position.lamport_timestamp),
            _ => None,
        }
    }
}

} // verus!
