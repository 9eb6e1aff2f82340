//! Editor-protocol change events and their translation to operations.
//!
//! When an editor reports edits directly, each text edit maps to one
//! operation: an empty range inserts, empty new text deletes, and
//! anything else replaces. Per-document version numbers deduplicate
//! stale events.

use vstd::prelude::*;
use vstd::string::*;
use crate::clock::LamportClock;
use crate::ops::{Operation, OperationType, Position};
use crate::pathmap::PathMap;
use crate::strutil::str_to_chars;

verus! {

/// A position in a document: 0-based line and character.
pub struct LspPosition {
    pub line: u32,
    pub character: u32,
}

/// A half-open range of text to replace.
pub struct LspRange {
    pub start: LspPosition,
    pub end: LspPosition,
}

/// One text edit: a range and its replacement text.
pub struct LspTextEdit {
    pub range: LspRange,
    pub text: String,
}

/// A change notification: the document, its edits, and its version.
pub struct LspChangeEvent {
    pub uri: String,
    pub changes: Vec<LspTextEdit>,
    pub version: i32,
}

/// The filesystem path behind a `file://` URI; other text passes
/// through unchanged.
pub open spec fn uri_path_of(uri: Seq<char>) -> Seq<char> {
    if uri.len() >= 7 && uri.take(7) == "file://"@ {
        uri.skip(7)
    } else {
        uri
    }
}

/// Strips the `file://` scheme from a URI.
pub fn uri_to_path(uri: &str) -> (r: String)
    ensures
        r@ == uri_path_of(uri@),
{
    let chars = str_to_chars(uri);
    let scheme = str_to_chars("file://");
    if crate::strutil::starts_with_chars(&chars, &scheme) {
        proof {
            reveal_strlit("file://");
        }
        let rest = crate::strutil::chars_range(&chars, 7, chars.len());
        crate::strutil::string_from_chars(&rest)
    } else {
        proof {
            reveal_strlit("file://");
            if uri@.len() >= 7 {
                assert(uri@.take("file://"@.len() as int) == uri@.take(7));
            }
        }
        uri.to_owned()
    }
}

/// The character length an edit's range spans: exact within one line,
/// approximated as one hundred across lines.
pub open spec fn range_length_of(range: &LspRange) -> int {
    if range.start.line == range.end.line {
        range.end.character - range.start.character
    } else {
        100
    }
}

/// Character length of a range.
pub fn calculate_range_length(range: &LspRange) -> (r: usize)
    requires
        range.start.line == range.end.line ==> range.start.character <= range.end.character,
    ensures
        r == range_length_of(range),
{
    if range.start.line == range.end.line {
        (range.end.character - range.start.character) as usize
    } else {
        100
    }
}

/// Translates editor change events into operations, deduplicating by
/// document version and stamping each edit from its own Lamport clock.
pub struct LspDetector {
    /// This process's stable actor id.
    pub actor_id: String,
    /// The clock stamping translated edits.
    pub clock: LamportClock,
    /// Last processed version per document URI.
    pub versions: PathMap<i32>,
}

impl LspDetector {
    pub fn new(actor_id: String) -> (r: Self)
        ensures
            r.actor_id@ == actor_id@,
            r.clock.value() == 0,
            r.versions@ == Map::<Seq<char>, i32>::empty(),
            r.versions.wf(),
    {
        LspDetector { actor_id, clock: LamportClock::new(), versions: PathMap::new() }
    }

    /// Whether an event for `uri` at `version` is new; a version at or
    /// below the last processed one is a duplicate. Processing records
    /// the version.
    pub fn should_process(&mut self, uri: &String, version: i32) -> (r: bool)
        requires
            old(self).versions.wf(),
        ensures
            final(self).versions.wf(),
            final(self).clock == old(self).clock,
            final(self).actor_id == old(self).actor_id,
            r == !(old(self).versions@.contains_key(uri@) && version <= old(
                self,
            ).versions@[uri@]),
            r ==> final(self).versions@ == old(self).versions@.insert(uri@, version),
            !r ==> final(self).versions@ == old(self).versions@,
    {
        match self.versions.get(uri) {
            Some(last) => {
                if version <= *last {
                    return false;
                }
            },
            None => {},
        }
        self.versions.insert(uri.clone(), version);
        true
    }

    /// Translates one text edit into an operation: an empty range means
    /// an insert, empty new text a delete, anything else a replace
    /// carrying a textual description of the replaced range. Positions
    /// are 1-based; the edit takes one Lamport tick.
    pub fn convert_edit_to_operation(&mut self, path: &String, edit: &LspTextEdit) -> (op:
        Operation)
        requires
            old(self).clock.value() < u64::MAX,
            edit.range.start.line == edit.range.end.line ==> edit.range.start.character
                <= edit.range.end.character,
        ensures
            final(self).clock.value() == old(self).clock.value() + 1,
            final(self).actor_id == old(self).actor_id,
            final(self).versions == old(self).versions,
            op.file_path@ == path@,
            op.actor_id@ == old(self).actor_id@,
            op.op_type.position_lamport() == Some(old(self).clock.value()),
            edit.range.start.line == edit.range.end.line && edit.range.start.character
                == edit.range.end.character ==> (
            op.op_type matches OperationType::Insert { content, length, .. } && content@
                == edit.text@ && length == edit.text@.len()),
            !(edit.range.start.line == edit.range.end.line && edit.range.start.character
                == edit.range.end.character) && edit.text@.len() == 0 ==> (
            op.op_type matches OperationType::Delete { length, .. } && length == range_length_of(
                &edit.range,
            )),
            !(edit.range.start.line == edit.range.end.line && edit.range.start.character
                == edit.range.end.character) && edit.text@.len() > 0 ==> (
            op.op_type matches OperationType::Replace { new_content, .. } && new_content@
                == edit.text@),
    {
        let start_line = edit.range.start.line as usize;
        let start_col = edit.range.start.character as usize;
        let line = if start_line < usize::MAX { start_line + 1 } else { start_line };
        let col = if start_col < usize::MAX { start_col + 1 } else { start_col };
        let lamport = self.clock.tick();
        let position = Position::new(line, col, 0, self.actor_id.clone(), lamport);
        let text_chars = str_to_chars(edit.text.as_str());
        let op_type = if edit.range.start.line == edit.range.end.line && edit.range.start.character
            == edit.range.end.character {
            let length = text_chars.len();
            OperationType::Insert { position, content: edit.text.clone(), length }
        } else if text_chars.len() == 0 {
            let length = calculate_range_length(&edit.range);
            OperationType::Delete { position, length }
        } else {
            let desc = String::from_str("(edited range)");
            OperationType::Replace {
                position,
                old_content: desc,
                new_content: edit.text.clone(),
            }
        };
        Operation::new(path.clone(), op_type, self.actor_id.clone())
    }

    /// Handles one change event: a stale document version yields nothing;
    /// a new one yields one operation per edit, on the path behind the
    /// event's URI, and records the version.
    pub fn process_change(&mut self, event: &LspChangeEvent) -> (ops: Vec<Operation>)
        requires
            old(self).versions.wf(),
            old(self).clock.value() + event.changes@.len() < u64::MAX,
            forall|i: int|
                0 <= i < event.changes@.len() ==> ((#[trigger] event.changes@[i]).range.start.line
                    == event.changes@[i].range.end.line
                    ==> event.changes@[i].range.start.character
                    <= event.changes@[i].range.end.character),
        ensures
            final(self).versions.wf(),
            ({
                let stale = old(self).versions@.contains_key(event.uri@) && event.version <= old(
                    self,
                ).versions@[event.uri@];
                &&& (stale ==> ops@.len() == 0 && final(self).versions@ == old(self).versions@)
                &&& (!stale ==> ops@.len() == event.changes@.len() && final(self).versions@
                    == old(self).versions@.insert(event.uri@, event.version) && forall|i: int|
                    0 <= i < ops@.len() ==> (#[trigger] ops@[i]).file_path@ == uri_path_of(
                        event.uri@,
                    ))
            }),
    {
        let mut ops: Vec<Operation> = Vec::new();
        if !self.should_process(&event.uri, event.version) {
            return ops;
        }
        let path = uri_to_path(event.uri.as_str());
        let n = event.changes.len();
        let mut i: usize = 0;
        while i < n
            invariant
                n == event.changes@.len(),
                i <= n,
                ops@.len() == i,
                self.versions.wf(),
                self.versions@ == old(self).versions@.insert(event.uri@, event.version),
                self.clock.value() == old(self).clock.value() + i,
                old(self).clock.value() + n < u64::MAX,
                path@ == uri_path_of(event.uri@),
                forall|k: int|
                    0 <= k < n ==> ((#[trigger] event.changes@[k]).range.start.line
                        == event.changes@[k].range.end.line
                        ==> event.changes@[k].range.start.character
                        <= event.changes@[k].range.end.character),
                forall|k: int|
                    0 <= k < i ==> (#[trigger] ops@[k]).file_path@ == uri_path_of(event.uri@),
            decreases n - i,
        {
            let op = self.convert_edit_to_operation(&path, &event.changes[i]);
            ops.push(op);
            i = i + 1;
        }
        ops
    }
}

} // verus!
