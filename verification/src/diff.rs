//! The diff engine: one edit between an old text and a new one.
//!
//! Given the previously observed content and the newly observed content of
//! a file, the engine produces at most one character-level edit whose
//! application to the old text yields the new text exactly. Identity is
//! recognised first, then an append, then a general single change found by
//! common-prefix / common-suffix search; discontinuous edits coalesce into
//! a single replace.

use vstd::prelude::*;
use crate::strutil::{
    chars_eq, chars_range, common_prefix_len, common_suffix_len, is_common_prefix,
    is_common_suffix, string_from_chars,
};

verus! {

/// A single character-level edit, before clock and position metadata are
/// attached. Offsets and lengths are counted in characters.
pub enum TextDiff {
    /// The texts are identical; nothing is emitted.
    Unchanged,
    /// `content` appears at `offset` in the new text.
    Insert { offset: usize, content: String, length: usize },
    /// `length` characters disappear at `offset`.
    Delete { offset: usize, length: usize },
    /// `old_content` at `offset` becomes `new_content`.
    Replace { offset: usize, old_content: String, new_content: String },
}

/// The new text an insert produces.
pub open spec fn apply_insert(old: Seq<char>, offset: int, content: Seq<char>) -> Seq<char> {
    old.take(offset) + content + old.skip(offset)
}

/// The new text a delete produces.
pub open spec fn apply_delete(old: Seq<char>, offset: int, length: int) -> Seq<char> {
    old.take(offset) + old.skip(offset + length)
}

/// The new text a replace produces.
pub open spec fn apply_replace(
    old: Seq<char>,
    offset: int,
    old_content: Seq<char>,
    new_content: Seq<char>,
) -> Seq<char> {
    old.take(offset) + new_content + old.skip(offset + old_content.len())
}

/// The edit `d`, applied to `old`, yields `new` exactly — and its payload
/// is faithful: a replace names the text it removes, lengths are character
/// counts, and degenerate edits do not occur.
pub open spec fn diff_applies(old: Seq<char>, d: TextDiff, new: Seq<char>) -> bool {
    match d {
        TextDiff::Unchanged => new == old,
        TextDiff::Insert { offset, content, length } => {
            &&& content@.len() > 0
            &&& length == content@.len()
            &&& 0 <= offset <= old.len()
            &&& new == apply_insert(old, offset as int, content@)
        },
        TextDiff::Delete { offset, length } => {
            &&& length > 0
            &&& offset + length <= old.len()
            &&& new == apply_delete(old, offset as int, length as int)
        },
        TextDiff::Replace { offset, old_content, new_content } => {
            &&& old_content@.len() > 0
            &&& new_content@.len() > 0
            &&& offset + old_content@.len() <= old.len()
            &&& old.subrange(offset as int, offset + old_content@.len()) == old_content@
            &&& new == apply_replace(old, offset as int, old_content@, new_content@)
        },
    }
}

/// The transition from `old` to `new` is a pure append of nonempty text.
pub open spec fn is_append(old: Seq<char>, new: Seq<char>) -> bool {
    new.len() > old.len() && new.take(old.len() as int) == old
}

/// The edit sits exactly at the end of the longest common prefix of the
/// two texts: everything before `offset` agrees, and at `offset` one text
/// ends or they differ.
pub open spec fn at_longest_common_prefix(old: Seq<char>, new: Seq<char>, offset: int) -> bool {
    &&& is_common_prefix(old, new, offset)
    &&& (offset == old.len() || offset == new.len() || old[offset] != new[offset])
}

/// The character offset an edit names.
pub open spec fn diff_offset(d: TextDiff) -> int {
    match d {
        TextDiff::Unchanged => 0,
        TextDiff::Insert { offset, .. } => offset as int,
        TextDiff::Delete { offset, .. } => offset as int,
        TextDiff::Replace { offset, .. } => offset as int,
    }
}

/// Computes the single edit between two texts.
///
/// The contract carries the engine's guarantees: the edit applies exactly
/// (diff correctness); nothing is emitted exactly when the texts are
/// identical (identity idempotence); and a pure append of a suffix `S` to
/// a content `C` yields one insert of `S` at character offset
/// `char_count(C)` (append fast-path equivalence).
pub fn compute_diff(old_chars: &Vec<char>, new_chars: &Vec<char>) -> (d: TextDiff)
    ensures
        diff_applies(old_chars@, d, new_chars@),
        (d is Unchanged) <==> old_chars@ == new_chars@,
        !(d is Unchanged) ==> at_longest_common_prefix(old_chars@, new_chars@, diff_offset(d)),
        is_append(old_chars@, new_chars@) ==> match d {
            TextDiff::Insert { offset, content, length } => {
                &&& offset == old_chars@.len()
                &&& content@ == new_chars@.skip(old_chars@.len() as int)
            },
            _ => false,
        },
{
    let old_len = old_chars.len();
    let new_len = new_chars.len();
    if chars_eq(old_chars, new_chars) {
        return TextDiff::Unchanged;
    }
    let p = common_prefix_len(old_chars, new_chars);
    let limit = if old_len - p < new_len - p {
        old_len - p
    } else {
        new_len - p
    };
    let s = common_suffix_len(old_chars, new_chars, limit);
    let old_seg_len = old_len - p - s;
    let new_seg_len = new_len - p - s;
    proof {
        // the two texts agree on the first p and the last s characters
        assert(new_chars@.take(p as int) =~= old_chars@.take(p as int));
        assert(new_chars@.skip(new_len - s) =~= old_chars@.skip(old_len - s)) by {
            assert forall|j: int| 0 <= j < s implies #[trigger] new_chars@.skip(new_len - s)[j]
                == old_chars@.skip(old_len - s)[j] by {
                let i = s - 1 - j;
                assert(old_chars@[old_chars@.len() - 1 - i] == new_chars@[new_chars@.len() - 1
                    - i]);
            }
        }
        // each text splits into prefix, middle segment and suffix
        assert(old_chars@ =~= old_chars@.take(p as int) + old_chars@.subrange(
            p as int,
            old_len - s,
        ) + old_chars@.skip(old_len - s));
        assert(new_chars@ =~= new_chars@.take(p as int) + new_chars@.subrange(
            p as int,
            new_len - s,
        ) + new_chars@.skip(new_len - s));
    }
    if old_seg_len == 0 && new_seg_len == 0 {
        proof {
            assert(old_chars@ =~= new_chars@);
        }
        return TextDiff::Unchanged;
    }
    if old_seg_len == 0 {
        let seg = chars_range(new_chars, p, new_len - s);
        let content = string_from_chars(&seg);
        proof {
            assert(old_chars@.take(p as int) =~= old_chars@.subrange(0, p as int));
            assert(old_chars@.skip(p as int) =~= old_chars@.skip(old_len - s));
            assert(new_chars@ =~= apply_insert(old_chars@, p as int, content@));
            if is_append(old_chars@, new_chars@) {
                assert(p == old_chars@.len()) by {
                    if p < old_len {
                        assert(new_chars@.take(old_len as int)[p as int] == old_chars@[p as int]);
                    }
                }
                assert(content@ =~= new_chars@.skip(old_chars@.len() as int));
            }
        }
        return TextDiff::Insert { offset: p, content, length: new_seg_len };
    }
    proof {
        // the middle of the new text is not empty only when characters
        // were inserted or changed; from here the old segment is nonempty,
        // so the transition is no pure append
        if is_append(old_chars@, new_chars@) {
            assert(is_common_prefix(old_chars@, new_chars@, old_chars@.len() as int)) by {
                assert(forall|i: int|
                    0 <= i < old_chars@.len() ==> old_chars@[i] == #[trigger] new_chars@.take(
                        old_chars@.len() as int,
                    )[i]);
            }
            assert(p == old_len) by {
                if p < old_len {
                    assert(old_chars@[p as int] == new_chars@[p as int]);
                }
            }
            assert(false);
        }
    }
    if new_seg_len == 0 {
        proof {
            assert(new_chars@.take(p as int) =~= new_chars@.subrange(0, p as int));
            assert(new_chars@.skip(p as int) =~= new_chars@.skip(new_len - s));
            assert(new_chars@ =~= apply_delete(old_chars@, p as int, old_seg_len as int));
        }
        return TextDiff::Delete { offset: p, length: old_seg_len };
    }
    let old_seg = chars_range(old_chars, p, old_len - s);
    let new_seg = chars_range(new_chars, p, new_len - s);
    let old_content = string_from_chars(&old_seg);
    let new_content = string_from_chars(&new_seg);
    proof {
        assert(old_chars@.subrange(p as int, p + old_content@.len()) =~= old_content@);
        assert(old_chars@.skip(p + old_content@.len()) =~= old_chars@.skip(old_len - s));
        assert(new_chars@ =~= apply_replace(old_chars@, p as int, old_content@, new_content@));
    }
    TextDiff::Replace { offset: p, old_content, new_content }
}

} // verus!
