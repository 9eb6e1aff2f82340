//! Per-file snapshots: last observed content plus precomputed indices.
//!
//! A snapshot holds the full text last seen for a file together with its
//! byte length, character count, a character-to-byte offset map (built only
//! for non-ASCII content; for ASCII the two coincide) and the character
//! offsets of line starts. The diff engine reads these to place edits.

use vstd::prelude::*;
use vstd::string::*;
use vstd::utf8::{encode_scalar, encode_utf8, char_is_scalar, is_ascii_chars, is_ascii_chars_encode_utf8};
use crate::strutil::str_to_chars;

verus! {

/// UTF-8 encoding distributes over concatenation.
pub proof fn lemma_encode_concat(a: Seq<char>, b: Seq<char>)
    ensures
        encode_utf8(a + b) == encode_utf8(a) + encode_utf8(b),
    decreases a.len(),
{
    if a.len() == 0 {
        assert(a + b =~= b);
        assert(encode_utf8(a) + encode_utf8(b) =~= encode_utf8(b));
    } else {
        assert((a + b).drop_first() =~= a.drop_first() + b);
        lemma_encode_concat(a.drop_first(), b);
        assert((a + b)[0] == a[0]);
        assert(encode_utf8(a + b) =~= encode_utf8(a) + encode_utf8(b));
    }
}

/// One more character adds exactly its own encoding.
pub proof fn lemma_encode_take_succ(s: Seq<char>, i: int)
    requires
        0 <= i < s.len(),
    ensures
        encode_utf8(s.take(i + 1)).len() == encode_utf8(s.take(i)).len() + encode_scalar(
            s[i] as u32,
        ).len(),
{
    let single = seq![s[i]];
    assert(s.take(i + 1) =~= s.take(i) + single);
    lemma_encode_concat(s.take(i), single);
    assert(single.len() == 1);
    assert(single[0] == s[i]);
    assert(single.drop_first() =~= Seq::<char>::empty());
    assert(encode_utf8(single.drop_first()) =~= Seq::<u8>::empty());
    assert(encode_utf8(single) =~= encode_scalar(s[i] as u32)) by {
        assert(encode_utf8(single) == encode_scalar(single[0] as u32) + encode_utf8(
            single.drop_first(),
        ));
    }
}

/// A prefix encodes to no more bytes than the whole.
pub proof fn lemma_encode_prefix_le(s: Seq<char>, i: int)
    requires
        0 <= i <= s.len(),
    ensures
        encode_utf8(s.take(i)).len() <= encode_utf8(s).len(),
{
    assert(s =~= s.take(i) + s.skip(i));
    lemma_encode_concat(s.take(i), s.skip(i));
}

/// Every character encodes to at least one byte.
pub proof fn lemma_encode_len_ge(s: Seq<char>)
    ensures
        encode_utf8(s).len() >= s.len(),
    decreases s.len(),
{
    if s.len() > 0 {
        lemma_encode_len_ge(s.drop_first());
    }
}

/// Byte length of a string, exactly the length of its UTF-8 encoding.
pub fn byte_length(s: &str) -> (r: usize)
    ensures
        r as int == encode_utf8(s@).len(),
{
    broadcast use vstd::slice::group_slice_axioms;

    s.as_bytes().len()
}

/// The byte width of one character's UTF-8 encoding.
pub fn char_width(c: char) -> (r: u8)
    ensures
        r as int == encode_scalar(c as u32).len(),
        1 <= r <= 4,
{
    proof {
        char_is_scalar(c);
    }
    let v = c as u32;
    if v <= 0x7F {
        1
    } else if v <= 0x7FF {
        2
    } else if v <= 0xFFFF {
        3
    } else {
        4
    }
}

/// `m` maps each character index of `s`, and the end, to its byte offset.
pub open spec fn byte_index_ok(s: Seq<char>, m: Seq<usize>) -> bool {
    &&& m.len() == s.len() + 1
    &&& forall|i: int| 0 <= i < m.len() ==> #[trigger] m[i] as int == encode_utf8(s.take(i)).len()
}

/// The character offsets at which lines begin: 0, and one past every
/// newline.
pub open spec fn line_starts_of(s: Seq<char>) -> Seq<int>
    decreases s.len(),
{
    if s.len() == 0 {
        seq![0]
    } else if s.last() == '\n' {
        line_starts_of(s.drop_last()).push(s.len() as int)
    } else {
        line_starts_of(s.drop_last())
    }
}

/// `ls` is the line-start table of `s`.
pub open spec fn line_starts_ok(s: Seq<char>, ls: Seq<usize>) -> bool {
    ls.map_values(|x: usize| x as int) == line_starts_of(s)
}

/// The line-start table is nonempty, begins with 0, is strictly
/// increasing, and stays within the text.
pub proof fn lemma_line_starts_shape(s: Seq<char>)
    ensures
        line_starts_of(s).len() >= 1,
        line_starts_of(s)[0] == 0,
        forall|a: int, b: int|
            0 <= a < b < line_starts_of(s).len() ==> #[trigger] line_starts_of(s)[a]
                < #[trigger] line_starts_of(s)[b],
        forall|a: int|
            0 <= a < line_starts_of(s).len() ==> 0 <= #[trigger] line_starts_of(s)[a] <= s.len(),
    decreases s.len(),
{
    if s.len() > 0 {
        lemma_line_starts_shape(s.drop_last());
    }
}

/// In-memory record of a file's last observed content and its indices.
pub struct FileSnapshot {
    /// The full text last observed.
    pub content: String,
    /// Byte length of the content.
    pub byte_len: u64,
    /// Character count of the content.
    pub char_len: usize,
    /// Byte offset of each character boundary; empty for ASCII content,
    /// where byte and character offsets coincide.
    pub char_to_byte: Vec<usize>,
    /// Character offset of each line start; empty in a minimal snapshot.
    pub line_starts: Vec<usize>,
}

impl FileSnapshot {
    /// Well-formedness: the counts match the content, and each index,
    /// when present, is exact.
    pub open spec fn wf(&self) -> bool {
        &&& self.char_len == self.content@.len()
        &&& self.byte_len == encode_utf8(self.content@).len()
        &&& self.char_to_byte@.len() == 0 || byte_index_ok(self.content@, self.char_to_byte@)
        &&& self.line_starts@.len() == 0 || line_starts_ok(self.content@, self.line_starts@)
    }
}

fn build_char_to_byte(chars: &Vec<char>, byte_len: usize) -> (r: Vec<usize>)
    requires
        byte_len == encode_utf8(chars@).len(),
    ensures
        byte_index_ok(chars@, r@),
{
    let len = chars.len();
    let mut m: Vec<usize> = Vec::new();
    m.push(0);
    let mut acc: usize = 0;
    let mut i: usize = 0;
    assert(encode_utf8(chars@.take(0)) =~= Seq::<u8>::empty());
    while i < len
        invariant
            len == chars@.len(),
            byte_len == encode_utf8(chars@).len(),
            i <= len,
            m@.len() == i + 1,
            acc as int == encode_utf8(chars@.take(i as int)).len(),
            forall|k: int|
                0 <= k < m@.len() ==> #[trigger] m@[k] as int == encode_utf8(
                    chars@.take(k),
                ).len(),
        decreases len - i,
    {
        let w = char_width(chars[i]);
        proof {
            lemma_encode_take_succ(chars@, i as int);
            lemma_encode_prefix_le(chars@, i + 1);
        }
        acc = acc + (w as usize);
        m.push(acc);
        i = i + 1;
    }
    m
}

fn build_line_starts(chars: &Vec<char>) -> (r: Vec<usize>)
    ensures
        line_starts_ok(chars@, r@),
{
    let len = chars.len();
    let mut ls: Vec<usize> = Vec::new();
    ls.push(0);
    let mut i: usize = 0;
    assert(ls@.map_values(|x: usize| x as int) =~= line_starts_of(chars@.take(0)));
    while i < len
        invariant
            len == chars@.len(),
            i <= len,
            line_starts_ok(chars@.take(i as int), ls@),
        decreases len - i,
    {
        let ghost prev = ls@;
        if chars[i] == '\n' {
            ls.push(i + 1);
        }
        i = i + 1;
        proof {
            assert(chars@.take(i as int).drop_last() =~= chars@.take(i - 1));
            assert(chars@.take(i as int).last() == chars@[i - 1]);
            if chars@[i - 1] == '\n' {
                assert(ls@.map_values(|x: usize| x as int) =~= prev.map_values(
                    |x: usize| x as int,
                ).push(i as int));
            }
        }
    }
    assert(chars@.take(len as int) =~= chars@);
    ls
}

/// Builds the full snapshot of `content`: byte length from the string
/// itself, character count, a byte-offset map only when the content is
/// not ASCII, and the line-start table.
pub fn build_snapshot_fast(content: &str) -> (r: FileSnapshot)
    ensures
        r.wf(),
        r.content@ == content@,
        r.line_starts@.len() >= 1,
        is_ascii_chars(content@) ==> r.char_to_byte@.len() == 0,
        !is_ascii_chars(content@) ==> byte_index_ok(content@, r.char_to_byte@),
{
    let byte_len = byte_length(content);
    let chars = str_to_chars(content);
    let char_len = chars.len();
    let char_to_byte: Vec<usize> = if content.is_ascii() {
        Vec::new()
    } else {
        build_char_to_byte(&chars, byte_len)
    };
    let line_starts = build_line_starts(&chars);
    proof {
        lemma_line_starts_shape(content@);
    }
    FileSnapshot {
        content: content.to_owned(),
        byte_len: byte_len as u64,
        char_len,
        char_to_byte,
        line_starts,
    }
}

/// Builds a minimal snapshot: counts only, no line or byte tables.
pub fn build_snapshot_minimal(content: &str) -> (r: FileSnapshot)
    ensures
        r.wf(),
        r.content@ == content@,
        r.char_to_byte@.len() == 0,
        r.line_starts@.len() == 0,
{
    let byte_len = byte_length(content);
    let chars = str_to_chars(content);
    FileSnapshot {
        content: content.to_owned(),
        byte_len: byte_len as u64,
        char_len: chars.len(),
        char_to_byte: Vec::new(),
        line_starts: Vec::new(),
    }
}

/// Extends a snapshot in place with appended text, updating the byte map
/// and line table incrementally instead of rebuilding them. A minimal
/// snapshot (no tables) stays minimal.
pub fn extend_snapshot(snapshot: &mut FileSnapshot, appended: &str)
    requires
        old(snapshot).wf(),
    ensures
        final(snapshot).wf(),
        final(snapshot).content@ == old(snapshot).content@ + appended@,
        final(snapshot).char_len == old(snapshot).char_len + appended@.len(),
        final(snapshot).char_to_byte@.len() == 0 <==> old(snapshot).char_to_byte@.len() == 0,
        final(snapshot).line_starts@.len() == 0 <==> old(snapshot).line_starts@.len() == 0,
{
    let app_chars = str_to_chars(appended);
    let app_len = app_chars.len();
    let old_char_len = snapshot.char_len;
    let ghost old_content = snapshot.content@;
    snapshot.content.append(appended);
    let ghost whole = snapshot.content@;
    let new_byte_len = byte_length(snapshot.content.as_str());
    proof {
        lemma_encode_concat(old_content, appended@);
        lemma_encode_len_ge(whole);
        assert(old_char_len + app_len == whole.len());
        assert(whole.len() <= new_byte_len);
        assert forall|k: int| 0 <= k <= old_char_len implies whole.take(k) == old_content.take(
            k,
        ) by {
            assert(whole.take(k) =~= old_content.take(k));
        }
        assert(old_content.take(old_char_len as int) =~= old_content);
        assert(whole.take(old_char_len as int) == old_content);
    }

    // extend the byte-offset map, when one is kept
    if snapshot.char_to_byte.len() > 0 {
        let mut acc: usize = snapshot.char_to_byte[snapshot.char_to_byte.len() - 1];
        assert(acc as int == encode_utf8(whole.take(old_char_len as int)).len());
        let mut i: usize = 0;
        while i < app_len
            invariant
                app_len == app_chars@.len(),
                whole == snapshot.content@,
                whole == old_content + app_chars@,
                old_char_len == old_content.len(),
                old_char_len + app_len == whole.len() <= usize::MAX,
                i <= app_len,
                snapshot.char_to_byte@.len() == old_char_len + i + 1,
                acc as int == encode_utf8(whole.take(old_char_len + i)).len(),
                forall|k: int|
                    0 <= k < snapshot.char_to_byte@.len() ==> #[trigger] snapshot.char_to_byte@[k]
                        as int == encode_utf8(whole.take(k)).len(),
                new_byte_len == encode_utf8(whole).len(),
                snapshot.line_starts@ == old(snapshot).line_starts@,
            decreases app_len - i,
        {
            let w = char_width(app_chars[i]);
            proof {
                lemma_encode_take_succ(whole, old_char_len + i);
                lemma_encode_prefix_le(whole, old_char_len + i + 1);
                assert(whole[old_char_len + i] == app_chars@[i as int]);
            }
            acc = acc + (w as usize);
            snapshot.char_to_byte.push(acc);
            i = i + 1;
        }
        proof {
            assert(byte_index_ok(whole, snapshot.char_to_byte@)) by {
                assert forall|k: int| 0 <= k < snapshot.char_to_byte@.len() implies #[trigger]
                    snapshot.char_to_byte@[k] as int == encode_utf8(whole.take(k)).len() by {}
            }
        }
    }

    // extend the line table, when one is kept
    let ghost prior_map = snapshot.char_to_byte@;
    if snapshot.line_starts.len() > 0 {
        assert(line_starts_ok(whole.take(old_char_len as int), snapshot.line_starts@));
        let mut i: usize = 0;
        while i < app_len
            invariant
                app_len == app_chars@.len(),
                whole == snapshot.content@,
                whole == old_content + app_chars@,
                old_char_len == old_content.len(),
                old_char_len + app_len == whole.len() <= usize::MAX,
                i <= app_len,
                line_starts_ok(whole.take(old_char_len + i), snapshot.line_starts@),
                snapshot.line_starts@.len() > 0,
                snapshot.char_to_byte@ == prior_map,
            decreases app_len - i,
        {
            let ghost prev = snapshot.line_starts@;
            if app_chars[i] == '\n' {
                snapshot.line_starts.push(old_char_len + i + 1);
            }
            i = i + 1;
            proof {
                assert(whole.take(old_char_len + i).drop_last() =~= whole.take(
                    old_char_len + i - 1,
                ));
                assert(whole.take(old_char_len + i).last() == app_chars@[i - 1]);
                if app_chars@[i - 1] == '\n' {
                    assert(snapshot.line_starts@.map_values(|x: usize| x as int)
                        =~= prev.map_values(|x: usize| x as int).push(old_char_len + i));
                }
            }
        }
        assert(whole.take(old_char_len + app_len as int) =~= whole);
    }

    snapshot.byte_len = new_byte_len as u64;
    snapshot.char_len = old_char_len + app_len;
}

/// Where `char_idx` falls in the line table: the greatest entry at or
/// before it names the line, the distance past it the column, both
/// 1-based. An empty table reads as a single line.
pub open spec fn line_col_spec(ls: Seq<usize>, char_idx: int) -> (int, int) {
    if ls.len() == 0 {
        (1, char_idx + 1)
    } else {
        let l = choose|l: int|
            0 <= l < ls.len() && #[trigger] ls[l] <= char_idx && (l == ls.len() - 1 || ls[l + 1]
                > char_idx);
        (l + 1, char_idx - ls[l] + 1)
    }
}

/// 1-based line and column of a character offset, read from the line
/// table by binary search.
pub fn line_col_from_snapshot(snapshot: &FileSnapshot, char_idx: usize) -> (r: (usize, usize))
    requires
        snapshot.wf(),
        char_idx <= snapshot.char_len,
        char_idx < usize::MAX,
    ensures
        (r.0 as int, r.1 as int) == line_col_spec(snapshot.line_starts@, char_idx as int),
        r.0 >= 1,
        r.1 >= 1,
{
    let ls_len = snapshot.line_starts.len();
    if ls_len == 0 {
        return (1, char_idx + 1);
    }
    proof {
        lemma_line_starts_shape(snapshot.content@);
        let ghost m = snapshot.line_starts@.map_values(|x: usize| x as int);
        assert(m == line_starts_of(snapshot.content@));
        assert forall|a: int, b: int|
            0 <= a < b < ls_len implies #[trigger] snapshot.line_starts@[a]
            < #[trigger] snapshot.line_starts@[b] by {
            assert(m[a] == snapshot.line_starts@[a] as int);
            assert(m[b] == snapshot.line_starts@[b] as int);
            assert(line_starts_of(snapshot.content@)[a] < line_starts_of(snapshot.content@)[b]);
        }
        assert(snapshot.line_starts@[0] == 0) by {
            assert(m[0] == snapshot.line_starts@[0] as int);
        }
    }
    let mut lo: usize = 0;
    let mut hi: usize = ls_len;
    while lo < hi
        invariant
            snapshot.wf(),
            ls_len == snapshot.line_starts@.len(),
            ls_len >= 1,
            lo <= hi <= ls_len,
            forall|k: int| 0 <= k < lo ==> #[trigger] snapshot.line_starts@[k] <= char_idx,
            forall|k: int| hi <= k < ls_len ==> #[trigger] snapshot.line_starts@[k] > char_idx,
            forall|a: int, b: int|
                0 <= a < b < ls_len ==> #[trigger] snapshot.line_starts@[a]
                    < #[trigger] snapshot.line_starts@[b],
            snapshot.line_starts@[0] == 0,
        decreases hi - lo,
    {
        let mid = lo + (hi - lo) / 2;
        if snapshot.line_starts[mid] <= char_idx {
            lo = mid + 1;
        } else {
            hi = mid;
        }
    }
    let l = lo - 1;
    let start = snapshot.line_starts[l];
    proof {
        let spec_l = choose|sl: int|
            0 <= sl < snapshot.line_starts@.len() && #[trigger] snapshot.line_starts@[sl]
                <= char_idx && (sl == snapshot.line_starts@.len() - 1
                || snapshot.line_starts@[sl + 1] > char_idx);
        assert(0 <= l < snapshot.line_starts@.len() && snapshot.line_starts@[l as int] <= char_idx
            && (l == snapshot.line_starts@.len() - 1 || snapshot.line_starts@[l + 1] > char_idx));
        if spec_l != l as int {
            if spec_l < l {
                assert(snapshot.line_starts@[spec_l + 1] <= snapshot.line_starts@[l as int]);
            } else {
                assert(snapshot.line_starts@[l + 1] <= snapshot.line_starts@[spec_l]);
            }
        }
    }
    (l + 1, char_idx - start + 1)
}

} // verus!
