//! Path classification: ignored, temp, or trackable.
//!
//! A path is ignored when one of its components names VCS metadata, this
//! system's own storage directory, build output or a dependency cache
//! (case-insensitively). Components are compared whole, never as
//! substrings of the full path. A path is a temp/atomic-save artifact when
//! its filename — the text after the last path separator — matches one of
//! a closed set of editor scratch patterns.

use vstd::prelude::*;
use crate::strutil::{
    ascii_lower_chars, chars_eq, chars_range, common_prefix_len, contains_chars, contains_seq,
    lower_chars, starts_with_chars, str_to_chars,
};

verus! {

/// Path separator, either style.
pub open spec fn is_sep(c: char) -> bool {
    c == '/' || c == '\\'
}

fn exec_is_sep(c: char) -> (r: bool)
    ensures
        r == is_sep(c),
{
    c == '/' || c == '\\'
}

/// `[i, j)` is a maximal separator-free run of `s`.
pub open spec fn component_run(s: Seq<char>, i: int, j: int) -> bool {
    &&& 0 <= i <= j <= s.len()
    &&& (i == 0 || is_sep(s[i - 1]))
    &&& (j == s.len() || is_sep(s[j]))
    &&& forall|k: int| i <= k < j ==> !is_sep(#[trigger] s[k])
}

/// The reserved names whose presence as a component makes a path ignored.
pub open spec fn ignored_name(c: Seq<char>) -> bool {
    ||| c == ".git"@
    ||| c == ".dx"@
    ||| c == ".dx_client"@
    ||| c == "target"@
    ||| c == "node_modules"@
}

/// A path is ignored when some component, lowercased, is a reserved name.
pub open spec fn path_ignored(s: Seq<char>) -> bool {
    exists|i: int, j: int|
        #[trigger] component_run(s, i, j) && ignored_name(lower_chars(s.subrange(i, j)))
}

/// A path is trackable when it is not ignored.
pub open spec fn trackable(s: Seq<char>) -> bool {
    !path_ignored(s)
}

proof fn lemma_run_end_unique(s: Seq<char>, i: int, j1: int, j2: int)
    requires
        component_run(s, i, j1),
        component_run(s, i, j2),
    ensures
        j1 == j2,
{
    if j1 < j2 {
        assert(is_sep(s[j1]));
        assert(!is_sep(s[j1]));
    }
    if j2 < j1 {
        assert(is_sep(s[j2]));
        assert(!is_sep(s[j2]));
    }
}

fn component_ignored(chars: &Vec<char>, i: usize, j: usize) -> (r: bool)
    requires
        i <= j <= chars@.len(),
    ensures
        r == ignored_name(lower_chars(chars@.subrange(i as int, j as int))),
{
    let comp = chars_range(chars, i, j);
    let lower = ascii_lower_chars(&comp);
    let git = str_to_chars(".git");
    let dx = str_to_chars(".dx");
    let dx_client = str_to_chars(".dx_client");
    let target_dir = str_to_chars("target");
    let deps = str_to_chars("node_modules");
    chars_eq(&lower, &git) || chars_eq(&lower, &dx) || chars_eq(&lower, &dx_client) || chars_eq(
        &lower,
        &target_dir,
    ) || chars_eq(&lower, &deps)
}

/// Whether operations may be emitted for this path: no component of it,
/// lowercased, is one of the reserved names.
pub fn is_trackable(path: &str) -> (r: bool)
    ensures
        r == trackable(path@),
{
    let chars = str_to_chars(path);
    let len = chars.len();
    let mut i: usize = 0;
    loop
        invariant
            len == chars@.len(),
            chars@ == path@,
            0 <= i <= len,
            i == 0 || is_sep(chars@[i - 1]),
            forall|i0: int, j0: int|
                #[trigger] component_run(chars@, i0, j0) && i0 < i ==> !ignored_name(
                    lower_chars(chars@.subrange(i0, j0)),
                ),
        ensures
            !path_ignored(path@),
        decreases len - i + 1,
    {
        // find the end of the separator-free run starting at i
        let mut j: usize = i;
        while j < len && !exec_is_sep(chars[j])
            invariant
                len == chars@.len(),
                i <= j <= len,
                forall|k: int| i <= k < j ==> !is_sep(#[trigger] chars@[k]),
            decreases len - j,
        {
            j = j + 1;
        }
        assert(component_run(chars@, i as int, j as int));
        if component_ignored(&chars, i, j) {
            assert(path_ignored(path@));
            return false;
        }
        proof {
            assert forall|i0: int, j0: int|
                #[trigger] component_run(chars@, i0, j0) && i0 < j + 1 implies !ignored_name(
                lower_chars(chars@.subrange(i0, j0)),
            ) by {
                if i0 < i {
                } else {
                    // a run start strictly between i and j+1 is impossible:
                    // positions i..j hold no separator
                    assert(i0 == i) by {
                        if i0 != i {
                            assert(i < i0 <= j);
                            assert(is_sep(chars@[i0 - 1]));
                            assert(!is_sep(chars@[i0 - 1]));
                        }
                    }
                    lemma_run_end_unique(chars@, i0, j0, j as int);
                }
            }
        }
        if j == len {
            proof {
                assert forall|i0: int, j0: int| #[trigger]
                    component_run(chars@, i0, j0) implies !ignored_name(
                    lower_chars(chars@.subrange(i0, j0)),
                ) by {
                    assert(i0 <= chars@.len());
                }
            }
            return true;
        }
        i = j + 1;
    }
}

/// The filename part of a path: the characters after the last separator.
pub open spec fn after_last_sep(s: Seq<char>) -> Seq<char>
    decreases s.len(),
{
    if s.len() == 0 {
        s
    } else if is_sep(s.last()) {
        Seq::empty()
    } else {
        after_last_sep(s.drop_last()).push(s.last())
    }
}

proof fn lemma_after_last_sep(s: Seq<char>, j: int)
    requires
        0 <= j <= s.len(),
        j == 0 || is_sep(s[j - 1]),
        forall|k: int| j <= k < s.len() ==> !is_sep(#[trigger] s[k]),
    ensures
        after_last_sep(s) == s.subrange(j, s.len() as int),
    decreases s.len(),
{
    if s.len() == j {
        if j == 0 {
            assert(after_last_sep(s) =~= s.subrange(j, s.len() as int));
        } else {
            assert(is_sep(s.last()));
            assert(after_last_sep(s) =~= s.subrange(j, s.len() as int));
        }
    } else {
        assert(!is_sep(s.last()));
        lemma_after_last_sep(s.drop_last(), j);
        assert(after_last_sep(s) =~= s.subrange(j, s.len() as int)) by {
            assert(s.drop_last().subrange(j, s.drop_last().len() as int) =~= s.subrange(
                j,
                s.len() - 1,
            ));
        }
    }
}

/// Extracts the filename characters of `path`.
fn file_name_chars(chars: &Vec<char>) -> (r: Vec<char>)
    ensures
        r@ == after_last_sep(chars@),
{
    let len = chars.len();
    let mut j: usize = len;
    while j > 0 && !exec_is_sep(chars[j - 1])
        invariant
            len == chars@.len(),
            0 <= j <= len,
            forall|k: int| j <= k < len ==> !is_sep(#[trigger] chars@[k]),
        decreases j,
    {
        j = j - 1;
    }
    proof {
        lemma_after_last_sep(chars@, j as int);
    }
    chars_range(chars, j, len)
}

/// `s` ends with `suffix`.
pub open spec fn ends_with_seq(s: Seq<char>, suffix: Seq<char>) -> bool {
    suffix.len() <= s.len() && s.subrange(s.len() - suffix.len(), s.len() as int) == suffix
}

/// `s` starts with `prefix`.
pub open spec fn starts_with_seq(s: Seq<char>, prefix: Seq<char>) -> bool {
    prefix.len() <= s.len() && s.take(prefix.len() as int) == prefix
}

fn ends_with_chars(s: &Vec<char>, suffix: &Vec<char>) -> (r: bool)
    ensures
        r == ends_with_seq(s@, suffix@),
{
    if suffix.len() > s.len() {
        return false;
    }
    let tail = chars_range(s, s.len() - suffix.len(), s.len());
    chars_eq(&tail, suffix)
}

fn exec_starts_with(s: &Vec<char>, prefix: &Vec<char>) -> (r: bool)
    ensures
        r == starts_with_seq(s@, prefix@),
{
    starts_with_chars(s, prefix)
}

/// A lowercased filename that matches an editor atomic-save scratch
/// pattern: known suffixes, known prefixes, or a `goutputstream` marker
/// anywhere.
pub open spec fn temp_name(n: Seq<char>) -> bool {
    ||| ends_with_seq(n, "~"@)
    ||| ends_with_seq(n, ".tmp"@)
    ||| ends_with_seq(n, ".temp"@)
    ||| ends_with_seq(n, ".swp"@)
    ||| ends_with_seq(n, ".swx"@)
    ||| ends_with_seq(n, ".bak"@)
    ||| ends_with_seq(n, ".bk"@)
    ||| starts_with_seq(n, "~"@)
    ||| starts_with_seq(n, ".#"@)
    ||| starts_with_seq(n, ".~"@)
    ||| starts_with_seq(n, ".tmp"@)
    ||| contains_seq(n, "goutputstream"@)
}

/// Whether the path names a temp/atomic-save artifact.
pub open spec fn temp_path(s: Seq<char>) -> bool {
    temp_name(lower_chars(after_last_sep(s)))
}

/// Whether the filename of `path` matches a temp/atomic-save pattern.
pub fn is_temp_path(path: &str) -> (r: bool)
    ensures
        r == temp_path(path@),
{
    let chars = str_to_chars(path);
    let name = file_name_chars(&chars);
    let lower = ascii_lower_chars(&name);
    let tilde = str_to_chars("~");
    let tmp_suf = str_to_chars(".tmp");
    let temp_suf = str_to_chars(".temp");
    let swp = str_to_chars(".swp");
    let swx = str_to_chars(".swx");
    let bak = str_to_chars(".bak");
    let bk = str_to_chars(".bk");
    let pound = str_to_chars(".#");
    let dot_tilde = str_to_chars(".~");
    let gout = str_to_chars("goutputstream");
    ends_with_chars(&lower, &tilde) || ends_with_chars(&lower, &tmp_suf) || ends_with_chars(
        &lower,
        &temp_suf,
    ) || ends_with_chars(&lower, &swp) || ends_with_chars(&lower, &swx) || ends_with_chars(
        &lower,
        &bak,
    ) || ends_with_chars(&lower, &bk) || exec_starts_with(&lower, &tilde) || exec_starts_with(
        &lower,
        &pound,
    ) || exec_starts_with(&lower, &dot_tilde) || exec_starts_with(&lower, &tmp_suf)
        || contains_chars(&lower, &gout)
}

/// Whether events on this path feed the detector at all: classification
/// says trackable.
pub fn should_track(path: &str) -> (r: bool)
    ensures
        r == trackable(path@),
{
    is_trackable(path)
}

} // verus!
