//! Event shapes the watchers trade in, and the display preview helper.

use vstd::prelude::*;
use vstd::string::*;
use crate::ops::Operation;
use crate::orchestra::PatternMatch;
use crate::strutil::{chars_range, str_to_chars, string_from_chars};

verus! {

/// The kind of a filesystem change.
#[derive(Clone, Copy, PartialEq, Eq, Structural, Debug)]
pub enum ChangeKind {
    Created,
    Modified,
    Deleted,
    Renamed,
}

/// Where a change report came from.
#[derive(Clone, Copy, PartialEq, Eq, Structural, Debug)]
pub enum ChangeSource {
    Lsp,
    FileSystem,
}

/// One observed file change.
pub struct FileChange {
    /// The changed path.
    pub path: String,
    /// What happened.
    pub kind: ChangeKind,
    /// Which watcher saw it.
    pub source: ChangeSource,
    /// Wall-clock milliseconds when it was seen.
    pub timestamp_ms: i64,
    /// The new content, when the source knows it.
    pub content: Option<String>,
    /// Patterns detected in the content, when analysed.
    pub patterns: Option<Vec<PatternMatch>>,
}

/// A raw editor event: document, version, full content.
pub struct LspEvent {
    pub uri: String,
    pub version: i32,
    pub content: String,
}

/// The rapid detector's acknowledgement: a path changed.
pub struct RapidChange {
    /// The path that changed.
    pub path: String,
    /// Detection time in microseconds.
    pub time_us: u64,
    /// The rapid sequence number, for ordering.
    pub sequence: u64,
}

/// The quality detector's full report for one event.
pub struct QualityChange {
    /// The path that changed.
    pub path: String,
    /// The operations detected.
    pub operations: Vec<Operation>,
    /// Detection time in microseconds.
    pub time_us: u64,
    /// Total processing time, rapid and quality together.
    pub total_us: u64,
}

/// An event the watcher publishes: the rapid acknowledgement, then the
/// quality report.
pub enum ForgeEvent {
    Rapid { path: String, time_us: u64, sequence: u64 },
    Quality { path: String, operations: Vec<Operation>, time_us: u64, total_us: u64 },
}

/// A filename the fallback watcher drops outright: hidden, or an
/// obvious scratch file.
pub open spec fn noisy_name(name: Seq<char>) -> bool {
    ||| (name.len() > 0 && name[0] == '.')
    ||| crate::strutil::contains_seq(name, "~"@)
    ||| crate::classify::ends_with_seq(name, ".tmp"@)
}

/// Whether the fallback watcher should drop an event by its filename.
pub fn is_noisy_name(name: &str) -> (r: bool)
    ensures
        r == noisy_name(name@),
{
    let chars = str_to_chars(name);
    let tilde = str_to_chars("~");
    let tmp = str_to_chars(".tmp");
    if chars.len() > 0 && chars[0] == '.' {
        return true;
    }
    if crate::strutil::contains_chars(&chars, &tilde) {
        return true;
    }
    if chars.len() >= 4 {
        let tail = chars_range(&chars, chars.len() - 4, chars.len());
        if crate::strutil::chars_eq(&tail, &tmp) {
            return true;
        }
    }
    proof {
        reveal_strlit(".tmp");
    }
    false
}

/// One escaped character of a preview: newlines and tabs appear as
/// backslash escapes.
pub open spec fn escape_char(c: char) -> Seq<char> {
    if c == '\n' {
        seq!['\\', 'n']
    } else if c == '\t' {
        seq!['\\', 't']
    } else {
        seq![c]
    }
}

/// A text with newlines and tabs escaped.
pub open spec fn escaped(s: Seq<char>) -> Seq<char>
    decreases s.len(),
{
    if s.len() == 0 {
        Seq::empty()
    } else {
        escaped(s.drop_last()) + escape_char(s.last())
    }
}

fn escape_into(out: &mut Vec<char>, chars: &Vec<char>, upto: usize)
    requires
        upto <= chars@.len(),
    ensures
        final(out)@ == old(out)@ + escaped(chars@.take(upto as int)),
{
    let mut i: usize = 0;
    proof {
        assert(escaped(chars@.take(0)) =~= Seq::<char>::empty());
        assert(old(out)@ + escaped(chars@.take(0)) =~= old(out)@);
    }
    while i < upto
        invariant
            upto <= chars@.len(),
            i <= upto,
            out@ == old(out)@ + escaped(chars@.take(i as int)),
        decreases upto - i,
    {
        let c = chars[i];
        if c == '\n' {
            out.push('\\');
            out.push('n');
        } else if c == '\t' {
            out.push('\\');
            out.push('t');
        } else {
            out.push(c);
        }
        i = i + 1;
        proof {
            assert(chars@.take(i as int).drop_last() =~= chars@.take(i - 1));
            assert(chars@.take(i as int).last() == chars@[i - 1]);
            assert(out@ =~= old(out)@ + escaped(chars@.take(i as int)));
        }
    }
}

/// A one-line preview of text: escaped whole when it is short, else the
/// first `max_len` characters escaped with a trailing ellipsis marker.
pub fn truncate_with_preview(s: &str, max_len: usize) -> (r: String)
    ensures
        s@.len() <= max_len ==> r@ == escaped(s@),
        s@.len() > max_len ==> r@ == escaped(s@.take(max_len as int)) + "..."@,
{
    let chars = str_to_chars(s);
    let mut out: Vec<char> = Vec::new();
    if chars.len() <= max_len {
        let n = chars.len();
        escape_into(&mut out, &chars, n);
        proof {
            assert(chars@.take(chars@.len() as int) =~= chars@);
        }
        string_from_chars(&out)
    } else {
        escape_into(&mut out, &chars, max_len);
        let mut text = string_from_chars(&out);
        text.append("...");
        text
    }
}

} // verus!
