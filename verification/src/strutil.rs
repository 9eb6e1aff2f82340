//! Character-sequence helpers shared across the library.
//!
//! File contents are reasoned about as sequences of characters. The helpers
//! here move between `String` and `Vec<char>`, compare character ranges, and
//! render decimal numbers, so the modules above them can state their
//! contracts over `Seq<char>` alone.

use vstd::prelude::*;
use vstd::string::*;

verus! {

/// Relies on str::chars / Iterator::collect: the characters of a string,
/// in order, as a vector.
#[verifier::external_body]
pub fn str_to_chars(s: &str) -> (r: Vec<char>)
    ensures
        r@ == s@,
{
    s.chars().collect()
}

/// Relies on String::from_iter: a string holding exactly the given
/// characters, in order.
#[verifier::external_body]
pub fn string_from_chars(v: &Vec<char>) -> (r: String)
    ensures
        r@ == v@,
{
    v.iter().collect()
}

/// The characters of `v` from `from` (inclusive) to `to` (exclusive).
pub fn chars_range(v: &Vec<char>, from: usize, to: usize) -> (r: Vec<char>)
    requires
        from <= to <= v@.len(),
    ensures
        r@ == v@.subrange(from as int, to as int),
{
    let mut r: Vec<char> = Vec::new();
    let mut i: usize = from;
    while i < to
        invariant
            from <= i <= to <= v@.len(),
            r@ == v@.subrange(from as int, i as int),
        decreases to - i,
    {
        r.push(v[i]);
        i = i + 1;
        assert(r@ =~= v@.subrange(from as int, i as int));
    }
    r
}

/// The substring of `s` from `from` to `to`, as counted in characters.
pub fn substring(s: &str, from: usize, to: usize) -> (r: String)
    requires
        from <= to <= s@.len(),
    ensures
        r@ == s@.subrange(from as int, to as int),
{
    let chars = str_to_chars(s);
    let part = chars_range(&chars, from, to);
    string_from_chars(&part)
}

/// Length of the longest common prefix of `a` and `b`.
pub open spec fn is_common_prefix(a: Seq<char>, b: Seq<char>, p: int) -> bool {
    &&& 0 <= p <= a.len()
    &&& p <= b.len()
    &&& forall|i: int| 0 <= i < p ==> a[i] == b[i]
}

pub fn common_prefix_len(a: &Vec<char>, b: &Vec<char>) -> (p: usize)
    ensures
        is_common_prefix(a@, b@, p as int),
        p < a@.len() && p < b@.len() ==> a@[p as int] != b@[p as int],
        p == a@.len() || p == b@.len() || a@[p as int] != b@[p as int],
{
    let mut p: usize = 0;
    let a_len = a.len();
    let b_len = b.len();
    while p < a_len && p < b_len && a[p] == b[p]
        invariant
            a_len == a@.len(),
            b_len == b@.len(),
            is_common_prefix(a@, b@, p as int),
        decreases a_len - p,
    {
        p = p + 1;
    }
    p
}

/// `s` characters at the tails of `a` and `b` agree.
pub open spec fn is_common_suffix(a: Seq<char>, b: Seq<char>, s: int) -> bool {
    &&& 0 <= s <= a.len()
    &&& s <= b.len()
    &&& forall|i: int| 0 <= i < s ==> #[trigger] a[a.len() - 1 - i] == b[b.len() - 1 - i]
}

pub fn common_suffix_len(a: &Vec<char>, b: &Vec<char>, limit: usize) -> (s: usize)
    requires
        limit <= a@.len(),
        limit <= b@.len(),
    ensures
        s <= limit,
        is_common_suffix(a@, b@, s as int),
        s < limit ==> a@[a@.len() - 1 - s] != b@[b@.len() - 1 - s],
{
    let mut s: usize = 0;
    let a_len = a.len();
    let b_len = b.len();
    while s < limit && a[a_len - 1 - s] == b[b_len - 1 - s]
        invariant
            a_len == a@.len(),
            b_len == b@.len(),
            limit <= a@.len(),
            limit <= b@.len(),
            s <= limit,
            is_common_suffix(a@, b@, s as int),
        decreases limit - s,
    {
        s = s + 1;
    }
    s
}

/// Whether `a` begins with `prefix`.
pub fn starts_with_chars(a: &Vec<char>, prefix: &Vec<char>) -> (r: bool)
    ensures
        r == (prefix@.len() <= a@.len() && a@.take(prefix@.len() as int) == prefix@),
{
    if prefix.len() > a.len() {
        assert(!(prefix@.len() <= a@.len()));
        return false;
    }
    let p = common_prefix_len(a, prefix);
    if p == prefix.len() {
        assert(a@.take(prefix@.len() as int) =~= prefix@);
        true
    } else {
        assert(a@.take(prefix@.len() as int) != prefix@) by {
            assert(a@.take(prefix@.len() as int)[p as int] != prefix@[p as int]);
        }
        false
    }
}

/// Spec-level ASCII lowercase of one character.
pub open spec fn lower_char(c: char) -> char {
    if 'A' <= c && c <= 'Z' {
        ((c as u8) + 32) as char
    } else {
        c
    }
}

/// ASCII lowercase of a character sequence, element by element.
pub open spec fn lower_chars(s: Seq<char>) -> Seq<char> {
    s.map_values(|c: char| lower_char(c))
}

/// Exec ASCII lowercase of one character.
pub fn ascii_lower_char(c: char) -> (r: char)
    ensures
        r == lower_char(c),
{
    if 'A' <= c && c <= 'Z' {
        ((c as u8) + 32) as char
    } else {
        c
    }
}

/// ASCII lowercase of a character vector.
pub fn ascii_lower_chars(v: &Vec<char>) -> (r: Vec<char>)
    ensures
        r@ == lower_chars(v@),
{
    let mut r: Vec<char> = Vec::new();
    let mut i: usize = 0;
    let len = v.len();
    while i < len
        invariant
            len == v@.len(),
            i <= len,
            r@ =~= lower_chars(v@.take(i as int)),
        decreases len - i,
    {
        r.push(ascii_lower_char(v[i]));
        i = i + 1;
        assert(v@.take(i as int).drop_last() =~= v@.take(i - 1));
        assert(r@ =~= lower_chars(v@.take(i as int)));
    }
    assert(v@.take(len as int) =~= v@);
    r
}

/// Whether two strings hold the same characters.
pub fn str_eq(a: &str, b: &str) -> (r: bool)
    ensures
        r == (a@ == b@),
{
    let ca = str_to_chars(a);
    let cb = str_to_chars(b);
    chars_eq(&ca, &cb)
}

/// Whether the characters of `a` and `b` agree.
pub fn chars_eq(a: &Vec<char>, b: &Vec<char>) -> (r: bool)
    ensures
        r == (a@ == b@),
{
    if a.len() != b.len() {
        assert(a@ != b@);
        return false;
    }
    let p = common_prefix_len(a, b);
    if p == a.len() {
        assert(a@ =~= b@);
        true
    } else {
        assert(a@[p as int] != b@[p as int]);
        false
    }
}

/// `needle` occurs in `hay` starting at position `i`.
pub open spec fn occurs_at(hay: Seq<char>, needle: Seq<char>, i: int) -> bool {
    &&& 0 <= i
    &&& i + needle.len() <= hay.len()
    &&& hay.subrange(i, i + needle.len()) == needle
}

/// Whether `needle` occurs anywhere in `hay`.
pub open spec fn contains_seq(hay: Seq<char>, needle: Seq<char>) -> bool {
    exists|i: int| occurs_at(hay, needle, i)
}

fn matches_at(hay: &Vec<char>, needle: &Vec<char>, i: usize) -> (r: bool)
    requires
        i + needle@.len() <= hay@.len(),
    ensures
        r == occurs_at(hay@, needle@, i as int),
{
    let mut j: usize = 0;
    let n_len = needle.len();
    let h_len = hay.len();
    while j < n_len
        invariant
            n_len == needle@.len(),
            h_len == hay@.len(),
            i + needle@.len() <= hay@.len(),
            j <= n_len,
            forall|k: int| 0 <= k < j ==> hay@[i + k] == needle@[k],
        decreases n_len - j,
    {
        if hay[i + j] != needle[j] {
            assert(hay@.subrange(i as int, i + needle@.len())[j as int] != needle@[j as int]);
            return false;
        }
        j = j + 1;
    }
    assert(hay@.subrange(i as int, i + needle@.len()) =~= needle@);
    true
}

/// Whether `needle` occurs as a contiguous run inside `hay`.
pub fn contains_chars(hay: &Vec<char>, needle: &Vec<char>) -> (r: bool)
    ensures
        r == contains_seq(hay@, needle@),
{
    let h_len = hay.len();
    let n_len = needle.len();
    if n_len > h_len {
        assert(!contains_seq(hay@, needle@)) by {
            assert(forall|i: int| !occurs_at(hay@, needle@, i));
        }
        return false;
    }
    if n_len == 0 {
        assert(occurs_at(hay@, needle@, 0)) by {
            assert(hay@.subrange(0, 0) =~= needle@);
        }
        return true;
    }
    let mut i: usize = 0;
    while i <= h_len - n_len
        invariant
            h_len == hay@.len(),
            n_len == needle@.len(),
            0 < n_len <= h_len,
            i <= h_len - n_len + 1,
            forall|k: int| 0 <= k < i ==> !occurs_at(hay@, needle@, k),
        decreases h_len - i,
    {
        if matches_at(hay, needle, i) {
            return true;
        }
        i = i + 1;
    }
    assert(forall|k: int| occurs_at(hay@, needle@, k) ==> 0 <= k <= h_len - n_len);
    false
}

/// The decimal digit for a value below ten.
pub open spec fn digit_char(d: int) -> char {
    if d == 0 { '0' }
    else if d == 1 { '1' }
    else if d == 2 { '2' }
    else if d == 3 { '3' }
    else if d == 4 { '4' }
    else if d == 5 { '5' }
    else if d == 6 { '6' }
    else if d == 7 { '7' }
    else if d == 8 { '8' }
    else { '9' }
}

/// Decimal rendering of a natural number, most significant digit first.
pub open spec fn dec_digits(n: nat) -> Seq<char>
    decreases n,
{
    if n < 10 {
        seq![digit_char(n as int)]
    } else {
        dec_digits(n / 10).push(digit_char((n % 10) as int))
    }
}

fn exec_digit_char(d: u64) -> (r: char)
    requires
        d < 10,
    ensures
        r == digit_char(d as int),
{
    if d == 0 { '0' }
    else if d == 1 { '1' }
    else if d == 2 { '2' }
    else if d == 3 { '3' }
    else if d == 4 { '4' }
    else if d == 5 { '5' }
    else if d == 6 { '6' }
    else if d == 7 { '7' }
    else if d == 8 { '8' }
    else { '9' }
}

/// Renders `n` in decimal.
pub fn u64_to_string(n: u64) -> (r: String)
    ensures
        r@ == dec_digits(n as nat),
{
    let mut rev: Vec<char> = Vec::new();
    let mut m: u64 = n;
    assert(dec_digits(n as nat) =~= dec_digits(n as nat) + rev@.reverse());
    loop
        invariant
            if m > 0 {
                dec_digits(n as nat) =~= dec_digits(m as nat) + rev@.reverse()
            } else {
                rev@.len() > 0 ==> dec_digits(n as nat) =~= rev@.reverse()
            },
            (m == 0 && rev@.len() == 0) ==> n == 0,
        ensures
            dec_digits(n as nat) =~= rev@.reverse(),
        decreases m, (if rev@.len() == 0 { 1int } else { 0int }),
    {
        if m == 0 {
            if rev.len() == 0 {
                rev.push('0');
                assert(dec_digits(0) =~= seq!['0']);
                assert(rev@.reverse() =~= seq!['0']);
            } else {
                break;
            }
        } else {
            let d = m % 10;
            let ghost old_rev = rev@;
            rev.push(exec_digit_char(d));
            assert(rev@.reverse() =~= seq![digit_char(d as int)] + old_rev.reverse());
            let old_m = m;
            m = m / 10;
            proof {
                if m > 0 {
                    assert(dec_digits(old_m as nat) =~= dec_digits(m as nat).push(
                        digit_char((old_m % 10) as int)));
                    assert(dec_digits(m as nat).push(digit_char(d as int)) + old_rev.reverse()
                        =~= dec_digits(m as nat) + rev@.reverse());
                } else {
                    assert(old_m < 10);
                    assert(dec_digits(old_m as nat) =~= seq![digit_char(d as int)]);
                    assert(dec_digits(n as nat) =~= rev@.reverse());
                }
            }
        }
    }
    let mut out: Vec<char> = Vec::new();
    let mut i: usize = rev.len();
    while i > 0
        invariant
            i <= rev@.len(),
            out@ =~= rev@.subrange(i as int, rev@.len() as int).reverse(),
        decreases i,
    {
        i = i - 1;
        out.push(rev[i as usize]);
        assert(out@ =~= rev@.subrange(i as int, rev@.len() as int).reverse());
    }
    assert(rev@.subrange(0, rev@.len() as int) =~= rev@);
    string_from_chars(&out)
}

/// Whether `c` is a decimal digit.
pub open spec fn is_digit(c: char) -> bool {
    '0' <= c && c <= '9'
}

/// The value of a decimal digit character.
pub open spec fn digit_val(c: char) -> int {
    c as int - '0' as int
}

/// Whether every character of `s` is a decimal digit.
pub open spec fn all_digits(s: Seq<char>) -> bool {
    forall|i: int| 0 <= i < s.len() ==> is_digit(#[trigger] s[i])
}

/// The number denoted by a sequence of decimal digits.
pub open spec fn dec_value(s: Seq<char>) -> int
    decreases s.len(),
{
    if s.len() == 0 {
        0
    } else {
        dec_value(s.drop_last()) * 10 + digit_val(s.last())
    }
}

proof fn lemma_dec_value_nonneg(s: Seq<char>)
    requires
        all_digits(s),
    ensures
        dec_value(s) >= 0,
    decreases s.len(),
{
    if s.len() > 0 {
        assert(all_digits(s.drop_last())) by {
            assert(forall|i: int| 0 <= i < s.len() - 1 ==> is_digit(#[trigger] s.drop_last()[i]));
        }
        lemma_dec_value_nonneg(s.drop_last());
    }
}

proof fn lemma_dec_value_prefix(s: Seq<char>, i: int)
    requires
        all_digits(s),
        0 <= i <= s.len(),
    ensures
        dec_value(s.take(i)) <= dec_value(s),
    decreases s.len() - i,
{
    if i < s.len() {
        lemma_dec_value_prefix(s, i + 1);
        assert(s.take(i + 1).drop_last() =~= s.take(i));
        assert(all_digits(s.take(i))) by {
            assert(forall|k: int| 0 <= k < i ==> is_digit(#[trigger] s.take(i)[k]));
        }
        lemma_dec_value_nonneg(s.take(i));
        assert(dec_value(s.take(i + 1)) == dec_value(s.take(i)) * 10 + digit_val(s.take(i + 1).last()));
        assert(is_digit(s[i]));
        assert(digit_val(s.take(i + 1).last()) >= 0);
        assert(dec_value(s.take(i)) * 10 >= dec_value(s.take(i)));
    } else {
        assert(s.take(i) =~= s);
    }
}

/// Parses a run of decimal digits. Succeeds exactly on nonempty all-digit
/// inputs whose value fits in 64 bits.
pub fn parse_u64(s: &Vec<char>) -> (r: Option<u64>)
    ensures
        match r {
            Some(v) => all_digits(s@) && s@.len() > 0 && v as int == dec_value(s@),
            None => !(all_digits(s@) && s@.len() > 0 && dec_value(s@) <= u64::MAX),
        },
{
    let len = s.len();
    if len == 0 {
        return None;
    }
    let mut acc: u64 = 0;
    let mut i: usize = 0;
    while i < len
        invariant
            len == s@.len(),
            i <= len,
            all_digits(s@.take(i as int)),
            acc as int == dec_value(s@.take(i as int)),
        decreases len - i,
    {
        let c = s[i];
        if !('0' <= c && c <= '9') {
            assert(!is_digit(s@[i as int]));
            return None;
        }
        let d: u64 = (c as u64) - ('0' as u64);
        assert(d as int == digit_val(s@[i as int]));
        if acc > (u64::MAX - d) / 10 {
            proof {
                assert(all_digits(s@.take(i + 1))) by {
                    assert(forall|k: int| 0 <= k < i + 1 ==> is_digit(#[trigger] s@.take(i + 1)[k]));
                }
                assert(s@.take(i + 1).drop_last() =~= s@.take(i as int));
                assert(dec_value(s@.take(i + 1)) == acc as int * 10 + d);
                assert(acc as int * 10 + d > u64::MAX) by (nonlinear_arith)
                    requires
                        acc > (u64::MAX - d) / 10,
                        d < 10,
                        acc <= u64::MAX,
                ;
                if all_digits(s@) {
                    lemma_dec_value_prefix(s@, i + 1);
                }
            }
            return None;
        }
        proof {
            assert(acc * 10 + d <= u64::MAX) by (nonlinear_arith)
                requires
                    acc <= (u64::MAX - d) / 10,
                    d < 10,
            ;
        }
        let ghost prev = s@.take(i as int);
        acc = acc * 10 + d;
        i = i + 1;
        proof {
            assert(s@.take(i as int).drop_last() =~= prev);
            assert(all_digits(s@.take(i as int))) by {
                assert(forall|k: int| 0 <= k < i ==> is_digit(#[trigger] s@.take(i as int)[k]));
            }
        }
    }
    assert(s@.take(len as int) =~= s@);
    Some(acc)
}

} // verus!
