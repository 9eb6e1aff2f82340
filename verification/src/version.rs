//! Semantic versions: comparison, compatibility, requirements, parsing.

use vstd::prelude::*;
use core::cmp::Ordering;
use crate::strutil::{all_digits, dec_value, parse_u64, str_eq, str_to_chars, string_from_chars};
use crate::strutil::chars_range;

verus! {

/// A semantic version: numeric core, optional pre-release tag, optional
/// build metadata.
pub struct Version {
    pub major: u64,
    pub minor: u64,
    pub patch: u64,
    pub pre_release: Option<String>,
    pub build: Option<String>,
}

/// The characters of an optional string.
pub open spec fn opt_chars(o: Option<String>) -> Option<Seq<char>> {
    match o {
        Some(s) => Some(s@),
        None => None,
    }
}

/// Lexicographic order on character sequences, by code point — the order
/// byte-wise comparison of UTF-8 strings induces.
pub open spec fn str_cmp_seq(a: Seq<char>, b: Seq<char>) -> Ordering
    decreases a.len(),
{
    if a.len() == 0 && b.len() == 0 {
        Ordering::Equal
    } else if a.len() == 0 {
        Ordering::Less
    } else if b.len() == 0 {
        Ordering::Greater
    } else if (a[0] as u32) < (b[0] as u32) {
        Ordering::Less
    } else if (a[0] as u32) > (b[0] as u32) {
        Ordering::Greater
    } else {
        str_cmp_seq(a.drop_first(), b.drop_first())
    }
}

/// Precedence order: numeric core first; then a pre-release sorts below
/// a release, and two pre-releases compare lexicographically. Build
/// metadata never participates.
pub open spec fn version_cmp_spec(a: &Version, b: &Version) -> Ordering {
    if a.major < b.major {
        Ordering::Less
    } else if a.major > b.major {
        Ordering::Greater
    } else if a.minor < b.minor {
        Ordering::Less
    } else if a.minor > b.minor {
        Ordering::Greater
    } else if a.patch < b.patch {
        Ordering::Less
    } else if a.patch > b.patch {
        Ordering::Greater
    } else {
        match (a.pre_release, b.pre_release) {
            (Option::None, Option::None) => Ordering::Equal,
            (Option::Some(x), Option::None) => Ordering::Less,
            (Option::None, Option::Some(y)) => Ordering::Greater,
            (Option::Some(x), Option::Some(y)) => str_cmp_seq(x@, y@),
        }
    }
}

/// Equality of versions: every field, build metadata included.
pub open spec fn version_eq_spec(a: &Version, b: &Version) -> bool {
    &&& a.major == b.major
    &&& a.minor == b.minor
    &&& a.patch == b.patch
    &&& opt_chars(a.pre_release) == opt_chars(b.pre_release)
    &&& opt_chars(a.build) == opt_chars(b.build)
}

fn exec_str_cmp(a: &str, b: &str) -> (r: Ordering)
    ensures
        r == str_cmp_seq(a@, b@),
{
    let ca = str_to_chars(a);
    let cb = str_to_chars(b);
    let a_len = ca.len();
    let b_len = cb.len();
    let mut i: usize = 0;
    proof {
        assert(a@.skip(0) =~= a@);
        assert(b@.skip(0) =~= b@);
    }
    loop
        invariant
            a_len == ca@.len(),
            b_len == cb@.len(),
            ca@ == a@,
            cb@ == b@,
            i <= a_len,
            i <= b_len,
            str_cmp_seq(a@, b@) == str_cmp_seq(a@.skip(i as int), b@.skip(i as int)),
        decreases a_len - i,
    {
        if i == a_len && i == b_len {
            return Ordering::Equal;
        }
        if i == a_len {
            return Ordering::Less;
        }
        if i == b_len {
            return Ordering::Greater;
        }
        let x = ca[i];
        let y = cb[i];
        if (x as u32) < (y as u32) {
            return Ordering::Less;
        }
        if (x as u32) > (y as u32) {
            return Ordering::Greater;
        }
        proof {
            let sa = a@.skip(i as int);
            let sb = b@.skip(i as int);
            assert(sa.len() > 0 && sb.len() > 0);
            assert(sa[0] == a@[i as int] && sb[0] == b@[i as int]);
            assert(str_cmp_seq(sa, sb) == str_cmp_seq(sa.drop_first(), sb.drop_first()));
            assert(sa.drop_first() =~= a@.skip(i + 1));
            assert(sb.drop_first() =~= b@.skip(i + 1));
        }
        i = i + 1;
    }
}

fn opt_str_eq(a: &Option<String>, b: &Option<String>) -> (r: bool)
    ensures
        r == (opt_chars(*a) == opt_chars(*b)),
{
    match (a, b) {
        (Option::None, Option::None) => true,
        (Option::Some(x), Option::Some(y)) => str_eq(x.as_str(), y.as_str()),
        _ => false,
    }
}

impl Version {
    /// A plain release version: no pre-release tag, no build metadata.
    pub fn new(major: u64, minor: u64, patch: u64) -> (r: Self)
        ensures
            r.major == major,
            r.minor == minor,
            r.patch == patch,
            r.pre_release is None,
            r.build is None,
    {
        Version { major, minor, patch, pre_release: None, build: None }
    }

    /// Semver-compatible: the same nonzero major version.
    pub fn is_compatible_with(&self, other: &Version) -> (r: bool)
        ensures
            r == (self.major == other.major && self.major > 0),
    {
        self.major == other.major && self.major > 0
    }

    /// The precedence comparison backing every requirement check.
    pub fn precedence(&self, other: &Version) -> (r: Ordering)
        ensures
            r == version_cmp_spec(self, other),
    {
        if self.major < other.major {
            return Ordering::Less;
        }
        if self.major > other.major {
            return Ordering::Greater;
        }
        if self.minor < other.minor {
            return Ordering::Less;
        }
        if self.minor > other.minor {
            return Ordering::Greater;
        }
        if self.patch < other.patch {
            return Ordering::Less;
        }
        if self.patch > other.patch {
            return Ordering::Greater;
        }
        match (&self.pre_release, &other.pre_release) {
            (Option::None, Option::None) => Ordering::Equal,
            (Option::Some(_), Option::None) => Ordering::Less,
            (Option::None, Option::Some(_)) => Ordering::Greater,
            (Option::Some(x), Option::Some(y)) => exec_str_cmp(x.as_str(), y.as_str()),
        }
    }

    /// Whether this version meets a requirement.
    pub fn satisfies(&self, req: &VersionReq) -> (r: bool)
        ensures
            r == version_satisfies(self, req),
    {
        match req {
            VersionReq::Exact(v) => self.eq(v),
            VersionReq::GreaterThan(v) => matches!(self.precedence(v), Ordering::Greater),
            VersionReq::GreaterOrEqual(v) => !matches!(self.precedence(v), Ordering::Less),
            VersionReq::LessThan(v) => matches!(self.precedence(v), Ordering::Less),
            VersionReq::LessOrEqual(v) => !matches!(self.precedence(v), Ordering::Greater),
            VersionReq::Compatible(v) => self.is_compatible_with(v) && !matches!(
                self.precedence(v),
                Ordering::Less,
            ),
            VersionReq::Any => true,
        }
    }

    /// Whether this is a pre-release version.
    pub fn is_prerelease(&self) -> (r: bool)
        ensures
            r == (self.pre_release is Some),
    {
        match &self.pre_release {
            Option::Some(_) => true,
            Option::None => false,
        }
    }

    /// Whether this is a stable version: major at least one and no
    /// pre-release tag.
    pub fn is_stable(&self) -> (r: bool)
        ensures
            r == (self.major >= 1 && self.pre_release is None),
    {
        self.major >= 1 && !self.is_prerelease()
    }
}

/// What a requirement means, over the precedence order.
pub open spec fn version_satisfies(v: &Version, req: &VersionReq) -> bool {
    match req {
        VersionReq::Exact(w) => version_eq_spec(v, w),
        VersionReq::GreaterThan(w) => version_cmp_spec(v, w) == Ordering::Greater,
        VersionReq::GreaterOrEqual(w) => version_cmp_spec(v, w) != Ordering::Less,
        VersionReq::LessThan(w) => version_cmp_spec(v, w) == Ordering::Less,
        VersionReq::LessOrEqual(w) => version_cmp_spec(v, w) != Ordering::Greater,
        VersionReq::Compatible(w) => v.major == w.major && v.major > 0 && version_cmp_spec(v, w)
            != Ordering::Less,
        VersionReq::Any => true,
    }
}

impl Clone for Version {
    fn clone(&self) -> (r: Self)
        ensures
            version_eq_spec(&r, self),
            r.pre_release is Some <==> self.pre_release is Some,
            r.build is Some <==> self.build is Some,
    {
        Version {
            major: self.major,
            minor: self.minor,
            patch: self.patch,
            pre_release: match &self.pre_release {
                Option::Some(s) => Some(s.clone()),
                Option::None => None,
            },
            build: match &self.build {
                Option::Some(s) => Some(s.clone()),
                Option::None => None,
            },
        }
    }
}

impl PartialEq for Version {
    fn eq(&self, other: &Version) -> (r: bool) {
        self.major == other.major && self.minor == other.minor && self.patch == other.patch
            && opt_str_eq(&self.pre_release, &other.pre_release) && opt_str_eq(
            &self.build,
            &other.build,
        )
    }
}

impl vstd::std_specs::cmp::PartialEqSpecImpl for Version {
    open spec fn obeys_eq_spec() -> bool {
        true
    }

    open spec fn eq_spec(&self, other: &Version) -> bool {
        version_eq_spec(self, other)
    }
}

impl PartialOrd for Version {
    fn partial_cmp(&self, other: &Version) -> (r: Option<Ordering>) {
        Some(self.precedence(other))
    }
}

impl vstd::std_specs::cmp::PartialOrdSpecImpl for Version {
    open spec fn obeys_partial_cmp_spec() -> bool {
        true
    }

    open spec fn partial_cmp_spec(&self, other: &Version) -> Option<Ordering> {
        Some(version_cmp_spec(self, other))
    }
}

/// Where an installed tool came from.
pub enum ToolSource {
    /// A local development checkout.
    Local(String),
    /// A published crate at a version.
    Crate { version: String },
    /// A git repository at a revision.
    Git { url: String, rev: String },
    /// An object-store bucket and key.
    R2 { bucket: String, key: String },
}

/// A requirement on a version, for dependency resolution.
pub enum VersionReq {
    /// Exact match.
    Exact(Version),
    /// Strictly newer.
    GreaterThan(Version),
    /// At least.
    GreaterOrEqual(Version),
    /// Strictly older.
    LessThan(Version),
    /// At most.
    LessOrEqual(Version),
    /// Same nonzero major version, and at least this one.
    Compatible(Version),
    /// Anything.
    Any,
}

/// Least index of `c` in `s` at or after `from`, or -1.
pub open spec fn find_char(s: Seq<char>, c: char, from: int) -> int
    decreases s.len() - from,
{
    if from < 0 || from >= s.len() {
        -1
    } else if s[from] == c {
        from
    } else {
        find_char(s, c, from + 1)
    }
}

proof fn lemma_find_char(s: Seq<char>, c: char, from: int)
    requires
        0 <= from <= s.len(),
    ensures
        find_char(s, c, from) == -1 ==> forall|k: int| from <= k < s.len() ==> s[k] != c,
        find_char(s, c, from) >= 0 ==> from <= find_char(s, c, from) < s.len() && s[find_char(
            s,
            c,
            from,
        )] == c && forall|k: int| from <= k < find_char(s, c, from) ==> s[k] != c,
    decreases s.len() - from,
{
    if from < s.len() && s[from] != c {
        lemma_find_char(s, c, from + 1);
    }
}

fn exec_find_char(chars: &Vec<char>, c: char) -> (r: Option<usize>)
    ensures
        match r {
            Some(i) => find_char(chars@, c, 0) == i,
            None => find_char(chars@, c, 0) == -1,
        },
{
    let len = chars.len();
    let mut i: usize = 0;
    while i < len
        invariant
            len == chars@.len(),
            i <= len,
            find_char(chars@, c, 0) == find_char(chars@, c, i as int),
        decreases len - i,
    {
        if chars[i] == c {
            return Some(i);
        }
        i = i + 1;
    }
    None
}

/// A nonempty run of decimal digits denoting a value that fits in 64
/// bits.
pub open spec fn valid_number(s: Seq<char>) -> bool {
    s.len() > 0 && all_digits(s) && dec_value(s) <= u64::MAX
}

/// The functional reading of version syntax: an optional leading `v`,
/// build metadata after the first `+`, a pre-release tag after the first
/// `-` of the remainder, and a three-part dotted numeric core.
pub open spec fn spec_parse_version(s0: Seq<char>) -> Option<
    (u64, u64, u64, Option<Seq<char>>, Option<Seq<char>>),
> {
    let s = if s0.len() > 0 && s0[0] == 'v' {
        s0.drop_first()
    } else {
        s0
    };
    let plus = find_char(s, '+', 0);
    let vp = if plus >= 0 {
        s.take(plus)
    } else {
        s
    };
    let build = if plus >= 0 {
        Some(s.skip(plus + 1))
    } else {
        None
    };
    let dash = find_char(vp, '-', 0);
    let core = if dash >= 0 {
        vp.take(dash)
    } else {
        vp
    };
    let pre = if dash >= 0 {
        Some(vp.skip(dash + 1))
    } else {
        None
    };
    let d1 = find_char(core, '.', 0);
    if d1 < 0 {
        None
    } else {
        let rest = core.skip(d1 + 1);
        let d2 = find_char(rest, '.', 0);
        if d2 < 0 {
            None
        } else {
            let a = core.take(d1);
            let b = rest.take(d2);
            let c = rest.skip(d2 + 1);
            if find_char(c, '.', 0) >= 0 {
                None
            } else if valid_number(a) && valid_number(b) && valid_number(c) {
                Some((
                    dec_value(a) as u64,
                    dec_value(b) as u64,
                    dec_value(c) as u64,
                    pre,
                    build,
                ))
            } else {
                None
            }
        }
    }
}

/// A version string that cannot be read.
#[derive(Debug)]
pub struct VersionError {}

impl Version {
    /// Parses version syntax. Succeeds exactly when the text, after an
    /// optional leading `v`, splits into a dotted three-number core, an
    /// optional pre-release tag and optional build metadata.
    pub fn parse(s: &str) -> (r: Result<Version, VersionError>)
        ensures
            match r {
                Ok(v) => spec_parse_version(s@) == Some(
                    (v.major, v.minor, v.patch, opt_chars(v.pre_release), opt_chars(v.build)),
                ),
                Err(_) => spec_parse_version(s@) is None,
            },
    {
        let chars0 = str_to_chars(s);
        let stripped: Vec<char> = if chars0.len() > 0 && chars0[0] == 'v' {
            let t = chars_range(&chars0, 1, chars0.len());
            proof {
                assert(t@ =~= s@.drop_first());
            }
            t
        } else {
            chars0
        };
        let ghost sg = stripped@;
        let (vp, build): (Vec<char>, Option<Vec<char>>) = match exec_find_char(&stripped, '+') {
            Some(i) => {
                proof {
                    lemma_find_char(sg, '+', 0);
                }
                (
                    chars_range(&stripped, 0, i),
                    Some(chars_range(&stripped, i + 1, stripped.len())),
                )
            },
            None => (stripped, None),
        };
        let ghost vpg = vp@;
        let (core, pre): (Vec<char>, Option<Vec<char>>) = match exec_find_char(&vp, '-') {
            Some(i) => {
                proof {
                    lemma_find_char(vpg, '-', 0);
                }
                (chars_range(&vp, 0, i), Some(chars_range(&vp, i + 1, vp.len())))
            },
            None => (vp, None),
        };
        let ghost coreg = core@;
        let d1 = match exec_find_char(&core, '.') {
            Some(i) => i,
            None => {
                return Err(VersionError {});
            },
        };
        proof {
            lemma_find_char(coreg, '.', 0);
        }
        let rest = chars_range(&core, d1 + 1, core.len());
        let ghost restg = rest@;
        let d2 = match exec_find_char(&rest, '.') {
            Some(i) => i,
            None => {
                return Err(VersionError {});
            },
        };
        proof {
            lemma_find_char(restg, '.', 0);
        }
        let a = chars_range(&core, 0, d1);
        let b = chars_range(&rest, 0, d2);
        let c = chars_range(&rest, d2 + 1, rest.len());
        match exec_find_char(&c, '.') {
            Some(_) => {
                return Err(VersionError {});
            },
            None => {},
        };
        let major = match parse_u64(&a) {
            Some(n) => n,
            None => {
                return Err(VersionError {});
            },
        };
        let minor = match parse_u64(&b) {
            Some(n) => n,
            None => {
                return Err(VersionError {});
            },
        };
        let patch = match parse_u64(&c) {
            Some(n) => n,
            None => {
                return Err(VersionError {});
            },
        };
        let pre_release = match pre {
            Some(p) => Some(string_from_chars(&p)),
            None => None,
        };
        let build_meta = match build {
            Some(bm) => Some(string_from_chars(&bm)),
            None => None,
        };
        Ok(Version { major, minor, patch, pre_release, build: build_meta })
    }
}

impl core::str::FromStr for Version {
    type Err = VersionError;

    fn from_str(s: &str) -> Result<Version, VersionError> {
        Version::parse(s)
    }
}

/// The functional reading of requirement syntax: an operator prefix
/// followed by a version, `*` alone, or a bare version read as
/// compatible.
pub open spec fn spec_parse_req(s: Seq<char>) -> Option<
    (int, (u64, u64, u64, Option<Seq<char>>, Option<Seq<char>>)),
> {
    if s == seq!['*'] {
        Some((6, (0u64, 0u64, 0u64, Option::<Seq<char>>::None, Option::<Seq<char>>::None)))
    } else if s.len() >= 2 && s[0] == '>' && s[1] == '=' {
        match spec_parse_version(s.skip(2)) {
            Some(v) => Some((2, v)),
            None => None,
        }
    } else if s.len() >= 1 && s[0] == '>' {
        match spec_parse_version(s.skip(1)) {
            Some(v) => Some((1, v)),
            None => None,
        }
    } else if s.len() >= 2 && s[0] == '<' && s[1] == '=' {
        match spec_parse_version(s.skip(2)) {
            Some(v) => Some((4, v)),
            None => None,
        }
    } else if s.len() >= 1 && s[0] == '<' {
        match spec_parse_version(s.skip(1)) {
            Some(v) => Some((3, v)),
            None => None,
        }
    } else if s.len() >= 1 && s[0] == '=' {
        match spec_parse_version(s.skip(1)) {
            Some(v) => Some((0, v)),
            None => None,
        }
    } else if s.len() >= 1 && s[0] == '^' {
        match spec_parse_version(s.skip(1)) {
            Some(v) => Some((5, v)),
            None => None,
        }
    } else {
        match spec_parse_version(s) {
            Some(v) => Some((5, v)),
            None => None,
        }
    }
}

/// The operator tag a requirement variant corresponds to.
pub open spec fn req_tag(r: &VersionReq) -> int {
    match r {
        VersionReq::Exact(_) => 0,
        VersionReq::GreaterThan(_) => 1,
        VersionReq::GreaterOrEqual(_) => 2,
        VersionReq::LessThan(_) => 3,
        VersionReq::LessOrEqual(_) => 4,
        VersionReq::Compatible(_) => 5,
        VersionReq::Any => 6,
    }
}

/// The version a requirement carries, if any.
pub open spec fn req_version_fields(r: &VersionReq) -> (
    u64,
    u64,
    u64,
    Option<Seq<char>>,
    Option<Seq<char>>,
) {
    match r {
        VersionReq::Exact(v) => (v.major, v.minor, v.patch, opt_chars(v.pre_release), opt_chars(v.build)),
        VersionReq::GreaterThan(v) => (v.major, v.minor, v.patch, opt_chars(v.pre_release), opt_chars(v.build)),
        VersionReq::GreaterOrEqual(v) => (v.major, v.minor, v.patch, opt_chars(v.pre_release), opt_chars(v.build)),
        VersionReq::LessThan(v) => (v.major, v.minor, v.patch, opt_chars(v.pre_release), opt_chars(v.build)),
        VersionReq::LessOrEqual(v) => (v.major, v.minor, v.patch, opt_chars(v.pre_release), opt_chars(v.build)),
        VersionReq::Compatible(v) => (v.major, v.minor, v.patch, opt_chars(v.pre_release), opt_chars(v.build)),
        VersionReq::Any => (0u64, 0u64, 0u64, Option::<Seq<char>>::None, Option::<Seq<char>>::None),
    }
}

impl VersionReq {
    /// Parses requirement syntax: `*`, an operator prefix (`>=`, `>`,
    /// `<=`, `<`, `=`, `^`) followed by a version, or a bare version read
    /// as a compatible requirement.
    pub fn parse(s: &str) -> (r: Result<VersionReq, VersionError>)
        ensures
            match r {
                Ok(req) => spec_parse_req(s@) == Some(
                    (req_tag(&req), req_version_fields(&req)),
                ),
                Err(_) => spec_parse_req(s@) is None,
            },
    {
        let chars = str_to_chars(s);
        let len = chars.len();
        if len == 1 && chars[0] == '*' {
            proof {
                assert(s@ =~= seq!['*']);
            }
            return Ok(VersionReq::Any);
        }
        proof {
            if s@.len() == 1 && s@[0] != '*' {
                assert(s@ != seq!['*']) by {
                    assert(s@[0] != seq!['*'][0]);
                }
            }
            if s@.len() != 1 {
                assert(s@ != seq!['*']);
            }
        }
        if len >= 2 && chars[0] == '>' && chars[1] == '=' {
            let tail = substring_from(&chars, 2);
            return match Version::parse(tail.as_str()) {
                Ok(v) => Ok(VersionReq::GreaterOrEqual(v)),
                Err(e) => Err(e),
            };
        }
        if len >= 1 && chars[0] == '>' {
            let tail = substring_from(&chars, 1);
            return match Version::parse(tail.as_str()) {
                Ok(v) => Ok(VersionReq::GreaterThan(v)),
                Err(e) => Err(e),
            };
        }
        if len >= 2 && chars[0] == '<' && chars[1] == '=' {
            let tail = substring_from(&chars, 2);
            return match Version::parse(tail.as_str()) {
                Ok(v) => Ok(VersionReq::LessOrEqual(v)),
                Err(e) => Err(e),
            };
        }
        if len >= 1 && chars[0] == '<' {
            let tail = substring_from(&chars, 1);
            return match Version::parse(tail.as_str()) {
                Ok(v) => Ok(VersionReq::LessThan(v)),
                Err(e) => Err(e),
            };
        }
        if len >= 1 && chars[0] == '=' {
            let tail = substring_from(&chars, 1);
            return match Version::parse(tail.as_str()) {
                Ok(v) => Ok(VersionReq::Exact(v)),
                Err(e) => Err(e),
            };
        }
        if len >= 1 && chars[0] == '^' {
            let tail = substring_from(&chars, 1);
            return match Version::parse(tail.as_str()) {
                Ok(v) => Ok(VersionReq::Compatible(v)),
                Err(e) => Err(e),
            };
        }
        match Version::parse(s) {
            Ok(v) => Ok(VersionReq::Compatible(v)),
            Err(e) => Err(e),
        }
    }
}

impl core::str::FromStr for VersionReq {
    type Err = VersionError;

    fn from_str(s: &str) -> Result<VersionReq, VersionError> {
        VersionReq::parse(s)
    }
}

fn substring_from(chars: &Vec<char>, from: usize) -> (r: String)
    requires
        from <= chars@.len(),
    ensures
        r@ == chars@.skip(from as int),
{
    let part = chars_range(chars, from, chars.len());
    string_from_chars(&part)
}

} // verus!
