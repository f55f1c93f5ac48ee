//! Multiplexer version handling: extracting the numeric version token from
//! the multiplexer's version banner, normalizing a two-part version to the
//! fully qualified three-part form, parsing it, and the ordering test that
//! decides whether the dedicated popup primitive is available.

use vstd::prelude::*;

use crate::text::{is_digit, trim, trim_spec};

verus! {

/// A parsed semantic version, held as plain numbers so that the ordering
/// logic can be verified.
#[derive(Clone, Copy, Debug, PartialEq, Eq, Structural)]
pub struct Version {
    pub major: u64,
    pub minor: u64,
    pub patch: u64,
}

/// Strict lexicographic order on (major, minor, patch).
pub open spec fn version_lt(a: Version, b: Version) -> bool {
    a.major < b.major
        || (a.major == b.major && a.minor < b.minor)
        || (a.major == b.major && a.minor == b.minor && a.patch < b.patch)
}

impl Version {
    /// `self >= other` in the standard three-part semantic ordering.
    pub fn at_least(&self, other: &Version) -> (r: bool)
        ensures
            r == !version_lt(*self, *other),
    {
        if self.major != other.major {
            self.major > other.major
        } else if self.minor != other.minor {
            self.minor > other.minor
        } else {
            self.patch >= other.patch
        }
    }
}

/// The first version with the dedicated popup primitive.
pub open spec fn popup_cutoff() -> Version {
    Version { major: 3, minor: 2, patch: 0 }
}

/// True exactly when `v` supports the dedicated popup primitive, which
/// arrived in version 3.2.0 of the multiplexer.
pub fn supports_popup(v: &Version) -> (r: bool)
    ensures
        r == !version_lt(*v, popup_cutoff()),
{
    v.at_least(&Version { major: 3, minor: 2, patch: 0 })
}

/// A character that may appear in the numeric version token.
pub open spec fn is_version_char(c: char) -> bool {
    c == '.' || is_digit(c)
}

/// Length of the longest prefix of `s` made of version characters.
pub open spec fn version_prefix_len(s: Seq<char>) -> int
    decreases s.len(),
{
    if s.len() == 0 {
        0
    } else if !is_version_char(s[0]) {
        0
    } else {
        1 + version_prefix_len(s.drop_first())
    }
}

proof fn lemma_version_prefix_at(s: Seq<char>, i: int)
    requires
        0 <= i <= s.len(),
        forall|j: int| 0 <= j < i ==> is_version_char(s[j]),
        i == s.len() || !is_version_char(s[i]),
    ensures
        version_prefix_len(s) == i,
    decreases i,
{
    if i > 0 {
        lemma_version_prefix_at(s.drop_first(), i - 1);
    }
}

/// The version banner starts with the multiplexer's name and a space.
pub open spec fn has_banner_prefix(t: Seq<char>) -> bool {
    t.len() >= 5 && t[0] == 't' && t[1] == 'm' && t[2] == 'u' && t[3] == 'x' && t[4] == ' '
}

/// The numeric token of a version banner: after trimming, the longest run of
/// digits and dots that follows the banner prefix, or the whole trimmed text
/// if the prefix is absent.
pub open spec fn version_token_spec(s: Seq<char>) -> Seq<char> {
    let t = trim_spec(s);
    if has_banner_prefix(t) {
        let rest = t.skip(5);
        rest.take(version_prefix_len(rest))
    } else {
        t
    }
}

fn is_version_char_exec(c: char) -> (r: bool)
    ensures
        r == is_version_char(c),
{
    c == '.' || ('0' <= c && c <= '9')
}

/// Extracts the numeric version token from a version banner.
pub fn extract_version_token(s: &str) -> (r: String)
    ensures
        r@ == version_token_spec(s@),
{
    let t = trim(s);
    let n: usize = t.unicode_len();
    let has_prefix: bool = n >= 5 && t.get_char(0) == 't' && t.get_char(1) == 'm' && t.get_char(2)
        == 'u' && t.get_char(3) == 'x' && t.get_char(4) == ' ';
    if has_prefix {
        let ghost rest = t@.skip(5);
        let mut i: usize = 5;
        while i < n && is_version_char_exec(t.get_char(i))
            invariant
                5 <= i <= n,
                n == t@.len(),
                rest == t@.skip(5),
                forall|j: int| 0 <= j < i - 5 ==> is_version_char(rest[j]),
            decreases n - i,
        {
            i = i + 1;
        }
        proof {
            lemma_version_prefix_at(rest, i - 5);
            assert(rest.take(i - 5) =~= t@.subrange(5, i as int));
        }
        t.substring_char(5, i).to_owned()
    } else {
        t.to_owned()
    }
}

/// Number of dot characters in `s`.
pub open spec fn dot_count(s: Seq<char>) -> int
    decreases s.len(),
{
    if s.len() == 0 {
        0
    } else {
        dot_count(s.drop_last()) + if s.last() == '.' {
            1int
        } else {
            0int
        }
    }
}

/// A two-part version gains a zero patch component; anything else is kept
/// unchanged.
pub open spec fn normalized_spec(s: Seq<char>) -> Seq<char> {
    if dot_count(s) == 1 {
        s + ".0"@
    } else {
        s
    }
}

/// Appends a zero patch component to a two-part version string; any other
/// string is returned unchanged.
pub fn normalize_version(s: &str) -> (r: String)
    ensures
        r@ == normalized_spec(s@),
{
    let n: usize = s.unicode_len();
    let mut dots: usize = 0;
    let mut i: usize = 0;
    proof {
        assert(s@.take(0) =~= Seq::<char>::empty());
    }
    while i < n
        invariant
            0 <= i <= n,
            n == s@.len(),
            dots <= i,
            dots as int == dot_count(s@.take(i as int)),
        decreases n - i,
    {
        proof {
            assert(s@.take(i + 1).drop_last() =~= s@.take(i as int));
            assert(s@.take(i + 1).last() == s@[i as int]);
        }
        if s.get_char(i) == '.' {
            dots = dots + 1;
        }
        i = i + 1;
    }
    proof {
        assert(s@.take(n as int) =~= s@);
    }
    let mut r = s.to_owned();
    if dots == 1 {
        r.append(".0");
    }
    r
}

/// What `semver::Version::parse` recovers from a text: its three numeric
/// components, or nothing when the text is not a valid semantic version.
pub uninterp spec fn semver_triple(s: Seq<char>) -> Option<(u64, u64, u64)>;

/// Relies on `semver::Version::parse`: the parse result is a function of the
/// text alone. Pre-release and build metadata are dropped here; the version
/// tokens this library feeds in never carry them.
#[verifier::external_body]
fn parse_semver(s: &str) -> (r: Option<(u64, u64, u64)>)
    ensures
        r == semver_triple(s@),
{
    match semver::Version::parse(s) {
        Ok(v) => Some((v.major, v.minor, v.patch)),
        Err(_) => None,
    }
}

/// The version a banner announces: its numeric token, normalized, parsed as
/// a semantic version.
pub open spec fn banner_version_spec(raw: Seq<char>) -> Option<Version> {
    match semver_triple(normalized_spec(version_token_spec(raw))) {
        Some(t) => Some(Version { major: t.0, minor: t.1, patch: t.2 }),
        None => None,
    }
}

/// Recovers the multiplexer's version from the output of its version query.
pub fn version_from_banner(raw: &str) -> (r: Option<Version>)
    ensures
        r == banner_version_spec(raw@),
{
    let token = extract_version_token(raw);
    let normalized = normalize_version(token.as_str());
    match parse_semver(normalized.as_str()) {
        Some(t) => Some(Version { major: t.0, minor: t.1, patch: t.2 }),
        None => None,
    }
}

} // verus!
