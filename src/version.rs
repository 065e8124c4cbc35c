//! Concrete versions and version specifiers.

use vstd::prelude::*;
use vstd::string::*;
use crate::text::{
    decimal, decimal_string, find_char, is_digit, is_numeral, lemma_decimal, numeral_in, numeral_value,
};

verus! {

/// A release version: the triple (major, minor, patch).
#[derive(Debug, Clone, Copy, PartialEq, Eq, Structural, PartialOrd, Ord, Hash)]
pub struct Version {
    pub major: u64,
    pub minor: u64,
    pub patch: u64,
}

/// The text of the version with the given components: `M.N.P` in canonical decimals.
pub open spec fn version_text(major: nat, minor: nat, patch: nat) -> Seq<char> {
    decimal(major) + seq!['.'] + decimal(minor) + seq!['.'] + decimal(patch)
}

/// Whether `s` is the text of some version.
pub open spec fn is_version_text(s: Seq<char>) -> bool {
    exists|a: u64, b: u64, c: u64| s == #[trigger] version_text(a as nat, b as nat, c as nat)
}

/// Whether `s` is `M.N`, two runs of digits around one dot, with values `m` and `n`.
pub open spec fn partial_parts(s: Seq<char>, m: nat, n: nat) -> bool {
    exists|i: int|
        0 <= i < s.len() && #[trigger] s[i] == '.' && is_numeral(s.take(i)) && is_numeral(
            s.skip(i + 1),
        ) && numeral_value(s.take(i)) == m && numeral_value(s.skip(i + 1)) == n
}

/// Whether `s` is `M.N` with both values fitting in `u64`.
pub open spec fn is_partial_text(s: Seq<char>) -> bool {
    exists|m: u64, n: u64| partial_parts(s, m as nat, n as nat)
}

impl Version {
    pub open spec fn text(self) -> Seq<char> {
        version_text(self.major as nat, self.minor as nat, self.patch as nat)
    }

    /// Semantic-version precedence: lexicographic on (major, minor, patch).
    pub open spec fn older_than(self, other: Version) -> bool {
        self.major < other.major || (self.major == other.major && (self.minor < other.minor || (
        self.minor == other.minor && self.patch < other.patch)))
    }

    pub open spec fn at_most(self, other: Version) -> bool {
        self.older_than(other) || self == other
    }

    pub fn new(major: u64, minor: u64, patch: u64) -> (r: Version)
        ensures
            r == (Version { major, minor, patch }),
    {
        Version { major, minor, patch }
    }

    /// The canonical text `M.N.P`.
    pub fn to_string(&self) -> (r: String)
        ensures
            r@ == self.text(),
    {
        let mut s = decimal_string(self.major);
        s.append(".");
        s.append(decimal_string(self.minor).as_str());
        s.append(".");
        s.append(decimal_string(self.patch).as_str());
        proof {
            reveal_strlit(".");
        }
        assert(s@ =~= self.text());
        s
    }

    /// Whether `name` is the text of this version.
    pub fn is_named(&self, name: &str) -> (r: bool)
        ensures
            r == (name@ == self.text()),
    {
        let own = self.to_string();
        crate::text::str_eq(own.as_str(), name)
    }

    /// Whether `self` has lower precedence than `other`.
    pub fn precedes(&self, other: &Version) -> (r: bool)
        ensures
            r == self.older_than(*other),
    {
        self.major < other.major || (self.major == other.major && (self.minor < other.minor || (
        self.minor == other.minor && self.patch < other.patch)))
    }

    /// Parses exact version text `M.N.P`.
    pub fn parse(text: &str) -> (r: Result<Version, ParseError>)
        ensures
            match r {
                Ok(v) => text@ == v.text(),
                Err(e) => !is_version_text(text@) && e.text@ == text@,
            },
    {
        let res = semver_parse(text);
        let ghost parsed = res;
        match res {
            Ok((major, minor, patch, pre, build)) => {
                if pre.as_str().is_empty() && build.as_str().is_empty() {
                    assert(parsed_as(parsed, major, minor, patch));
                    Ok(Version { major, minor, patch })
                } else {
                    Err(ParseError { text: text.to_owned(), reason: pre_release_reason() })
                }
            },
            Err(reason) => Err(ParseError { text: text.to_owned(), reason }),
        }
    }
}

/// Two numerals followed by a dot and anything split the same way only when
/// they are the same.
proof fn lemma_split_at_dot(x1: Seq<char>, x2: Seq<char>, y1: Seq<char>, y2: Seq<char>)
    requires
        is_numeral(x1),
        is_numeral(y1),
        x1 + seq!['.'] + x2 == y1 + seq!['.'] + y2,
    ensures
        x1 == y1,
        x2 == y2,
{
    let l = x1 + seq!['.'] + x2;
    let r = y1 + seq!['.'] + y2;
    if x1.len() < y1.len() {
        assert(l[x1.len() as int] == '.');
        assert(r[x1.len() as int] == y1[x1.len() as int]);
        assert(is_digit(y1[x1.len() as int]));
    } else if y1.len() < x1.len() {
        assert(r[y1.len() as int] == '.');
        assert(l[y1.len() as int] == x1[y1.len() as int]);
        assert(is_digit(x1[y1.len() as int]));
    }
    assert(x1 =~= l.take(x1.len() as int));
    assert(y1 =~= r.take(y1.len() as int));
    assert(x2 =~= l.skip(x1.len() as int + 1));
    assert(y2 =~= r.skip(y1.len() as int + 1));
}

/// Distinct versions have distinct texts.
pub proof fn lemma_version_text_injective(v: Version, w: Version)
    requires
        v.text() == w.text(),
    ensures
        v == w,
{
    let (a, b, c) = (v.major as nat, v.minor as nat, v.patch as nat);
    let (d, e, f) = (w.major as nat, w.minor as nat, w.patch as nat);
    lemma_decimal(a);
    lemma_decimal(b);
    lemma_decimal(c);
    lemma_decimal(d);
    lemma_decimal(e);
    lemma_decimal(f);
    let dot = seq!['.'];
    assert(v.text() =~= decimal(a) + dot + (decimal(b) + dot + decimal(c)));
    assert(w.text() =~= decimal(d) + dot + (decimal(e) + dot + decimal(f)));
    lemma_split_at_dot(decimal(a), decimal(b) + dot + decimal(c), decimal(d), decimal(e) + dot + decimal(f));
    lemma_split_at_dot(decimal(b), decimal(c), decimal(e), decimal(f));
}

/// Malformed version or specifier text, with the offending text.
#[derive(Debug, Clone, PartialEq, Eq)]
pub struct ParseError {
    pub text: String,
    pub reason: String,
}

fn pre_release_reason() -> (r: String) {
    String::from_str("pre-release and build metadata are not supported")
}

/// The parts of a semantic version: major, minor, patch, pre-release, build metadata.
pub type SemverParts = (u64, u64, u64, String, String);

/// Whether `r` holds the version `a.b.c` with no pre-release and no build metadata.
pub open spec fn parsed_as(r: Result<SemverParts, String>, a: u64, b: u64, c: u64) -> bool {
    match r {
        Ok(p) => p.0 == a && p.1 == b && p.2 == c && p.3@.len() == 0 && p.4@.len() == 0,
        Err(_) => false,
    }
}

/// Relies on `semver::Version::parse`: it accepts `M.N.P` with canonical
/// (no leading zero) decimal components that fit in `u64`, optionally
/// followed by `-pre` and `+build`, and nothing else; the pre-release and
/// build metadata are empty exactly when the text stops after the patch.
#[verifier::external_body]
fn semver_parse(text: &str) -> (r: Result<SemverParts, String>)
    ensures
        forall|a: u64, b: u64, c: u64|
            text@ == #[trigger] version_text(a as nat, b as nat, c as nat) ==> parsed_as(r, a, b, c),
        forall|a: u64, b: u64, c: u64|
            #[trigger] parsed_as(r, a, b, c) ==> text@ == version_text(a as nat, b as nat, c as nat),
{
    match semver::Version::parse(text) {
        Ok(v) => Ok((v.major, v.minor, v.patch, v.pre.as_str().to_owned(), v.build.as_str().to_owned())),
        Err(e) => Err(e.to_string()),
    }
}

/// What parsing `text` as a specifier gives: exact when it is the text of a
/// version, partial when it is `M.N`, an error naming the text otherwise.
pub open spec fn spec_parse_result(text: Seq<char>, r: Result<VersionSpec, ParseError>) -> bool {
    match r {
        Ok(VersionSpec::Exact(v)) => text == v.text(),
        Ok(VersionSpec::Partial(m, n)) => !is_version_text(text) && partial_parts(
            text,
            m as nat,
            n as nat,
        ),
        Err(e) => !is_version_text(text) && !is_partial_text(text) && e.text@ == text,
    }
}

/// What a user asks for: one exact version, or any patch of `major.minor`.
#[derive(Debug, Clone, Copy, PartialEq, Eq, Structural, Hash)]
pub enum VersionSpec {
    Exact(Version),
    Partial(u64, u64),
}

impl VersionSpec {
    pub open spec fn spec_matches(self, v: Version) -> bool {
        match self {
            VersionSpec::Exact(e) => e == v,
            VersionSpec::Partial(major, minor) => v.major == major && v.minor == minor,
        }
    }

    /// Parses `M.N.P` as an exact specifier and `M.N` as a partial one.
    pub fn parse(text: &str) -> (r: Result<VersionSpec, ParseError>)
        ensures
            spec_parse_result(text@, r),
    {
        match Version::parse(text) {
            Ok(v) => Ok(VersionSpec::Exact(v)),
            Err(e) => match parse_partial(text) {
                Some((m, n)) => Ok(VersionSpec::Partial(m, n)),
                None => Err(e),
            },
        }
    }

    /// Whether `v` satisfies the specifier; a partial one ignores the patch.
    pub fn matches(&self, v: &Version) -> (r: bool)
        ensures
            r == self.spec_matches(*v),
    {
        match self {
            VersionSpec::Exact(e) => e.major == v.major && e.minor == v.minor && e.patch == v.patch,
            VersionSpec::Partial(major, minor) => v.major == *major && v.minor == *minor,
        }
    }

    /// The version of an exact specifier.
    pub fn exact_value(&self) -> (r: Option<Version>)
        ensures
            match self {
                VersionSpec::Exact(v) => r == Some(*v),
                VersionSpec::Partial(_, _) => r is None,
            },
    {
        match self {
            VersionSpec::Exact(v) => Some(*v),
            VersionSpec::Partial(_, _) => None,
        }
    }
}

/// Splits `M.N` into its two values.
fn parse_partial(text: &str) -> (r: Option<(u64, u64)>)
    ensures
        match r {
            Some((m, n)) => partial_parts(text@, m as nat, n as nat),
            None => !is_partial_text(text@),
        },
{
    let len = text.unicode_len();
    let ghost s = text@;
    match find_char(text, '.', 0) {
        None => {
            assert forall|m: u64, n: u64| !partial_parts(s, m as nat, n as nat) by {
                if partial_parts(s, m as nat, n as nat) {
                    let i = choose|i: int|
                        0 <= i < s.len() && #[trigger] s[i] == '.' && is_numeral(s.take(i))
                            && is_numeral(s.skip(i + 1)) && numeral_value(s.take(i)) == m
                            && numeral_value(s.skip(i + 1)) == n;
                }
            }
            None
        },
        Some(d) => {
            assert(s.take(d as int) =~= s.subrange(0, d as int));
            assert(s.skip(d + 1) =~= s.subrange(d + 1, len as int));
            let left = numeral_in(text, 0, d);
            let right = numeral_in(text, d + 1, len);
            match (left, right) {
                (Some(m), Some(n)) => Some((m, n)),
                _ => {
                    assert forall|m: u64, n: u64| !partial_parts(s, m as nat, n as nat) by {
                        if partial_parts(s, m as nat, n as nat) {
                            let i = choose|i: int|
                                0 <= i < s.len() && #[trigger] s[i] == '.' && is_numeral(
                                    s.take(i),
                                ) && is_numeral(s.skip(i + 1)) && numeral_value(s.take(i)) == m
                                    && numeral_value(s.skip(i + 1)) == n;
                            if i > d {
                                assert(s.take(i)[d as int] == '.');
                                assert(!is_digit(s.take(i)[d as int]));
                            }
                        }
                    }
                    None
                },
            }
        },
    }
}

/// A partial specifier `M.N` matches exactly the versions with major `M`
/// and minor `N`, whatever their patch.
pub proof fn law_partial_matches(major: u64, minor: u64, v: Version)
    ensures
        VersionSpec::Partial(major, minor).spec_matches(v) <==> (v.major == major && v.minor
            == minor),
{
}

/// Parsing the text of a version gives an exact specifier whose version
/// prints back as the same text, character for character.
pub proof fn law_parse_print_round_trip(text: Seq<char>, r: Result<VersionSpec, ParseError>)
    requires
        is_version_text(text),
        spec_parse_result(text, r),
    ensures
        r matches Ok(VersionSpec::Exact(w)) && w.text() == text,
{
}

} // verus!
