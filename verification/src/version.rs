//! The canonical version type: three numeric components, ordered
//! lexicographically, written `v{major}.{minor}.{patch}`, and parsed
//! back leniently (surrounding whitespace and one leading `v` are
//! accepted, extra dot-separated components are ignored).

use vstd::prelude::*;

use crate::text::{
    dec_digits, find_char_at, is_digit_char, is_ws_char, lemma_dec_digits,
    lemma_split_char_first, lemma_split_char_len, lemma_split_char_none,
    parse_u32, parse_u32_spec, split_char_spec, strip_one, strip_one_spec,
    trim_spec, trim_str, u32_to_string,
};

verus! {

#[derive(Debug, Clone, Copy, PartialEq, Eq, Structural, Hash)]
pub struct NodeVersion {
    pub major: u32,
    pub minor: u32,
    pub patch: u32,
}

/// Error of an explicit, single-value parse; best-effort listing parsers
/// never raise it, they skip the line instead.
#[derive(Debug, Clone)]
pub struct VersionParseError(pub String);

/// Strict lexicographic order: major first, then minor, then patch.
pub open spec fn version_lt(a: NodeVersion, b: NodeVersion) -> bool {
    ||| a.major < b.major
    ||| (a.major == b.major && a.minor < b.minor)
    ||| (a.major == b.major && a.minor == b.minor && a.patch < b.patch)
}

pub open spec fn version_le(a: NodeVersion, b: NodeVersion) -> bool {
    version_lt(a, b) || a == b
}

impl NodeVersion {
    pub fn new(major: u32, minor: u32, patch: u32) -> (r: Self)
        ensures
            r == (NodeVersion { major, minor, patch }),
    {
        Self { major, minor, patch }
    }

    pub fn major_group(&self) -> (r: u32)
        ensures
            r == self.major,
    {
        self.major
    }

    /// The canonical text form `v{major}.{minor}.{patch}`.
    pub fn to_version_string(&self) -> (s: String)
        ensures
            s@ == format_version_spec(*self),
    {
        let mut s = String::new();
        s.append("v");
        let maj = u32_to_string(self.major);
        s.append(maj.as_str());
        s.append(".");
        let min = u32_to_string(self.minor);
        s.append(min.as_str());
        s.append(".");
        let pat = u32_to_string(self.patch);
        s.append(pat.as_str());
        proof {
            reveal_strlit("v");
            reveal_strlit(".");
            assert(s@ =~= format_version_spec(*self));
        }
        s
    }

    /// Executable form of `version_lt`.
    pub fn precedes(&self, other: &Self) -> (r: bool)
        ensures
            r == version_lt(*self, *other),
    {
        if self.major != other.major {
            self.major < other.major
        } else if self.minor != other.minor {
            self.minor < other.minor
        } else {
            self.patch < other.patch
        }
    }
}

impl PartialOrd for NodeVersion {
    fn partial_cmp(&self, other: &Self) -> (r: Option<core::cmp::Ordering>) {
        if self.precedes(other) {
            Some(core::cmp::Ordering::Less)
        } else if other.precedes(self) {
            Some(core::cmp::Ordering::Greater)
        } else {
            Some(core::cmp::Ordering::Equal)
        }
    }
}

impl vstd::std_specs::cmp::PartialOrdSpecImpl for NodeVersion {
    open spec fn obeys_partial_cmp_spec() -> bool {
        true
    }

    open spec fn partial_cmp_spec(&self, other: &Self) -> Option<
        core::cmp::Ordering,
    > {
        if version_lt(*self, *other) {
            Some(core::cmp::Ordering::Less)
        } else if version_lt(*other, *self) {
            Some(core::cmp::Ordering::Greater)
        } else {
            Some(core::cmp::Ordering::Equal)
        }
    }
}

pub open spec fn format_version_spec(v: NodeVersion) -> Seq<char> {
    seq!['v'] + dec_digits(v.major as nat) + seq!['.'] + dec_digits(v.minor as nat)
        + seq!['.'] + dec_digits(v.patch as nat)
}

/// What parsing accepts: trim whitespace, strip one optional leading `v`,
/// split on dots, read the first three components as numbers; fewer than
/// three components or a bad component is a failure.
pub open spec fn parse_version_spec(s: Seq<char>) -> Option<NodeVersion> {
    let t = strip_one_spec(trim_spec(s), 'v');
    let parts = split_char_spec(t, '.');
    if parts.len() < 3 {
        None
    } else {
        match (parse_u32_spec(parts[0]), parse_u32_spec(parts[1]), parse_u32_spec(
            parts[2],
        )) {
            (Some(major), Some(minor), Some(patch)) => Some(
                NodeVersion { major, minor, patch },
            ),
            _ => None,
        }
    }
}

/// Parses a version out of `s`; `Err` exactly when `parse_version_spec`
/// rejects it, with a message naming the first bad component.
pub fn parse_version(s: &str) -> (r: Result<NodeVersion, VersionParseError>)
    ensures
        match r {
            Ok(v) => parse_version_spec(s@) == Some(v),
            Err(_) => parse_version_spec(s@) is None,
        },
{
    let t0 = trim_str(s);
    let t = strip_one(t0, 'v');
    let n = t.unicode_len();
    let ghost parts = split_char_spec(t@, '.');
    let dot1 = match find_char_at(t, 0, '.') {
        Some(i) => i,
        None => {
            proof {
                lemma_split_char_none(t@, '.');
            }
            return Err(VersionParseError(
                String::from_str("Expected X.Y.Z format, got: ").concat(t),
            ));
        },
    };
    proof {
        lemma_split_char_first(t@, '.', dot1 as int);
        assert(t@.take(dot1 as int) =~= t@.subrange(0, dot1 as int));
    }
    let ghost rest1 = t@.skip(dot1 + 1);
    let dot2 = match find_char_at(t, dot1 + 1, '.') {
        Some(i) => i,
        None => {
            proof {
                assert(forall|j: int|
                    0 <= j < rest1.len() ==> rest1[j] == t@[dot1 + 1 + j]);
                lemma_split_char_none(rest1, '.');
            }
            return Err(VersionParseError(
                String::from_str("Expected X.Y.Z format, got: ").concat(t),
            ));
        },
    };
    proof {
        assert(forall|j: int| 0 <= j < dot2 - dot1 - 1 ==> rest1[j] == t@[dot1 + 1
            + j]);
        assert(rest1[dot2 - dot1 - 1] == t@[dot2 as int]);
        lemma_split_char_first(rest1, '.', dot2 - dot1 - 1);
        assert(rest1.take(dot2 - dot1 - 1) =~= t@.subrange(dot1 + 1, dot2 as int));
        assert(rest1.skip(dot2 - dot1) =~= t@.skip(dot2 + 1));
    }
    let ghost rest2 = t@.skip(dot2 + 1);
    let end3 = match find_char_at(t, dot2 + 1, '.') {
        Some(i) => {
            proof {
                assert(forall|j: int|
                    0 <= j < i - dot2 - 1 ==> rest2[j] == t@[dot2 + 1 + j]);
                assert(rest2[i - dot2 - 1] == t@[i as int]);
                lemma_split_char_first(rest2, '.', i - dot2 - 1);
                assert(rest2.take(i - dot2 - 1) =~= t@.subrange(dot2 + 1, i as int));
                lemma_split_char_len(rest2.skip(i - dot2), '.');
            }
            i
        },
        None => {
            proof {
                assert(forall|j: int|
                    0 <= j < rest2.len() ==> rest2[j] == t@[dot2 + 1 + j]);
                lemma_split_char_none(rest2, '.');
                assert(rest2 =~= t@.subrange(dot2 + 1, t@.len() as int));
            }
            n
        },
    };
    assert(parts.len() >= 3);
    assert(parts[0] == t@.subrange(0, dot1 as int));
    assert(parts[1] == t@.subrange(dot1 + 1, dot2 as int));
    assert(parts[2] == t@.subrange(dot2 + 1, end3 as int));
    let c0 = t.substring_char(0, dot1);
    let c1 = t.substring_char(dot1 + 1, dot2);
    let c2 = t.substring_char(dot2 + 1, end3);
    let major = match parse_u32(c0) {
        Some(x) => x,
        None => {
            return Err(VersionParseError(
                String::from_str("Invalid major version: ").concat(c0),
            ));
        },
    };
    let minor = match parse_u32(c1) {
        Some(x) => x,
        None => {
            return Err(VersionParseError(
                String::from_str("Invalid minor version: ").concat(c1),
            ));
        },
    };
    let patch = match parse_u32(c2) {
        Some(x) => x,
        None => {
            return Err(VersionParseError(
                String::from_str("Invalid patch version: ").concat(c2),
            ));
        },
    };
    Ok(NodeVersion { major, minor, patch })
}

impl core::str::FromStr for NodeVersion {
    type Err = VersionParseError;

    fn from_str(s: &str) -> Result<Self, VersionParseError> {
        parse_version(s)
    }
}

/// Formatting then parsing gives the version back: the canonical form is
/// always accepted and reads as the same three numbers.
pub proof fn lemma_version_round_trip(v: NodeVersion)
    ensures
        parse_version_spec(format_version_spec(v)) == Some(v),
{
    let f = format_version_spec(v);
    let dmaj = dec_digits(v.major as nat);
    let dmin = dec_digits(v.minor as nat);
    let dpat = dec_digits(v.patch as nat);
    lemma_dec_digits(v.major as nat);
    lemma_dec_digits(v.minor as nat);
    lemma_dec_digits(v.patch as nat);
    // no whitespace at either end, so trimming is the identity
    assert(f[0] == 'v');
    assert(f.last() == dpat.last());
    assert(is_digit_char(dpat.last()));
    assert(!is_ws_char(f[0]));
    assert(!is_ws_char(f.last()));
    assert(trim_spec(f) == f);
    let t = f.drop_first();
    assert(strip_one_spec(trim_spec(f), 'v') == t);
    let i1 = dmaj.len() as int;
    let i2 = i1 + 1 + dmin.len() as int;
    assert(t =~= dmaj + seq!['.'] + dmin + seq!['.'] + dpat);
    assert(t[i1] == '.');
    assert(forall|j: int| 0 <= j < i1 ==> t[j] == dmaj[j] && is_digit_char(t[j]));
    lemma_split_char_first(t, '.', i1);
    assert(t.take(i1) =~= dmaj);
    let r1 = t.skip(i1 + 1);
    assert(r1 =~= dmin + seq!['.'] + dpat);
    assert(r1[dmin.len() as int] == '.');
    assert(forall|j: int|
        0 <= j < dmin.len() ==> r1[j] == dmin[j] && is_digit_char(r1[j]));
    lemma_split_char_first(r1, '.', dmin.len() as int);
    assert(r1.take(dmin.len() as int) =~= dmin);
    let r2 = r1.skip(dmin.len() as int + 1);
    assert(r2 =~= dpat);
    assert(forall|j: int| 0 <= j < dpat.len() ==> is_digit_char(dpat[j]));
    lemma_split_char_none(r2, '.');
    let parts = split_char_spec(t, '.');
    assert(parts =~~= seq![dmaj] + (seq![dmin] + seq![dpat]));
    assert(parts.len() == 3);
    assert(parts[0] == dmaj && parts[1] == dmin && parts[2] == dpat);
    assert(parse_u32_spec(dmaj) == Some(v.major));
    assert(parse_u32_spec(dmin) == Some(v.minor));
    assert(parse_u32_spec(dpat) == Some(v.patch));
}

/// The order is transitive; with `lemma_version_order_total` below it is
/// a strict total order, ties broken major, then minor, then patch.
pub proof fn lemma_version_order_transitive(
    a: NodeVersion,
    b: NodeVersion,
    c: NodeVersion,
)
    requires
        version_lt(a, b),
        version_lt(b, c),
    ensures
        version_lt(a, c),
{
}

/// Any two versions compare: below, above, or equal in all components.
pub proof fn lemma_version_order_total(a: NodeVersion, b: NodeVersion)
    ensures
        version_lt(a, b) || version_lt(b, a) || a == b,
{
}

} // verus!
