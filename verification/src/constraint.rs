//! The constraint engine: a single requirement is an operator applied to a
//! version. Constraints parse from text (optionally comma-separated lists),
//! render back, test a version for membership, and compute the inclusive
//! range(s) of versions they admit.

use crate::error::DependencyError;
use crate::text::chars_to_string;
use crate::version::{full_str, spec_parse_version, version_wf, Version};
use vstd::prelude::*;
use vstd::string::{StrSliceExecFns, StringExecFns};

verus! {

/// The operator of a version requirement.
#[derive(Clone, Copy, Debug, PartialEq, Eq, Structural)]
pub enum ReqType {
    Exact,
    Gte,
    Lte,
    Ne,
    Gt,
    Lt,
    Caret,
    Tilde,
}

/// The operator as written immediately before a version.
pub open spec fn req_type_str(t: ReqType) -> Seq<char> {
    match t {
        ReqType::Exact => seq!['=', '='],
        ReqType::Gte => seq!['>', '='],
        ReqType::Lte => seq!['<', '='],
        ReqType::Ne => seq!['!', '='],
        ReqType::Gt => seq!['>'],
        ReqType::Lt => seq!['<'],
        ReqType::Caret => seq!['^'],
        ReqType::Tilde => seq!['~'],
    }
}

/// Which operator some text denotes, if any.
pub open spec fn spec_req_type_of(s: Seq<char>) -> Option<ReqType> {
    if s.len() == 2 && s[0] == '=' && s[1] == '=' {
        Some(ReqType::Exact)
    } else if s.len() == 2 && s[0] == '>' && s[1] == '=' {
        Some(ReqType::Gte)
    } else if s.len() == 2 && s[0] == '<' && s[1] == '=' {
        Some(ReqType::Lte)
    } else if s.len() == 2 && s[0] == '!' && s[1] == '=' {
        Some(ReqType::Ne)
    } else if s.len() == 1 && s[0] == '>' {
        Some(ReqType::Gt)
    } else if s.len() == 1 && s[0] == '<' {
        Some(ReqType::Lt)
    } else if s.len() == 1 && s[0] == '^' {
        Some(ReqType::Caret)
    } else if s.len() == 1 && s[0] == '~' {
        Some(ReqType::Tilde)
    } else {
        None
    }
}

impl ReqType {
    /// The operator's text.
    pub fn to_string(&self) -> (s: String)
        ensures
            s@ == req_type_str(*self),
    {
        let s = match self {
            ReqType::Exact => "==",
            ReqType::Gte => ">=",
            ReqType::Lte => "<=",
            ReqType::Ne => "!=",
            ReqType::Gt => ">",
            ReqType::Lt => "<",
            ReqType::Caret => "^",
            ReqType::Tilde => "~",
        };
        proof {
            reveal_strlit("==");
            reveal_strlit(">=");
            reveal_strlit("<=");
            reveal_strlit("!=");
            reveal_strlit(">");
            reveal_strlit("<");
            reveal_strlit("^");
            reveal_strlit("~");
        }
        String::from_str(s)
    }

    /// Parses an operator written on its own.
    pub fn from_str(s: &str) -> (r: Result<ReqType, DependencyError>)
        ensures
            r is Ok <==> spec_req_type_of(s@) is Some,
            r matches Ok(t) ==> spec_req_type_of(s@) == Some(t),
    {
        let n = s.unicode_len();
        if n == 2 {
            let c0 = s.get_char(0);
            let c1 = s.get_char(1);
            if c0 == '=' && c1 == '=' {
                return Ok(ReqType::Exact);
            }
            if c0 == '>' && c1 == '=' {
                return Ok(ReqType::Gte);
            }
            if c0 == '<' && c1 == '=' {
                return Ok(ReqType::Lte);
            }
            if c0 == '!' && c1 == '=' {
                return Ok(ReqType::Ne);
            }
        } else if n == 1 {
            let c0 = s.get_char(0);
            if c0 == '>' {
                return Ok(ReqType::Gt);
            }
            if c0 == '<' {
                return Ok(ReqType::Lt);
            }
            if c0 == '^' {
                return Ok(ReqType::Caret);
            }
            if c0 == '~' {
                return Ok(ReqType::Tilde);
            }
        }
        Err(DependencyError::new("Problem parsing ReqType"))
    }
}

/// A single version requirement; many can be chained with AND semantics.
#[derive(Clone, Copy, Debug)]
pub struct Constraint {
    pub type_: ReqType,
    pub version: Version,
}

impl PartialEq for Constraint {
    fn eq(&self, other: &Self) -> (r: bool) {
        self.type_ == other.type_ && self.version == other.version
    }
}

impl vstd::std_specs::cmp::PartialEqSpecImpl for Constraint {
    open spec fn obeys_eq_spec() -> bool {
        true
    }

    open spec fn eq_spec(&self, other: &Self) -> bool {
        *self == *other
    }
}

/// The leading operator of constraint text and the position after it;
/// absent operators read as `Exact` starting at the beginning.
pub open spec fn op_prefix(s: Seq<char>) -> (ReqType, int) {
    if s.len() >= 2 && s[0] == '=' && s[1] == '=' {
        (ReqType::Exact, 2)
    } else if s.len() >= 2 && s[0] == '<' && s[1] == '=' {
        (ReqType::Lte, 2)
    } else if s.len() >= 2 && s[0] == '>' && s[1] == '=' {
        (ReqType::Gte, 2)
    } else if s.len() >= 2 && s[0] == '!' && s[1] == '=' {
        (ReqType::Ne, 2)
    } else if s.len() >= 1 && s[0] == '^' {
        (ReqType::Caret, 1)
    } else if s.len() >= 1 && s[0] == '~' {
        (ReqType::Tilde, 1)
    } else if s.len() >= 1 && s[0] == '<' {
        (ReqType::Lt, 1)
    } else if s.len() >= 1 && s[0] == '>' {
        (ReqType::Gt, 1)
    } else {
        (ReqType::Exact, 0)
    }
}

/// What constraint text denotes: a bare `*` means any version, rewritten to
/// `>= 0.0.0`; otherwise an optional leading operator (default `==`)
/// followed by version text.
pub open spec fn spec_parse_constraint(s: Seq<char>) -> Option<Constraint> {
    if s.len() == 1 && s[0] == '*' {
        Some(
            Constraint {
                type_: ReqType::Gte,
                version: Version { major: 0, minor: 0, patch: 0, extra_num: None, modifier: None },
            },
        )
    } else {
        let (t, i) = op_prefix(s);
        match spec_parse_version(s.subrange(i, s.len() as int)) {
            Some(v) => Some(Constraint { type_: t, version: v }),
            None => None,
        }
    }
}

/// Strips every space, as constraint lists allow spaces around commas.
pub open spec fn strip_spaces(s: Seq<char>) -> Seq<char>
    decreases s.len(),
{
    if s.len() == 0 {
        Seq::<char>::empty()
    } else {
        strip_spaces(s.drop_last()) + (if s.last() == ' ' {
            Seq::<char>::empty()
        } else {
            seq![s.last()]
        })
    }
}

/// Position of the first comma, or `-1` when there is none.
pub open spec fn first_comma(s: Seq<char>) -> int
    decreases s.len(),
{
    if s.len() == 0 {
        -1
    } else if s[0] == ',' {
        0
    } else {
        let r = first_comma(s.drop_first());
        if r < 0 {
            -1
        } else {
            r + 1
        }
    }
}

/// What a comma-separated constraint list denotes: each comma-bounded piece
/// must itself parse (so an empty piece fails).
pub open spec fn spec_parse_multi(s: Seq<char>) -> Option<Seq<Constraint>>
    decreases s.len(),
{
    let k = first_comma(s);
    if k < 0 || k >= s.len() {
        match spec_parse_constraint(s) {
            Some(c) => Some(seq![c]),
            None => None,
        }
    } else {
        match spec_parse_constraint(s.subrange(0, k)) {
            Some(c) => match spec_parse_multi(s.subrange(k + 1, s.len() as int)) {
                Some(rest) => Some(seq![c] + rest),
                None => None,
            },
            None => None,
        }
    }
}

proof fn lemma_first_comma_at(s: Seq<char>, k: int)
    requires
        0 <= k <= s.len(),
        forall|j: int| 0 <= j < k ==> s[j] != ',',
        k < s.len() ==> s[k] == ',',
    ensures
        k < s.len() ==> first_comma(s) == k,
        k == s.len() ==> first_comma(s) == -1,
    decreases s.len(),
{
    if s.len() == 0 {
    } else if s[0] == ',' {
    } else {
        assert(forall|j: int| 0 <= j < k - 1 ==> s.drop_first()[j] == s[j + 1]);
        lemma_first_comma_at(s.drop_first(), k - 1);
    }
}

/// All versions well-formed in a parse result: parsed tags are never `Null`.
pub open spec fn constraints_wf(cs: Seq<Constraint>) -> bool {
    forall|i: int| 0 <= i < cs.len() ==> version_wf(#[trigger] cs[i].version)
}

impl Constraint {
    pub fn new(type_: ReqType, version: Version) -> (c: Self)
        ensures
            c == (Constraint { type_, version }),
    {
        Self { type_, version }
    }

    /// Parses one constraint: a bare `*`, or an optional operator followed
    /// by a version.
    pub fn from_str(s: &str) -> (r: Result<Constraint, DependencyError>)
        ensures
            r is Ok <==> spec_parse_constraint(s@) is Some,
            r matches Ok(c) ==> spec_parse_constraint(s@) == Some(c) && version_wf(c.version),
    {
        let n = s.unicode_len();
        if n == 1 && s.get_char(0) == '*' {
            return Ok(Constraint::new(ReqType::Gte, Version::new(0, 0, 0)));
        }
        let (t, i): (ReqType, usize) = if n >= 2 {
            let c0 = s.get_char(0);
            let c1 = s.get_char(1);
            if c0 == '=' && c1 == '=' {
                (ReqType::Exact, 2)
            } else if c0 == '<' && c1 == '=' {
                (ReqType::Lte, 2)
            } else if c0 == '>' && c1 == '=' {
                (ReqType::Gte, 2)
            } else if c0 == '!' && c1 == '=' {
                (ReqType::Ne, 2)
            } else if c0 == '^' {
                (ReqType::Caret, 1)
            } else if c0 == '~' {
                (ReqType::Tilde, 1)
            } else if c0 == '<' {
                (ReqType::Lt, 1)
            } else if c0 == '>' {
                (ReqType::Gt, 1)
            } else {
                (ReqType::Exact, 0)
            }
        } else if n == 1 {
            let c0 = s.get_char(0);
            if c0 == '^' {
                (ReqType::Caret, 1)
            } else if c0 == '~' {
                (ReqType::Tilde, 1)
            } else if c0 == '<' {
                (ReqType::Lt, 1)
            } else if c0 == '>' {
                (ReqType::Gt, 1)
            } else {
                (ReqType::Exact, 0)
            }
        } else {
            (ReqType::Exact, 0)
        };
        assert((t, i as int) == op_prefix(s@));
        let rest = s.substring_char(i, n);
        match Version::from_str(rest) {
            Ok(v) => Ok(Constraint::new(t, v)),
            Err(e) => Err(e),
        }
    }

    /// Parses a comma-separated list of constraints, ignoring spaces; the
    /// pieces are combined with AND semantics by the range algebra.
    #[verifier::rlimit(100)]
    pub fn from_str_multiple(vers: &str) -> (r: Result<Vec<Constraint>, DependencyError>)
        ensures
            r is Ok <==> spec_parse_multi(strip_spaces(vers@)) is Some,
            r matches Ok(cs) ==> spec_parse_multi(strip_spaces(vers@)) == Some(cs@)
                && constraints_wf(cs@),
    {
        let n = vers.unicode_len();
        let mut t: Vec<char> = Vec::new();
        let mut i: usize = 0;
        while i < n
            invariant
                0 <= i <= n,
                n == vers@.len(),
                t@ == strip_spaces(vers@.subrange(0, i as int)),
            decreases n - i,
        {
            let c = vers.get_char(i);
            proof {
                assert(vers@.subrange(0, i + 1).drop_last() =~= vers@.subrange(0, i as int));
                assert(vers@.subrange(0, i + 1).last() == vers@[i as int]);
            }
            if c != ' ' {
                t.push(c);
            }
            i += 1;
        }
        proof {
            assert(vers@.subrange(0, n as int) =~= vers@);
        }
        let r = parse_multi(&t, 0);
        proof {
            assert(t@.subrange(0, t@.len() as int) =~= t@);
        }
        r
    }
}

/// Parses the comma-separated pieces of `t` from `start` on.
#[verifier::rlimit(100)]
fn parse_multi(t: &Vec<char>, start: usize) -> (r: Result<Vec<Constraint>, DependencyError>)
    requires
        start <= t@.len(),
    ensures
        ({
            let sub = t@.subrange(start as int, t@.len() as int);
            &&& r is Ok <==> spec_parse_multi(sub) is Some
            &&& (r matches Ok(cs) ==> spec_parse_multi(sub) == Some(cs@) && constraints_wf(cs@))
        }),
    decreases t@.len() - start,
{
    let ghost sub = t@.subrange(start as int, t@.len() as int);
    let n = t.len();
    let mut k = start;
    while k < n && t[k] != ','
        invariant
            start <= k <= n,
            n == t@.len(),
            forall|j: int| start <= j < k ==> t@[j] != ',',
        decreases n - k,
    {
        k += 1;
    }
    proof {
        assert(forall|j: int| 0 <= j < k - start ==> sub[j] == t@[start + j]);
        lemma_first_comma_at(sub, k - start);
    }
    let mut piece: Vec<char> = Vec::new();
    let mut j = start;
    while j < k
        invariant
            start <= j <= k <= n,
            n == t@.len(),
            piece@ == t@.subrange(start as int, j as int),
        decreases k - j,
    {
        proof {
            assert(t@.subrange(start as int, j + 1) =~= t@.subrange(start as int, j as int)
                + seq![t@[j as int]]);
        }
        piece.push(t[j]);
        j += 1;
    }
    proof {
        assert(piece@ =~= sub.subrange(0, k - start));
        if k == n {
            assert(piece@ =~= sub);
        }
    }
    let ps = chars_to_string(&piece);
    let c = match Constraint::from_str(ps.as_str()) {
        Ok(c) => c,
        Err(e) => {
            return Err(e);
        },
    };
    if k == n {
        let mut out: Vec<Constraint> = Vec::new();
        out.push(c);
        proof {
            assert(out@ =~= seq![c]);
        }
        Ok(out)
    } else {
        proof {
            assert(sub.subrange(k - start + 1, sub.len() as int) =~= t@.subrange(
                k + 1,
                t@.len() as int,
            ));
        }
        match parse_multi(t, k + 1) {
            Ok(mut rest) => {
                let ghost rest0 = rest@;
                rest.insert(0, c);
                proof {
                    assert(rest@ =~= seq![c] + rest0);
                }
                Ok(rest)
            },
            Err(e) => Err(e),
        }
    }
}

/// A plain three-component version, used for range endpoints.
pub open spec fn v3(major: u32, minor: u32, patch: u32) -> Version {
    Version { major, minor, patch, extra_num: None, modifier: None }
}

/// A version whose components stay within the sentinel bound, as no real
/// version may legitimately equal or exceed `MAX_VER`.
pub open spec fn within_sentinel(v: Version) -> bool {
    v.major <= crate::MAX_VER && v.minor <= crate::MAX_VER && v.patch <= crate::MAX_VER
}

/// A version with neither an extra segment nor a modifier.
pub open spec fn plain(v: Version) -> bool {
    v.extra_num is None && v.modifier is None
}

/// Safe decrement: an exclusive bound becomes an inclusive one by stepping
/// one unit down, rolling through lower components; the all-zero version
/// clamps to itself.
pub open spec fn safe_dec(major: u32, minor: u32, patch: u32) -> (u32, u32, u32) {
    if major == 0 && minor == 0 && patch == 0 {
        (0u32, 0u32, 0u32)
    } else if minor == 0 && patch == 0 {
        ((major - 1) as u32, crate::MAX_VER, crate::MAX_VER)
    } else if patch == 0 {
        (major, (minor - 1) as u32, crate::MAX_VER)
    } else {
        (major, minor, (patch - 1) as u32)
    }
}

/// The exclusive upper bound a caret requirement keeps below: the next
/// breaking version. With an all-zero major and minor it deliberately
/// admits `patch` and `patch + 1`.
pub open spec fn caret_upper(v: Version) -> Version {
    if v.major > 0 {
        v3((v.major + 1) as u32, 0, 0)
    } else if v.minor > 0 {
        v3(0, (v.minor + 1) as u32, 0)
    } else {
        v3(0, 0, (v.patch + 2) as u32)
    }
}

/// The exclusive upper bound a tilde requirement keeps below: only the
/// rightmost specified component may grow.
pub open spec fn tilde_upper(v: Version) -> Version {
    if v.minor > 0 {
        v3(v.major, (v.minor + 1) as u32, 0)
    } else {
        v3((v.major + 1) as u32, 0, 0)
    }
}

/// The inclusive range(s) of versions a constraint admits. Only a
/// not-equal constraint yields two ranges, joined with OR semantics.
pub open spec fn spec_compatible_range(c: Constraint) -> Seq<(Version, Version)> {
    let v = c.version;
    let lowest = v3(0, 0, 0);
    let highest = v3(crate::MAX_VER, 0, 0);
    match c.type_ {
        ReqType::Exact => seq![(v, v)],
        ReqType::Gte => seq![(v, highest)],
        ReqType::Lte => seq![(lowest, v)],
        ReqType::Gt => seq![(v3(v.major, v.minor, (v.patch + 1) as u32), highest)],
        ReqType::Lt => {
            let (a, b, c2) = safe_dec(v.major, v.minor, v.patch);
            seq![(lowest, v3(a, b, c2))]
        },
        ReqType::Ne => {
            let (a, b, c2) = safe_dec(v.major, v.minor, v.patch);
            seq![
                (lowest, v3(a, b, c2)),
                (v3(v.major, v.minor, (v.patch + 1) as u32), highest),
            ]
        },
        ReqType::Caret => {
            let m = caret_upper(v);
            let (a, b, c2) = safe_dec(m.major, m.minor, m.patch);
            seq![(v, v3(a, b, c2))]
        },
        ReqType::Tilde => {
            let m = tilde_upper(v);
            let (a, b, c2) = safe_dec(m.major, m.minor, m.patch);
            seq![(v, v3(a, b, c2))]
        },
    }
}

/// The direct membership test a constraint denotes.
pub open spec fn spec_is_compatible(c: Constraint, v: Version) -> bool {
    let s = c.version;
    match c.type_ {
        ReqType::Exact => s == v,
        ReqType::Gte => crate::version::spec_le(s, v),
        ReqType::Lte => crate::version::spec_le(v, s),
        ReqType::Gt => crate::version::spec_lt(s, v),
        ReqType::Lt => crate::version::spec_lt(v, s),
        ReqType::Ne => s != v,
        ReqType::Caret => crate::version::spec_le(s, v) && crate::version::spec_lt(
            v,
            caret_upper(s),
        ),
        ReqType::Tilde => crate::version::spec_le(s, v) && crate::version::spec_lt(
            v,
            tilde_upper(s),
        ),
    }
}

/// Membership of a version in a set of inclusive ranges (OR semantics).
pub open spec fn in_ranges(rs: Seq<(Version, Version)>, v: Version) -> bool {
    exists|i: int|
        0 <= i < rs.len() && crate::version::spec_le(#[trigger] rs[i].0, v)
            && crate::version::spec_le(v, rs[i].1)
}

impl Constraint {
    /// The lowest and highest compatible versions; a vector, since the
    /// not-equal requirement admits two disjoint ranges. The bounds keep
    /// the computed endpoints meaningful: a `>` or `!=` range starts one
    /// patch up, and caret/tilde bounds step into the sentinel.
    pub fn compatible_range(&self) -> (r: Vec<(Version, Version)>)
        requires
            self.type_ == ReqType::Gt || self.type_ == ReqType::Ne ==> self.version.patch
                < u32::MAX,
            self.type_ == ReqType::Caret || self.type_ == ReqType::Tilde ==> within_sentinel(
                self.version,
            ),
        ensures
            r@ == spec_compatible_range(*self),
    {
        let highest = Version::new(crate::MAX_VER, 0, 0);
        let lowest = Version::new(0, 0, 0);
        let v = self.version;
        let mut r: Vec<(Version, Version)> = Vec::new();
        match self.type_ {
            ReqType::Exact => {
                r.push((v, v));
            },
            ReqType::Gte => {
                r.push((v, highest));
            },
            ReqType::Lte => {
                r.push((lowest, v));
            },
            ReqType::Gt => {
                r.push((Version::new(v.major, v.minor, v.patch + 1), highest));
            },
            ReqType::Lt => {
                let (major, minor, patch) = safely_subtract(v.major, v.minor, v.patch);
                r.push((lowest, Version::new(major, minor, patch)));
            },
            ReqType::Ne => {
                let (major, minor, patch) = safely_subtract(v.major, v.minor, v.patch);
                r.push((lowest, Version::new(major, minor, patch)));
                r.push((Version::new(v.major, v.minor, v.patch + 1), highest));
            },
            ReqType::Caret => {
                let max = if v.major > 0 {
                    Version::new(v.major + 1, 0, 0)
                } else if v.minor > 0 {
                    Version::new(0, v.minor + 1, 0)
                } else {
                    Version::new(0, 0, v.patch + 2)
                };
                let (major, minor, patch) = safely_subtract(max.major, max.minor, max.patch);
                r.push((v, Version::new(major, minor, patch)));
            },
            ReqType::Tilde => {
                let max = if v.minor > 0 {
                    Version::new(v.major, v.minor + 1, 0)
                } else {
                    Version::new(v.major + 1, 0, 0)
                };
                let (major, minor, patch) = safely_subtract(max.major, max.minor, max.patch);
                r.push((v, Version::new(major, minor, patch)));
            },
        }
        proof {
            assert(r@ =~= spec_compatible_range(*self));
        }
        r
    }

    /// The direct boolean membership test; it agrees with
    /// `compatible_range`, see `lemma_is_compatible_matches_range`.
    pub fn is_compatible(&self, version: &Version) -> (r: bool)
        requires
            self.type_ == ReqType::Caret || self.type_ == ReqType::Tilde ==> within_sentinel(
                self.version,
            ),
        ensures
            r == spec_is_compatible(*self, *version),
    {
        let min = self.version;
        match self.type_ {
            ReqType::Exact => self.version == *version,
            ReqType::Gte => self.version <= *version,
            ReqType::Lte => self.version >= *version,
            ReqType::Gt => self.version < *version,
            ReqType::Lt => self.version > *version,
            ReqType::Ne => self.version != *version,
            ReqType::Caret => {
                let max = if self.version.major > 0 {
                    Version::new(self.version.major + 1, 0, 0)
                } else if self.version.minor > 0 {
                    Version::new(0, self.version.minor + 1, 0)
                } else {
                    Version::new(0, 0, self.version.patch + 2)
                };
                min <= *version && *version < max
            },
            ReqType::Tilde => {
                let max = if self.version.minor > 0 {
                    Version::new(self.version.major, self.version.minor + 1, 0)
                } else {
                    Version::new(self.version.major + 1, 0, 0)
                };
                min <= *version && *version < max
            },
        }
    }
}

/// One unit down from an exclusive bound, never going negative.
fn safely_subtract(major: u32, minor: u32, patch: u32) -> (r: (u32, u32, u32))
    ensures
        r == safe_dec(major, minor, patch),
{
    if major == 0 && minor == 0 && patch == 0 {
        (0, 0, 0)
    } else if minor == 0 && patch == 0 {
        (major - 1, crate::MAX_VER, crate::MAX_VER)
    } else if patch == 0 {
        (major, minor - 1, crate::MAX_VER)
    } else {
        (major, minor, patch - 1)
    }
}

/// The boolean test and the range computation agree: a version is
/// compatible exactly when it falls in one of the computed ranges. This
/// holds for plain versions within the sentinel bound; a constraint version
/// carrying an extra segment or a modifier rounds its range endpoints to
/// plain versions, and `< 0.0.0` or `!= 0.0.0` clamp their lower range at
/// the all-zero version, so those inputs are left out.
pub proof fn lemma_is_compatible_matches_range(c: Constraint, v: Version)
    requires
        plain(c.version),
        plain(v),
        within_sentinel(c.version),
        within_sentinel(v),
        v.major < crate::MAX_VER,
        (c.type_ == ReqType::Lt || c.type_ == ReqType::Ne) ==> c.version != v3(0, 0, 0),
    ensures
        spec_is_compatible(c, v) <==> in_ranges(spec_compatible_range(c), v),
{
    let s = c.version;
    let rs = spec_compatible_range(c);
    let lowest = v3(0, 0, 0);
    let highest = v3(crate::MAX_VER, 0, 0);
    assert(crate::version::spec_le(lowest, v));
    assert(crate::version::spec_le(v, highest));
    match c.type_ {
        ReqType::Exact => {
            if spec_is_compatible(c, v) {
                assert(crate::version::spec_le(rs[0].0, v) && crate::version::spec_le(v, rs[0].1));
            }
            if in_ranges(rs, v) {
                let i = choose|i: int|
                    0 <= i < rs.len() && crate::version::spec_le(#[trigger] rs[i].0, v)
                        && crate::version::spec_le(v, rs[i].1);
                assert(i == 0);
                assert(s == v);
            }
        },
        ReqType::Gte => {
            if spec_is_compatible(c, v) {
                assert(crate::version::spec_le(rs[0].0, v) && crate::version::spec_le(v, rs[0].1));
            }
        },
        ReqType::Lte => {
            if spec_is_compatible(c, v) {
                assert(crate::version::spec_le(rs[0].0, v) && crate::version::spec_le(v, rs[0].1));
            }
        },
        ReqType::Gt => {
            if spec_is_compatible(c, v) {
                assert(crate::version::spec_le(rs[0].0, v) && crate::version::spec_le(v, rs[0].1));
            }
        },
        ReqType::Lt => {
            let (a, b, c2) = safe_dec(s.major, s.minor, s.patch);
            if spec_is_compatible(c, v) {
                assert(crate::version::spec_le(v, v3(a, b, c2)));
                assert(crate::version::spec_le(rs[0].0, v) && crate::version::spec_le(v, rs[0].1));
            }
            if in_ranges(rs, v) {
                assert(crate::version::spec_lt(v, s));
            }
        },
        ReqType::Ne => {
            let (a, b, c2) = safe_dec(s.major, s.minor, s.patch);
            if spec_is_compatible(c, v) {
                if crate::version::spec_lt(v, s) {
                    assert(crate::version::spec_le(v, v3(a, b, c2)));
                    assert(crate::version::spec_le(rs[0].0, v) && crate::version::spec_le(
                        v,
                        rs[0].1,
                    ));
                } else {
                    assert(crate::version::spec_lt(s, v));
                    assert(crate::version::spec_le(rs[1].0, v) && crate::version::spec_le(
                        v,
                        rs[1].1,
                    ));
                }
            }
            if in_ranges(rs, v) {
                assert(s != v);
            }
        },
        ReqType::Caret => {
            let m = caret_upper(s);
            let (a, b, c2) = safe_dec(m.major, m.minor, m.patch);
            if spec_is_compatible(c, v) {
                assert(crate::version::spec_le(v, v3(a, b, c2)));
                assert(crate::version::spec_le(rs[0].0, v) && crate::version::spec_le(v, rs[0].1));
            }
            if in_ranges(rs, v) {
                assert(crate::version::spec_lt(v, m));
            }
        },
        ReqType::Tilde => {
            let m = tilde_upper(s);
            let (a, b, c2) = safe_dec(m.major, m.minor, m.patch);
            if spec_is_compatible(c, v) {
                assert(crate::version::spec_le(v, v3(a, b, c2)));
                assert(crate::version::spec_le(rs[0].0, v) && crate::version::spec_le(v, rs[0].1));
            }
            if in_ranges(rs, v) {
                assert(crate::version::spec_lt(v, m));
            }
        },
    }
}

/// What one dot-separated piece of an index `python_version` field
/// denotes: an optional `cp`/`py`/`pp` prefix, a major digit of 2 to 4,
/// and an optional minor digit. A bare major of 2 admits anything up to
/// 2.10, any other bare major admits 3.0 and up; an unrecognized piece
/// contributes nothing.
pub open spec fn spec_wh_part(p: Seq<char>) -> Option<Constraint> {
    let i: int = if p.len() >= 2 && ((p[0] == 'c' && p[1] == 'p') || (p[0] == 'p' && p[1] == 'y')
        || (p[0] == 'p' && p[1] == 'p')) {
        2
    } else {
        0
    };
    if i < p.len() && (p[i] == '2' || p[i] == '3' || p[i] == '4') {
        let major: u32 = if p[i] == '2' {
            2
        } else if p[i] == '3' {
            3
        } else {
            4
        };
        if i + 1 == p.len() {
            if major == 2 {
                Some(
                    Constraint {
                        type_: ReqType::Lte,
                        version: Version {
                            major: 2,
                            minor: 10,
                            patch: 0,
                            extra_num: None,
                            modifier: None,
                        },
                    },
                )
            } else {
                Some(
                    Constraint {
                        type_: ReqType::Gte,
                        version: Version {
                            major: 3,
                            minor: 0,
                            patch: 0,
                            extra_num: None,
                            modifier: None,
                        },
                    },
                )
            }
        } else if i + 2 == p.len() && crate::text::is_digit(p[i + 1]) {
            Some(
                Constraint {
                    type_: ReqType::Exact,
                    version: Version {
                        major,
                        minor: crate::text::digit_val(p[i + 1]) as u32,
                        patch: 0,
                        extra_num: None,
                        modifier: None,
                    },
                },
            )
        } else {
            None
        }
    } else {
        None
    }
}

/// Position of the first dot, or `-1` when there is none.
pub open spec fn first_dot(s: Seq<char>) -> int
    decreases s.len(),
{
    if s.len() == 0 {
        -1
    } else if s[0] == '.' {
        0
    } else {
        let r = first_dot(s.drop_first());
        if r < 0 {
            -1
        } else {
            r + 1
        }
    }
}

/// The constraints contributed by the dot-separated pieces of an index
/// `python_version` field.
pub open spec fn spec_wh_parts(s: Seq<char>) -> Seq<Constraint>
    decreases s.len(),
{
    let k = first_dot(s);
    if k < 0 || k >= s.len() {
        match spec_wh_part(s) {
            Some(c) => seq![c],
            None => Seq::<Constraint>::empty(),
        }
    } else {
        (match spec_wh_part(s.subrange(0, k)) {
            Some(c) => seq![c],
            None => Seq::<Constraint>::empty(),
        }) + spec_wh_parts(s.subrange(k + 1, s.len() as int))
    }
}

/// What an index `python_version` field denotes, used with OR semantics:
/// `any` admits 2.0 and up; text that parses as a version pins it exactly;
/// otherwise each recognized dot-separated piece contributes a constraint.
pub open spec fn spec_wh_py_vers(s: Seq<char>) -> Seq<Constraint> {
    if s.len() == 3 && s[0] == 'a' && s[1] == 'n' && s[2] == 'y' {
        seq![
            Constraint {
                type_: ReqType::Gte,
                version: Version { major: 2, minor: 0, patch: 0, extra_num: None, modifier: None },
            },
        ]
    } else {
        match spec_parse_version(s) {
            Some(v) => seq![Constraint { type_: ReqType::Exact, version: v }],
            None => spec_wh_parts(s),
        }
    }
}

proof fn lemma_first_dot_at(s: Seq<char>, k: int)
    requires
        0 <= k <= s.len(),
        forall|j: int| 0 <= j < k ==> s[j] != '.',
        k < s.len() ==> s[k] == '.',
    ensures
        k < s.len() ==> first_dot(s) == k,
        k == s.len() ==> first_dot(s) == -1,
    decreases s.len(),
{
    if s.len() == 0 {
    } else if s[0] == '.' {
    } else {
        assert(forall|j: int| 0 <= j < k - 1 ==> s.drop_first()[j] == s[j + 1]);
        lemma_first_dot_at(s.drop_first(), k - 1);
    }
}

fn wh_part_exec(p: &Vec<char>) -> (r: Option<Constraint>)
    ensures
        r == spec_wh_part(p@),
{
    let n = p.len();
    let i: usize = if n >= 2 && ((p[0] == 'c' && p[1] == 'p') || (p[0] == 'p' && p[1] == 'y') || (
    p[0] == 'p' && p[1] == 'p')) {
        2
    } else {
        0
    };
    if i < n && (p[i] == '2' || p[i] == '3' || p[i] == '4') {
        let major: u32 = if p[i] == '2' {
            2
        } else if p[i] == '3' {
            3
        } else {
            4
        };
        if i + 1 == n {
            if major == 2 {
                Some(Constraint::new(ReqType::Lte, Version::new_short(2, 10)))
            } else {
                Some(Constraint::new(ReqType::Gte, Version::new_short(3, 0)))
            }
        } else if i + 2 == n && crate::text::is_digit_exec(p[i + 1]) {
            let c = p[i + 1];
            let minor: u32 = if c == '0' {
                0
            } else if c == '1' {
                1
            } else if c == '2' {
                2
            } else if c == '3' {
                3
            } else if c == '4' {
                4
            } else if c == '5' {
                5
            } else if c == '6' {
                6
            } else if c == '7' {
                7
            } else if c == '8' {
                8
            } else {
                9
            };
            Some(Constraint::new(ReqType::Exact, Version::new_short(major, minor)))
        } else {
            None
        }
    } else {
        None
    }
}

fn wh_parts_exec(t: &Vec<char>, start: usize) -> (r: Vec<Constraint>)
    requires
        start <= t@.len(),
    ensures
        r@ == spec_wh_parts(t@.subrange(start as int, t@.len() as int)),
    decreases t@.len() - start,
{
    let ghost sub = t@.subrange(start as int, t@.len() as int);
    let n = t.len();
    let mut k = start;
    while k < n && t[k] != '.'
        invariant
            start <= k <= n,
            n == t@.len(),
            forall|j: int| start <= j < k ==> t@[j] != '.',
        decreases n - k,
    {
        k += 1;
    }
    proof {
        assert(forall|j: int| 0 <= j < k - start ==> sub[j] == t@[start + j]);
        lemma_first_dot_at(sub, k - start);
    }
    let piece = crate::text::sub_chars(t, start, k);
    proof {
        assert(piece@ =~= sub.subrange(0, k - start));
        if k == n {
            assert(piece@ =~= sub);
        }
    }
    let head = wh_part_exec(&piece);
    let mut out: Vec<Constraint> = Vec::new();
    match head {
        Some(c) => {
            out.push(c);
        },
        None => {},
    }
    if k == n {
        proof {
            match spec_wh_part(sub) {
                Some(c) => {
                    assert(out@ =~= seq![c]);
                },
                None => {
                    assert(out@ =~= Seq::<Constraint>::empty());
                },
            }
        }
        out
    } else {
        proof {
            assert(sub.subrange(k - start + 1, sub.len() as int) =~= t@.subrange(
                k + 1,
                t@.len() as int,
            ));
        }
        let rest = wh_parts_exec(t, k + 1);
        let mut combined = out;
        let m = rest.len();
        let mut j: usize = 0;
        while j < m
            invariant
                0 <= j <= m,
                m == rest@.len(),
                combined@ == (match spec_wh_part(t@.subrange(start as int, start + (k
                    - start))) {
                    Some(c) => seq![c],
                    None => Seq::<Constraint>::empty(),
                }) + rest@.subrange(0, j as int),
            decreases m - j,
        {
            proof {
                assert(rest@.subrange(0, j + 1) =~= rest@.subrange(0, j as int) + seq![
                    rest@[j as int],
                ]);
            }
            combined.push(rest[j]);
            j += 1;
        }
        proof {
            assert(rest@.subrange(0, m as int) =~= rest@);
            assert(t@.subrange(start as int, start + (k - start)) =~= sub.subrange(0, k - start));
            assert(combined@ =~= spec_wh_parts(sub));
        }
        combined
    }
}

impl Constraint {
    /// Reads an index `python_version` field, eg `py3`,
    /// `cp35.cp36.cp37.cp38`, `pp36`, `any` or `2.7`. The results carry OR
    /// semantics: `cp35.cp36` admits either interpreter line.
    pub fn from_wh_py_vers(s: &str) -> (r: Result<Vec<Constraint>, DependencyError>)
        ensures
            r is Ok,
            r matches Ok(cs) ==> cs@ == spec_wh_py_vers(s@) && constraints_wf(cs@),
    {
        let n = s.unicode_len();
        if n == 3 && s.get_char(0) == 'a' && s.get_char(1) == 'n' && s.get_char(2) == 'y' {
            let mut out: Vec<Constraint> = Vec::new();
            out.push(Constraint::new(ReqType::Gte, Version::new(2, 0, 0)));
            proof {
                assert(out@ =~= spec_wh_py_vers(s@));
            }
            return Ok(out);
        }
        match Version::from_str(s) {
            Ok(parsed) => {
                let mut out: Vec<Constraint> = Vec::new();
                out.push(Constraint::new(ReqType::Exact, parsed));
                proof {
                    assert(out@ =~= spec_wh_py_vers(s@));
                }
                Ok(out)
            },
            Err(_) => {
                let t = crate::text::str_to_chars(s);
                let out = wh_parts_exec(&t, 0);
                proof {
                    assert(t@.subrange(0, t@.len() as int) =~= t@);
                    lemma_wh_parts_wf(t@);
                }
                Ok(out)
            },
        }
    }
}

proof fn lemma_wh_part_wf(p: Seq<char>)
    ensures
        spec_wh_part(p) matches Some(c) ==> version_wf(c.version),
{
}

proof fn lemma_wh_parts_wf(s: Seq<char>)
    ensures
        constraints_wf(spec_wh_parts(s)),
    decreases s.len(),
{
    let k = first_dot(s);
    if k < 0 || k >= s.len() {
        lemma_wh_part_wf(s);
    } else {
        lemma_wh_part_wf(s.subrange(0, k));
        lemma_wh_parts_wf(s.subrange(k + 1, s.len() as int));
    }
}

/// The rendering of a constraint: the operator (omitted for `==` when
/// `ommit_equals` is set; `^` and `~` gain a trailing `=` in pip style)
/// followed by the full rendering of the version.
pub open spec fn spec_constraint_str(c: Constraint, ommit_equals: bool, pip_style: bool) -> Seq<
    char,
> {
    let ts = if ommit_equals && c.type_ == ReqType::Exact {
        Seq::<char>::empty()
    } else {
        req_type_str(c.type_)
    };
    let ts2 = if pip_style && (c.type_ == ReqType::Caret || c.type_ == ReqType::Tilde) {
        ts + seq!['=']
    } else {
        ts
    };
    ts2 + full_str(c.version)
}

impl Constraint {
    /// Renders this constraint as operator text followed by the version.
    pub fn to_string(&self, ommit_equals: bool, pip_style: bool) -> (s: String)
        requires
            version_wf(self.version),
        ensures
            s@ == spec_constraint_str(*self, ommit_equals, pip_style),
    {
        let mut result = if ommit_equals && self.type_ == ReqType::Exact {
            String::new()
        } else {
            self.type_.to_string()
        };
        if pip_style && (self.type_ == ReqType::Caret || self.type_ == ReqType::Tilde) {
            crate::text::push_char(&mut result, '=');
        }
        let vs = self.version.to_string2();
        result.append(vs.as_str());
        proof {
            assert(result@ =~= spec_constraint_str(*self, ommit_equals, pip_style));
        }
        result
    }
}

} // verus!
