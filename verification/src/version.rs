//! The version value model: an exact release as `major.minor.patch`, an
//! optional extra numeric segment, and an optional pre-release modifier,
//! together with its total ordering.

use crate::error::DependencyError;
use crate::text::{
    dec_str, digits_val, is_digit_exec, parse_digits, push_char, push_dec, run_len, run_len_exec,
    chars_to_string,
};
use core::cmp::Ordering;
use vstd::prelude::*;
use vstd::string::{StrSliceExecFns, StringExecFns};

verus! {

/// Pre-release / vendor modifier tags, plus the synthetic `Null`, which is
/// never stored on a real version: it exists only so comparisons can treat
/// "no modifier" as ranking above every real modifier.
#[derive(Clone, Copy, Debug, PartialEq, Eq, Structural, Hash)]
pub enum VersionModifier {
    Alpha,
    Beta,
    ReleaseCandidate,
    Dep,
    Null,
}

/// Rank used by the ordering: no modifier (`Null`) ranks highest, then
/// release candidates, betas, alphas, and vendor (`dep`) builds last.
pub open spec fn mod_rank(m: VersionModifier) -> nat {
    match m {
        VersionModifier::Null => 4,
        VersionModifier::ReleaseCandidate => 3,
        VersionModifier::Beta => 2,
        VersionModifier::Alpha => 1,
        VersionModifier::Dep => 0,
    }
}

/// The textual tag of a modifier; the synthetic `Null` has none.
pub open spec fn mod_tag_str(m: VersionModifier) -> Seq<char> {
    match m {
        VersionModifier::Alpha => seq!['a'],
        VersionModifier::Beta => seq!['b'],
        VersionModifier::ReleaseCandidate => seq!['r', 'c'],
        VersionModifier::Dep => seq!['d', 'e', 'p'],
        VersionModifier::Null => Seq::<char>::empty(),
    }
}

impl VersionModifier {
    fn orderval(self) -> (r: u8)
        ensures
            r == mod_rank(self),
    {
        match self {
            VersionModifier::Null => 4,
            VersionModifier::ReleaseCandidate => 3,
            VersionModifier::Beta => 2,
            VersionModifier::Alpha => 1,
            VersionModifier::Dep => 0,
        }
    }

    /// The tag as written in version text. `Null` is never serialized.
    pub fn to_string(&self) -> (s: String)
        requires
            *self != VersionModifier::Null,
        ensures
            s@ == mod_tag_str(*self),
    {
        let s = match self {
            VersionModifier::Alpha => "a",
            VersionModifier::Beta => "b",
            VersionModifier::ReleaseCandidate => "rc",
            VersionModifier::Dep => "dep",
            VersionModifier::Null => "",
        };
        proof {
            reveal_strlit("a");
            reveal_strlit("b");
            reveal_strlit("rc");
            reveal_strlit("dep");
            reveal_strlit("");
        }
        String::from_str(s)
    }
}

/// An exact version. `extra_num` is a fourth numeric segment (eg `4.2.3.1`);
/// `modifier` is a pre-release tag with its number (eg `a1`). A stored
/// modifier tag is never `Null`.
#[derive(Clone, Copy, Debug, Eq, Hash, Default)]
pub struct Version {
    pub major: u32,
    pub minor: u32,
    pub patch: u32,
    pub extra_num: Option<u32>,
    pub modifier: Option<(VersionModifier, u32)>,
}

/// A well-formed version never stores the synthetic `Null` tag.
pub open spec fn version_wf(v: Version) -> bool {
    match v.modifier {
        Some((m, _)) => m != VersionModifier::Null,
        None => true,
    }
}

impl PartialEq for Version {
    fn eq(&self, other: &Self) -> (r: bool) {
        let nums_eq = self.major == other.major && self.minor == other.minor && self.patch
            == other.patch;
        let extra_eq = match (self.extra_num, other.extra_num) {
            (Some(a), Some(b)) => a == b,
            (None, None) => true,
            _ => false,
        };
        let mod_eq = match (self.modifier, other.modifier) {
            (Some((m1, n1)), Some((m2, n2))) => m1 == m2 && n1 == n2,
            (None, None) => true,
            _ => false,
        };
        nums_eq && extra_eq && mod_eq
    }
}

impl vstd::std_specs::cmp::PartialEqSpecImpl for Version {
    open spec fn obeys_eq_spec() -> bool {
        true
    }

    open spec fn eq_spec(&self, other: &Self) -> bool {
        *self == *other
    }
}

/// The extra segment used by the ordering: an absent segment compares as 0.
pub open spec fn extra_key(v: Version) -> nat {
    match v.extra_num {
        Some(e) => e as nat,
        None => 0,
    }
}

/// The modifier pair used by the ordering: an absent modifier ranks as
/// `Null`, above every real modifier, so `1.0` > `1.0rc1`.
pub open spec fn mod_key(v: Version) -> (nat, nat) {
    match v.modifier {
        Some((m, n)) => (mod_rank(m), n as nat),
        None => (mod_rank(VersionModifier::Null), 0),
    }
}

/// Lexicographic comparison over
/// `(major, minor, patch, extra-or-0, modifier rank, modifier number)`.
pub open spec fn spec_cmp(a: Version, b: Version) -> Ordering {
    if a.major != b.major {
        if a.major < b.major { Ordering::Less } else { Ordering::Greater }
    } else if a.minor != b.minor {
        if a.minor < b.minor { Ordering::Less } else { Ordering::Greater }
    } else if a.patch != b.patch {
        if a.patch < b.patch { Ordering::Less } else { Ordering::Greater }
    } else if extra_key(a) != extra_key(b) {
        if extra_key(a) < extra_key(b) { Ordering::Less } else { Ordering::Greater }
    } else if mod_key(a).0 != mod_key(b).0 {
        if mod_key(a).0 < mod_key(b).0 { Ordering::Less } else { Ordering::Greater }
    } else {
        if mod_key(a).1 < mod_key(b).1 {
            Ordering::Less
        } else if mod_key(a).1 > mod_key(b).1 {
            Ordering::Greater
        } else {
            Ordering::Equal
        }
    }
}

pub open spec fn spec_lt(a: Version, b: Version) -> bool {
    spec_cmp(a, b) == Ordering::Less
}

pub open spec fn spec_le(a: Version, b: Version) -> bool {
    spec_cmp(a, b) != Ordering::Greater
}

impl PartialOrd for Version {
    fn partial_cmp(&self, other: &Self) -> (r: Option<Ordering>) {
        let r = if self.major != other.major {
            if self.major < other.major { Ordering::Less } else { Ordering::Greater }
        } else if self.minor != other.minor {
            if self.minor < other.minor { Ordering::Less } else { Ordering::Greater }
        } else if self.patch != other.patch {
            if self.patch < other.patch { Ordering::Less } else { Ordering::Greater }
        } else {
            let extra_a = match self.extra_num {
                Some(e) => e,
                None => 0,
            };
            let extra_b = match other.extra_num {
                Some(e) => e,
                None => 0,
            };
            if extra_a != extra_b {
                if extra_a < extra_b { Ordering::Less } else { Ordering::Greater }
            } else {
                let (rank_a, num_a) = match self.modifier {
                    Some((m, n)) => (m.orderval(), n),
                    None => (VersionModifier::Null.orderval(), 0),
                };
                let (rank_b, num_b) = match other.modifier {
                    Some((m, n)) => (m.orderval(), n),
                    None => (VersionModifier::Null.orderval(), 0),
                };
                if rank_a != rank_b {
                    if rank_a < rank_b { Ordering::Less } else { Ordering::Greater }
                } else {
                    if num_a < num_b {
                        Ordering::Less
                    } else if num_a > num_b {
                        Ordering::Greater
                    } else {
                        Ordering::Equal
                    }
                }
            }
        };
        Some(r)
    }
}

impl vstd::std_specs::cmp::PartialOrdSpecImpl for Version {
    open spec fn obeys_partial_cmp_spec() -> bool {
        true
    }

    open spec fn partial_cmp_spec(&self, other: &Self) -> Option<Ordering> {
        Some(spec_cmp(*self, *other))
    }
}

/// Ordering totality: exactly one of `a < b`, `a == b`, `a > b` holds.
/// This needs both versions well-formed and neither writing the default
/// extra segment `0` explicitly while the other omits it (such pairs
/// compare as equal keys without being structurally equal).
pub proof fn lemma_order_totality(a: Version, b: Version)
    requires
        version_wf(a),
        version_wf(b),
        !(a.extra_num is None && b.extra_num == Some(0u32)),
        !(b.extra_num is None && a.extra_num == Some(0u32)),
    ensures
        spec_lt(a, b) || a == b || spec_lt(b, a),
        spec_lt(a, b) ==> a != b && !spec_lt(b, a),
        a == b ==> !spec_lt(a, b) && !spec_lt(b, a),
        spec_cmp(a, b) == Ordering::Equal <==> a == b,
{
    if spec_cmp(a, b) == Ordering::Equal {
        assert(a.extra_num == b.extra_num);
        match (a.modifier, b.modifier) {
            (Some((m1, n1)), Some((m2, n2))) => {
                assert(mod_rank(m1) == mod_rank(m2));
                assert(m1 == m2);
                assert(a == b);
            },
            (None, None) => {
                assert(a == b);
            },
            (Some((m1, n1)), None) => {
                assert(mod_rank(m1) == 4);
                assert(false);
            },
            (None, Some((m2, n2))) => {
                assert(mod_rank(m2) == 4);
                assert(false);
            },
        }
    }
}

/// The comparison keys order versions: `spec_le` is transitive, and any
/// two versions compare.
pub proof fn lemma_le_trans(a: Version, b: Version, c: Version)
    requires
        spec_le(a, b),
        spec_le(b, c),
    ensures
        spec_le(a, c),
{
}

pub proof fn lemma_le_total(a: Version, b: Version)
    ensures
        spec_le(a, b) || spec_le(b, a),
        spec_le(a, b) && spec_le(b, a) <==> spec_cmp(a, b) == core::cmp::Ordering::Equal,
{
}

/// For equal numeric components, a release (no modifier) ranks strictly
/// above any version carrying a real modifier, and modifiers rank by
/// `ReleaseCandidate > Beta > Alpha > Dep`.
pub proof fn lemma_modifier_rank_order(a: Version, b: Version)
    requires
        version_wf(a),
        version_wf(b),
        a.major == b.major,
        a.minor == b.minor,
        a.patch == b.patch,
        extra_key(a) == extra_key(b),
    ensures
        a.modifier is Some && b.modifier is None ==> spec_lt(a, b),
        (a.modifier matches Some((m1, _)) && b.modifier matches Some((m2, _)) && mod_rank(m1)
            < mod_rank(m2)) ==> spec_lt(a, b),
{
}

impl Version {
    pub fn new(major: u32, minor: u32, patch: u32) -> (v: Self)
        ensures
            v == (Version { major, minor, patch, extra_num: None, modifier: None }),
    {
        Self { major, minor, patch, extra_num: None, modifier: None }
    }

    /// No patch specified: it defaults to zero.
    pub fn new_short(major: u32, minor: u32) -> (v: Self)
        ensures
            v == (Version { major, minor, patch: 0, extra_num: None, modifier: None }),
    {
        Self { major, minor, patch: 0, extra_num: None, modifier: None }
    }

    /// The conventional open upper bound of a range: the sentinel major
    /// version with zero minor and patch.
    pub fn _max() -> (v: Self)
        ensures
            v == (Version {
                major: crate::MAX_VER,
                minor: 0,
                patch: 0,
                extra_num: None,
                modifier: None,
            }),
    {
        Self::new(crate::MAX_VER, 0, 0)
    }

    /// Appends the common suffix: `.extra` when present, then the modifier
    /// tag with its number when present.
    fn add_str_mod(&self, s: &mut String)
        requires
            version_wf(*self),
        ensures
            final(s)@ == old(s)@ + suffix_str(*self),
    {
        if let Some(extra_num) = self.extra_num {
            push_char(s, '.');
            push_dec(extra_num, s);
        }
        if let Some((modifier, num)) = self.modifier {
            let tag = modifier.to_string();
            s.append(tag.as_str());
            push_dec(num, s);
        }
        proof {
            assert(final(s)@ =~= old(s)@ + suffix_str(*self));
        }
    }

    /// Renders `major.minor` plus the suffix.
    pub fn to_string_med(&self) -> (s: String)
        requires
            version_wf(*self),
        ensures
            s@ == med_str(*self),
    {
        let mut result = String::new();
        push_dec(self.major, &mut result);
        push_char(&mut result, '.');
        push_dec(self.minor, &mut result);
        self.add_str_mod(&mut result);
        proof {
            assert(result@ =~= med_str(*self));
        }
        result
    }

    /// Renders `major` plus the suffix.
    pub fn to_string_short(&self) -> (s: String)
        requires
            version_wf(*self),
        ensures
            s@ == short_str(*self),
    {
        let mut result = String::new();
        push_dec(self.major, &mut result);
        self.add_str_mod(&mut result);
        proof {
            assert(result@ =~= short_str(*self));
        }
        result
    }

    /// Renders the full `major.minor.patch` plus the suffix, without any
    /// terminal styling.
    pub fn to_string2(&self) -> (s: String)
        requires
            version_wf(*self),
        ensures
            s@ == full_str(*self),
    {
        let mut result = String::new();
        push_dec(self.major, &mut result);
        push_char(&mut result, '.');
        push_dec(self.minor, &mut result);
        push_char(&mut result, '.');
        push_dec(self.patch, &mut result);
        self.add_str_mod(&mut result);
        proof {
            assert(result@ =~= full_str(*self));
        }
        result
    }
}

/// The canonical suffix: `.extra` when present, then `<tag><num>` when a
/// modifier is present.
pub open spec fn suffix_str(v: Version) -> Seq<char> {
    (match v.extra_num {
        Some(e) => seq!['.'] + dec_str(e as nat),
        None => Seq::<char>::empty(),
    }) + (match v.modifier {
        Some((m, n)) => mod_tag_str(m) + dec_str(n as nat),
        None => Seq::<char>::empty(),
    })
}

/// The short rendering: `major` plus the suffix.
pub open spec fn short_str(v: Version) -> Seq<char> {
    dec_str(v.major as nat) + suffix_str(v)
}

/// The medium rendering: `major.minor` plus the suffix.
pub open spec fn med_str(v: Version) -> Seq<char> {
    dec_str(v.major as nat) + seq!['.'] + dec_str(v.minor as nat) + suffix_str(v)
}

/// The full rendering: `major.minor.patch` plus the suffix.
pub open spec fn full_str(v: Version) -> Seq<char> {
    dec_str(v.major as nat) + seq!['.'] + dec_str(v.minor as nat) + seq!['.'] + dec_str(
        v.patch as nat,
    ) + suffix_str(v)
}

/// Wildcard segments are read as zero: every `*` becomes `0` before the
/// grammar is applied.
pub open spec fn wz_char(c: char) -> char {
    if c == '*' {
        '0'
    } else {
        c
    }
}

pub open spec fn wildcard_zeroed(s: Seq<char>) -> Seq<char> {
    Seq::new(s.len(), |i: int| wz_char(s[i]))
}

/// One optional separating dot after a component.
pub open spec fn skip_dot(s: Seq<char>, i: int) -> int {
    if 0 <= i < s.len() && s[i] == '.' {
        i + 1
    } else {
        i
    }
}

/// The modifier tag starting at `i`, with the position just after it.
pub open spec fn tag_at(s: Seq<char>, i: int) -> Option<(VersionModifier, int)> {
    if i + 3 <= s.len() && s[i] == 'd' && s[i + 1] == 'e' && s[i + 2] == 'p' {
        Some((VersionModifier::Dep, i + 3))
    } else if i + 2 <= s.len() && s[i] == 'r' && s[i + 1] == 'c' {
        Some((VersionModifier::ReleaseCandidate, i + 2))
    } else if i + 1 <= s.len() && s[i] == 'a' {
        Some((VersionModifier::Alpha, i + 1))
    } else if i + 1 <= s.len() && s[i] == 'b' {
        Some((VersionModifier::Beta, i + 1))
    } else {
        None
    }
}

/// The version grammar over wildcard-normalized text:
/// `major(.minor)?(.patch)?(.extra)?(<tag><num>)?`, where each numeric
/// component is a maximal digit run, missing minor/patch default to zero,
/// and the whole text must be consumed. A tag without its number, or any
/// numeric component beyond the unsigned 32-bit range, fails.
pub open spec fn spec_parse_version_chars(t: Seq<char>) -> Option<Version> {
    let l0 = run_len(t, 0) as int;
    if l0 == 0 {
        None
    } else {
        let i1 = skip_dot(t, l0);
        let l1 = run_len(t, i1) as int;
        let i2 = skip_dot(t, i1 + l1);
        let l2 = run_len(t, i2) as int;
        let i3 = skip_dot(t, i2 + l2);
        let l3 = run_len(t, i3) as int;
        let i4 = i3 + l3;
        let major = digits_val(t.subrange(0, l0));
        let minor = digits_val(t.subrange(i1, i1 + l1));
        let patch = digits_val(t.subrange(i2, i2 + l2));
        let extra = digits_val(t.subrange(i3, i4));
        if major > u32::MAX || minor > u32::MAX || patch > u32::MAX || extra > u32::MAX {
            None
        } else {
            let extra_num = if l3 > 0 {
                Some(extra as u32)
            } else {
                None
            };
            if i4 == t.len() {
                Some(
                    Version {
                        major: major as u32,
                        minor: minor as u32,
                        patch: patch as u32,
                        extra_num,
                        modifier: None,
                    },
                )
            } else {
                match tag_at(t, i4) {
                    Some((m, i5)) => {
                        let l5 = run_len(t, i5) as int;
                        let num = digits_val(t.subrange(i5, i5 + l5));
                        if l5 > 0 && i5 + l5 == t.len() && num <= u32::MAX {
                            Some(
                                Version {
                                    major: major as u32,
                                    minor: minor as u32,
                                    patch: patch as u32,
                                    extra_num,
                                    modifier: Some((m, num as u32)),
                                },
                            )
                        } else {
                            None
                        }
                    },
                    None => None,
                }
            }
        }
    }
}

/// What version text denotes: wildcards zeroed, then the grammar above.
pub open spec fn spec_parse_version(s: Seq<char>) -> Option<Version> {
    spec_parse_version_chars(wildcard_zeroed(s))
}

/// The characters of `s` with every wildcard replaced by `0`.
fn to_chars_wildcard_zeroed(s: &str) -> (t: Vec<char>)
    ensures
        t@ == wildcard_zeroed(s@),
{
    let n = s.unicode_len();
    let mut t: Vec<char> = Vec::new();
    let mut i: usize = 0;
    while i < n
        invariant
            0 <= i <= n,
            n == s@.len(),
            t@.len() == i,
            forall|k: int| 0 <= k < i ==> t@[k] == wz_char(s@[k]),
        decreases n - i,
    {
        let c = s.get_char(i);
        let c2 = if c == '*' {
            '0'
        } else {
            c
        };
        t.push(c2);
        i += 1;
    }
    proof {
        assert(t@ =~= wildcard_zeroed(s@));
    }
    t
}

fn tag_at_exec(t: &Vec<char>, i: usize) -> (r: Option<(VersionModifier, usize)>)
    requires
        i <= t@.len(),
    ensures
        match r {
            Some((m, j)) => tag_at(t@, i as int) == Some((m, j as int)) && i <= j <= t@.len(),
            None => tag_at(t@, i as int) is None,
        },
{
    let n = t.len();
    assert(i <= n);
    if n - i >= 3 && t[i] == 'd' && t[i + 1] == 'e' && t[i + 2] == 'p' {
        Some((VersionModifier::Dep, i + 3))
    } else if n - i >= 2 && t[i] == 'r' && t[i + 1] == 'c' {
        Some((VersionModifier::ReleaseCandidate, i + 2))
    } else if n - i >= 1 && t[i] == 'a' {
        Some((VersionModifier::Alpha, i + 1))
    } else if n - i >= 1 && t[i] == 'b' {
        Some((VersionModifier::Beta, i + 1))
    } else {
        None
    }
}

/// Parses already-normalized version characters.
#[verifier::rlimit(30)]
fn parse_version_chars(t: &Vec<char>) -> (r: Option<Version>)
    ensures
        r == spec_parse_version_chars(t@),
        r matches Some(v) ==> version_wf(v),
{
    let l0 = run_len_exec(t, 0);
    if l0 == 0 {
        return None;
    }
    let i1 = if l0 < t.len() && t[l0] == '.' {
        l0 + 1
    } else {
        l0
    };
    assert(i1 as int == skip_dot(t@, l0 as int));
    let l1 = run_len_exec(t, i1);
    let p1 = i1 + l1;
    let i2 = if p1 < t.len() && t[p1] == '.' {
        p1 + 1
    } else {
        p1
    };
    assert(i2 as int == skip_dot(t@, p1 as int));
    let l2 = run_len_exec(t, i2);
    let p2 = i2 + l2;
    let i3 = if p2 < t.len() && t[p2] == '.' {
        p2 + 1
    } else {
        p2
    };
    assert(i3 as int == skip_dot(t@, p2 as int));
    let l3 = run_len_exec(t, i3);
    let i4 = i3 + l3;

    let major = match parse_digits(t, 0, l0) {
        Some(x) => x,
        None => {
            return None;
        },
    };
    let minor = match parse_digits(t, i1, l1) {
        Some(x) => x,
        None => {
            return None;
        },
    };
    let patch = match parse_digits(t, i2, l2) {
        Some(x) => x,
        None => {
            return None;
        },
    };
    let extra = match parse_digits(t, i3, l3) {
        Some(x) => x,
        None => {
            return None;
        },
    };
    let extra_num = if l3 > 0 {
        Some(extra)
    } else {
        None
    };

    if i4 == t.len() {
        return Some(
            Version { major, minor, patch, extra_num, modifier: None },
        );
    }
    match tag_at_exec(t, i4) {
        Some((m, i5)) => {
            let l5 = run_len_exec(t, i5);
            if l5 == 0 || i5 + l5 != t.len() {
                return None;
            }
            let num = match parse_digits(t, i5, l5) {
                Some(x) => x,
                None => {
                    return None;
                },
            };
            Some(Version { major, minor, patch, extra_num, modifier: Some((m, num)) })
        },
        None => None,
    }
}

/// No character of a rendered version is a wildcard, so wildcard
/// normalization leaves rendered text unchanged.
pub open spec fn no_star(s: Seq<char>) -> bool {
    forall|k: int| 0 <= k < s.len() ==> #[trigger] s[k] != '*'
}

proof fn lemma_wz_identity(s: Seq<char>)
    requires
        no_star(s),
    ensures
        wildcard_zeroed(s) == s,
{
    assert(wildcard_zeroed(s) =~= s);
}

proof fn lemma_dec_str_no_star(n: nat)
    ensures
        no_star(dec_str(n)),
{
    crate::text::lemma_dec_str_digits(n);
    assert forall|k: int| 0 <= k < dec_str(n).len() implies #[trigger] dec_str(n)[k]
        != '*' by {
        assert(crate::text::is_digit(dec_str(n)[k]));
    }
}

/// A digit run that renders a number and stops at the end of the text or at
/// a non-digit reads back as exactly that number.
proof fn lemma_parse_num_at(s: Seq<char>, i: int, n: nat, j: int)
    requires
        0 <= i <= j <= s.len(),
        s.subrange(i, j) == dec_str(n),
        j == s.len() || !crate::text::is_digit(s[j]),
    ensures
        run_len(s, i) == j - i,
        digits_val(s.subrange(i, i + run_len(s, i))) == n,
{
    crate::text::lemma_dec_str_digits(n);
    assert forall|k: int| i <= k < j implies crate::text::is_digit(#[trigger] s[k]) by {
        assert(s[k] == dec_str(n)[k - i]);
        assert(crate::text::is_digit(dec_str(n)[k - i]));
    }
    crate::text::lemma_run_len_exact(s, i, j);
}

/// The suffix grammar, read back: starting at `base`, the parser consumes
/// the optional `.extra` and the optional modifier of `v` and reaches the
/// end of the text.
#[verifier::rlimit(60)]
proof fn lemma_parse_suffix(s: Seq<char>, v: Version, base: int)
    requires
        version_wf(v),
        0 <= base <= s.len(),
        s.subrange(base, s.len() as int) == suffix_str(v),
    ensures
        ({
            let i3 = skip_dot(s, base);
            let l3 = run_len(s, i3) as int;
            let i4 = i3 + l3;
            &&& (match v.extra_num {
                Some(e) => l3 > 0 && digits_val(s.subrange(i3, i4)) == e as nat,
                None => l3 == 0,
            })
            &&& (match v.modifier {
                Some((m, n)) => {
                    &&& tag_at(s, i4) matches Some((m2, i5)) && m2 == m && {
                        let l5 = run_len(s, i5) as int;
                        &&& l5 > 0
                        &&& i5 + l5 == s.len()
                        &&& digits_val(s.subrange(i5, i5 + l5)) == n as nat
                    }
                },
                None => i4 == s.len(),
            })
        }),
{
    let slen = s.len() as int;
    let sfx = suffix_str(v);
    let ext: Seq<char> = match v.extra_num {
        Some(e) => seq!['.'] + dec_str(e as nat),
        None => Seq::<char>::empty(),
    };
    let mods: Seq<char> = match v.modifier {
        Some((m, n)) => mod_tag_str(m) + dec_str(n as nat),
        None => Seq::<char>::empty(),
    };
    assert(sfx =~= ext + mods);
    let le = ext.len() as int;
    let lm = mods.len() as int;
    assert(slen - base == le + lm);
    let mstart = base + le;

    assert(s.subrange(base, mstart) =~= ext) by {
        assert forall|j: int| 0 <= j < le implies s.subrange(base, mstart)[j] == ext[j] by {
            assert(s.subrange(base, mstart)[j] == s.subrange(base, slen)[j]);
            assert(s.subrange(base, slen)[j] == sfx[j]);
            assert(sfx[j] == (ext + mods)[j]);
        }
    }
    assert(s.subrange(mstart, slen) =~= mods) by {
        assert forall|j: int| 0 <= j < lm implies s.subrange(mstart, slen)[j] == mods[j] by {
            assert(s.subrange(mstart, slen)[j] == s[mstart + j]);
            assert(s.subrange(base, slen)[le + j] == s[base + (le + j)]);
            assert(base + (le + j) == mstart + j);
            assert(s.subrange(base, slen)[le + j] == sfx[le + j]);
            assert(sfx[le + j] == (ext + mods)[le + j]);
        }
    }

    // The first character of the modifier region is a tag letter, never a
    // digit and never a dot.
    if v.modifier is Some {
        let (m, n) = v.modifier->Some_0;
        assert(mods[0] == (mod_tag_str(m) + dec_str(n as nat))[0]);
        assert(mod_tag_str(m).len() > 0);
        assert(mods[0] == mod_tag_str(m)[0]);
        assert(s[mstart] == s.subrange(mstart, slen)[0]);
        assert(s[mstart] == mod_tag_str(m)[0]);
        assert(!crate::text::is_digit(s[mstart]));
        assert(s[mstart] != '.');
    }

    let i3 = skip_dot(s, base);
    match v.extra_num {
        Some(e) => {
            assert(s[base] == s.subrange(base, mstart)[0]);
            assert(s[base] == ext[0]);
            assert(ext[0] == '.');
            assert(i3 == base + 1);
            let de = dec_str(e as nat);
            assert(s.subrange(i3, mstart) =~= de) by {
                assert forall|j: int| 0 <= j < de.len() implies s.subrange(base + 1, mstart)[j]
                    == de[j] by {
                    assert(s.subrange(base + 1, mstart)[j] == s[base + 1 + j]);
                    assert(s.subrange(base, mstart)[1 + j] == s[base + (1 + j)]);
                    assert(base + (1 + j) == base + 1 + j);
                    assert(s.subrange(base, mstart)[1 + j] == ext[1 + j]);
                    assert(ext[1 + j] == de[j]);
                }
            }
            lemma_parse_num_at(s, i3, e as nat, mstart);
        },
        None => {
            assert(le == 0);
            assert(mstart == base);
            if v.modifier is Some {
                assert(s[base] != '.');
                assert(i3 == base);
                assert(run_len(s, i3) == 0);
            } else {
                assert(lm == 0);
                assert(base == slen);
                assert(i3 == base);
                assert(run_len(s, i3) == 0);
            }
        },
    }
    let l3 = run_len(s, i3) as int;
    let i4 = i3 + l3;
    assert(i4 == mstart);

    match v.modifier {
        Some((m, n)) => {
            let tag = mod_tag_str(m);
            let lt = tag.len() as int;
            let dn = dec_str(n as nat);
            crate::text::lemma_dec_str_digits(n as nat);
            assert(lm == lt + dn.len());
            let i5 = mstart + lt;
            assert forall|k: int| 0 <= k < lt implies s[mstart + k] == tag[k] by {
                assert(s.subrange(mstart, slen)[k] == s[mstart + k]);
                assert(mods[k] == (tag + dn)[k]);
            }
            // The tag is recognized as itself: earlier alternatives in the
            // recognizer differ in their first characters.
            match m {
                VersionModifier::Dep => {
                    assert(s[mstart + 0] == 'd' && s[mstart + 1] == 'e' && s[mstart + 2] == 'p');
                    assert(s[mstart] == 'd');
                    assert(tag_at(s, mstart) == Some((VersionModifier::Dep, i5)));
                },
                VersionModifier::ReleaseCandidate => {
                    assert(s[mstart + 0] == 'r' && s[mstart + 1] == 'c');
                    assert(s[mstart] == 'r');
                    assert(tag_at(s, mstart) == Some((VersionModifier::ReleaseCandidate, i5)));
                },
                VersionModifier::Alpha => {
                    assert(s[mstart + 0] == 'a');
                    assert(s[mstart] == 'a');
                    assert(tag_at(s, mstart) == Some((VersionModifier::Alpha, i5)));
                },
                VersionModifier::Beta => {
                    assert(s[mstart + 0] == 'b');
                    assert(s[mstart] == 'b');
                    assert(tag_at(s, mstart) == Some((VersionModifier::Beta, i5)));
                },
                VersionModifier::Null => {
                    assert(false);
                },
            }
            assert(s.subrange(i5, slen) =~= dn) by {
                assert forall|j: int| 0 <= j < dn.len() implies s.subrange(i5, slen)[j]
                    == dn[j] by {
                    assert(s.subrange(i5, slen)[j] == s[i5 + j]);
                    assert(s.subrange(mstart, slen)[lt + j] == s[mstart + (lt + j)]);
                    assert(mstart + (lt + j) == i5 + j);
                    assert(mods[lt + j] == (tag + dn)[lt + j]);
                }
            }
            lemma_parse_num_at(s, i5, n as nat, slen);
        },
        None => {
            assert(mods.len() == 0);
            assert(i4 == slen);
        },
    }
}

/// Round trip: the full rendering of any well-formed version parses back to
/// exactly that version; the medium rendering of one without an extra
/// segment parses back to the same version with its omitted patch read as
/// zero.
#[verifier::rlimit(60)]
pub proof fn lemma_version_round_trip(v: Version)
    requires
        version_wf(v),
    ensures
        spec_parse_version(full_str(v)) == Some(v),
        v.extra_num is None ==> spec_parse_version(med_str(v)) == Some(
            Version { patch: 0, ..v },
        ),
{
    lemma_full_round_trip(v);
    if v.extra_num is None {
        lemma_med_round_trip(v);
    }
}

#[verifier::rlimit(100)]
proof fn lemma_full_round_trip(v: Version)
    requires
        version_wf(v),
    ensures
        spec_parse_version(full_str(v)) == Some(v),
{
    let s = full_str(v);
    let a = dec_str(v.major as nat);
    let la = a.len() as int;
    let b = dec_str(v.minor as nat);
    let lb = b.len() as int;
    let c = dec_str(v.patch as nat);
    let lc = c.len() as int;
    let sfx = suffix_str(v);
    crate::text::lemma_dec_str_digits(v.major as nat);
    crate::text::lemma_dec_str_digits(v.minor as nat);
    crate::text::lemma_dec_str_digits(v.patch as nat);
    let base = la + 1 + lb + 1 + lc;
    assert(s =~= a + seq!['.'] + b + seq!['.'] + c + sfx);
    assert(s.subrange(base, s.len() as int) =~= sfx);
    lemma_suffix_head(v, s, base);

    // Major.
    assert(s.subrange(0, la) =~= a);
    assert(s[la] == '.');
    lemma_parse_num_at(s, 0, v.major as nat, la);
    assert(skip_dot(s, la) == la + 1);
    let i1 = la + 1;

    // Minor.
    assert(s.subrange(i1, i1 + lb) =~= b);
    assert(s[i1 + lb] == '.');
    lemma_parse_num_at(s, i1, v.minor as nat, i1 + lb);
    assert(skip_dot(s, i1 + lb) == i1 + lb + 1);
    let i2 = i1 + lb + 1;

    // Patch.
    assert(s.subrange(i2, base) =~= c);
    lemma_parse_num_at(s, i2, v.patch as nat, base);

    // Suffix.
    assert(s.subrange(base, s.len() as int) =~= sfx);
    lemma_parse_suffix(s, v, base);
    lemma_no_star_full(v);
    lemma_wz_identity(s);
}

#[verifier::rlimit(100)]
proof fn lemma_med_round_trip(v: Version)
    requires
        version_wf(v),
        v.extra_num is None,
    ensures
        spec_parse_version(med_str(v)) == Some(Version { patch: 0, ..v }),
{
    let s = med_str(v);
    let a = dec_str(v.major as nat);
    let la = a.len() as int;
    let b = dec_str(v.minor as nat);
    let lb = b.len() as int;
    let sfx = suffix_str(v);
    crate::text::lemma_dec_str_digits(v.major as nat);
    crate::text::lemma_dec_str_digits(v.minor as nat);
    let base = la + 1 + lb;
    assert(s =~= a + seq!['.'] + b + sfx);
    assert(s.subrange(base, s.len() as int) =~= sfx);
    lemma_suffix_head(v, s, base);

    // Major.
    assert(s.subrange(0, la) =~= a);
    assert(s[la] == '.');
    lemma_parse_num_at(s, 0, v.major as nat, la);
    assert(skip_dot(s, la) == la + 1);
    let i1 = la + 1;

    // Minor; with no extra segment, nothing after it is a dot or a digit,
    // so the patch and extra components read as absent.
    assert(s.subrange(i1, base) =~= b);
    lemma_parse_num_at(s, i1, v.minor as nat, base);
    assert(skip_dot(s, base) == base);
    assert(run_len(s, base) == 0);

    // Suffix.
    assert(s.subrange(base, s.len() as int) =~= sfx);
    lemma_parse_suffix(s, v, base);
    lemma_no_star_med(v);
    lemma_wz_identity(s);
}

/// Right after the numeric components, the text either ends or continues
/// with the suffix, whose first character is never a digit; and when the
/// version has no extra segment it is not a dot either.
proof fn lemma_suffix_head(v: Version, s: Seq<char>, base: int)
    requires
        version_wf(v),
        0 <= base <= s.len(),
        s.subrange(base, s.len() as int) == suffix_str(v),
    ensures
        base == s.len() || !crate::text::is_digit(s[base]),
        v.extra_num is None && base < s.len() ==> s[base] != '.',
{
    let sfx = suffix_str(v);
    if base < s.len() {
        assert(s[base] == sfx[0]);
        match v.extra_num {
            Some(e) => {
                assert(sfx[0] == '.');
            },
            None => {
                match v.modifier {
                    Some((m, n)) => {
                        assert(sfx[0] == mod_tag_str(m)[0]);
                        assert(!crate::text::is_digit(mod_tag_str(m)[0]));
                        assert(mod_tag_str(m)[0] != '.');
                    },
                    None => {
                        assert(sfx.len() == 0);
                        assert(false);
                    },
                }
            },
        }
    }
}

proof fn lemma_no_star_full(v: Version)
    requires
        version_wf(v),
    ensures
        no_star(full_str(v)),
{
    lemma_dec_str_no_star(v.major as nat);
    lemma_dec_str_no_star(v.minor as nat);
    lemma_dec_str_no_star(v.patch as nat);
    lemma_no_star_suffix(v);
    assert(full_str(v) =~= dec_str(v.major as nat) + seq!['.'] + dec_str(v.minor as nat) + seq![
        '.',
    ] + dec_str(v.patch as nat) + suffix_str(v));
}

proof fn lemma_no_star_med(v: Version)
    requires
        version_wf(v),
    ensures
        no_star(med_str(v)),
{
    lemma_dec_str_no_star(v.major as nat);
    lemma_dec_str_no_star(v.minor as nat);
    lemma_no_star_suffix(v);
    assert(med_str(v) =~= dec_str(v.major as nat) + seq!['.'] + dec_str(v.minor as nat)
        + suffix_str(v));
}

proof fn lemma_no_star_suffix(v: Version)
    requires
        version_wf(v),
    ensures
        no_star(suffix_str(v)),
{
    match v.extra_num {
        Some(e) => {
            lemma_dec_str_no_star(e as nat);
        },
        None => {},
    }
    match v.modifier {
        Some((m, n)) => {
            lemma_dec_str_no_star(n as nat);
        },
        None => {},
    }
}

impl Version {
    /// Parses version text: wildcards are read as zero; missing minor and
    /// patch default to zero; a modifier tag must carry its number; a
    /// numeric component beyond the unsigned 32-bit range is rejected.
    pub fn from_str(s: &str) -> (r: Result<Version, DependencyError>)
        ensures
            r is Ok <==> spec_parse_version(s@) is Some,
            r matches Ok(v) ==> spec_parse_version(s@) == Some(v) && version_wf(v),
    {
        let t = to_chars_wildcard_zeroed(s);
        match parse_version_chars(&t) {
            Some(v) => Ok(v),
            None => {
                let mut msg = String::from_str("Problem parsing version: ");
                let norm = chars_to_string(&t);
                msg.append(norm.as_str());
                Err(DependencyError { details: msg })
            },
        }
    }
}

} // verus!
