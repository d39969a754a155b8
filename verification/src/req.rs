//! The requirement model: a named package requirement with a list of
//! constraints (AND semantics), optional conditional markers (an extra
//! name, a platform gate, a language-version gate), and parsing from and
//! rendering to the manifest, package-index metadata, and plain-pin
//! dialects.

use crate::constraint::{
    constraints_wf, spec_constraint_str, Constraint, ReqType,
};
use crate::error::DependencyError;
use crate::text::push_char;
use crate::version::{version_wf, Version};
use vstd::prelude::*;
use vstd::string::{StrSliceExecFns, StringExecFns};

verus! {

/// Platform identifiers as written in `sys_platform` markers.
#[derive(Clone, Copy, Debug, PartialEq, Eq, Structural)]
pub enum Os {
    Linux,
    Windows32,
    Mac,
}

/// Which platform a `sys_platform` marker value denotes, if any.
pub open spec fn spec_os_of(s: Seq<char>) -> Option<Os> {
    if s.len() == 5 && s[0] == 'l' && s[1] == 'i' && s[2] == 'n' && s[3] == 'u' && s[4] == 'x' {
        Some(Os::Linux)
    } else if s.len() == 5 && s[0] == 'w' && s[1] == 'i' && s[2] == 'n' && s[3] == '3' && s[4]
        == '2' {
        Some(Os::Windows32)
    } else if s.len() == 6 && s[0] == 'd' && s[1] == 'a' && s[2] == 'r' && s[3] == 'w' && s[4]
        == 'i' && s[5] == 'n' {
        Some(Os::Mac)
    } else {
        None
    }
}

impl Os {
    /// Parses a platform identifier: `linux`, `win32` or `darwin`.
    pub fn from_str(s: &str) -> (r: Result<Os, DependencyError>)
        ensures
            r is Ok <==> spec_os_of(s@) is Some,
            r matches Ok(os) ==> spec_os_of(s@) == Some(os),
    {
        let n = s.unicode_len();
        if n == 5 {
            let c0 = s.get_char(0);
            let c1 = s.get_char(1);
            let c2 = s.get_char(2);
            let c3 = s.get_char(3);
            let c4 = s.get_char(4);
            if c0 == 'l' && c1 == 'i' && c2 == 'n' && c3 == 'u' && c4 == 'x' {
                return Ok(Os::Linux);
            }
            if c0 == 'w' && c1 == 'i' && c2 == 'n' && c3 == '3' && c4 == '2' {
                return Ok(Os::Windows32);
            }
        } else if n == 6 {
            let c0 = s.get_char(0);
            let c1 = s.get_char(1);
            let c2 = s.get_char(2);
            let c3 = s.get_char(3);
            let c4 = s.get_char(4);
            let c5 = s.get_char(5);
            if c0 == 'd' && c1 == 'a' && c2 == 'r' && c3 == 'w' && c4 == 'i' && c5 == 'n' {
                return Ok(Os::Mac);
            }
        }
        Err(DependencyError::new("Problem parsing Os"))
    }
}

/// A named package requirement. The constraints are combined with AND
/// semantics; the optional markers gate where the requirement applies.
#[derive(Debug)]
pub struct Req {
    pub name: String,
    pub constraints: Vec<Constraint>,
    pub extra: Option<String>,
    pub sys_platform: Option<(ReqType, Os)>,
    pub python_version: Option<Constraint>,
    pub install_with_extras: Option<Vec<String>>,
}

/// Equality of optional text by content.
pub open spec fn opt_str_eq(a: Option<String>, b: Option<String>) -> bool {
    match (a, b) {
        (Option::None, Option::None) => true,
        (Option::Some(x), Option::Some(y)) => x@ == y@,
        _ => false,
    }
}

/// Equality of optional text lists by content.
pub open spec fn opt_strs_eq(a: Option<Vec<String>>, b: Option<Vec<String>>) -> bool {
    match (a, b) {
        (Option::None, Option::None) => true,
        (Option::Some(x), Option::Some(y)) => x@.len() == y@.len() && (forall|i: int|
            0 <= i < x@.len() ==> #[trigger] x@[i]@ == y@[i]@),
        _ => false,
    }
}

/// Requirements are equal when every field agrees, text by content.
pub open spec fn req_eq(a: Req, b: Req) -> bool {
    &&& a.name@ == b.name@
    &&& a.constraints@ == b.constraints@
    &&& opt_str_eq(a.extra, b.extra)
    &&& a.sys_platform == b.sys_platform
    &&& a.python_version == b.python_version
    &&& opt_strs_eq(a.install_with_extras, b.install_with_extras)
}

fn constraints_eq(a: &Vec<Constraint>, b: &Vec<Constraint>) -> (r: bool)
    ensures
        r == (a@ == b@),
{
    if a.len() != b.len() {
        proof {
            assert(a@ != b@);
        }
        return false;
    }
    let n = a.len();
    let mut i: usize = 0;
    while i < n
        invariant
            0 <= i <= n,
            n == a@.len(),
            n == b@.len(),
            forall|k: int| 0 <= k < i ==> a@[k] == b@[k],
        decreases n - i,
    {
        if !(a[i] == b[i]) {
            return false;
        }
        i += 1;
    }
    proof {
        assert(a@ =~= b@);
    }
    true
}

fn opt_string_eq(a: &Option<String>, b: &Option<String>) -> (r: bool)
    ensures
        r == opt_str_eq(*a, *b),
{
    match (a, b) {
        (Option::None, Option::None) => true,
        (Option::Some(x), Option::Some(y)) => *x == *y,
        _ => false,
    }
}

fn strings_eq(x: &Vec<String>, y: &Vec<String>) -> (r: bool)
    ensures
        r == (x@.len() == y@.len() && (forall|i: int|
            0 <= i < x@.len() ==> #[trigger] x@[i]@ == y@[i]@)),
{
    if x.len() != y.len() {
        return false;
    }
    let n = x.len();
    let mut i: usize = 0;
    while i < n
        invariant
            0 <= i <= n,
            n == x@.len(),
            n == y@.len(),
            forall|k: int| 0 <= k < i ==> #[trigger] x@[k]@ == y@[k]@,
        decreases n - i,
    {
        if !(x[i] == y[i]) {
            return false;
        }
        i += 1;
    }
    true
}

fn opt_strings_eq(a: &Option<Vec<String>>, b: &Option<Vec<String>>) -> (r: bool)
    ensures
        r == opt_strs_eq(*a, *b),
{
    match (a, b) {
        (Option::None, Option::None) => true,
        (Option::Some(x), Option::Some(y)) => strings_eq(x, y),
        _ => false,
    }
}

fn clone_strings(v: &Vec<String>) -> (r: Vec<String>)
    ensures
        r@.len() == v@.len(),
        forall|i: int| 0 <= i < v@.len() ==> #[trigger] r@[i]@ == v@[i]@,
{
    let n = v.len();
    let mut r: Vec<String> = Vec::new();
    let mut i: usize = 0;
    while i < n
        invariant
            0 <= i <= n,
            n == v@.len(),
            r@.len() == i,
            forall|k: int| 0 <= k < i ==> #[trigger] r@[k]@ == v@[k]@,
        decreases n - i,
    {
        r.push(v[i].clone());
        i += 1;
    }
    r
}

impl Clone for Req {
    /// The copy agrees with the source value on every field, text by content.
    fn clone(&self) -> (r: Self)
        ensures
            req_eq(*self, r),
            r.install_with_extras is Some <==> self.install_with_extras is Some,
    {
        let mut constraints: Vec<Constraint> = Vec::new();
        let n = self.constraints.len();
        let mut i: usize = 0;
        while i < n
            invariant
                0 <= i <= n,
                n == self.constraints@.len(),
                constraints@ == self.constraints@.subrange(0, i as int),
            decreases n - i,
        {
            proof {
                assert(self.constraints@.subrange(0, i + 1) =~= self.constraints@.subrange(
                    0,
                    i as int,
                ) + seq![self.constraints@[i as int]]);
            }
            constraints.push(self.constraints[i]);
            i += 1;
        }
        proof {
            assert(self.constraints@.subrange(0, n as int) =~= self.constraints@);
        }
        let extra = match &self.extra {
            Option::Some(s) => Some(s.clone()),
            Option::None => None,
        };
        let install_with_extras = match &self.install_with_extras {
            Option::Some(v) => Some(clone_strings(v)),
            Option::None => None,
        };
        Req {
            name: self.name.clone(),
            constraints,
            extra,
            sys_platform: self.sys_platform,
            python_version: self.python_version,
            install_with_extras,
        }
    }
}

impl PartialEq for Req {
    fn eq(&self, other: &Self) -> (r: bool) {
        let name_eq = self.name == other.name;
        let cs_eq = constraints_eq(&self.constraints, &other.constraints);
        let extra_eq = opt_string_eq(&self.extra, &other.extra);
        let plat_eq = match (self.sys_platform, other.sys_platform) {
            (Option::None, Option::None) => true,
            (Option::Some((t1, o1)), Option::Some((t2, o2))) => t1 == t2 && o1 == o2,
            _ => false,
        };
        let py_eq = match (&self.python_version, &other.python_version) {
            (Option::None, Option::None) => true,
            (Option::Some(c1), Option::Some(c2)) => *c1 == *c2,
            _ => false,
        };
        let iwe_eq = opt_strings_eq(&self.install_with_extras, &other.install_with_extras);
        name_eq && cs_eq && extra_eq && plat_eq && py_eq && iwe_eq
    }
}

impl vstd::std_specs::cmp::PartialEqSpecImpl for Req {
    open spec fn obeys_eq_spec() -> bool {
        true
    }

    open spec fn eq_spec(&self, other: &Self) -> bool {
        req_eq(*self, *other)
    }
}

impl Req {
    /// A requirement with no markers.
    pub fn new(name: String, constraints: Vec<Constraint>) -> (r: Self)
        ensures
            r.name == name,
            r.constraints == constraints,
            r.extra is None,
            r.sys_platform is None,
            r.python_version is None,
            r.install_with_extras is None,
    {
        Self {
            name,
            constraints,
            extra: None,
            sys_platform: None,
            python_version: None,
            install_with_extras: None,
        }
    }
}

// ---------------------------------------------------------------------
// Parsing: runs and delimiters
// ---------------------------------------------------------------------
pub open spec fn is_space(c: char) -> bool {
    c == ' ' || c == '\t' || c == '\n' || c == '\r'
}

/// Characters allowed in a package name in the metadata dialects.
pub open spec fn is_name_char(c: char) -> bool {
    crate::text::is_digit(c) || (97 <= c as u32 && c as u32 <= 122) || (65 <= c as u32 && c as u32
        <= 90) || c == '-' || c == '.' || c == '_'
}

/// Characters allowed in a bare name in the plain-pin dialect (no dot or
/// underscore there).
pub open spec fn is_pip_name_char(c: char) -> bool {
    crate::text::is_digit(c) || (97 <= c as u32 && c as u32 <= 122) || (65 <= c as u32 && c as u32
        <= 90) || c == '-'
}

pub open spec fn is_quote(c: char) -> bool {
    c == '\'' || c == '"'
}

pub open spec fn space_run(s: Seq<char>, i: int) -> nat
    decreases s.len() - i,
{
    if i < 0 || i >= s.len() || !is_space(s[i]) {
        0
    } else {
        1 + space_run(s, i + 1)
    }
}

pub open spec fn name_run(s: Seq<char>, i: int) -> nat
    decreases s.len() - i,
{
    if i < 0 || i >= s.len() || !is_name_char(s[i]) {
        0
    } else {
        1 + name_run(s, i + 1)
    }
}

pub open spec fn pip_name_run(s: Seq<char>, i: int) -> nat
    decreases s.len() - i,
{
    if i < 0 || i >= s.len() || !is_pip_name_char(s[i]) {
        0
    } else {
        1 + pip_name_run(s, i + 1)
    }
}

/// First quote character at or after `i`, or `-1`.
pub open spec fn find_quote(s: Seq<char>, i: int) -> int
    decreases s.len() - i,
{
    if i < 0 || i >= s.len() {
        -1
    } else if is_quote(s[i]) {
        i
    } else {
        find_quote(s, i + 1)
    }
}

/// First closing parenthesis at or after `i`, or `-1`.
pub open spec fn find_rparen(s: Seq<char>, i: int) -> int
    decreases s.len() - i,
{
    if i < 0 || i >= s.len() {
        -1
    } else if s[i] == ')' {
        i
    } else {
        find_rparen(s, i + 1)
    }
}

fn is_space_exec(c: char) -> (r: bool)
    ensures
        r == is_space(c),
{
    c == ' ' || c == '\t' || c == '\n' || c == '\r'
}

fn is_name_char_exec(c: char) -> (r: bool)
    ensures
        r == is_name_char(c),
{
    crate::text::is_digit_exec(c) || (97 <= c as u32 && c as u32 <= 122) || (65 <= c as u32
        && c as u32 <= 90) || c == '-' || c == '.' || c == '_'
}

fn is_pip_name_char_exec(c: char) -> (r: bool)
    ensures
        r == is_pip_name_char(c),
{
    crate::text::is_digit_exec(c) || (97 <= c as u32 && c as u32 <= 122) || (65 <= c as u32
        && c as u32 <= 90) || c == '-'
}

fn space_run_exec(t: &Vec<char>, i: usize) -> (l: usize)
    requires
        i <= t@.len(),
    ensures
        i + l <= t@.len(),
        l == space_run(t@, i as int),
    decreases t@.len() - i,
{
    if i < t.len() && is_space_exec(t[i]) {
        1 + space_run_exec(t, i + 1)
    } else {
        0
    }
}

fn name_run_exec(t: &Vec<char>, i: usize) -> (l: usize)
    requires
        i <= t@.len(),
    ensures
        i + l <= t@.len(),
        l == name_run(t@, i as int),
    decreases t@.len() - i,
{
    if i < t.len() && is_name_char_exec(t[i]) {
        1 + name_run_exec(t, i + 1)
    } else {
        0
    }
}

fn pip_name_run_exec(t: &Vec<char>, i: usize) -> (l: usize)
    requires
        i <= t@.len(),
    ensures
        i + l <= t@.len(),
        l == pip_name_run(t@, i as int),
    decreases t@.len() - i,
{
    if i < t.len() && is_pip_name_char_exec(t[i]) {
        1 + pip_name_run_exec(t, i + 1)
    } else {
        0
    }
}

fn find_quote_exec(t: &Vec<char>, i: usize) -> (r: Option<usize>)
    requires
        i <= t@.len(),
    ensures
        match r {
            Some(j) => find_quote(t@, i as int) == j as int && i <= j < t@.len(),
            None => find_quote(t@, i as int) == -1,
        },
    decreases t@.len() - i,
{
    if i >= t.len() {
        None
    } else if t[i] == '\'' || t[i] == '"' {
        Some(i)
    } else {
        find_quote_exec(t, i + 1)
    }
}

fn find_rparen_exec(t: &Vec<char>, i: usize) -> (r: Option<usize>)
    requires
        i <= t@.len(),
    ensures
        match r {
            Some(j) => find_rparen(t@, i as int) == j as int && i <= j < t@.len(),
            None => find_rparen(t@, i as int) == -1,
        },
    decreases t@.len() - i,
{
    if i >= t.len() {
        None
    } else if t[i] == ')' {
        Some(i)
    } else {
        find_rparen_exec(t, i + 1)
    }
}

// ---------------------------------------------------------------------
// Parsing: marker sub-clauses (`extra == '...'` and friends)
// ---------------------------------------------------------------------
/// The marker keys this crate understands; any other key in a marker
/// expression is ignored rather than rejected.
#[derive(Clone, Copy, Debug, PartialEq, Eq, Structural)]
pub enum MarkerKey {
    Extra,
    SysPlatform,
    PythonVersion,
}

/// A recognized marker key at `i`, with the position after it.
pub open spec fn kw_at(s: Seq<char>, i: int) -> Option<(MarkerKey, int)> {
    if i + 5 <= s.len() && s[i] == 'e' && s[i + 1] == 'x' && s[i + 2] == 't' && s[i + 3] == 'r'
        && s[i + 4] == 'a' {
        Some((MarkerKey::Extra, i + 5))
    } else if i + 12 <= s.len() && s[i] == 's' && s[i + 1] == 'y' && s[i + 2] == 's' && s[i + 3]
        == '_' && s[i + 4] == 'p' && s[i + 5] == 'l' && s[i + 6] == 'a' && s[i + 7] == 't' && s[i
        + 8] == 'f' && s[i + 9] == 'o' && s[i + 10] == 'r' && s[i + 11] == 'm' {
        Some((MarkerKey::SysPlatform, i + 12))
    } else if i + 14 <= s.len() && s[i] == 'p' && s[i + 1] == 'y' && s[i + 2] == 't' && s[i + 3]
        == 'h' && s[i + 4] == 'o' && s[i + 5] == 'n' && s[i + 6] == '_' && s[i + 7] == 'v' && s[i
        + 8] == 'e' && s[i + 9] == 'r' && s[i + 10] == 's' && s[i + 11] == 'i' && s[i + 12] == 'o'
        && s[i + 13] == 'n' {
        Some((MarkerKey::PythonVersion, i + 14))
    } else {
        None
    }
}

/// An operator token at `i`, longest first, with the position after it.
pub open spec fn op_at(s: Seq<char>, i: int) -> Option<(ReqType, int)> {
    if i + 2 <= s.len() && s[i] == '=' && s[i + 1] == '=' {
        Some((ReqType::Exact, i + 2))
    } else if i + 2 <= s.len() && s[i] == '<' && s[i + 1] == '=' {
        Some((ReqType::Lte, i + 2))
    } else if i + 2 <= s.len() && s[i] == '>' && s[i + 1] == '=' {
        Some((ReqType::Gte, i + 2))
    } else if i + 2 <= s.len() && s[i] == '!' && s[i + 1] == '=' {
        Some((ReqType::Ne, i + 2))
    } else if i + 1 <= s.len() && s[i] == '^' {
        Some((ReqType::Caret, i + 1))
    } else if i + 1 <= s.len() && s[i] == '~' {
        Some((ReqType::Tilde, i + 1))
    } else if i + 1 <= s.len() && s[i] == '<' {
        Some((ReqType::Lt, i + 1))
    } else if i + 1 <= s.len() && s[i] == '>' {
        Some((ReqType::Gt, i + 1))
    } else {
        None
    }
}

/// A whole marker sub-clause at `i`: a key, spaces, an operator, spaces, a
/// quoted value (the quote kinds may be mixed). Yields the key, the
/// operator, and the value's bounds; the clause ends one past the closing
/// quote.
pub open spec fn marker_match_at(s: Seq<char>, i: int) -> Option<(MarkerKey, ReqType, int, int)> {
    match kw_at(s, i) {
        Some((k, p)) => {
            let p2 = p + space_run(s, p);
            match op_at(s, p2) {
                Some((op, p3)) => {
                    let p4 = p3 + space_run(s, p3);
                    if p4 < s.len() && is_quote(s[p4]) {
                        let q = find_quote(s, p4 + 1);
                        if q >= 0 {
                            Some((k, op, p4 + 1, q))
                        } else {
                            None
                        }
                    } else {
                        None
                    }
                },
                None => None,
            }
        },
        None => None,
    }
}

/// The markers gathered from a marker expression.
pub struct MarkersView {
    pub extra: Option<Seq<char>>,
    pub sys_platform: Option<(ReqType, Os)>,
    pub python_version: Option<Constraint>,
}

pub open spec fn empty_markers() -> MarkersView {
    MarkersView { extra: None, sys_platform: None, python_version: None }
}

/// Scans a marker expression left to right for recognized sub-clauses and
/// folds them into the marker state, later clauses overriding earlier
/// ones. An unknown platform value, or an unparsable language-version
/// gate, fails; everything else is skipped.
pub open spec fn scan_eval(s: Seq<char>, i: int, st: MarkersView) -> Option<MarkersView>
    decreases s.len() - i,
{
    if i < 0 || i >= s.len() {
        Some(st)
    } else {
        match marker_match_at(s, i) {
            None => scan_eval(s, i + 1, st),
            Some((k, op, vs, ve)) => {
                let val = s.subrange(vs, ve);
                let next = if i < ve + 1 && ve + 1 <= s.len() {
                    ve + 1
                } else {
                    i + 1
                };
                match k {
                    MarkerKey::Extra => scan_eval(
                        s,
                        next,
                        MarkersView { extra: Some(val), ..st },
                    ),
                    MarkerKey::SysPlatform => match spec_os_of(val) {
                        Some(os) => scan_eval(
                            s,
                            next,
                            MarkersView { sys_platform: Some((op, os)), ..st },
                        ),
                        None => None,
                    },
                    MarkerKey::PythonVersion => match crate::constraint::spec_parse_constraint(
                        crate::constraint::req_type_str(op) + val,
                    ) {
                        Some(c) => scan_eval(
                            s,
                            next,
                            MarkersView { python_version: Some(c), ..st },
                        ),
                        None => None,
                    },
                }
            },
        }
    }
}

/// The view of an exec marker triple.
pub open spec fn markers_view(
    extra: Option<String>,
    sys_platform: Option<(ReqType, Os)>,
    python_version: Option<Constraint>,
) -> MarkersView {
    MarkersView {
        extra: match extra {
            Some(s) => Some(s@),
            None => None,
        },
        sys_platform,
        python_version,
    }
}

fn kw_at_exec(t: &Vec<char>, i: usize) -> (r: Option<(MarkerKey, usize)>)
    requires
        i <= t@.len(),
    ensures
        match r {
            Some((k, p)) => kw_at(t@, i as int) == Some((k, p as int)) && i <= p <= t@.len(),
            None => kw_at(t@, i as int) is None,
        },
{
    let n = t.len();
    if n - i >= 5 && t[i] == 'e' && t[i + 1] == 'x' && t[i + 2] == 't' && t[i + 3] == 'r' && t[i
        + 4] == 'a' {
        Some((MarkerKey::Extra, i + 5))
    } else if n - i >= 12 && t[i] == 's' && t[i + 1] == 'y' && t[i + 2] == 's' && t[i + 3] == '_'
        && t[i + 4] == 'p' && t[i + 5] == 'l' && t[i + 6] == 'a' && t[i + 7] == 't' && t[i + 8]
        == 'f' && t[i + 9] == 'o' && t[i + 10] == 'r' && t[i + 11] == 'm' {
        Some((MarkerKey::SysPlatform, i + 12))
    } else if n - i >= 14 && t[i] == 'p' && t[i + 1] == 'y' && t[i + 2] == 't' && t[i + 3] == 'h'
        && t[i + 4] == 'o' && t[i + 5] == 'n' && t[i + 6] == '_' && t[i + 7] == 'v' && t[i + 8]
        == 'e' && t[i + 9] == 'r' && t[i + 10] == 's' && t[i + 11] == 'i' && t[i + 12] == 'o' && t[i
        + 13] == 'n' {
        Some((MarkerKey::PythonVersion, i + 14))
    } else {
        None
    }
}

fn op_at_exec(t: &Vec<char>, i: usize) -> (r: Option<(ReqType, usize)>)
    requires
        i <= t@.len(),
    ensures
        match r {
            Some((op, p)) => op_at(t@, i as int) == Some((op, p as int)) && i <= p <= t@.len(),
            None => op_at(t@, i as int) is None,
        },
{
    let n = t.len();
    if n - i >= 2 && t[i] == '=' && t[i + 1] == '=' {
        Some((ReqType::Exact, i + 2))
    } else if n - i >= 2 && t[i] == '<' && t[i + 1] == '=' {
        Some((ReqType::Lte, i + 2))
    } else if n - i >= 2 && t[i] == '>' && t[i + 1] == '=' {
        Some((ReqType::Gte, i + 2))
    } else if n - i >= 2 && t[i] == '!' && t[i + 1] == '=' {
        Some((ReqType::Ne, i + 2))
    } else if n - i >= 1 && t[i] == '^' {
        Some((ReqType::Caret, i + 1))
    } else if n - i >= 1 && t[i] == '~' {
        Some((ReqType::Tilde, i + 1))
    } else if n - i >= 1 && t[i] == '<' {
        Some((ReqType::Lt, i + 1))
    } else if n - i >= 1 && t[i] == '>' {
        Some((ReqType::Gt, i + 1))
    } else {
        None
    }
}

fn marker_at_exec(t: &Vec<char>, i: usize) -> (r: Option<(MarkerKey, ReqType, usize, usize)>)
    requires
        i <= t@.len(),
    ensures
        match r {
            Some((k, op, vs, ve)) => marker_match_at(t@, i as int) == Some(
                (k, op, vs as int, ve as int),
            ) && i < ve + 1 <= t@.len() && vs <= ve,
            None => marker_match_at(t@, i as int) is None,
        },
{
    let n = t.len();
    match kw_at_exec(t, i) {
        Some((k, p)) => {
            let sr1 = space_run_exec(t, p);
            assert(p + sr1 <= n);
            let p2 = p + sr1;
            match op_at_exec(t, p2) {
                Some((op, p3)) => {
                    let sr2 = space_run_exec(t, p3);
                    assert(p3 + sr2 <= n);
                    let p4 = p3 + sr2;
                    if p4 < t.len() {
                        let c = t[p4];
                        if c == '\'' || c == '"' {
                            match find_quote_exec(t, p4 + 1) {
                                Some(q) => Some((k, op, p4 + 1, q)),
                                None => None,
                            }
                        } else {
                            None
                        }
                    } else {
                        None
                    }
                },
                None => None,
            }
        },
        None => None,
    }
}

/// Extracts the recognized sub-clauses of a marker expression: the extra
/// gate, the platform gate, and the language-version gate. Absent marker
/// text yields no gates at all.
#[verifier::rlimit(100)]
pub fn parse_extras(m: Option<&str>) -> (r: Result<
    (Option<String>, Option<(ReqType, Os)>, Option<Constraint>),
    DependencyError,
>)
    ensures
        ({
            let expected = match m {
                Some(s) => scan_eval(s@, 0, empty_markers()),
                None => Some(empty_markers()),
            };
            &&& r is Ok <==> expected is Some
            &&& (r matches Ok((e, sp, pv)) ==> Some(markers_view(e, sp, pv)) == expected)
        }),
{
    let s = match m {
        Some(s) => s,
        None => {
            return Ok((None, None, None));
        },
    };
    let n = s.unicode_len();
    let mut t: Vec<char> = Vec::new();
    let mut j: usize = 0;
    while j < n
        invariant
            0 <= j <= n,
            n == s@.len(),
            t@ == s@.subrange(0, j as int),
        decreases n - j,
    {
        proof {
            assert(s@.subrange(0, j + 1) =~= s@.subrange(0, j as int) + seq![s@[j as int]]);
        }
        t.push(s.get_char(j));
        j += 1;
    }
    proof {
        assert(t@ =~= s@);
    }

    let mut extra: Option<String> = None;
    let mut sys_platform: Option<(ReqType, Os)> = None;
    let mut python_version: Option<Constraint> = None;
    let mut i: usize = 0;
    while i < n
        invariant
            0 <= i <= n,
            n == t@.len(),
            t@ == s@,
            m == Some(s),
            scan_eval(t@, i as int, markers_view(extra, sys_platform, python_version))
                == scan_eval(t@, 0, empty_markers()),
        decreases n - i,
    {
        let ghost st0 = markers_view(extra, sys_platform, python_version);
        match marker_at_exec(&t, i) {
            None => {
                proof {
                    assert(scan_eval(t@, i as int, st0) == scan_eval(t@, i + 1, st0));
                }
                i += 1;
            },
            Some((k, op, vs, ve)) => {
                let ghost val = t@.subrange(vs as int, ve as int);
                let val_chars = crate::text::sub_chars(&t, vs, ve);
                let next = ve + 1;
                match k {
                    MarkerKey::Extra => {
                        extra = Some(crate::text::chars_to_string(&val_chars));
                        proof {
                            assert(markers_view(extra, sys_platform, python_version)
                                == (MarkersView { extra: Some(val), ..st0 }));
                            assert(scan_eval(t@, i as int, st0) == scan_eval(
                                t@,
                                next as int,
                                MarkersView { extra: Some(val), ..st0 },
                            ));
                        }
                    },
                    MarkerKey::SysPlatform => {
                        let vstr = crate::text::chars_to_string(&val_chars);
                        match Os::from_str(vstr.as_str()) {
                            Ok(os) => {
                                sys_platform = Some((op, os));
                                proof {
                                    assert(markers_view(extra, sys_platform, python_version)
                                        == (MarkersView { sys_platform: Some((op, os)), ..st0 }));
                                    assert(scan_eval(t@, i as int, st0) == scan_eval(
                                        t@,
                                        next as int,
                                        MarkersView { sys_platform: Some((op, os)), ..st0 },
                                    ));
                                }
                            },
                            Err(e) => {
                                proof {
                                    assert(scan_eval(t@, i as int, st0) is None);
                                }
                                return Err(e);
                            },
                        }
                    },
                    MarkerKey::PythonVersion => {
                        let mut ctext = op.to_string();
                        let vstr = crate::text::chars_to_string(&val_chars);
                        ctext.append(vstr.as_str());
                        proof {
                            assert(ctext@ =~= crate::constraint::req_type_str(op) + val);
                        }
                        match Constraint::from_str(ctext.as_str()) {
                            Ok(c) => {
                                python_version = Some(c);
                                proof {
                                    assert(markers_view(extra, sys_platform, python_version)
                                        == (MarkersView { python_version: Some(c), ..st0 }));
                                    assert(scan_eval(t@, i as int, st0) == scan_eval(
                                        t@,
                                        next as int,
                                        MarkersView { python_version: Some(c), ..st0 },
                                    ));
                                }
                            },
                            Err(e) => {
                                proof {
                                    assert(scan_eval(t@, i as int, st0) is None);
                                }
                                return Err(e);
                            },
                        }
                    },
                }
                i = next;
            },
        }
    }
    Ok((extra, sys_platform, python_version))
}

// ---------------------------------------------------------------------
// Parsing: the three requirement dialects
// ---------------------------------------------------------------------
/// The structure of package-index metadata style: a name, whitespace, a
/// parenthesized constraint list, and an optional `; markers` tail. Yields
/// the name, the constraint text, and the marker text when present.
pub open spec fn spec_req_pypi_main(s: Seq<char>) -> Option<
    (Seq<char>, Seq<char>, Option<Seq<char>>),
> {
    let nl = name_run(s, 0) as int;
    if nl == 0 {
        None
    } else {
        let ws = space_run(s, nl) as int;
        if ws == 0 {
            None
        } else {
            let p = nl + ws;
            if !(p < s.len() && s[p] == '(') {
                None
            } else {
                let q = find_rparen(s, p + 1);
                if q < 0 {
                    None
                } else {
                    let name = s.subrange(0, nl);
                    let ctext = s.subrange(p + 1, q);
                    if q + 1 == s.len() {
                        Some((name, ctext, None))
                    } else {
                        let w2 = space_run(s, q + 1) as int;
                        let semi = q + 1 + w2;
                        if !(semi < s.len() && s[semi] == ';') {
                            None
                        } else {
                            let w3 = space_run(s, semi + 1) as int;
                            Some((name, ctext, Some(s.subrange(semi + 1 + w3, s.len() as int))))
                        }
                    }
                }
            }
        }
    }
}

/// The no-version fallback of the metadata style: a bare name, optionally
/// followed by `; markers`.
pub open spec fn spec_req_pypi_novers(s: Seq<char>) -> Option<(Seq<char>, Option<Seq<char>>)> {
    let nl = name_run(s, 0) as int;
    if nl == 0 {
        None
    } else if nl == s.len() {
        Some((s, None))
    } else {
        let w = space_run(s, nl) as int;
        let semi = nl + w;
        if !(semi < s.len() && s[semi] == ';') {
            None
        } else {
            let w2 = space_run(s, semi + 1) as int;
            Some((s.subrange(0, nl), Some(s.subrange(semi + 1 + w2, s.len() as int))))
        }
    }
}

/// Whether manifest structure `\s* = \s* <quote> ... <quote-at-end>`
/// matches at `i`; yields the content start (the content ends one before
/// the final character, which must be a quote).
pub open spec fn cfg_match_at(s: Seq<char>, i: int) -> Option<int> {
    let e = i + space_run(s, i);
    if e < s.len() && s[e] == '=' {
        let qp = e + 1 + space_run(s, e + 1);
        if qp < s.len() - 1 && is_quote(s[qp]) && is_quote(s[s.len() - 1]) {
            Some(qp + 1)
        } else {
            None
        }
    } else {
        None
    }
}

/// The manifest structure at its earliest match position: the name is
/// everything before it.
pub open spec fn first_cfg_match(s: Seq<char>, i: int) -> Option<(int, int)>
    decreases s.len() - i,
{
    if i < 0 || i >= s.len() {
        None
    } else {
        match cfg_match_at(s, i) {
            Some(cs) => Some((i, cs)),
            None => first_cfg_match(s, i + 1),
        }
    }
}

/// The view of a parsed requirement.
pub struct ReqView {
    pub name: Seq<char>,
    pub constraints: Seq<Constraint>,
    pub extra: Option<Seq<char>>,
    pub sys_platform: Option<(ReqType, Os)>,
    pub python_version: Option<Constraint>,
}

pub open spec fn req_view(r: Req) -> ReqView {
    ReqView {
        name: r.name@,
        constraints: r.constraints@,
        extra: match r.extra {
            Some(s) => Some(s@),
            None => None,
        },
        sys_platform: r.sys_platform,
        python_version: r.python_version,
    }
}

pub open spec fn eval_markers_opt(m: Option<Seq<char>>) -> Option<MarkersView> {
    match m {
        None => Some(empty_markers()),
        Some(t) => scan_eval(t, 0, empty_markers()),
    }
}

pub open spec fn req_of(name: Seq<char>, cs: Seq<Constraint>, mv: MarkersView) -> ReqView {
    ReqView {
        name,
        constraints: cs,
        extra: mv.extra,
        sys_platform: mv.sys_platform,
        python_version: mv.python_version,
    }
}

/// What requirement text denotes in the metadata (`pypi` true) or manifest
/// dialect: the structure above, its constraint list, and its markers; any
/// failing part fails the whole.
pub open spec fn spec_parse_req(s: Seq<char>, pypi: bool) -> Option<ReqView> {
    if pypi {
        match spec_req_pypi_main(s) {
            Some((name, ctext, m)) => {
                match crate::constraint::spec_parse_multi(
                    crate::constraint::strip_spaces(ctext),
                ) {
                    Some(cs) => match eval_markers_opt(m) {
                        Some(mv) => Some(req_of(name, cs, mv)),
                        None => None,
                    },
                    None => None,
                }
            },
            None => match spec_req_pypi_novers(s) {
                Some((name, m)) => match eval_markers_opt(m) {
                    Some(mv) => Some(req_of(name, Seq::<Constraint>::empty(), mv)),
                    None => None,
                },
                None => None,
            },
        }
    } else {
        match first_cfg_match(s, 0) {
            Some((ne, cs)) => {
                let ctext = s.subrange(cs, s.len() - 1);
                match crate::constraint::spec_parse_multi(
                    crate::constraint::strip_spaces(ctext),
                ) {
                    Some(parsed) => Some(
                        req_of(s.subrange(0, ne), parsed, empty_markers()),
                    ),
                    None => None,
                }
            },
            None => {
                if s.len() > 0 && name_run(s, 0) == s.len() {
                    Some(req_of(s, Seq::<Constraint>::empty(), empty_markers()))
                } else {
                    None
                }
            },
        }
    }
}

fn first_cfg_match_exec(t: &Vec<char>, i: usize) -> (r: Option<(usize, usize)>)
    requires
        i <= t@.len(),
    ensures
        match r {
            Some((ne, cs)) => first_cfg_match(t@, i as int) == Some((ne as int, cs as int)) && i
                <= ne < t@.len() && ne < cs < t@.len(),
            None => first_cfg_match(t@, i as int) is None,
        },
    decreases t@.len() - i,
{
    let n = t.len();
    if i >= n {
        return None;
    }
    // Try the structure at `i`.
    let sr = space_run_exec(t, i);
    assert(i + sr <= n);
    let e = i + sr;
    let matched: Option<usize> = if e < n && t[e] == '=' {
        let sr2 = space_run_exec(t, e + 1);
        assert(e + 1 + sr2 <= n);
        let qp = e + 1 + sr2;
        if qp < n && n - qp > 1 {
            let cq = t[qp];
            let lq = t[n - 1];
            if (cq == '\'' || cq == '"') && (lq == '\'' || lq == '"') {
                Some(qp + 1)
            } else {
                None
            }
        } else {
            None
        }
    } else {
        None
    };
    match matched {
        Some(cs) => {
            assert(cfg_match_at(t@, i as int) == Some(cs as int));
            Some((i, cs))
        },
        None => {
            assert(cfg_match_at(t@, i as int) is None);
            first_cfg_match_exec(t, i + 1)
        },
    }
}

impl Req {
    /// Parses requirement text: in metadata style (`pypi_fmt`), eg
    /// `saturn (>=0.3.4)` optionally followed by `; markers`; otherwise in
    /// manifest style, eg `saturn = ">=0.3.4"`. A bare name is valid in
    /// both and yields no constraints.
    #[verifier::rlimit(100)]
    pub fn from_str(s: &str, pypi_fmt: bool) -> (r: Result<Req, DependencyError>)
        ensures
            r is Ok <==> spec_parse_req(s@, pypi_fmt) is Some,
            r matches Ok(req) ==> spec_parse_req(s@, pypi_fmt) == Some(req_view(req))
                && req.install_with_extras is None,
    {
        let t = crate::text::str_to_chars(s);
        let n = t.len();
        if pypi_fmt {
            // Metadata style with a parenthesized constraint list.
            let nl = name_run_exec(&t, 0);
            let mut main_parts: Option<(usize, usize, Option<usize>)> = None;
            if nl > 0 {
                let ws = space_run_exec(&t, nl);
                assert(nl + ws <= n);
                let p = nl + ws;
                if ws > 0 && p < n && t[p] == '(' {
                    match find_rparen_exec(&t, p + 1) {
                        Some(q) => {
                            if q + 1 == n {
                                main_parts = Some((p + 1, q, None));
                            } else {
                                let w2 = space_run_exec(&t, q + 1);
                                assert(q + 1 + w2 <= n);
                                let semi = q + 1 + w2;
                                if semi < n && t[semi] == ';' {
                                    let w3 = space_run_exec(&t, semi + 1);
                                    assert(semi + 1 + w3 <= n);
                                    main_parts = Some((p + 1, q, Some(semi + 1 + w3)));
                                }
                            }
                        },
                        None => {},
                    }
                }
            }
            match main_parts {
                Some((cstart, cend, mstart)) => {
                    assert(spec_req_pypi_main(t@) matches Some(parts) && parts.0 == t@.subrange(
                        0,
                        nl as int,
                    ) && parts.1 == t@.subrange(cstart as int, cend as int) && parts.2 == (
                    match mstart {
                        Some(ms) => Some(t@.subrange(ms as int, t@.len() as int)),
                        None => None,
                    }));
                    let ctext_chars = crate::text::sub_chars(&t, cstart, cend);
                    let ctext = crate::text::chars_to_string(&ctext_chars);
                    let constraints = match Constraint::from_str_multiple(ctext.as_str()) {
                        Ok(cs) => cs,
                        Err(e) => {
                            return Err(e);
                        },
                    };
                    let mtext: Option<String> = match mstart {
                        Some(ms) => {
                            let mchars = crate::text::sub_chars(&t, ms, n);
                            Some(crate::text::chars_to_string(&mchars))
                        },
                        None => None,
                    };
                    let markers = match &mtext {
                        Some(mt) => parse_extras(Some(mt.as_str())),
                        None => parse_extras(None),
                    };
                    match markers {
                        Ok((extra, sys_platform, python_version)) => {
                            let name_chars = crate::text::sub_chars(&t, 0, nl);
                            let name = crate::text::chars_to_string(&name_chars);
                            Ok(
                                Req {
                                    name,
                                    constraints,
                                    extra,
                                    sys_platform,
                                    python_version,
                                    install_with_extras: None,
                                },
                            )
                        },
                        Err(e) => Err(e),
                    }
                },
                None => {
                    assert(spec_req_pypi_main(t@) is None);
                    // No-version fallback.
                    let mut novers_parts: Option<Option<usize>> = None;
                    if nl > 0 {
                        if nl == n {
                            novers_parts = Some(None);
                        } else {
                            let w = space_run_exec(&t, nl);
                            assert(nl + w <= n);
                            let semi = nl + w;
                            if semi < n && t[semi] == ';' {
                                let w2 = space_run_exec(&t, semi + 1);
                                assert(semi + 1 + w2 <= n);
                                novers_parts = Some(Some(semi + 1 + w2));
                            }
                        }
                    }
                    match novers_parts {
                        Some(mstart) => {
                            assert(spec_req_pypi_novers(t@) matches Some(parts) && parts.0
                                == t@.subrange(0, nl as int) && parts.1 == (match mstart {
                                Some(ms) => Some(t@.subrange(ms as int, t@.len() as int)),
                                None => None,
                            }));
                            let mtext: Option<String> = match mstart {
                                Some(ms) => {
                                    let mchars = crate::text::sub_chars(&t, ms, n);
                                    Some(crate::text::chars_to_string(&mchars))
                                },
                                None => None,
                            };
                            let markers = match &mtext {
                                Some(mt) => parse_extras(Some(mt.as_str())),
                                None => parse_extras(None),
                            };
                            match markers {
                                Ok((extra, sys_platform, python_version)) => {
                                    let name_chars = crate::text::sub_chars(&t, 0, nl);
                                    let name = crate::text::chars_to_string(&name_chars);
                                    proof {
                                        if nl == n {
                                            assert(t@.subrange(0, nl as int) =~= t@);
                                        }
                                    }
                                    Ok(
                                        Req {
                                            name,
                                            constraints: Vec::new(),
                                            extra,
                                            sys_platform,
                                            python_version,
                                            install_with_extras: None,
                                        },
                                    )
                                },
                                Err(e) => Err(e),
                            }
                        },
                        None => {
                            assert(spec_req_pypi_novers(t@) is None);
                            Err(req_parse_error(s))
                        },
                    }
                },
            }
        } else {
            // Manifest style.
            match first_cfg_match_exec(&t, 0) {
                Some((ne, cs)) => {
                    let ctext_chars = crate::text::sub_chars(&t, cs, n - 1);
                    let ctext = crate::text::chars_to_string(&ctext_chars);
                    match Constraint::from_str_multiple(ctext.as_str()) {
                        Ok(constraints) => {
                            let name_chars = crate::text::sub_chars(&t, 0, ne);
                            let name = crate::text::chars_to_string(&name_chars);
                            Ok(Req::new(name, constraints))
                        },
                        Err(e) => Err(e),
                    }
                },
                None => {
                    let nl = name_run_exec(&t, 0);
                    if n > 0 && nl == n {
                        let name = crate::text::chars_to_string(&t);
                        Ok(Req::new(name, Vec::new()))
                    } else {
                        Err(req_parse_error(s))
                    }
                },
            }
        }
    }

    /// Parses a plain pin, eg from a flat requirements list: a bare name,
    /// or a name directly followed by an operator and a version.
    pub fn from_pip_str(s: &str) -> (r: Option<Req>)
        ensures
            ({
                let t = s@;
                let bare = t.len() > 0 && pip_name_run(t, 0) == t.len();
                if bare {
                    r matches Some(req) && req_view(req) == req_of(
                        t,
                        Seq::<Constraint>::empty(),
                        empty_markers(),
                    ) && req.install_with_extras is None
                } else {
                    match first_op_start(t, 0) {
                        Some(j) => match crate::constraint::spec_parse_constraint(
                            t.subrange(j, t.len() as int),
                        ) {
                            Some(c) => r matches Some(req) && req_view(req) == req_of(
                                t.subrange(0, j),
                                seq![c],
                                empty_markers(),
                            ) && req.install_with_extras is None,
                            None => r is None,
                        },
                        None => r is None,
                    }
                }
            }),
    {
        let t = crate::text::str_to_chars(s);
        let n = t.len();
        let nl = pip_name_run_exec(&t, 0);
        if n > 0 && nl == n {
            let name = crate::text::chars_to_string(&t);
            return Some(Req::new(name, Vec::new()));
        }
        match first_op_start_exec(&t, 0) {
            Some(j) => {
                let ctext_chars = crate::text::sub_chars(&t, j, n);
                let ctext = crate::text::chars_to_string(&ctext_chars);
                match Constraint::from_str(ctext.as_str()) {
                    Ok(c) => {
                        let name_chars = crate::text::sub_chars(&t, 0, j);
                        let name = crate::text::chars_to_string(&name_chars);
                        let mut cs: Vec<Constraint> = Vec::new();
                        cs.push(c);
                        proof {
                            assert(cs@ =~= seq![c]);
                        }
                        Some(Req::new(name, cs))
                    },
                    Err(_) => None,
                }
            },
            None => None,
        }
    }
}

/// Whether an operator token begins at `i`: the split point between a pin's
/// name and its constraint.
pub open spec fn op_start_at(s: Seq<char>, i: int) -> bool {
    s[i] == '^' || s[i] == '~' || s[i] == '<' || s[i] == '>' || (s[i] == '=' && i + 1 < s.len()
        && s[i + 1] == '=') || (s[i] == '!' && i + 1 < s.len() && s[i + 1] == '=')
}

/// The first operator position at or after `i`.
pub open spec fn first_op_start(s: Seq<char>, i: int) -> Option<int>
    decreases s.len() - i,
{
    if i < 0 || i >= s.len() {
        None
    } else if op_start_at(s, i) {
        Some(i)
    } else {
        first_op_start(s, i + 1)
    }
}

fn first_op_start_exec(t: &Vec<char>, i: usize) -> (r: Option<usize>)
    requires
        i <= t@.len(),
    ensures
        match r {
            Some(j) => first_op_start(t@, i as int) == Some(j as int) && i <= j < t@.len(),
            None => first_op_start(t@, i as int) is None,
        },
    decreases t@.len() - i,
{
    let n = t.len();
    if i >= n {
        return None;
    }
    let c = t[i];
    let two = i + 1 < n && t[i + 1] == '=';
    if c == '^' || c == '~' || c == '<' || c == '>' || (c == '=' && two) || (c == '!' && two) {
        Some(i)
    } else {
        first_op_start_exec(t, i + 1)
    }
}

/// The parse error for requirement text no dialect accepts.
fn req_parse_error(s: &str) -> (e: DependencyError)
{
    let mut msg = String::from_str("Problem parsing version requirement: ");
    msg.append(s);
    DependencyError { details: msg }
}

/// The constraints of a requirement joined with `", "`, each rendered with
/// its `==` omitted.
pub open spec fn join_constraints(cs: Seq<Constraint>) -> Seq<char>
    decreases cs.len(),
{
    if cs.len() == 0 {
        Seq::<char>::empty()
    } else if cs.len() == 1 {
        spec_constraint_str(cs[0], true, false)
    } else {
        join_constraints(cs.drop_last()) + seq![',', ' '] + spec_constraint_str(
            cs.last(),
            true,
            false,
        )
    }
}

/// The manifest rendering of a requirement: `name = "constraints"`.
pub open spec fn spec_cfg_string(name: Seq<char>, cs: Seq<Constraint>) -> Seq<char> {
    name + seq![' ', '=', ' ', '"'] + join_constraints(cs) + seq!['"']
}

impl Req {
    /// Renders this requirement in manifest style, eg `saturn = "^0.3.1"`.
    /// With no constraints at all the manifest line must instead pin the
    /// package index's latest version: see `to_cfg_string_latest`, which
    /// takes that looked-up name and version as arguments.
    pub fn to_cfg_string(&self) -> (s: String)
        requires
            self.constraints@.len() > 0,
            constraints_wf(self.constraints@),
        ensures
            s@ == spec_cfg_string(self.name@, self.constraints@),
    {
        let mut out = self.name.clone();
        push_char(&mut out, ' ');
        push_char(&mut out, '=');
        push_char(&mut out, ' ');
        push_char(&mut out, '"');
        let n = self.constraints.len();
        let mut i: usize = 0;
        while i < n
            invariant
                0 <= i <= n,
                n == self.constraints@.len(),
                constraints_wf(self.constraints@),
                out@ == self.name@ + seq![' ', '=', ' ', '"'] + join_constraints(
                    self.constraints@.subrange(0, i as int),
                ),
            decreases n - i,
        {
            if i > 0 {
                push_char(&mut out, ',');
                push_char(&mut out, ' ');
            }
            let cs = self.constraints[i].to_string(true, false);
            out.append(cs.as_str());
            proof {
                let pre = self.constraints@.subrange(0, i as int);
                let cur = self.constraints@.subrange(0, i + 1);
                assert(cur.drop_last() =~= pre);
                assert(cur.last() == self.constraints@[i as int]);
                if i == 0 {
                    assert(cur.len() == 1);
                    assert(cur[0] == self.constraints@[0]);
                }
                assert(out@ =~= self.name@ + seq![' ', '=', ' ', '"'] + join_constraints(cur));
            }
            i += 1;
        }
        push_char(&mut out, '"');
        proof {
            assert(self.constraints@.subrange(0, n as int) =~= self.constraints@);
            assert(out@ =~= spec_cfg_string(self.name@, self.constraints@));
        }
        out
    }

    /// The manifest rendering of a requirement with no constraints: the
    /// caller consults the package index for the package's canonical name
    /// and latest version, and the line pins a caret requirement on it.
    pub fn to_cfg_string_latest(&self, name: &str, latest: Version) -> (s: String)
        requires
            version_wf(latest),
        ensures
            s@ == spec_cfg_string(
                name@,
                seq![Constraint { type_: ReqType::Caret, version: latest }],
            ),
    {
        let mut out = name.to_owned();
        push_char(&mut out, ' ');
        push_char(&mut out, '=');
        push_char(&mut out, ' ');
        push_char(&mut out, '"');
        let c = Constraint::new(ReqType::Caret, latest);
        let cs = c.to_string(true, false);
        out.append(cs.as_str());
        push_char(&mut out, '"');
        proof {
            let cseq = seq![Constraint { type_: ReqType::Caret, version: latest }];
            assert(join_constraints(cseq) == spec_constraint_str(cseq[0], true, false));
            assert(out@ =~= spec_cfg_string(name@, cseq));
        }
        out
    }
}

} // verus!
