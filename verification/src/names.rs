//! Package-name normalization (index naming is inconsistent in case and in
//! `-` versus `_`) and the merge of requirements added on the command line
//! into the requirements a manifest already holds.

use crate::req::{req_eq, req_view, Req, ReqView};
use vstd::prelude::*;
use vstd::string::StringExecFns;

verus! {

/// What lowercasing yields; the result depends on the characters alone.
pub uninterp spec fn lower_of(s: Seq<char>) -> Seq<char>;

/// Relies on `str::to_lowercase`: Unicode lowercasing, a pure function of
/// the characters.
#[verifier::external_body]
fn lowercase(s: &str) -> (r: String)
    ensures
        r@ == lower_of(s@),
{
    s.to_lowercase()
}

/// Every dash replaced by an underscore.
pub open spec fn dashes_to_underscores(s: Seq<char>) -> Seq<char> {
    Seq::new(
        s.len(),
        |i: int|
            if s[i] == '-' {
                '_'
            } else {
                s[i]
            },
    )
}

/// The canonical form of a package name: lowercased, dashes to
/// underscores.
pub open spec fn std_name(s: Seq<char>) -> Seq<char> {
    dashes_to_underscores(lower_of(s))
}

/// Canonicalizes a package name.
pub fn standardize_name(name: &str) -> (r: String)
    ensures
        r@ == std_name(name@),
{
    let low = lowercase(name);
    let t = crate::text::str_to_chars(low.as_str());
    let n = t.len();
    let mut out: Vec<char> = Vec::new();
    let mut i: usize = 0;
    while i < n
        invariant
            0 <= i <= n,
            n == t@.len(),
            t@ == lower_of(name@),
            out@.len() == i,
            forall|k: int| 0 <= k < i ==> out@[k] == dashes_to_underscores(t@)[k],
        decreases n - i,
    {
        let c = t[i];
        if c == '-' {
            out.push('_');
        } else {
            out.push(c);
        }
        i += 1;
    }
    proof {
        assert(out@ =~= std_name(name@));
    }
    crate::text::chars_to_string(&out)
}

/// Whether two names denote the same package, canonical forms compared.
pub fn compare_names(name1: &str, name2: &str) -> (r: bool)
    ensures
        r == (std_name(name1@) == std_name(name2@)),
{
    let a = standardize_name(name1);
    let b = standardize_name(name2);
    a == b
}

/// The views of a requirement list.
pub open spec fn views_of(s: Seq<Req>) -> Seq<ReqView> {
    s.map_values(|q: Req| req_view(q))
}

/// An added requirement is dropped when the manifest already holds it
/// exactly, or holds the same package (names compared lowercased) and the
/// addition names no version at all.
pub open spec fn already_present(ar: Req, cfg: Seq<Req>) -> bool {
    exists|i: int|
        0 <= i < cfg.len() && (req_eq(#[trigger] cfg[i], ar) || (lower_of(cfg[i].name@) == lower_of(
            ar.name@,
        ) && ar.constraints@.len() == 0))
}

/// The additions that survive the filter, in order.
pub open spec fn unique_view(added: Seq<Req>, cfg: Seq<Req>) -> Seq<ReqView>
    decreases added.len(),
{
    if added.len() == 0 {
        Seq::<ReqView>::empty()
    } else {
        unique_view(added.drop_last(), cfg) + (if already_present(added.last(), cfg) {
            Seq::<ReqView>::empty()
        } else {
            seq![req_view(added.last())]
        })
    }
}

fn is_already_present(ar: &Req, cfg_reqs: &[Req]) -> (r: bool)
    ensures
        r == already_present(*ar, cfg_reqs@),
{
    let n = cfg_reqs.len();
    let mut j: usize = 0;
    while j < n
        invariant
            0 <= j <= n,
            n == cfg_reqs@.len(),
            forall|k: int|
                0 <= k < j ==> !(req_eq(#[trigger] cfg_reqs@[k], *ar) || (lower_of(
                    cfg_reqs@[k].name@,
                ) == lower_of(ar.name@) && ar.constraints@.len() == 0)),
        decreases n - j,
    {
        let cr = &cfg_reqs[j];
        let same = *cr == *ar;
        let low_cr = lowercase(cr.name.as_str());
        let low_ar = lowercase(ar.name.as_str());
        let name_same = low_cr == low_ar;
        if same || (name_same && ar.constraints.len() == 0) {
            return true;
        }
        j += 1;
    }
    false
}

/// Keeps only the added requirements the manifest does not already hold.
pub fn unique_reqs(added: &[Req], cfg_reqs: &[Req]) -> (r: Vec<Req>)
    ensures
        views_of(r@) == unique_view(added@, cfg_reqs@),
{
    let n = added.len();
    let mut out: Vec<Req> = Vec::new();
    let mut i: usize = 0;
    while i < n
        invariant
            0 <= i <= n,
            n == added@.len(),
            views_of(out@) == unique_view(added@.subrange(0, i as int), cfg_reqs@),
        decreases n - i,
    {
        let ghost pre = added@.subrange(0, i as int);
        let ghost cur = added@.subrange(0, i + 1);
        proof {
            assert(cur.drop_last() =~= pre);
            assert(cur.last() == added@[i as int]);
        }
        if !is_already_present(&added[i], cfg_reqs) {
            let cloned = added[i].clone();
            out.push(cloned);
            proof {
                assert(req_view(cloned) == req_view(added@[i as int]));
                assert(views_of(out@) =~= unique_view(cur, cfg_reqs@));
            }
        } else {
            proof {
                assert(views_of(out@) =~= unique_view(cur, cfg_reqs@));
            }
        }
        i += 1;
    }
    proof {
        assert(added@.subrange(0, n as int) =~= added@);
    }
    out
}

/// The first added requirement that replaces a manifest requirement: same
/// package name in canonical form, different constraints.
pub open spec fn first_replacement(cr: Req, added: Seq<Req>, j: int) -> Option<int>
    decreases added.len() - j,
{
    if j < 0 || j >= added.len() {
        None
    } else if std_name(added[j].name@) == std_name(cr.name@) && added[j].constraints@
        != cr.constraints@ {
        Some(j)
    } else {
        first_replacement(cr, added, j + 1)
    }
}

fn find_replacement(cr: &Req, added: &[Req], j: usize) -> (r: Option<usize>)
    requires
        j <= added@.len(),
    ensures
        match r {
            Some(k) => first_replacement(*cr, added@, j as int) == Some(k as int) && j <= k
                < added@.len(),
            None => first_replacement(*cr, added@, j as int) is None,
        },
    decreases added@.len() - j,
{
    if j >= added.len() {
        return None;
    }
    let names_match = compare_names(added[j].name.as_str(), cr.name.as_str());
    let same_constraints = constraints_eq_slices(&added[j].constraints, &cr.constraints);
    if names_match && !same_constraints {
        Some(j)
    } else {
        find_replacement(cr, added, j + 1)
    }
}

fn constraints_eq_slices(
    a: &Vec<crate::constraint::Constraint>,
    b: &Vec<crate::constraint::Constraint>,
) -> (r: bool)
    ensures
        r == (a@ == b@),
{
    if a.len() != b.len() {
        proof {
            assert(a@ != b@);
        }
        return false;
    }
    let n = a.len();
    let mut i: usize = 0;
    while i < n
        invariant
            0 <= i <= n,
            n == a@.len(),
            n == b@.len(),
            forall|k: int| 0 <= k < i ==> a@[k] == b@[k],
        decreases n - i,
    {
        if !(a[i] == b[i]) {
            return false;
        }
        i += 1;
    }
    proof {
        assert(a@ =~= b@);
    }
    true
}

/// What the merge produces: each manifest requirement, replaced by the
/// first added requirement for the same package with different
/// constraints, followed by every surviving addition.
pub open spec fn merged_view(cfg: Seq<Req>, added: Seq<Req>) -> Seq<ReqView> {
    Seq::new(
        cfg.len(),
        |i: int|
            match first_replacement(cfg[i], added, 0) {
                Some(j) => req_view(added[j]),
                None => req_view(cfg[i]),
            },
    ) + views_of(added)
}

/// Merges requirements added on the command line into those of the
/// manifest. `added` must already be filtered by `unique_reqs` and have
/// had empty constraint lists filled (a caret on the latest version, which
/// the package index supplies). A version conflict is resolved in favor of
/// the addition; the surviving additions follow.
pub fn merge_reqs(added: &[Req], cfg_reqs: &[Req]) -> (r: Vec<Req>)
    ensures
        views_of(r@) == merged_view(cfg_reqs@, added@),
{
    let n = cfg_reqs.len();
    let mut out: Vec<Req> = Vec::new();
    let mut i: usize = 0;
    while i < n
        invariant
            0 <= i <= n,
            n == cfg_reqs@.len(),
            out@.len() == i,
            forall|k: int|
                0 <= k < i ==> views_of(out@)[k] == (match first_replacement(
                    cfg_reqs@[k],
                    added@,
                    0,
                ) {
                    Some(j) => req_view(added@[j]),
                    None => req_view(#[trigger] cfg_reqs@[k]),
                }),
        decreases n - i,
    {
        match find_replacement(&cfg_reqs[i], added, 0) {
            Some(j) => {
                out.push(added[j].clone());
            },
            None => {
                out.push(cfg_reqs[i].clone());
            },
        }
        i += 1;
    }
    let m = added.len();
    let mut k: usize = 0;
    while k < m
        invariant
            0 <= k <= m,
            m == added@.len(),
            n == cfg_reqs@.len(),
            out@.len() == n + k,
            forall|p: int|
                0 <= p < n ==> views_of(out@)[p] == (match first_replacement(
                    cfg_reqs@[p],
                    added@,
                    0,
                ) {
                    Some(j) => req_view(added@[j]),
                    None => req_view(#[trigger] cfg_reqs@[p]),
                }),
            forall|p: int| 0 <= p < k ==> views_of(out@)[n + p] == req_view(#[trigger] added@[p]),
        decreases m - k,
    {
        out.push(added[k].clone());
        k += 1;
    }
    proof {
        assert(views_of(out@) =~= merged_view(cfg_reqs@, added@));
    }
    out
}

} // verus!
