//! The range algebra: intersecting many constraints (AND semantics) into a
//! minimal set of inclusive version ranges (OR semantics across the set).

use crate::constraint::{
    in_ranges, spec_compatible_range, within_sentinel, v3, Constraint, ReqType,
};
use crate::version::{spec_le, spec_lt, Version};
use vstd::prelude::*;

verus! {

/// The larger of two versions; ties keep the second, as the standard
/// ordering utilities do.
pub open spec fn spec_maxv(a: Version, b: Version) -> Version {
    if spec_lt(b, a) {
        a
    } else {
        b
    }
}

/// The smaller of two versions; ties keep the second.
pub open spec fn spec_minv(a: Version, b: Version) -> Version {
    if spec_lt(b, a) {
        b
    } else {
        a
    }
}

fn version_max(a: Version, b: Version) -> (r: Version)
    ensures
        r == spec_maxv(a, b),
{
    if b < a {
        a
    } else {
        b
    }
}

fn version_min(a: Version, b: Version) -> (r: Version)
    ensures
        r == spec_minv(a, b),
{
    if b < a {
        b
    } else {
        a
    }
}

/// Two inclusive ranges overlap exactly when each starts no later than the
/// other ends.
pub open spec fn ranges_overlap(r1: (Version, Version), r2: (Version, Version)) -> bool {
    spec_le(r1.0, r2.1) && spec_le(r2.0, r1.1)
}

/// The overlap of two overlapping ranges.
pub open spec fn inter_pair(r1: (Version, Version), r2: (Version, Version)) -> (Version, Version) {
    (spec_maxv(r2.0, r1.0), spec_minv(r1.1, r2.1))
}

/// The overlaps of `r1` with each range of `rs2` from index `j` on.
pub open spec fn inter_row_from(
    r1: (Version, Version),
    rs2: Seq<(Version, Version)>,
    j: int,
) -> Seq<(Version, Version)>
    decreases rs2.len() - j,
{
    if j < 0 || j >= rs2.len() {
        Seq::<(Version, Version)>::empty()
    } else {
        (if ranges_overlap(r1, rs2[j]) {
            seq![inter_pair(r1, rs2[j])]
        } else {
            Seq::<(Version, Version)>::empty()
        }) + inter_row_from(r1, rs2, j + 1)
    }
}

/// The pairwise overlaps of the ranges of `rs1` from index `i` on with
/// every range of `rs2`, in cross-product order.
pub open spec fn inter_from(
    rs1: Seq<(Version, Version)>,
    rs2: Seq<(Version, Version)>,
    i: int,
) -> Seq<(Version, Version)>
    decreases rs1.len() - i,
{
    if i < 0 || i >= rs1.len() {
        Seq::<(Version, Version)>::empty()
    } else {
        inter_row_from(rs1[i], rs2, 0) + inter_from(rs1, rs2, i + 1)
    }
}

/// The intersection of two sets of ranges: every overlapping pair's
/// overlap. Zero results mean no version satisfies both sides.
pub open spec fn spec_intersection(
    rs1: Seq<(Version, Version)>,
    rs2: Seq<(Version, Version)>,
) -> Seq<(Version, Version)> {
    inter_from(rs1, rs2, 0)
}

/// Find the intersection of two sets of version ranges, with AND logic:
/// each returned `(min, max)` pair is the overlap of one range from each
/// side.
pub fn intersection(
    ranges1: &[(Version, Version)],
    ranges2: &[(Version, Version)],
) -> (r: Vec<(Version, Version)>)
    ensures
        r@ == spec_intersection(ranges1@, ranges2@),
{
    let mut result: Vec<(Version, Version)> = Vec::new();
    let n1 = ranges1.len();
    let n2 = ranges2.len();
    let mut i: usize = 0;
    while i < n1
        invariant
            0 <= i <= n1,
            n1 == ranges1@.len(),
            n2 == ranges2@.len(),
            result@ + inter_from(ranges1@, ranges2@, i as int) == spec_intersection(
                ranges1@,
                ranges2@,
            ),
        decreases n1 - i,
    {
        let rng1 = ranges1[i];
        let ghost result_row_start = result@;
        let mut j: usize = 0;
        while j < n2
            invariant
                0 <= j <= n2,
                n2 == ranges2@.len(),
                rng1 == ranges1@[i as int],
                result@ + inter_row_from(rng1, ranges2@, j as int) == result_row_start
                    + inter_row_from(rng1, ranges2@, 0),
            decreases n2 - j,
        {
            let rng2 = ranges2[j];
            let ghost before = result@;
            if rng2.1 >= rng1.0 && rng1.1 >= rng2.0 {
                result.push((version_max(rng2.0, rng1.0), version_min(rng1.1, rng2.1)));
                proof {
                    assert(before + inter_row_from(rng1, ranges2@, j as int) =~= result@
                        + inter_row_from(rng1, ranges2@, j + 1));
                }
            } else {
                proof {
                    assert(before + inter_row_from(rng1, ranges2@, j as int) =~= result@
                        + inter_row_from(rng1, ranges2@, j + 1));
                }
            }
            j += 1;
        }
        proof {
            assert(inter_row_from(rng1, ranges2@, n2 as int) =~= Seq::<(Version, Version)>::empty());
            assert(result@ =~= result_row_start + inter_row_from(rng1, ranges2@, 0));
            assert(result@ + inter_from(ranges1@, ranges2@, i + 1) =~= result_row_start + (
            inter_row_from(rng1, ranges2@, 0) + inter_from(ranges1@, ranges2@, i + 1)));
            assert(inter_row_from(rng1, ranges2@, 0) + inter_from(ranges1@, ranges2@, i + 1)
                =~= inter_from(ranges1@, ranges2@, i as int));
        }
        i += 1;
    }
    result
}

/// Membership distributes over concatenation of range sets.
proof fn lemma_in_ranges_concat(a: Seq<(Version, Version)>, b: Seq<(Version, Version)>, v: Version)
    ensures
        in_ranges(a + b, v) <==> in_ranges(a, v) || in_ranges(b, v),
{
    if in_ranges(a, v) {
        let i = choose|i: int| 0 <= i < a.len() && spec_le(#[trigger] a[i].0, v) && spec_le(v, a[i].1);
        assert((a + b)[i] == a[i]);
        assert(in_ranges(a + b, v));
    }
    if in_ranges(b, v) {
        let i = choose|i: int| 0 <= i < b.len() && spec_le(#[trigger] b[i].0, v) && spec_le(v, b[i].1);
        assert((a + b)[a.len() + i] == b[i]);
        assert(in_ranges(a + b, v));
    }
    if in_ranges(a + b, v) {
        let i = choose|i: int|
            0 <= i < (a + b).len() && spec_le(#[trigger] (a + b)[i].0, v) && spec_le(v, (a + b)[i].1);
        if i < a.len() {
            assert((a + b)[i] == a[i]);
            assert(in_ranges(a, v));
        } else {
            assert((a + b)[i] == b[i - a.len()]);
            assert(in_ranges(b, v));
        }
    }
}

/// A version lies in the overlaps of `r1` with `rs2[j..]` exactly when it
/// lies in `r1` and in some range of `rs2[j..]`.
proof fn lemma_row_semantics(
    r1: (Version, Version),
    rs2: Seq<(Version, Version)>,
    j: int,
    v: Version,
)
    requires
        0 <= j <= rs2.len(),
    ensures
        in_ranges(inter_row_from(r1, rs2, j), v) <==> (spec_le(r1.0, v) && spec_le(v, r1.1)
            && exists|k: int|
            j <= k < rs2.len() && spec_le(#[trigger] rs2[k].0, v) && spec_le(v, rs2[k].1)),
    decreases rs2.len() - j,
{
    if j == rs2.len() {
    } else {
        lemma_row_semantics(r1, rs2, j + 1, v);
        let head: Seq<(Version, Version)> = if ranges_overlap(r1, rs2[j]) {
            seq![inter_pair(r1, rs2[j])]
        } else {
            Seq::<(Version, Version)>::empty()
        };
        lemma_in_ranges_concat(head, inter_row_from(r1, rs2, j + 1), v);
        // The overlap pair bounds `v` exactly when both source ranges do.
        if ranges_overlap(r1, rs2[j]) {
            let p = inter_pair(r1, rs2[j]);
            assert(in_ranges(head, v) <==> spec_le(p.0, v) && spec_le(v, p.1)) by {
                if spec_le(p.0, v) && spec_le(v, p.1) {
                    assert(head[0] == p);
                }
            }
        }
    }
}

/// The intersection contains a version exactly when both sides do: AND
/// semantics over the admissible sets.
pub proof fn lemma_intersection_semantics(
    rs1: Seq<(Version, Version)>,
    rs2: Seq<(Version, Version)>,
    v: Version,
)
    ensures
        in_ranges(spec_intersection(rs1, rs2), v) <==> in_ranges(rs1, v) && in_ranges(rs2, v),
{
    lemma_inter_from_semantics(rs1, rs2, 0, v);
}

proof fn lemma_inter_from_semantics(
    rs1: Seq<(Version, Version)>,
    rs2: Seq<(Version, Version)>,
    i: int,
    v: Version,
)
    requires
        0 <= i <= rs1.len(),
    ensures
        in_ranges(inter_from(rs1, rs2, i), v) <==> (exists|k: int|
            i <= k < rs1.len() && spec_le(#[trigger] rs1[k].0, v) && spec_le(v, rs1[k].1))
            && in_ranges(rs2, v),
    decreases rs1.len() - i,
{
    if i == rs1.len() {
    } else {
        lemma_inter_from_semantics(rs1, rs2, i + 1, v);
        lemma_row_semantics(rs1[i], rs2, 0, v);
        lemma_in_ranges_concat(inter_row_from(rs1[i], rs2, 0), inter_from(rs1, rs2, i + 1), v);
    }
}

/// The whole admissible span, from the all-zero version to the sentinel.
pub open spec fn full_range() -> (Version, Version) {
    (v3(0, 0, 0), v3(crate::MAX_VER, 0, 0))
}

/// The single range a constraint contributes to the fold: a not-equal
/// constraint passes through as the whole span (its excluded point is
/// applied only by its own `compatible_range`, not by the fold), every
/// other constraint contributes its one compatible range.
pub open spec fn fold_range(c: Constraint) -> (Version, Version) {
    if c.type_ == ReqType::Ne {
        full_range()
    } else {
        spec_compatible_range(c)[0]
    }
}

pub open spec fn fold_ranges(cs: Seq<Constraint>) -> Seq<(Version, Version)> {
    Seq::new(cs.len(), |i: int| fold_range(cs[i]))
}

/// Left fold of pairwise intersection over the ranges from index `i` on.
pub open spec fn fold_inter(
    acc: Seq<(Version, Version)>,
    rs: Seq<(Version, Version)>,
    i: int,
) -> Seq<(Version, Version)>
    decreases rs.len() - i,
{
    if i < 0 || i >= rs.len() {
        acc
    } else {
        fold_inter(spec_intersection(seq![rs[i]], acc), rs, i + 1)
    }
}

/// What `intersection_many` computes: each constraint's fold range,
/// intersected left to right into the whole span.
pub open spec fn spec_intersection_many(cs: Seq<Constraint>) -> Seq<(Version, Version)> {
    fold_inter(seq![full_range()], fold_ranges(cs), 0)
}

/// AND logic between constraints: intersects every constraint's range into
/// one set of admissible ranges. A not-equal constraint is folded as the
/// whole span; its excluded point is applied only when it stands alone,
/// through its own `compatible_range`.
pub fn intersection_many(constrs: &[Constraint]) -> (r: Vec<(Version, Version)>)
    requires
        forall|i: int|
            0 <= i < constrs@.len() ==> {
                let c = #[trigger] constrs@[i];
                &&& (c.type_ == ReqType::Gt ==> c.version.patch < u32::MAX)
                &&& ((c.type_ == ReqType::Caret || c.type_ == ReqType::Tilde)
                    ==> within_sentinel(c.version))
            },
    ensures
        r@ == spec_intersection_many(constrs@),
{
    let n = constrs.len();
    let mut ranges: Vec<(Version, Version)> = Vec::new();
    let mut i: usize = 0;
    while i < n
        invariant
            0 <= i <= n,
            n == constrs@.len(),
            forall|k: int|
                0 <= k < constrs@.len() ==> {
                    let c = #[trigger] constrs@[k];
                    &&& (c.type_ == ReqType::Gt ==> c.version.patch < u32::MAX)
                    &&& ((c.type_ == ReqType::Caret || c.type_ == ReqType::Tilde)
                        ==> within_sentinel(c.version))
                },
            ranges@.len() == i,
            forall|k: int| 0 <= k < i ==> ranges@[k] == fold_range(#[trigger] constrs@[k]),
        decreases n - i,
    {
        let constr = &constrs[i];
        match constr.type_ {
            ReqType::Ne => {
                ranges.push((Version::new(0, 0, 0), Version::_max()));
            },
            _ => {
                let rng = constr.compatible_range();
                ranges.push(rng[0]);
            },
        }
        i += 1;
    }
    proof {
        assert(ranges@ =~= fold_ranges(constrs@));
    }
    intersection_many2(&ranges)
}

/// Folds an arbitrary number of range sets through pairwise intersection,
/// two at a time, starting from the whole span.
fn intersection_many2(reqs: &[(Version, Version)]) -> (r: Vec<(Version, Version)>)
    ensures
        r@ == fold_inter(seq![full_range()], reqs@, 0),
{
    let mut acc: Vec<(Version, Version)> = Vec::new();
    acc.push((Version::new(0, 0, 0), Version::new(crate::MAX_VER, 0, 0)));
    proof {
        assert(acc@ =~= seq![full_range()]);
    }
    let n = reqs.len();
    let mut i: usize = 0;
    while i < n
        invariant
            0 <= i <= n,
            n == reqs@.len(),
            fold_inter(acc@, reqs@, i as int) == fold_inter(seq![full_range()], reqs@, 0),
        decreases n - i,
    {
        let mut one: Vec<(Version, Version)> = Vec::new();
        one.push(reqs[i]);
        proof {
            assert(one@ =~= seq![reqs@[i as int]]);
        }
        acc = intersection(one.as_slice(), acc.as_slice());
        i += 1;
    }
    acc
}

/// A version lies in the fold's result exactly when it lies in the
/// accumulator and in every remaining range.
proof fn lemma_fold_semantics(
    acc: Seq<(Version, Version)>,
    rs: Seq<(Version, Version)>,
    i: int,
    v: Version,
)
    requires
        0 <= i <= rs.len(),
    ensures
        in_ranges(fold_inter(acc, rs, i), v) <==> (in_ranges(acc, v) && forall|j: int|
            i <= j < rs.len() ==> spec_le(#[trigger] rs[j].0, v) && spec_le(v, rs[j].1)),
    decreases rs.len() - i,
{
    if i == rs.len() {
    } else {
        lemma_fold_semantics(spec_intersection(seq![rs[i]], acc), rs, i + 1, v);
        lemma_intersection_semantics(seq![rs[i]], acc, v);
        assert(in_ranges(seq![rs[i]], v) <==> spec_le(rs[i].0, v) && spec_le(v, rs[i].1)) by {
            if spec_le(rs[i].0, v) && spec_le(v, rs[i].1) {
                assert(seq![rs[i]][0] == rs[i]);
            }
        }
    }
}

/// What the many-way intersection admits: every version inside the whole
/// span that every non-`Ne` constraint's range admits. The excluded points
/// of `Ne` constraints do not participate in the fold. (Pre-releases of the
/// all-zero version rank below the span's start and are never admitted.)
pub proof fn lemma_intersection_many_semantics(cs: Seq<Constraint>, v: Version)
    ensures
        in_ranges(spec_intersection_many(cs), v) <==> (spec_le(full_range().0, v) && spec_le(
            v,
            full_range().1,
        ) && forall|i: int|
            0 <= i < cs.len() ==> (cs[i].type_ == ReqType::Ne || {
                let r = spec_compatible_range(#[trigger] cs[i])[0];
                spec_le(r.0, v) && spec_le(v, r.1)
            })),
{
    let rs = fold_ranges(cs);
    lemma_fold_semantics(seq![full_range()], rs, 0, v);
    assert forall|i: int| 0 <= i < cs.len() implies (rs[i] == fold_range(cs[i])) by {}
    if in_ranges(spec_intersection_many(cs), v) {
        assert(in_ranges(seq![full_range()], v) && (forall|j: int|
            #![trigger rs[j]]
            0 <= j < rs.len() ==> spec_le(rs[j].0, v) && spec_le(v, rs[j].1)));
        let w = choose|w: int|
            0 <= w < 1 && spec_le(#[trigger] seq![full_range()][w].0, v) && spec_le(
                v,
                seq![full_range()][w].1,
            );
        assert(w == 0);
        assert(spec_le(full_range().0, v) && spec_le(v, full_range().1));
        assert forall|i: int|
            0 <= i < cs.len() && cs[i].type_ != ReqType::Ne implies {
            let r = spec_compatible_range(#[trigger] cs[i])[0];
            spec_le(r.0, v) && spec_le(v, r.1)
        } by {
            assert(rs.len() == cs.len());
            assert(rs[i] == fold_range(cs[i]));
            assert(spec_le(rs[i].0, v) && spec_le(v, rs[i].1));
        }
    }
    if spec_le(full_range().0, v) && spec_le(v, full_range().1) && (forall|i: int|
        0 <= i < cs.len() ==> (cs[i].type_ == ReqType::Ne || {
            let r = spec_compatible_range(#[trigger] cs[i])[0];
            spec_le(r.0, v) && spec_le(v, r.1)
        })) {
        assert(in_ranges(seq![full_range()], v)) by {
            assert(seq![full_range()][0] == full_range());
        }
        assert forall|j: int|
            0 <= j < rs.len() implies spec_le(#[trigger] rs[j].0, v) && spec_le(v, rs[j].1) by {
            if cs[j].type_ == ReqType::Ne {
                assert(rs[j] == full_range());
            } else {
                assert(rs[j] == spec_compatible_range(cs[j])[0]);
            }
        }
    }
}

/// The fold agrees with the boolean tests: for plain versions within the
/// sentinel bound, the many-way intersection admits exactly the versions
/// that every non-`Ne` constraint's `is_compatible` accepts. (The excluded
/// points of `Ne` constraints stay out of the fold; `< 0.0.0` clamps its
/// range and is left out, as in `lemma_is_compatible_matches_range`.)
pub proof fn lemma_intersection_many_is_compatible(cs: Seq<Constraint>, v: Version)
    requires
        crate::constraint::plain(v),
        within_sentinel(v),
        v.major < crate::MAX_VER,
        forall|i: int|
            0 <= i < cs.len() ==> crate::constraint::plain(#[trigger] cs[i].version)
                && within_sentinel(cs[i].version) && (cs[i].type_ == ReqType::Lt ==> cs[i].version
                != v3(0, 0, 0)),
    ensures
        in_ranges(spec_intersection_many(cs), v) <==> forall|i: int|
            0 <= i < cs.len() ==> (cs[i].type_ == ReqType::Ne
                || crate::constraint::spec_is_compatible(#[trigger] cs[i], v)),
{
    lemma_intersection_many_semantics(cs, v);
    assert(spec_le(full_range().0, v));
    assert(spec_le(v, full_range().1));
    assert forall|i: int| 0 <= i < cs.len() && cs[i].type_ != ReqType::Ne implies ({
        let r = spec_compatible_range(#[trigger] cs[i])[0];
        (spec_le(r.0, v) && spec_le(v, r.1)) == crate::constraint::spec_is_compatible(cs[i], v)
    }) by {
        crate::constraint::lemma_is_compatible_matches_range(cs[i], v);
        let rs = spec_compatible_range(cs[i]);
        assert(rs.len() == 1);
        let r = rs[0];
        if spec_le(r.0, v) && spec_le(v, r.1) {
            assert(in_ranges(rs, v));
        }
        if in_ranges(rs, v) {
            let w = choose|w: int|
                0 <= w < rs.len() && spec_le(#[trigger] rs[w].0, v) && spec_le(v, rs[w].1);
            assert(w == 0);
        }
    }
}

/// Intersection of constraints is commutative: swapping two constraints
/// admits exactly the same versions (AND is order-independent).
pub proof fn lemma_intersection_many_commutes(c1: Constraint, c2: Constraint, v: Version)
    ensures
        in_ranges(spec_intersection_many(seq![c1, c2]), v) <==> in_ranges(
            spec_intersection_many(seq![c2, c1]),
            v,
        ),
{
    lemma_intersection_many_semantics(seq![c1, c2], v);
    lemma_intersection_many_semantics(seq![c2, c1], v);
    assert(seq![c1, c2][0] == c1 && seq![c1, c2][1] == c2);
    assert(seq![c2, c1][0] == c2 && seq![c2, c1][1] == c1);
}

/// Two plain versions that bound each other are the same version.
proof fn lemma_plain_antisym(a: Version, b: Version)
    requires
        crate::constraint::plain(a),
        crate::constraint::plain(b),
        spec_le(a, b),
        spec_le(b, a),
    ensures
        a == b,
{
}

/// The endpoints a constraint contributes to the fold are plain versions.
proof fn lemma_fold_range_plain(c: Constraint)
    requires
        crate::constraint::plain(c.version),
    ensures
        crate::constraint::plain(fold_range(c).0),
        crate::constraint::plain(fold_range(c).1),
{
}

/// The intersection of two single ranges, written out.
proof fn lemma_inter_single(x: (Version, Version), y: (Version, Version))
    ensures
        spec_intersection(seq![x], seq![y]) == (if ranges_overlap(x, y) {
            seq![inter_pair(x, y)]
        } else {
            Seq::<(Version, Version)>::empty()
        }),
{
    assert(inter_row_from(x, seq![y], 1) =~= Seq::<(Version, Version)>::empty());
    if ranges_overlap(x, seq![y][0]) {
        assert(inter_row_from(x, seq![y], 0) =~= seq![inter_pair(x, y)]);
        assert(inter_from(seq![x], seq![y], 1) =~= Seq::<(Version, Version)>::empty());
        assert(inter_from(seq![x], seq![y], 0) =~= seq![inter_pair(x, y)] + Seq::<
            (Version, Version),
        >::empty());
        assert(spec_intersection(seq![x], seq![y]) =~= seq![inter_pair(x, y)]);
    } else {
        assert(inter_row_from(x, seq![y], 0) =~= Seq::<(Version, Version)>::empty());
        assert(inter_from(seq![x], seq![y], 1) =~= Seq::<(Version, Version)>::empty());
        assert(inter_from(seq![x], seq![y], 0) =~= Seq::<(Version, Version)>::empty());
    }
}

/// The intersection of a single range with the empty set is empty.
proof fn lemma_inter_single_empty(x: (Version, Version))
    ensures
        spec_intersection(seq![x], Seq::<(Version, Version)>::empty()) == Seq::<
            (Version, Version),
        >::empty(),
{
    let e = Seq::<(Version, Version)>::empty();
    assert(inter_row_from(x, e, 0) =~= e);
    assert(inter_from(seq![x], e, 1) =~= e);
    assert(spec_intersection(seq![x], e) =~= e + e);
    assert(e + e =~= e);
}

/// For constraints on plain versions, swapping the two inputs of the fold
/// yields the very same range list, not merely the same admitted set.
pub proof fn lemma_intersection_many_swap(c1: Constraint, c2: Constraint)
    requires
        crate::constraint::plain(c1.version),
        crate::constraint::plain(c2.version),
    ensures
        spec_intersection_many(seq![c1, c2]) == spec_intersection_many(seq![c2, c1]),
{
    let r1 = fold_range(c1);
    let r2 = fold_range(c2);
    lemma_fold_range_plain(c1);
    lemma_fold_range_plain(c2);
    let init = seq![full_range()];
    let rs12 = fold_ranges(seq![c1, c2]);
    let rs21 = fold_ranges(seq![c2, c1]);
    assert(rs12 =~= seq![r1, r2]);
    assert(rs21 =~= seq![r2, r1]);

    // Unroll both folds to two nested pairwise intersections.
    assert(spec_intersection_many(seq![c1, c2]) == spec_intersection(
        seq![r2],
        spec_intersection(seq![r1], init),
    )) by {
        let acc1 = spec_intersection(seq![rs12[0]], init);
        let acc2 = spec_intersection(seq![rs12[1]], acc1);
        assert(fold_inter(init, rs12, 0) == fold_inter(acc1, rs12, 1));
        assert(fold_inter(acc1, rs12, 1) == fold_inter(acc2, rs12, 2));
        assert(fold_inter(acc2, rs12, 2) == acc2);
        assert(seq![rs12[0]] =~= seq![r1]);
        assert(seq![rs12[1]] =~= seq![r2]);
        assert(acc1 == spec_intersection(seq![r1], init));
        assert(acc2 == spec_intersection(seq![r2], spec_intersection(seq![r1], init)));
    }
    assert(spec_intersection_many(seq![c2, c1]) == spec_intersection(
        seq![r1],
        spec_intersection(seq![r2], init),
    )) by {
        let acc1 = spec_intersection(seq![rs21[0]], init);
        let acc2 = spec_intersection(seq![rs21[1]], acc1);
        assert(fold_inter(init, rs21, 0) == fold_inter(acc1, rs21, 1));
        assert(fold_inter(acc1, rs21, 1) == fold_inter(acc2, rs21, 2));
        assert(fold_inter(acc2, rs21, 2) == acc2);
        assert(seq![rs21[0]] =~= seq![r2]);
        assert(seq![rs21[1]] =~= seq![r1]);
        assert(acc1 == spec_intersection(seq![r2], init));
        assert(acc2 == spec_intersection(seq![r1], spec_intersection(seq![r2], init)));
    }

    let full = full_range();
    lemma_inter_single(r1, full);
    lemma_inter_single(r2, full);

    if !ranges_overlap(r1, full) && !ranges_overlap(r2, full) {
        lemma_inter_single_empty(r1);
        lemma_inter_single_empty(r2);
    } else if !ranges_overlap(r1, full) {
        // One side drops out at its own step and kills the other's overlap.
        lemma_inter_single_empty(r2);
        let b = inter_pair(r2, full);
        lemma_inter_single(r1, b);
        assert(!ranges_overlap(r1, b));
        lemma_inter_single(r1, b);
        assert(spec_intersection(seq![r1], spec_intersection(seq![r2], init)) =~= Seq::<
            (Version, Version),
        >::empty());
    } else if !ranges_overlap(r2, full) {
        lemma_inter_single_empty(r1);
        let a = inter_pair(r1, full);
        lemma_inter_single(r2, a);
        assert(!ranges_overlap(r2, a));
        assert(spec_intersection(seq![r2], spec_intersection(seq![r1], init)) =~= Seq::<
            (Version, Version),
        >::empty());
    } else {
        // Both ranges reach into the span: each side clamps the other's
        // endpoints, and max/min of plain versions do not depend on order.
        let a = inter_pair(r1, full);
        let b = inter_pair(r2, full);
        lemma_inter_single(r2, a);
        lemma_inter_single(r1, b);
        assert(ranges_overlap(r2, a) == ranges_overlap(r1, b));
        if ranges_overlap(r2, a) {
            let left = inter_pair(r2, a);
            let right = inter_pair(r1, b);
            lemma_plain_antisym(left.0, right.0);
            lemma_plain_antisym(left.1, right.1);
            assert(left == right);
            assert(seq![left] =~= seq![right]);
        }
    }
}

} // verus!
