//! The bump propagator: starting from the classifier's per-package verdicts
//! it repeatedly applies two monotone constraints — nested packages share a
//! bump level, and a package whose direct dependency has any bump is raised
//! to at least `Patch` — until a full pass changes nothing. Each rule only
//! ever raises a bump, and bump levels are drawn from a finite total order,
//! so the loop terminates; the result is the least assignment above the
//! initial bumps that satisfies both constraints.

use vstd::prelude::*;

use crate::bump::lemma_level_range;
use crate::bump::Bump;
use crate::graph::WorkspaceGraph;
use crate::status::PackageStatus;
use crate::status::Reason;
use crate::version::Version;

verus! {

/// Every nesting pair points at a package of the run's status arena.
pub open spec fn pairs_wf(pairs: Seq<(usize, usize)>, n: int) -> bool {
    forall|k: int| 0 <= k < pairs.len() ==> (#[trigger] pairs[k]).0 < n && pairs[k].1 < n
}

/// `b` holds everything `a` holds, in the same order.
pub open spec fn reasons_extended(a: Seq<Reason>, b: Seq<Reason>) -> bool {
    a.len() <= b.len() && forall|t: int| 0 <= t < a.len() ==> a[t] == b[t]
}

/// How one package's record may change over a run: changelog and version
/// untouched, the bump never lowered, the recorded reasons only extended,
/// and every raise leaves at least one new reason.
pub open spec fn status_evolves(a: PackageStatus, b: PackageStatus) -> bool {
    &&& b.changelog == a.changelog
    &&& b.version == a.version
    &&& a.bump.level() <= b.bump.level()
    &&& reasons_extended(a.bump_reasons@, b.bump_reasons@)
    &&& (a.bump.level() < b.bump.level() ==> a.bump_reasons@.len() < b.bump_reasons@.len())
}

/// How the whole status arena may change over a run.
pub open spec fn evolves(a: Seq<PackageStatus>, b: Seq<PackageStatus>) -> bool {
    a.len() == b.len() && forall|j: int|
        0 <= j < a.len() ==> #[trigger] status_evolves(a[j], b[j])
}

/// A reason the propagator itself may record: anything but a classifier
/// decision, which only the classifier phase writes.
pub open spec fn is_propagation_reason(r: Reason) -> bool {
    !(r matches Reason::Classifier(_))
}

/// Every reason that `b` holds beyond those `a` already held is a
/// propagation reason.
pub open spec fn reasons_from_propagation(a: Seq<PackageStatus>, b: Seq<PackageStatus>) -> bool {
    forall|j: int, t: int|
        0 <= j < a.len() && a[j].bump_reasons@.len() <= t < b[j].bump_reasons@.len()
            ==> is_propagation_reason(#[trigger] b[j].bump_reasons@[t])
}

/// `reasons_from_propagation` composes along `evolves` steps.
pub proof fn lemma_reasons_trans(
    a: Seq<PackageStatus>,
    b: Seq<PackageStatus>,
    c: Seq<PackageStatus>,
)
    requires
        evolves(a, b),
        evolves(b, c),
        reasons_from_propagation(a, b),
        reasons_from_propagation(b, c),
    ensures
        reasons_from_propagation(a, c),
{
    assert forall|j: int, t: int|
        0 <= j < a.len() && a[j].bump_reasons@.len() <= t < c[j].bump_reasons@.len() implies
        is_propagation_reason(#[trigger] c[j].bump_reasons@[t]) by {
        assert(status_evolves(a[j], b[j]));
        assert(status_evolves(b[j], c[j]));
        if t < b[j].bump_reasons@.len() {
            assert(is_propagation_reason(b[j].bump_reasons@[t]));
            assert(c[j].bump_reasons@[t] == b[j].bump_reasons@[t]);
        }
    }
}

/// Both sides of every nesting pair hold the same bump level.
pub open spec fn nesting_ok(s: Seq<PackageStatus>, pairs: Seq<(usize, usize)>) -> bool {
    forall|k: int|
        0 <= k < pairs.len() ==> s[(#[trigger] pairs[k]).0 as int].bump.level() == s[pairs[k].1
            as int].bump.level()
}

/// Every package one of whose direct dependencies has a bump holds at
/// least a `Patch` bump itself.
pub open spec fn deps_ok(s: Seq<PackageStatus>, g: WorkspaceGraph) -> bool {
    forall|i: int, k: int|
        0 <= i < g.packages@.len() && 0 <= k < g.packages@[i].deps@.len() && s[(
        #[trigger] g.packages@[i].deps@[k]) as int].bump.level() > 0 ==> s[i].bump.level() >= 1
}

/// A candidate assignment of bump levels that is pointwise at least the
/// arena's current bumps.
pub open spec fn above(t: Seq<int>, s: Seq<PackageStatus>) -> bool {
    t.len() == s.len() && forall|j: int| 0 <= j < s.len() ==> (#[trigger] s[j]).bump.level() <= t[j]
}

/// The nesting constraint on a candidate assignment of bump levels.
pub open spec fn target_nesting_ok(t: Seq<int>, pairs: Seq<(usize, usize)>) -> bool {
    forall|k: int| 0 <= k < pairs.len() ==> t[(#[trigger] pairs[k]).0 as int] == t[pairs[k].1 as int]
}

/// The dependency constraint on a candidate assignment of bump levels.
pub open spec fn target_deps_ok(t: Seq<int>, g: WorkspaceGraph) -> bool {
    forall|i: int, k: int|
        0 <= i < g.packages@.len() && 0 <= k < g.packages@[i].deps@.len() && t[(
        #[trigger] g.packages@[i].deps@[k]) as int] > 0 ==> t[i] >= 1
}

/// A candidate assignment that is above the initial bumps and satisfies
/// both constraints: what any correct propagation may end at or below.
pub open spec fn admissible(
    t: Seq<int>,
    s: Seq<PackageStatus>,
    pairs: Seq<(usize, usize)>,
    g: WorkspaceGraph,
) -> bool {
    above(t, s) && target_nesting_ok(t, pairs) && target_deps_ok(t, g)
}

/// The nesting constraint restricted to the first `k` pairs.
pub open spec fn nesting_ok_upto(s: Seq<PackageStatus>, pairs: Seq<(usize, usize)>, k: int) -> bool {
    forall|k2: int|
        0 <= k2 < k ==> s[(#[trigger] pairs[k2]).0 as int].bump.level() == s[pairs[k2].1
            as int].bump.level()
}

/// The dependency constraint restricted to the packages before `i`, and to
/// the first `kk` dependencies of package `i` itself.
pub open spec fn deps_ok_upto(s: Seq<PackageStatus>, g: WorkspaceGraph, i: int, kk: int) -> bool {
    &&& forall|i2: int, k2: int|
        0 <= i2 < i && 0 <= k2 < g.packages@[i2].deps@.len() && s[(
        #[trigger] g.packages@[i2].deps@[k2]) as int].bump.level() > 0 ==> s[i2].bump.level() >= 1
    &&& forall|k2: int|
        0 <= k2 < kk && s[(#[trigger] g.packages@[i].deps@[k2]) as int].bump.level() > 0 ==> s[
        i].bump.level() >= 1
}

/// The propagation measure: how far the arena's bumps are, in total, from
/// all sitting at the top level. It starts at most `3 * len` and every
/// raising pass strictly decreases it, which bounds the number of passes
/// by the number of packages times the number of bump levels.
pub open spec fn headroom(s: Seq<PackageStatus>) -> int
    decreases s.len(),
{
    if s.len() == 0 {
        0
    } else {
        (3 - s.last().bump.level()) + headroom(s.drop_last())
    }
}

/// The propagation measure lies between 0 and three times the number of
/// packages.
pub proof fn lemma_headroom_bounds(s: Seq<PackageStatus>)
    ensures
        0 <= headroom(s) <= 3 * s.len(),
    decreases s.len(),
{
    if s.len() > 0 {
        lemma_headroom_bounds(s.drop_last());
        lemma_level_range(s.last().bump);
    }
}

/// Replacing one record changes the measure by the difference of the two
/// bump levels.
pub proof fn lemma_headroom_update(s: Seq<PackageStatus>, j: int, st: PackageStatus)
    requires
        0 <= j < s.len(),
    ensures
        headroom(s.update(j, st)) == headroom(s) + s[j].bump.level() - st.bump.level(),
    decreases s.len(),
{
    let su = s.update(j, st);
    if j == s.len() - 1 {
        assert(su.drop_last() =~= s.drop_last());
    } else {
        assert(su.drop_last() =~= s.drop_last().update(j, st));
        assert(su.last() == s.last());
        lemma_headroom_update(s.drop_last(), j, st);
    }
}

/// `evolves` composes.
pub proof fn lemma_evolves_trans(a: Seq<PackageStatus>, b: Seq<PackageStatus>, c: Seq<
    PackageStatus,
>)
    requires
        evolves(a, b),
        evolves(b, c),
    ensures
        evolves(a, c),
{
    assert forall|j: int| 0 <= j < a.len() implies #[trigger] status_evolves(a[j], c[j]) by {
        assert(status_evolves(a[j], b[j]));
        assert(status_evolves(b[j], c[j]));
    }
}

/// Raise one package's bump to `b` and record why.
fn raise(statuses: &mut Vec<PackageStatus>, i: usize, b: Bump, why: Reason)
    requires
        i < old(statuses)@.len(),
        old(statuses)@[i as int].bump.level() < b.level(),
    ensures
        final(statuses)@.len() == old(statuses)@.len(),
        forall|j: int|
            0 <= j < final(statuses)@.len() && j != i ==> final(statuses)@[j] == old(
                statuses,
            )@[j],
        final(statuses)@[i as int].bump == b,
        final(statuses)@[i as int].changelog == old(statuses)@[i as int].changelog,
        final(statuses)@[i as int].version == old(statuses)@[i as int].version,
        final(statuses)@[i as int].bump_reasons@ == old(statuses)@[i as int].bump_reasons@.push(
            why,
        ),
        headroom(final(statuses)@) == headroom(old(statuses)@) + old(statuses)@[i
            as int].bump.level() - b.level(),
        evolves(old(statuses)@, final(statuses)@),
        is_propagation_reason(why) ==> reasons_from_propagation(
            old(statuses)@,
            final(statuses)@,
        ),
{
    let mut st = PackageStatus::new(Version::new(0, 0, 0));
    statuses.set_and_swap(i, &mut st);
    st.bump_reasons.push(why);
    st.bump = b;
    statuses.set_and_swap(i, &mut st);
    proof {
        assert(statuses@ =~= old(statuses)@.update(i as int, statuses@[i as int]));
        lemma_headroom_update(old(statuses)@, i as int, statuses@[i as int]);
        assert forall|j: int| 0 <= j < statuses@.len() implies #[trigger] status_evolves(
            old(statuses)@[j],
            statuses@[j],
        ) by {
            if j != i {
                assert(statuses@[j] == old(statuses)@[j]);
            }
        }
        if is_propagation_reason(why) {
            assert forall|j: int, t: int|
                0 <= j < old(statuses)@.len() && old(statuses)@[j].bump_reasons@.len() <= t
                    < statuses@[j].bump_reasons@.len() implies is_propagation_reason(
                #[trigger] statuses@[j].bump_reasons@[t],
            ) by {
                if j == i {
                    assert(statuses@[j].bump_reasons@[t] == why);
                } else {
                    assert(statuses@[j] == old(statuses)@[j]);
                }
            }
        }
    }
}

/// One full pass of the two constraint sweeps. Returns whether anything
/// was raised; a pass that raises nothing certifies that both constraints
/// hold, and a pass over an arena that already satisfies both constraints
/// changes nothing.
fn propagate_pass(
    statuses: &mut Vec<PackageStatus>,
    pairs: &Vec<(usize, usize)>,
    graph: &WorkspaceGraph,
) -> (changed: bool)
    requires
        graph.wf(),
        old(statuses)@.len() == graph.packages@.len(),
        pairs_wf(pairs@, old(statuses)@.len() as int),
    ensures
        evolves(old(statuses)@, final(statuses)@),
        !changed ==> final(statuses)@ == old(statuses)@ && nesting_ok(final(statuses)@, pairs@)
            && deps_ok(final(statuses)@, *graph),
        changed ==> headroom(final(statuses)@) < headroom(old(statuses)@),
        nesting_ok(old(statuses)@, pairs@) && deps_ok(old(statuses)@, *graph) ==> !changed,
        reasons_from_propagation(old(statuses)@, final(statuses)@),
        forall|t: Seq<int>|
            admissible(t, old(statuses)@, pairs@, *graph) ==> above(t, final(statuses)@),
{
    let ghost s0 = statuses@;
    let mut changed = false;
    let n = statuses.len();

    let mut k: usize = 0;
    while k < pairs.len()
        invariant
            graph.wf(),
            n == s0.len(),
            s0.len() == graph.packages@.len(),
            statuses@.len() == s0.len(),
            pairs_wf(pairs@, s0.len() as int),
            k <= pairs@.len(),
            evolves(s0, statuses@),
            reasons_from_propagation(s0, statuses@),
            !changed ==> statuses@ == s0 && nesting_ok_upto(statuses@, pairs@, k as int),
            changed ==> headroom(statuses@) < headroom(s0),
            nesting_ok(s0, pairs@) && deps_ok(s0, *graph) ==> !changed && statuses@ == s0,
            forall|t: Seq<int>| admissible(t, s0, pairs@, *graph) ==> above(t, statuses@),
        decreases pairs@.len() - k,
    {
        let p = pairs[k];
        let o = p.0;
        let i = p.1;
        let lo = statuses[o].bump.as_u8();
        let li = statuses[i].bump.as_u8();
        if li != lo {
            let ghost pre = statuses@;
            proof {
                if nesting_ok(s0, pairs@) && deps_ok(s0, *graph) {
                    assert(s0[o as int].bump.level() == s0[i as int].bump.level());
                    assert(false);
                }
            }
            if li < lo {
                let b = statuses[o].bump;
                raise(statuses, i, b, Reason::NestedEqual);
                proof {
                    assert forall|t: Seq<int>|
                        admissible(t, s0, pairs@, *graph) implies above(t, statuses@) by {
                        assert(above(t, pre));
                        assert(t[o as int] == t[i as int]);
                        assert(pre[o as int].bump.level() <= t[o as int]);
                    }
                }
            } else {
                let b = statuses[i].bump;
                raise(statuses, o, b, Reason::NestedEqual);
                proof {
                    assert forall|t: Seq<int>|
                        admissible(t, s0, pairs@, *graph) implies above(t, statuses@) by {
                        assert(above(t, pre));
                        assert(t[o as int] == t[i as int]);
                        assert(pre[i as int].bump.level() <= t[i as int]);
                    }
                }
            }
            changed = true;
            proof {
                lemma_reasons_trans(s0, pre, statuses@);
                lemma_evolves_trans(s0, pre, statuses@);
            }
        }
        k += 1;
    }

    let mut i: usize = 0;
    while i < n
        invariant
            graph.wf(),
            n == s0.len(),
            s0.len() == graph.packages@.len(),
            statuses@.len() == s0.len(),
            pairs_wf(pairs@, s0.len() as int),
            i <= n,
            evolves(s0, statuses@),
            reasons_from_propagation(s0, statuses@),
            !changed ==> statuses@ == s0 && nesting_ok(statuses@, pairs@) && deps_ok_upto(
                statuses@,
                *graph,
                i as int,
                0,
            ),
            changed ==> headroom(statuses@) < headroom(s0),
            nesting_ok(s0, pairs@) && deps_ok(s0, *graph) ==> !changed && statuses@ == s0,
            forall|t: Seq<int>| admissible(t, s0, pairs@, *graph) ==> above(t, statuses@),
        decreases n - i,
    {
        let dlen = graph.packages[i].deps.len();
        let mut kk: usize = 0;
        while kk < dlen
            invariant
                graph.wf(),
                n == s0.len(),
                s0.len() == graph.packages@.len(),
                statuses@.len() == s0.len(),
                pairs_wf(pairs@, s0.len() as int),
                i < n,
                kk <= dlen,
                dlen == graph.packages@[i as int].deps@.len(),
                evolves(s0, statuses@),
                reasons_from_propagation(s0, statuses@),
                !changed ==> statuses@ == s0 && nesting_ok(statuses@, pairs@) && deps_ok_upto(
                    statuses@,
                    *graph,
                    i as int,
                    kk as int,
                ),
                changed ==> headroom(statuses@) < headroom(s0),
                nesting_ok(s0, pairs@) && deps_ok(s0, *graph) ==> !changed && statuses@ == s0,
                forall|t: Seq<int>| admissible(t, s0, pairs@, *graph) ==> above(t, statuses@),
            decreases dlen - kk,
        {
            let d = graph.packages[i].deps[kk];
            proof {
                assert(graph.packages@[i as int].deps@[kk as int] < graph.packages@.len());
            }
            if statuses[d].bump.as_u8() > 0 && statuses[i].bump.as_u8() < 1 {
                let ghost pre = statuses@;
                proof {
                    if nesting_ok(s0, pairs@) && deps_ok(s0, *graph) {
                        assert(s0[d as int].bump.level() > 0 ==> s0[i as int].bump.level() >= 1);
                        assert(false);
                    }
                }
                raise(statuses, i, Bump::Patch, Reason::DependencyBumped(d));
                changed = true;
                proof {
                    lemma_reasons_trans(s0, pre, statuses@);
                    lemma_evolves_trans(s0, pre, statuses@);
                    assert forall|t: Seq<int>|
                        admissible(t, s0, pairs@, *graph) implies above(t, statuses@) by {
                        assert(above(t, pre));
                        assert(pre[d as int].bump.level() <= t[d as int]);
                        assert(t[i as int] >= 1);
                    }
                }
            }
            kk += 1;
        }
        proof {
            if !changed {
                assert forall|i2: int, k2: int|
                    0 <= i2 < i + 1 && 0 <= k2 < graph.packages@[i2].deps@.len() && statuses@[(
                    #[trigger] graph.packages@[i2].deps@[k2]) as int].bump.level() > 0 implies
                    statuses@[i2].bump.level() >= 1 by {
                    if i2 < i {
                        assert(deps_ok_upto(statuses@, *graph, i as int, 0));
                    }
                }
            }
        }
        i += 1;
    }
    changed
}

/// Propagate the two constraints to their combined fixed point.
///
/// On return both constraints hold; if they already held, nothing changed
/// (the fixed point is idempotent); every record evolves monotonically
/// (bump never lowered, changelog and version untouched, each raise
/// recorded with a reason); and the final bumps are the least levels above
/// the initial ones satisfying both constraints, so the outcome is exactly
/// determined.
pub fn propagate(
    statuses: &mut Vec<PackageStatus>,
    pairs: &Vec<(usize, usize)>,
    graph: &WorkspaceGraph,
)
    requires
        graph.wf(),
        old(statuses)@.len() == graph.packages@.len(),
        pairs_wf(pairs@, old(statuses)@.len() as int),
    ensures
        evolves(old(statuses)@, final(statuses)@),
        nesting_ok(final(statuses)@, pairs@),
        deps_ok(final(statuses)@, *graph),
        nesting_ok(old(statuses)@, pairs@) && deps_ok(old(statuses)@, *graph)
            ==> final(statuses)@ == old(statuses)@,
        reasons_from_propagation(old(statuses)@, final(statuses)@),
        forall|t: Seq<int>|
            admissible(t, old(statuses)@, pairs@, *graph) ==> above(t, final(statuses)@),
{
    let ghost orig = statuses@;
    let mut changed = true;
    while changed
        invariant
            graph.wf(),
            statuses@.len() == graph.packages@.len(),
            pairs_wf(pairs@, statuses@.len() as int),
            evolves(orig, statuses@),
            reasons_from_propagation(orig, statuses@),
            !changed ==> nesting_ok(statuses@, pairs@) && deps_ok(statuses@, *graph),
            nesting_ok(orig, pairs@) && deps_ok(orig, *graph) ==> statuses@ == orig,
            forall|t: Seq<int>| admissible(t, orig, pairs@, *graph) ==> above(t, statuses@),
        decreases headroom(statuses@) + if changed {
            1int
        } else {
            0int
        },
    {
        let ghost pre = statuses@;
        proof {
            lemma_headroom_bounds(pre);
        }
        changed = propagate_pass(statuses, pairs, graph);
        proof {
            lemma_reasons_trans(orig, pre, statuses@);
            lemma_evolves_trans(orig, pre, statuses@);
            lemma_headroom_bounds(statuses@);
            assert forall|t: Seq<int>|
                admissible(t, orig, pairs@, *graph) implies above(t, statuses@) by {
                assert(above(t, pre));
                assert(admissible(t, pre, pairs@, *graph));
            }
        }
    }
}

} // verus!
