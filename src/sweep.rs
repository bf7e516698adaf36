use vstd::prelude::*;
use crate::shadow::ShadowSet;

verus! {

/// Number of the first `n` walked paths that are not in the shadow set.
pub open spec fn stray_count(walk: Seq<Seq<char>>, shadow: Set<Seq<char>>, n: nat) -> nat
    decreases n,
{
    if n == 0 {
        0
    } else {
        stray_count(walk, shadow, (n - 1) as nat) + if shadow.contains(walk[n - 1]) { 0nat } else { 1nat }
    }
}

/// Indices, among the first `n` walked paths, of those deleted: paths not in
/// the shadow set, in walk order, until `max` of them have been taken.
pub open spec fn planned(walk: Seq<Seq<char>>, shadow: Set<Seq<char>>, max: nat, n: nat) -> Seq<int>
    decreases n,
{
    if n == 0 {
        Seq::empty()
    } else {
        let prev = planned(walk, shadow, max, (n - 1) as nat);
        if !shadow.contains(walk[n - 1]) && prev.len() < max {
            prev.push(n - 1)
        } else {
            prev
        }
    }
}

/// The deletions of a sweep over the local tree, and whether the cap stopped it.
pub struct SweepPlan {
    /// Indices into the walk, in walk order.
    pub deletions: Vec<usize>,
    pub cap_hit: bool,
}

/// Plans the deletion sweep over `walk`, the local paths in contents-first
/// order. Nothing is deleted after a listing failure or when deletion is off;
/// otherwise every path outside the shadow set is deleted, in order, until
/// `max_delete` deletions, and meeting one more such path hits the cap.
pub fn plan_sweep(
    walk: &Vec<String>,
    shadow: &ShadowSet,
    failure_listing: bool,
    no_delete: bool,
    max_delete: usize,
) -> (r: SweepPlan)
    ensures
        failure_listing || no_delete ==> r.deletions@.len() == 0 && !r.cap_hit,
        !failure_listing && !no_delete ==> {
            &&& r.deletions@.map_values(|i: usize| i as int)
                == planned(walk.deep_view(), shadow@, max_delete as nat, walk@.len() as nat)
            &&& r.cap_hit == (stray_count(walk.deep_view(), shadow@, walk@.len() as nat) > max_delete)
        },
{
    let mut deletions: Vec<usize> = Vec::new();
    if failure_listing || no_delete {
        return SweepPlan { deletions, cap_hit: false };
    }
    let ghost w = walk.deep_view();
    let mut cap_hit = false;
    let mut i: usize = 0;
    while i < walk.len()
        invariant
            0 <= i <= walk.len(),
            w == walk.deep_view(),
            w.len() == walk@.len(),
            deletions@.map_values(|k: usize| k as int) == planned(w, shadow@, max_delete as nat, i as nat),
            cap_hit == (stray_count(w, shadow@, i as nat) > max_delete),
            deletions@.len() <= max_delete,
            !cap_hit ==> deletions@.len() == stray_count(w, shadow@, i as nat),
        decreases walk.len() - i,
    {
        assert(w[i as int] == walk@[i as int]@);
        if !shadow.contains(walk[i].as_str()) {
            if deletions.len() < max_delete {
                let ghost before = deletions@.map_values(|k: usize| k as int);
                deletions.push(i);
                assert(deletions@.map_values(|k: usize| k as int) =~= before.push(i as int));
            } else {
                cap_hit = true;
            }
        }
        i = i + 1;
    }
    SweepPlan { deletions, cap_hit }
}

proof fn lemma_planned_len(walk: Seq<Seq<char>>, shadow: Set<Seq<char>>, max: nat, n: nat)
    requires
        n <= walk.len(),
    ensures
        planned(walk, shadow, max, n).len() == if stray_count(walk, shadow, n) < max {
            stray_count(walk, shadow, n)
        } else {
            max
        },
        forall|k: int| 0 <= k < planned(walk, shadow, max, n).len() ==> {
            let j = #[trigger] planned(walk, shadow, max, n)[k];
            0 <= j < n && !shadow.contains(walk[j])
        },
    decreases n,
{
    if n > 0 {
        lemma_planned_len(walk, shadow, max, (n - 1) as nat);
    }
}

proof fn lemma_planned_all(walk: Seq<Seq<char>>, shadow: Set<Seq<char>>, max: nat, n: nat)
    requires
        n <= walk.len(),
        stray_count(walk, shadow, n) <= max,
    ensures
        forall|j: int| 0 <= j < n && !shadow.contains(walk[j]) ==> planned(walk, shadow, max, n).contains(j),
    decreases n,
{
    if n > 0 {
        let m = (n - 1) as nat;
        lemma_planned_all(walk, shadow, max, m);
        lemma_planned_len(walk, shadow, max, m);
        let prev = planned(walk, shadow, max, m);
        assert forall|j: int| 0 <= j < n && !shadow.contains(walk[j]) implies planned(walk, shadow, max, n).contains(j) by {
            if j < m {
                assert(prev.contains(j));
                let k = choose|k: int| 0 <= k < prev.len() && prev[k] == j;
                if !shadow.contains(walk[n - 1]) && prev.len() < max {
                    assert(prev.push(n - 1)[k] == j);
                }
            } else {
                assert(prev.push(n - 1)[prev.len() as int] == j);
            }
        }
    }
}

/// Deletion cap: a sweep deletes at most `max` paths, and exactly `max` when
/// more than `max` walked paths lie outside the shadow set, which is when the
/// cap is hit; a run whose listings and downloads all succeeded then exits
/// with code 25.
pub proof fn deletion_cap(walk: Seq<Seq<char>>, shadow: Set<Seq<char>>, max: nat)
    ensures
        planned(walk, shadow, max, walk.len()).len() <= max,
        stray_count(walk, shadow, walk.len()) > max ==> planned(walk, shadow, max, walk.len()).len() == max,
        forall|walk_failed: bool, dry_run: bool, delete_failed: bool|
            #[trigger] exit_code_of(false, walk_failed, dry_run, true, delete_failed, false) == 25,
{
    lemma_planned_len(walk, shadow, max, walk.len());
}

/// No phantom files: when the cap is not hit, every walked path outside the
/// shadow set is deleted, and no path in it ever is.
pub proof fn no_phantom_files(walk: Seq<Seq<char>>, shadow: Set<Seq<char>>, max: nat)
    requires
        stray_count(walk, shadow, walk.len()) <= max,
    ensures
        forall|j: int| 0 <= j < walk.len() && !shadow.contains(walk[j])
            ==> planned(walk, shadow, max, walk.len()).contains(j),
        forall|k: int| 0 <= k < planned(walk, shadow, max, walk.len()).len()
            ==> !shadow.contains(walk[#[trigger] planned(walk, shadow, max, walk.len())[k]]),
{
    lemma_planned_all(walk, shadow, max, walk.len());
    lemma_planned_len(walk, shadow, max, walk.len());
}

/// The process exit code, by the checks in their fixed order (listing, then
/// the deletion walk, then downloading): the last that applies wins.
pub open spec fn exit_code_of(
    failure_listing: bool,
    walk_failed: bool,
    dry_run: bool,
    cap_hit: bool,
    delete_failed: bool,
    failure_downloading: bool,
) -> i32 {
    let after_walk: i32 = if failure_listing {
        1
    } else if cap_hit {
        25
    } else if walk_failed && !dry_run {
        1
    } else if delete_failed {
        4
    } else {
        0
    };
    if failure_downloading { 2 } else { after_walk }
}

/// The exit code of a run. `walk_failed` says that walking the local tree
/// stopped on an error before the cap was hit; `delete_failed` that some
/// deletion failed.
pub fn exit_code(
    failure_listing: bool,
    walk_failed: bool,
    dry_run: bool,
    cap_hit: bool,
    delete_failed: bool,
    failure_downloading: bool,
) -> (r: i32)
    ensures
        r == exit_code_of(failure_listing, walk_failed, dry_run, cap_hit, delete_failed, failure_downloading),
{
    let mut code: i32 = 0;
    if failure_listing {
        code = 1;
    } else {
        if delete_failed {
            code = 4;
        }
        if walk_failed && !dry_run {
            code = 1;
        }
        if cap_hit {
            code = 25;
        }
    }
    if failure_downloading {
        code = 2;
    }
    code
}

} // verus!
