use vstd::prelude::*;
use vstd::hash_set::StringHashSet;

verus! {

/// Every local path confirmed to exist upstream during one run. Inserting a
/// file path also claims the right to download it.
pub struct ShadowSet {
    paths: StringHashSet,
}

impl View for ShadowSet {
    type V = Set<Seq<char>>;

    closed spec fn view(&self) -> Set<Seq<char>> {
        self.paths@
    }
}

impl ShadowSet {
    pub fn new() -> (r: ShadowSet)
        ensures
            r@ == Set::<Seq<char>>::empty(),
    {
        ShadowSet { paths: StringHashSet::new() }
    }

    /// Records `path`; true when it was not recorded before.
    pub fn insert(&mut self, path: String) -> (r: bool)
        ensures
            final(self)@ == old(self)@.insert(path@),
            r == !old(self)@.contains(path@),
    {
        self.paths.insert(path)
    }

    pub fn contains(&self, path: &str) -> (r: bool)
        ensures
            r == self@.contains(path@),
    {
        self.paths.contains(path)
    }
}

/// The set after recording each of `paths` in turn.
pub open spec fn after_inserts(s: Set<Seq<char>>, paths: Seq<Seq<char>>) -> Set<Seq<char>>
    decreases paths.len(),
{
    if paths.len() == 0 {
        s
    } else {
        after_inserts(s, paths.drop_last()).insert(paths.last())
    }
}

proof fn lemma_after_inserts_keeps(s: Set<Seq<char>>, paths: Seq<Seq<char>>, p: Seq<char>)
    requires
        s.contains(p),
    ensures
        after_inserts(s, paths).contains(p),
    decreases paths.len(),
{
    if paths.len() > 0 {
        lemma_after_inserts_keeps(s, paths.drop_last(), p);
    }
}

/// A path is claimed at most once: once a claim of `p` has succeeded, any
/// number of further insertions leave `p` recorded, so every later claim of
/// `p` fails.
pub proof fn claim_is_exclusive(s: Set<Seq<char>>, p: Seq<char>, later: Seq<Seq<char>>)
    ensures
        after_inserts(s.insert(p), later).contains(p),
{
    lemma_after_inserts_keeps(s.insert(p), later, p);
}

/// Shadow-set completeness: every path recorded during a run, whether a
/// directory entered for listing or a file claimed for download, is in the
/// set at its end, whatever else was recorded and in whatever order.
pub proof fn shadow_set_complete(s: Set<Seq<char>>, recorded: Seq<Seq<char>>)
    ensures
        forall|i: int| 0 <= i < recorded.len() ==> after_inserts(s, recorded).contains(#[trigger] recorded[i]),
    decreases recorded.len(),
{
    if recorded.len() > 0 {
        shadow_set_complete(s, recorded.drop_last());
        assert forall|i: int| 0 <= i < recorded.len() implies after_inserts(s, recorded).contains(#[trigger] recorded[i]) by {
            if i < recorded.len() - 1 {
                assert(recorded.drop_last()[i] == recorded[i]);
            }
        }
    }
}

} // verus!
