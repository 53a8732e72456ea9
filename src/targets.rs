use vstd::prelude::*;

use crate::ids::{Oid, PeerId};
use crate::seqs::lemma_push_contains;

verus! {

/// What the local commit graph tells of one tracked peer's default branch.
#[derive(Clone, Copy, Debug)]
pub struct PeerBranch {
    pub peer: PeerId,
    /// The tip of the peer's default branch; `None` when that branch is not
    /// replicated locally.
    pub tip: Option<Oid>,
    /// Whether the tip descends from the proposed commit.
    pub descends: bool,
}

/// The tracked branches that already contain a proposed commit, and those
/// that do not, each as (peer, branch tip) pairs.
#[derive(Debug)]
pub struct MergeTargets {
    pub merged: Vec<(PeerId, Oid)>,
    pub not_merged: Vec<(PeerId, Oid)>,
}

/// A branch whose tip is `tip` contains `proposed` when it is the tip itself
/// or an ancestor of it.
pub open spec fn contains_commit(proposed: Oid, tip: Oid, descends: bool) -> bool {
    tip == proposed || descends
}

pub open spec fn is_merged(proposed: Oid, b: PeerBranch) -> bool {
    b.tip is Some && contains_commit(proposed, b.tip->0, b.descends)
}

pub open spec fn is_not_merged(proposed: Oid, b: PeerBranch) -> bool {
    b.tip is Some && !contains_commit(proposed, b.tip->0, b.descends)
}

pub open spec fn target_of(b: PeerBranch) -> (PeerId, Oid) {
    (b.peer, b.tip->0)
}

/// The branches of `s` that contain `proposed`, in order.
pub open spec fn merged_of(proposed: Oid, s: Seq<PeerBranch>) -> Seq<(PeerId, Oid)>
    decreases s.len(),
{
    if s.len() == 0 {
        seq![]
    } else {
        let rest = merged_of(proposed, s.drop_last());
        if is_merged(proposed, s.last()) {
            rest.push(target_of(s.last()))
        } else {
            rest
        }
    }
}

/// The locally resolvable branches of `s` that do not contain `proposed`, in
/// order.
pub open spec fn not_merged_of(proposed: Oid, s: Seq<PeerBranch>) -> Seq<(PeerId, Oid)>
    decreases s.len(),
{
    if s.len() == 0 {
        seq![]
    } else {
        let rest = not_merged_of(proposed, s.drop_last());
        if is_not_merged(proposed, s.last()) {
            rest.push(target_of(s.last()))
        } else {
            rest
        }
    }
}

/// The branches of `s` whose tip is known locally.
pub open spec fn resolvable_of(s: Seq<PeerBranch>) -> Seq<(PeerId, Oid)>
    decreases s.len(),
{
    if s.len() == 0 {
        seq![]
    } else {
        let rest = resolvable_of(s.drop_last());
        if s.last().tip is Some {
            rest.push(target_of(s.last()))
        } else {
            rest
        }
    }
}

/// Tracked peers are a set: no peer is listed twice.
pub open spec fn distinct_peers(s: Seq<PeerBranch>) -> bool {
    forall|i: int, j: int| 0 <= i < j < s.len() ==> s[i].peer != s[j].peer
}

/// Splits the tracked branches into those that contain `proposed` and those
/// that do not. Branches that are not replicated locally are left out.
pub fn find_merge_targets(proposed: Oid, branches: &Vec<PeerBranch>) -> (r: MergeTargets)
    ensures
        r.merged@ == merged_of(proposed, branches@),
        r.not_merged@ == not_merged_of(proposed, branches@),
{
    let mut merged: Vec<(PeerId, Oid)> = Vec::new();
    let mut not_merged: Vec<(PeerId, Oid)> = Vec::new();
    let mut i: usize = 0;
    while i < branches.len()
        invariant
            i <= branches@.len(),
            merged@ == merged_of(proposed, branches@.subrange(0, i as int)),
            not_merged@ == not_merged_of(proposed, branches@.subrange(0, i as int)),
        decreases branches@.len() - i,
    {
        let b = branches[i];
        proof {
            let s = branches@.subrange(0, i as int + 1);
            assert(s.drop_last() =~= branches@.subrange(0, i as int));
            assert(s.last() == b);
        }
        match b.tip {
            Some(tip) => {
                if tip == proposed || b.descends {
                    merged.push((b.peer, tip));
                } else {
                    not_merged.push((b.peer, tip));
                }
            },
            None => {},
        }
        i = i + 1;
    }
    assert(branches@.subrange(0, branches@.len() as int) =~= branches@);
    MergeTargets { merged, not_merged }
}

/// Where each pair of the two lists comes from.
proof fn lemma_origin(proposed: Oid, s: Seq<PeerBranch>, x: (PeerId, Oid))
    ensures
        merged_of(proposed, s).contains(x) ==> exists|i: int|
            0 <= i < s.len() && #[trigger] is_merged(proposed, s[i]) && target_of(s[i]) == x,
        not_merged_of(proposed, s).contains(x) ==> exists|i: int|
            0 <= i < s.len() && #[trigger] is_not_merged(proposed, s[i]) && target_of(s[i]) == x,
        resolvable_of(s).contains(x) <==> merged_of(proposed, s).contains(x) || not_merged_of(
            proposed,
            s,
        ).contains(x),
        merged_of(proposed, s).len() + not_merged_of(proposed, s).len() == resolvable_of(s).len(),
    decreases s.len(),
{
    if s.len() > 0 {
        let t = s.drop_last();
        lemma_origin(proposed, t, x);
        let m = merged_of(proposed, t);
        let n = not_merged_of(proposed, t);
        let v = resolvable_of(t);
        let last = s.last();
        lemma_push_contains(m, target_of(last), x);
        lemma_push_contains(n, target_of(last), x);
        lemma_push_contains(v, target_of(last), x);
        if m.contains(x) {
            let i = choose|i: int|
                0 <= i < t.len() && #[trigger] is_merged(proposed, t[i]) && target_of(t[i]) == x;
            assert(s[i] == t[i]);
        }
        if n.contains(x) {
            let i = choose|i: int|
                0 <= i < t.len() && #[trigger] is_not_merged(proposed, t[i]) && target_of(t[i])
                    == x;
            assert(s[i] == t[i]);
        }
        assert(s[s.len() - 1] == last);
    }
}

/// Every branch whose tip is known locally lands in exactly one of the two
/// lists, and the lists hold nothing else: together they are the resolvable
/// branches, and no pair is in both.
pub proof fn lemma_targets_partition(proposed: Oid, s: Seq<PeerBranch>)
    requires
        distinct_peers(s),
    ensures
        forall|x: (PeerId, Oid)|
            #[trigger] resolvable_of(s).contains(x) <==> merged_of(proposed, s).contains(x)
                || not_merged_of(proposed, s).contains(x),
        forall|x: (PeerId, Oid)|
            !(#[trigger] merged_of(proposed, s).contains(x) && not_merged_of(proposed, s).contains(
                x,
            )),
        merged_of(proposed, s).len() + not_merged_of(proposed, s).len() == resolvable_of(s).len(),
{
    assert forall|x: (PeerId, Oid)|
        #[trigger] resolvable_of(s).contains(x) <==> merged_of(proposed, s).contains(x)
            || not_merged_of(proposed, s).contains(x) by {
        lemma_origin(proposed, s, x);
    }
    assert forall|x: (PeerId, Oid)|
        !(#[trigger] merged_of(proposed, s).contains(x) && not_merged_of(proposed, s).contains(
            x,
        )) by {
        lemma_origin(proposed, s, x);
        if merged_of(proposed, s).contains(x) && not_merged_of(proposed, s).contains(x) {
            let i = choose|i: int|
                0 <= i < s.len() && #[trigger] is_merged(proposed, s[i]) && target_of(s[i]) == x;
            let j = choose|j: int|
                0 <= j < s.len() && #[trigger] is_not_merged(proposed, s[j]) && target_of(s[j])
                    == x;
            assert(i == j);
        }
    }
    lemma_targets_count(proposed, s);
}

/// A branch that is resolvable locally is listed as merged when the proposed
/// commit is its tip or an ancestor of it, and as not merged otherwise.
pub proof fn lemma_target_placement(proposed: Oid, s: Seq<PeerBranch>, i: int)
    requires
        0 <= i < s.len(),
        s[i].tip is Some,
    ensures
        contains_commit(proposed, s[i].tip->0, s[i].descends) ==> merged_of(
            proposed,
            s,
        ).contains(target_of(s[i])),
        !contains_commit(proposed, s[i].tip->0, s[i].descends) ==> not_merged_of(
            proposed,
            s,
        ).contains(target_of(s[i])),
    decreases s.len(),
{
    let t = s.drop_last();
    let x = target_of(s[i]);
    lemma_push_contains(merged_of(proposed, t), target_of(s.last()), x);
    lemma_push_contains(not_merged_of(proposed, t), target_of(s.last()), x);
    if i < s.len() - 1 {
        assert(t[i] == s[i]);
        lemma_target_placement(proposed, t, i);
    }
}

/// The two lists hold as many pairs as there are resolvable branches.
pub proof fn lemma_targets_count(proposed: Oid, s: Seq<PeerBranch>)
    ensures
        merged_of(proposed, s).len() + not_merged_of(proposed, s).len() == resolvable_of(s).len(),
{
    lemma_origin(proposed, s, (PeerId { k0: 0, k1: 0, k2: 0, k3: 0 }, Oid { hi: 0, mid: 0, lo: 0 }));
}

} // verus!
