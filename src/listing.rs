use vstd::prelude::*;

use crate::ids::{Oid, PeerId, Urn};
use crate::seqs::lemma_push_contains;

verus! {

/// Evidence that a peer has taken a revision into its default branch.
#[derive(Clone, Copy, Debug, PartialEq, Eq, Structural)]
pub struct Merge {
    pub peer: PeerId,
    pub timestamp: u64,
}

/// One proposed state of a patch.
#[derive(Debug)]
pub struct Revision {
    pub version: u64,
    /// The commit that this revision proposes.
    pub tag: Oid,
    pub merges: Vec<Merge>,
}

/// A proposal to merge a branch; its revisions are in the order they were
/// made, the last one current.
#[derive(Debug)]
pub struct Patch {
    pub author: Urn,
    pub title: String,
    pub description: String,
    pub timestamp: u64,
    pub revisions: Vec<Revision>,
}

impl Patch {
    /// A patch always holds its first revision.
    pub open spec fn well_formed(&self) -> bool {
        self.revisions@.len() > 0
    }

    /// The current revision.
    pub fn latest_revision(&self) -> (r: &Revision)
        requires
            self.well_formed(),
        ensures
            *r == self.revisions@.last(),
    {
        &self.revisions[self.revisions.len() - 1]
    }

    /// Whether `whoami` wrote this patch.
    pub fn is_authored_by(&self, whoami: Urn) -> (r: bool)
        ensures
            r == (self.author == whoami),
    {
        self.author == whoami
    }
}

/// What a listing knows of a peer that merged a revision.
#[derive(Clone, Copy, Debug, PartialEq, Eq, Structural)]
pub struct PeerInfo {
    pub id: PeerId,
    /// Whether the peer is a delegate of the project.
    pub delegate: bool,
}

/// The badges shown beside a merge.
#[derive(Clone, Copy, Debug, PartialEq, Eq, Structural)]
pub struct MergeBadges {
    pub delegate: bool,
    pub you: bool,
}

/// A merge by a delegate carries the delegate badge, and one by the local
/// peer the "you" badge; a merge can carry both.
pub fn merge_badges(peer: &PeerInfo, local_peer: PeerId) -> (r: MergeBadges)
    ensures
        r.delegate == peer.delegate,
        r.you == (peer.id == local_peer),
{
    MergeBadges { delegate: peer.delegate, you: peer.id == local_peer }
}

/// The headline of a listed patch.
#[derive(Debug)]
pub struct PatchSummary {
    pub title: String,
    pub version: u64,
    pub tag: Oid,
    /// Commits ahead and behind the local `HEAD`, where there is one.
    pub ahead_behind: Option<(u64, u64)>,
    /// Whether the local identity wrote the patch.
    pub you: bool,
}

/// The headline of `patch` for `whoami`, with the counts that the commit
/// graph gave for the latest revision against the local `HEAD`, just now.
pub fn summarize(patch: &Patch, whoami: Urn, ahead_behind: Option<(u64, u64)>) -> (r:
    PatchSummary)
    requires
        patch.well_formed(),
    ensures
        r.title@ == patch.title@,
        r.version == patch.revisions@.last().version,
        r.tag == patch.revisions@.last().tag,
        r.ahead_behind == ahead_behind,
        r.you == (patch.author == whoami),
{
    let revision = patch.latest_revision();
    PatchSummary {
        title: patch.title.clone(),
        version: revision.version,
        tag: revision.tag,
        ahead_behind,
        you: patch.is_authored_by(whoami),
    }
}

/// The commits whose distance a listing shows for `patch`: its latest
/// revision against the local `HEAD`; none without a `HEAD`.
pub fn diff_query(patch: &Patch, head: Option<Oid>) -> (r: Option<(Oid, Oid)>)
    requires
        patch.well_formed(),
    ensures
        match head {
            Some(h) => r == Some((patch.revisions@.last().tag, h)),
            None => r is None,
        },
{
    match head {
        Some(h) => Some((patch.latest_revision().tag, h)),
        None => None,
    }
}

/// The entries of `s` that `me` wrote, in order.
pub open spec fn own_of(s: Seq<(Oid, Patch)>, me: Urn) -> Seq<(Oid, Patch)>
    decreases s.len(),
{
    if s.len() == 0 {
        seq![]
    } else if s.last().1.author == me {
        own_of(s.drop_last(), me).push(s.last())
    } else {
        own_of(s.drop_last(), me)
    }
}

/// The entries of `s` that others wrote, in order.
pub open spec fn others_of(s: Seq<(Oid, Patch)>, me: Urn) -> Seq<(Oid, Patch)>
    decreases s.len(),
{
    if s.len() == 0 {
        seq![]
    } else if s.last().1.author != me {
        others_of(s.drop_last(), me).push(s.last())
    } else {
        others_of(s.drop_last(), me)
    }
}

/// Splits the patches of a project into those that `me` wrote and those that
/// others wrote, keeping the order of each.
pub fn partition_patches(patches: Vec<(Oid, Patch)>, me: Urn) -> (r: (
    Vec<(Oid, Patch)>,
    Vec<(Oid, Patch)>,
))
    ensures
        r.0@ == own_of(patches@, me),
        r.1@ == others_of(patches@, me),
{
    let ghost all = patches@;
    let mut rest = patches;
    let mut own: Vec<(Oid, Patch)> = Vec::new();
    let mut other: Vec<(Oid, Patch)> = Vec::new();
    let ghost mut i: int = 0;
    while rest.len() > 0
        invariant
            0 <= i <= all.len(),
            rest@ == all.subrange(i, all.len() as int),
            own@ == own_of(all.subrange(0, i), me),
            other@ == others_of(all.subrange(0, i), me),
        decreases rest@.len(),
    {
        let entry = rest.remove(0);
        proof {
            assert(entry == all[i]);
            assert(all.subrange(0, i + 1).drop_last() =~= all.subrange(0, i));
            assert(all.subrange(0, i + 1).last() == all[i]);
            i = i + 1;
            assert(rest@ =~= all.subrange(i, all.len() as int));
        }
        if entry.1.author == me {
            own.push(entry);
        } else {
            other.push(entry);
        }
    }
    assert(all.subrange(0, all.len() as int) =~= all);
    (own, other)
}

proof fn lemma_membership(s: Seq<(Oid, Patch)>, me: Urn, x: (Oid, Patch))
    ensures
        own_of(s, me).contains(x) <==> s.contains(x) && x.1.author == me,
        others_of(s, me).contains(x) <==> s.contains(x) && x.1.author != me,
        own_of(s, me).len() + others_of(s, me).len() == s.len(),
    decreases s.len(),
{
    if s.len() > 0 {
        let t = s.drop_last();
        lemma_membership(t, me, x);
        lemma_push_contains(own_of(t, me), s.last(), x);
        lemma_push_contains(others_of(t, me), s.last(), x);
        lemma_push_contains(t, s.last(), x);
        assert(t.push(s.last()) =~= s);
    }
}

/// A listing puts each patch that `me` wrote in the own group and every other
/// patch in the other group, and nothing else in either.
pub proof fn lemma_listing_partition(s: Seq<(Oid, Patch)>, me: Urn)
    ensures
        forall|x: (Oid, Patch)| #[trigger]
            own_of(s, me).contains(x) <==> s.contains(x) && x.1.author == me,
        forall|x: (Oid, Patch)| #[trigger]
            others_of(s, me).contains(x) <==> s.contains(x) && x.1.author != me,
        own_of(s, me).len() + others_of(s, me).len() == s.len(),
{
    assert forall|x: (Oid, Patch)| #[trigger]
        own_of(s, me).contains(x) <==> s.contains(x) && x.1.author == me by {
        lemma_membership(s, me, x);
    }
    assert forall|x: (Oid, Patch)| #[trigger]
        others_of(s, me).contains(x) <==> s.contains(x) && x.1.author != me by {
        lemma_membership(s, me, x);
    }
    if s.len() > 0 {
        lemma_membership(s, me, s[0]);
    } else {
        assert(own_of(s, me).len() == 0 && others_of(s, me).len() == 0);
    }
}

} // verus!
