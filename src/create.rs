use vstd::prelude::*;

use crate::ids::{Oid, PeerId};
use crate::message::{
    description_of, parse_message, seed_message, title_end, title_of, PATCH_MSG,
};
use crate::targets::{
    find_merge_targets, lemma_targets_count, merged_of, not_merged_of, resolvable_of, PeerBranch,
};
use crate::text::{chars_of, trim, trim_chars};

verus! {

/// Why a patch proposal cannot go on.
#[derive(Clone, Copy, Debug, PartialEq, Eq, Structural)]
pub enum CreateError {
    /// `HEAD` names no commit.
    InvalidHead,
    /// `HEAD` is not on a branch.
    DetachedHead,
    /// The `HEAD` commit is not in storage, so no peer could fetch it.
    UnpublishedHead,
    /// No tracked branch is left to merge into.
    NoTargetsFound,
    /// More than one tracked branch could be the target.
    AmbiguousTarget,
    /// The `HEAD` commit message is not valid UTF-8.
    NonUtf8Message,
    /// The edited message has no blank line right after its first line, the
    /// title.
    MalformedMessage,
}

/// How the operator called a proposal off; not an error.
#[derive(Clone, Copy, Debug, PartialEq, Eq, Structural)]
pub enum Cancel {
    DiffDeclined,
    EditAborted,
    MessageDeclined,
}

/// What a proposal waits for.
#[derive(Clone, Copy, Debug, PartialEq, Eq, Structural)]
pub enum Stage {
    AwaitHead,
    AwaitStorage,
    AwaitTargets,
    AwaitDiffConfirm,
    AwaitCommitMessage,
    AwaitEdit,
    AwaitMessageConfirm,
    AwaitPersisted,
    AwaitSync,
    Finished,
}

/// What the outside world reports back to a proposal.
#[derive(Debug)]
pub enum Event {
    /// The commit and branch name of `HEAD`, where they exist.
    Head { oid: Option<Oid>, branch: Option<String> },
    /// Whether the `HEAD` commit was found in storage.
    Stored(bool),
    /// The tracked peers' default branches, as seen from the `HEAD` commit.
    Branches(Vec<PeerBranch>),
    /// The operator's answer after the diff preview.
    DiffConfirmed(bool),
    /// The `HEAD` commit message; `None` when it is not valid UTF-8.
    CommitMessage(Option<String>),
    /// The edited message; `None` when the operator did not save.
    Edited(Option<String>),
    /// The operator's answer after the message preview.
    MessageConfirmed(bool),
    /// The patch was stored.
    Persisted,
    /// The synchronisation step has run, successfully or not.
    Synced,
}

/// What a proposal asks the outside world to do next.
#[derive(Debug)]
pub enum Action {
    /// Look for the commit in storage.
    FindInStorage(Oid),
    /// Read the tracked peers' default branches relative to the commit.
    ResolveTargets(Oid),
    /// Show the peers that merged, the diff between `head` on `branch` and
    /// `target`, and ask to go on.
    PreviewDiff { head: Oid, branch: String, merged: Vec<(PeerId, Oid)>, target: (PeerId, Oid) },
    /// Read the commit's message.
    ReadCommitMessage(Oid),
    /// Let the operator edit this text.
    Edit(String),
    /// Show the title and description, and ask to go on.
    ConfirmMessage { title: String, description: String },
    /// Store a new patch proposing `head` against the default target.
    Persist { title: String, description: String, head: Oid },
    /// Publish the branch to a seed.
    Sync(String),
    /// The proposal is complete.
    Done,
    /// The operator called the proposal off.
    Cancelled(Cancel),
    /// The proposal failed.
    Failed(CreateError),
}

pub enum ActionView {
    FindInStorage(Oid),
    ResolveTargets(Oid),
    PreviewDiff { head: Oid, branch: Seq<char>, merged: Seq<(PeerId, Oid)>, target: (PeerId, Oid) },
    ReadCommitMessage(Oid),
    Edit(Seq<char>),
    ConfirmMessage { title: Seq<char>, description: Seq<char> },
    Persist { title: Seq<char>, description: Seq<char>, head: Oid },
    Sync(Seq<char>),
    Done,
    Cancelled(Cancel),
    Failed(CreateError),
}

impl View for Action {
    type V = ActionView;

    open spec fn view(&self) -> ActionView {
        match self {
            Action::FindInStorage(o) => ActionView::FindInStorage(*o),
            Action::ResolveTargets(o) => ActionView::ResolveTargets(*o),
            Action::PreviewDiff { head, branch, merged, target } => ActionView::PreviewDiff {
                head: *head,
                branch: branch@,
                merged: merged@,
                target: *target,
            },
            Action::ReadCommitMessage(o) => ActionView::ReadCommitMessage(*o),
            Action::Edit(t) => ActionView::Edit(t@),
            Action::ConfirmMessage { title, description } => ActionView::ConfirmMessage {
                title: title@,
                description: description@,
            },
            Action::Persist { title, description, head } => ActionView::Persist {
                title: title@,
                description: description@,
                head: *head,
            },
            Action::Sync(b) => ActionView::Sync(b@),
            Action::Done => ActionView::Done,
            Action::Cancelled(c) => ActionView::Cancelled(*c),
            Action::Failed(e) => ActionView::Failed(*e),
        }
    }
}

/// The decisions of one patch proposal, from `HEAD` to the stored patch.
/// Each step takes what the last action brought back and says what to do
/// next; nothing is stored before the operator has accepted both previews.
pub struct CreateFlow {
    pub stage: Stage,
    pub sync: bool,
    pub head: Oid,
    pub branch: String,
    pub title: String,
    pub description: String,
}

pub struct FlowView {
    pub stage: Stage,
    pub sync: bool,
    pub head: Oid,
    pub branch: Seq<char>,
    pub title: Seq<char>,
    pub description: Seq<char>,
}

impl View for CreateFlow {
    type V = FlowView;

    open spec fn view(&self) -> FlowView {
        FlowView {
            stage: self.stage,
            sync: self.sync,
            head: self.head,
            branch: self.branch@,
            title: self.title@,
            description: self.description@,
        }
    }
}

/// Whether a proposal at `stage` takes `e`.
pub open spec fn accepts(stage: Stage, e: Event) -> bool {
    match stage {
        Stage::AwaitHead => e is Head,
        Stage::AwaitStorage => e is Stored,
        Stage::AwaitTargets => e is Branches,
        Stage::AwaitDiffConfirm => e is DiffConfirmed,
        Stage::AwaitCommitMessage => e is CommitMessage,
        Stage::AwaitEdit => e is Edited,
        Stage::AwaitMessageConfirm => e is MessageConfirmed,
        Stage::AwaitPersisted => e is Persisted,
        Stage::AwaitSync => e is Synced,
        Stage::Finished => false,
    }
}

pub open spec fn finish(s: FlowView) -> FlowView {
    FlowView { stage: Stage::Finished, ..s }
}

pub open spec fn at(s: FlowView, stage: Stage) -> FlowView {
    FlowView { stage, ..s }
}

/// The proposal's next state and action, once `e` has come in.
pub open spec fn next(s: FlowView, e: Event) -> (FlowView, ActionView) {
    match e {
        Event::Head { oid, branch } => if oid is None {
            (finish(s), ActionView::Failed(CreateError::InvalidHead))
        } else if branch is None {
            (finish(s), ActionView::Failed(CreateError::DetachedHead))
        } else {
            (
                FlowView {
                    stage: Stage::AwaitStorage,
                    head: oid->0,
                    branch: branch->0@,
                    ..s
                },
                ActionView::FindInStorage(oid->0),
            )
        },
        Event::Stored(found) => if found {
            (at(s, Stage::AwaitTargets), ActionView::ResolveTargets(s.head))
        } else {
            (finish(s), ActionView::Failed(CreateError::UnpublishedHead))
        },
        Event::Branches(bs) => {
            let candidates = not_merged_of(s.head, bs@);
            if candidates.len() == 0 {
                (finish(s), ActionView::Failed(CreateError::NoTargetsFound))
            } else if candidates.len() > 1 {
                (finish(s), ActionView::Failed(CreateError::AmbiguousTarget))
            } else {
                (
                    at(s, Stage::AwaitDiffConfirm),
                    ActionView::PreviewDiff {
                        head: s.head,
                        branch: s.branch,
                        merged: merged_of(s.head, bs@),
                        target: candidates[0],
                    },
                )
            }
        },
        Event::DiffConfirmed(yes) => if yes {
            (at(s, Stage::AwaitCommitMessage), ActionView::ReadCommitMessage(s.head))
        } else {
            (finish(s), ActionView::Cancelled(Cancel::DiffDeclined))
        },
        Event::CommitMessage(m) => match m {
            Some(m) => (at(s, Stage::AwaitEdit), ActionView::Edit(m@ + PATCH_MSG@)),
            None => (finish(s), ActionView::Failed(CreateError::NonUtf8Message)),
        },
        Event::Edited(t) => match t {
            None => (finish(s), ActionView::Cancelled(Cancel::EditAborted)),
            Some(t) => if trim(t@).len() == 0 {
                (finish(s), ActionView::Cancelled(Cancel::EditAborted))
            } else {
                match title_end(t@) {
                    None => (finish(s), ActionView::Failed(CreateError::MalformedMessage)),
                    Some(i) => (
                        FlowView {
                            stage: Stage::AwaitMessageConfirm,
                            title: title_of(t@, i),
                            description: description_of(t@, i),
                            ..s
                        },
                        ActionView::ConfirmMessage {
                            title: title_of(t@, i),
                            description: description_of(t@, i),
                        },
                    ),
                }
            },
        },
        Event::MessageConfirmed(yes) => if yes {
            (
                at(s, Stage::AwaitPersisted),
                ActionView::Persist { title: s.title, description: s.description, head: s.head },
            )
        } else {
            (finish(s), ActionView::Cancelled(Cancel::MessageDeclined))
        },
        Event::Persisted => if s.sync {
            (at(s, Stage::AwaitSync), ActionView::Sync(s.branch))
        } else {
            (finish(s), ActionView::Done)
        },
        Event::Synced => (finish(s), ActionView::Done),
    }
}

impl CreateFlow {
    /// A proposal that waits for `HEAD`; `sync` says whether the branch is
    /// published to a seed once the patch is stored.
    pub fn new(sync: bool) -> (r: CreateFlow)
        ensures
            r.stage == Stage::AwaitHead,
            r.sync == sync,
    {
        CreateFlow {
            stage: Stage::AwaitHead,
            sync,
            head: Oid { hi: 0, mid: 0, lo: 0 },
            branch: String::new(),
            title: String::new(),
            description: String::new(),
        }
    }

    /// Whether the proposal takes `e` now.
    pub fn accepts(&self, e: &Event) -> (r: bool)
        ensures
            r == accepts(self.stage, *e),
    {
        match self.stage {
            Stage::AwaitHead => matches!(e, Event::Head { .. }),
            Stage::AwaitStorage => matches!(e, Event::Stored(_)),
            Stage::AwaitTargets => matches!(e, Event::Branches(_)),
            Stage::AwaitDiffConfirm => matches!(e, Event::DiffConfirmed(_)),
            Stage::AwaitCommitMessage => matches!(e, Event::CommitMessage(_)),
            Stage::AwaitEdit => matches!(e, Event::Edited(_)),
            Stage::AwaitMessageConfirm => matches!(e, Event::MessageConfirmed(_)),
            Stage::AwaitPersisted => matches!(e, Event::Persisted),
            Stage::AwaitSync => matches!(e, Event::Synced),
            Stage::Finished => false,
        }
    }

    /// Takes in what the last action brought back and says what to do next.
    pub fn step(&mut self, e: Event) -> (a: Action)
        requires
            accepts(old(self).stage, e),
        ensures
            (final(self)@, a@) == next(old(self)@, e),
    {
        match e {
            Event::Head { oid, branch } => match (oid, branch) {
                (None, _) => {
                    self.stage = Stage::Finished;
                    Action::Failed(CreateError::InvalidHead)
                },
                (Some(_), None) => {
                    self.stage = Stage::Finished;
                    Action::Failed(CreateError::DetachedHead)
                },
                (Some(oid), Some(branch)) => {
                    self.stage = Stage::AwaitStorage;
                    self.head = oid;
                    self.branch = branch;
                    Action::FindInStorage(oid)
                },
            },
            Event::Stored(found) => {
                if found {
                    self.stage = Stage::AwaitTargets;
                    Action::ResolveTargets(self.head)
                } else {
                    self.stage = Stage::Finished;
                    Action::Failed(CreateError::UnpublishedHead)
                }
            },
            Event::Branches(bs) => {
                let targets = find_merge_targets(self.head, &bs);
                if targets.not_merged.len() == 0 {
                    self.stage = Stage::Finished;
                    Action::Failed(CreateError::NoTargetsFound)
                } else if targets.not_merged.len() > 1 {
                    self.stage = Stage::Finished;
                    Action::Failed(CreateError::AmbiguousTarget)
                } else {
                    self.stage = Stage::AwaitDiffConfirm;
                    let target = targets.not_merged[0];
                    Action::PreviewDiff {
                        head: self.head,
                        branch: self.branch.clone(),
                        merged: targets.merged,
                        target,
                    }
                }
            },
            Event::DiffConfirmed(yes) => {
                if yes {
                    self.stage = Stage::AwaitCommitMessage;
                    Action::ReadCommitMessage(self.head)
                } else {
                    self.stage = Stage::Finished;
                    Action::Cancelled(Cancel::DiffDeclined)
                }
            },
            Event::CommitMessage(m) => match m {
                Some(m) => {
                    self.stage = Stage::AwaitEdit;
                    Action::Edit(seed_message(m.as_str()))
                },
                None => {
                    self.stage = Stage::Finished;
                    Action::Failed(CreateError::NonUtf8Message)
                },
            },
            Event::Edited(t) => match t {
                None => {
                    self.stage = Stage::Finished;
                    Action::Cancelled(Cancel::EditAborted)
                },
                Some(t) => {
                    let trimmed = trim_chars(&chars_of(t.as_str()));
                    if trimmed.len() == 0 {
                        self.stage = Stage::Finished;
                        Action::Cancelled(Cancel::EditAborted)
                    } else {
                        match parse_message(t.as_str()) {
                            None => {
                                self.stage = Stage::Finished;
                                Action::Failed(CreateError::MalformedMessage)
                            },
                            Some((title, description)) => {
                                self.stage = Stage::AwaitMessageConfirm;
                                self.title = title.clone();
                                self.description = description.clone();
                                Action::ConfirmMessage { title, description }
                            },
                        }
                    }
                },
            },
            Event::MessageConfirmed(yes) => {
                if yes {
                    self.stage = Stage::AwaitPersisted;
                    Action::Persist {
                        title: self.title.clone(),
                        description: self.description.clone(),
                        head: self.head,
                    }
                } else {
                    self.stage = Stage::Finished;
                    Action::Cancelled(Cancel::MessageDeclined)
                }
            },
            Event::Persisted => {
                if self.sync {
                    self.stage = Stage::AwaitSync;
                    Action::Sync(self.branch.clone())
                } else {
                    self.stage = Stage::Finished;
                    Action::Done
                }
            },
            Event::Synced => {
                self.stage = Stage::Finished;
                Action::Done
            },
        }
    }
}

/// The actions of a proposal at `s` that takes in `evs` in order, up to the
/// first event that it does not take.
pub open spec fn run(s: FlowView, evs: Seq<Event>) -> Seq<ActionView>
    decreases evs.len(),
{
    if evs.len() == 0 || !accepts(s.stage, evs[0]) {
        seq![]
    } else {
        seq![next(s, evs[0]).1] + run(next(s, evs[0]).0, evs.drop_first())
    }
}

pub open spec fn stores_patch(actions: Seq<ActionView>) -> bool {
    exists|k: int| 0 <= k < actions.len() && #[trigger] actions[k] is Persist
}

pub open spec fn rank(stage: Stage) -> nat {
    match stage {
        Stage::AwaitHead => 0,
        Stage::AwaitStorage => 1,
        Stage::AwaitTargets => 2,
        Stage::AwaitDiffConfirm => 3,
        Stage::AwaitCommitMessage => 4,
        Stage::AwaitEdit => 5,
        Stage::AwaitMessageConfirm => 6,
        Stage::AwaitPersisted => 7,
        Stage::AwaitSync => 8,
        Stage::Finished => 9,
    }
}

/// Whether `e` is the answer that stops a proposal waiting at `gate`.
pub open spec fn refuses(gate: Stage, e: Event) -> bool {
    match e {
        Event::Stored(found) => gate == Stage::AwaitStorage && !found,
        Event::DiffConfirmed(yes) => gate == Stage::AwaitDiffConfirm && !yes,
        Event::MessageConfirmed(yes) => gate == Stage::AwaitMessageConfirm && !yes,
        _ => false,
    }
}

/// Every answer that `evs` gives at `gate` is a refusal.
pub open spec fn always_refused(gate: Stage, evs: Seq<Event>) -> bool {
    forall|i: int| 0 <= i < evs.len() && accepts(gate, #[trigger] evs[i]) ==> refuses(gate, evs[i])
}

proof fn lemma_gate_blocks(s: FlowView, evs: Seq<Event>, gate: Stage)
    requires
        gate == Stage::AwaitStorage || gate == Stage::AwaitDiffConfirm || gate
            == Stage::AwaitMessageConfirm,
        rank(s.stage) <= rank(gate) || s.stage == Stage::Finished,
        always_refused(gate, evs),
    ensures
        !stores_patch(run(s, evs)),
    decreases evs.len(),
{
    if evs.len() > 0 && accepts(s.stage, evs[0]) {
        let e = evs[0];
        let (t, a) = next(s, e);
        let rest = evs.drop_first();
        assert forall|i: int| 0 <= i < rest.len() && accepts(gate, #[trigger] rest[i]) implies refuses(
            gate,
            rest[i],
        ) by {
            assert(rest[i] == evs[i + 1]);
        }
        if s.stage == gate {
            assert(refuses(gate, evs[0]));
        }
        lemma_gate_blocks(t, rest, gate);
        let r = run(s, evs);
        assert(r == seq![a] + run(t, rest));
        if stores_patch(r) {
            let k = choose|k: int| 0 <= k < r.len() && #[trigger] r[k] is Persist;
            if k > 0 {
                assert(run(t, rest)[k - 1] is Persist);
            }
        }
    }
}

/// A proposal stores no patch when the operator declines the diff preview or
/// the message preview, whatever else happens.
pub proof fn lemma_declined_never_persists(s: FlowView, evs: Seq<Event>)
    requires
        s.stage == Stage::AwaitHead,
        always_refused(Stage::AwaitDiffConfirm, evs) || always_refused(
            Stage::AwaitMessageConfirm,
            evs,
        ),
    ensures
        !stores_patch(run(s, evs)),
{
    if always_refused(Stage::AwaitDiffConfirm, evs) {
        lemma_gate_blocks(s, evs, Stage::AwaitDiffConfirm);
    } else {
        lemma_gate_blocks(s, evs, Stage::AwaitMessageConfirm);
    }
}

/// A proposal whose `HEAD` commit is missing from storage fails with
/// `UnpublishedHead` at that point and stores no patch.
pub proof fn lemma_unpublished_never_persists(s: FlowView, evs: Seq<Event>)
    requires
        s.stage == Stage::AwaitHead,
        always_refused(Stage::AwaitStorage, evs),
    ensures
        !stores_patch(run(s, evs)),
        forall|t: FlowView|
            t.stage == Stage::AwaitStorage ==> #[trigger] next(t, Event::Stored(false)) == (
            finish(t),
            ActionView::Failed(CreateError::UnpublishedHead),
        ),
{
    lemma_gate_blocks(s, evs, Stage::AwaitStorage);
}

/// When no tracked branch is resolvable locally, a proposal fails with
/// `NoTargetsFound`.
pub proof fn lemma_no_branches_no_target(s: FlowView, bs: Vec<PeerBranch>)
    requires
        s.stage == Stage::AwaitTargets,
        resolvable_of(bs@).len() == 0,
    ensures
        merged_of(s.head, bs@).len() == 0,
        not_merged_of(s.head, bs@).len() == 0,
        next(s, Event::Branches(bs)) == (finish(s), ActionView::Failed(CreateError::NoTargetsFound)),
{
    lemma_targets_count(s.head, bs@);
}

} // verus!
