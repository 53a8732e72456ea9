use rad_patch::create::{Action, Cancel, CreateError, CreateFlow, Event, Stage};
use rad_patch::ids::{Oid, PeerId};
use rad_patch::message::{parse_message, seed_message, PATCH_MSG};
use rad_patch::targets::{find_merge_targets, PeerBranch};

fn oid(n: u32) -> Oid {
    Oid { hi: 0, mid: 0, lo: n }
}

fn peer(n: u64) -> PeerId {
    PeerId { k0: n, k1: 0, k2: 0, k3: 0 }
}

fn feed(flow: &mut CreateFlow, e: Event) -> Action {
    assert!(flow.accepts(&e));
    flow.step(e)
}

fn head_event(c: Oid) -> Event {
    Event::Head { oid: Some(c), branch: Some("feature".to_string()) }
}

fn is_persist(a: &Action) -> bool {
    matches!(a, Action::Persist { .. })
}

/// Runs a proposal up to the diff preview against the single branch of
/// peer 2, which does not contain the head.
fn flow_at_diff_preview(sync: bool) -> CreateFlow {
    let c = oid(7);
    let mut flow = CreateFlow::new(sync);
    assert!(matches!(feed(&mut flow, head_event(c)), Action::FindInStorage(x) if x == c));
    assert!(matches!(feed(&mut flow, Event::Stored(true)), Action::ResolveTargets(x) if x == c));
    let branches = vec![PeerBranch { peer: peer(2), tip: Some(oid(9)), descends: false }];
    let a = feed(&mut flow, Event::Branches(branches));
    assert!(matches!(a, Action::PreviewDiff { target, .. } if target == (peer(2), oid(9))));
    flow
}

#[test]
fn two_peers_one_merged_one_target() {
    let c = oid(3);
    let branches = vec![
        PeerBranch { peer: peer(1), tip: Some(oid(10)), descends: true },
        PeerBranch { peer: peer(2), tip: Some(oid(20)), descends: false },
    ];
    let t = find_merge_targets(c, &branches);
    assert_eq!(t.merged, vec![(peer(1), oid(10))]);
    assert_eq!(t.not_merged, vec![(peer(2), oid(20))]);

    let mut flow = CreateFlow::new(false);
    feed(&mut flow, head_event(c));
    feed(&mut flow, Event::Stored(true));
    match feed(&mut flow, Event::Branches(branches)) {
        Action::PreviewDiff { head, branch, merged, target } => {
            assert_eq!(head, c);
            assert_eq!(branch, "feature");
            assert_eq!(merged, vec![(peer(1), oid(10))]);
            assert_eq!(target, (peer(2), oid(20)));
        },
        other => panic!("unexpected action {:?}", other),
    }
}

#[test]
fn tip_equal_to_proposed_is_merged() {
    let c = oid(5);
    let branches = vec![
        PeerBranch { peer: peer(1), tip: Some(c), descends: false },
        PeerBranch { peer: peer(2), tip: Some(oid(6)), descends: false },
        PeerBranch { peer: peer(3), tip: None, descends: true },
    ];
    let t = find_merge_targets(c, &branches);
    assert_eq!(t.merged, vec![(peer(1), c)]);
    assert_eq!(t.not_merged, vec![(peer(2), oid(6))]);
}

#[test]
fn no_resolvable_peers_no_target() {
    let c = oid(5);
    let branches = vec![
        PeerBranch { peer: peer(1), tip: None, descends: false },
        PeerBranch { peer: peer(2), tip: None, descends: true },
    ];
    let t = find_merge_targets(c, &branches);
    assert!(t.merged.is_empty());
    assert!(t.not_merged.is_empty());

    let mut flow = CreateFlow::new(true);
    feed(&mut flow, head_event(c));
    feed(&mut flow, Event::Stored(true));
    let a = feed(&mut flow, Event::Branches(branches));
    assert!(matches!(a, Action::Failed(CreateError::NoTargetsFound)));
    assert!(!is_persist(&a));
    assert_eq!(flow.stage, Stage::Finished);
    assert!(!flow.accepts(&Event::Persisted));
}

#[test]
fn all_peers_merged_no_target() {
    let c = oid(5);
    let branches = vec![PeerBranch { peer: peer(1), tip: Some(c), descends: false }];
    let mut flow = CreateFlow::new(true);
    feed(&mut flow, head_event(c));
    feed(&mut flow, Event::Stored(true));
    let a = feed(&mut flow, Event::Branches(branches));
    assert!(matches!(a, Action::Failed(CreateError::NoTargetsFound)));
}

#[test]
fn two_candidates_are_ambiguous() {
    let c = oid(5);
    let branches = vec![
        PeerBranch { peer: peer(1), tip: Some(oid(1)), descends: false },
        PeerBranch { peer: peer(2), tip: Some(oid(2)), descends: false },
    ];
    let mut flow = CreateFlow::new(true);
    feed(&mut flow, head_event(c));
    feed(&mut flow, Event::Stored(true));
    let a = feed(&mut flow, Event::Branches(branches));
    assert!(matches!(a, Action::Failed(CreateError::AmbiguousTarget)));
}

#[test]
fn head_errors() {
    let mut flow = CreateFlow::new(true);
    let a = feed(&mut flow, Event::Head { oid: None, branch: Some("main".to_string()) });
    assert!(matches!(a, Action::Failed(CreateError::InvalidHead)));

    let mut flow = CreateFlow::new(true);
    let a = feed(&mut flow, Event::Head { oid: Some(oid(1)), branch: None });
    assert!(matches!(a, Action::Failed(CreateError::DetachedHead)));
    assert_eq!(flow.stage, Stage::Finished);
}

#[test]
fn unpublished_head_fails_without_storing() {
    let mut flow = CreateFlow::new(true);
    feed(&mut flow, head_event(oid(1)));
    let a = feed(&mut flow, Event::Stored(false));
    assert!(matches!(a, Action::Failed(CreateError::UnpublishedHead)));
    assert_eq!(flow.stage, Stage::Finished);
    assert!(!flow.accepts(&Event::Stored(true)));
}

#[test]
fn declined_diff_cancels() {
    let mut flow = flow_at_diff_preview(true);
    let a = feed(&mut flow, Event::DiffConfirmed(false));
    assert!(matches!(a, Action::Cancelled(Cancel::DiffDeclined)));
    assert_eq!(flow.stage, Stage::Finished);
    assert!(!flow.accepts(&Event::MessageConfirmed(true)));
}

#[test]
fn declined_message_cancels() {
    let mut flow = flow_at_diff_preview(true);
    assert!(matches!(feed(&mut flow, Event::DiffConfirmed(true)), Action::ReadCommitMessage(_)));
    feed(&mut flow, Event::CommitMessage(Some("Title\n\nBody".to_string())));
    let a = feed(&mut flow, Event::Edited(Some("Title\n\nBody".to_string())));
    assert!(matches!(a, Action::ConfirmMessage { .. }));
    let a = feed(&mut flow, Event::MessageConfirmed(false));
    assert!(matches!(a, Action::Cancelled(Cancel::MessageDeclined)));
    assert!(!flow.accepts(&Event::Persisted));
}

#[test]
fn edit_not_saved_or_empty_cancels() {
    let mut flow = flow_at_diff_preview(true);
    feed(&mut flow, Event::DiffConfirmed(true));
    feed(&mut flow, Event::CommitMessage(Some("m".to_string())));
    let a = feed(&mut flow, Event::Edited(None));
    assert!(matches!(a, Action::Cancelled(Cancel::EditAborted)));

    let mut flow = flow_at_diff_preview(true);
    feed(&mut flow, Event::DiffConfirmed(true));
    feed(&mut flow, Event::CommitMessage(Some("m".to_string())));
    let a = feed(&mut flow, Event::Edited(Some(" \n\n\t".to_string())));
    assert!(matches!(a, Action::Cancelled(Cancel::EditAborted)));
}

#[test]
fn malformed_and_non_utf8_messages_fail() {
    let mut flow = flow_at_diff_preview(true);
    feed(&mut flow, Event::DiffConfirmed(true));
    feed(&mut flow, Event::CommitMessage(Some("m".to_string())));
    let a = feed(&mut flow, Event::Edited(Some("Only a title\nno blank line".to_string())));
    assert!(matches!(a, Action::Failed(CreateError::MalformedMessage)));

    let mut flow = flow_at_diff_preview(true);
    feed(&mut flow, Event::DiffConfirmed(true));
    let a = feed(&mut flow, Event::CommitMessage(None));
    assert!(matches!(a, Action::Failed(CreateError::NonUtf8Message)));
}

#[test]
fn accepted_proposal_is_stored_then_synced() {
    let mut flow = flow_at_diff_preview(true);
    feed(&mut flow, Event::DiffConfirmed(true));
    let seed = match feed(&mut flow, Event::CommitMessage(Some("Fix it\n\nDetails".to_string()))) {
        Action::Edit(text) => text,
        other => panic!("unexpected action {:?}", other),
    };
    assert_eq!(seed, format!("Fix it\n\nDetails{}", PATCH_MSG));
    let a = feed(&mut flow, Event::Edited(Some(seed)));
    match a {
        Action::ConfirmMessage { title, description } => {
            assert_eq!(title, "Fix it");
            assert_eq!(description, "Details");
        },
        other => panic!("unexpected action {:?}", other),
    }
    match feed(&mut flow, Event::MessageConfirmed(true)) {
        Action::Persist { title, description, head } => {
            assert_eq!(title, "Fix it");
            assert_eq!(description, "Details");
            assert_eq!(head, oid(7));
        },
        other => panic!("unexpected action {:?}", other),
    }
    match feed(&mut flow, Event::Persisted) {
        Action::Sync(branch) => assert_eq!(branch, "feature"),
        other => panic!("unexpected action {:?}", other),
    }
    assert!(matches!(feed(&mut flow, Event::Synced), Action::Done));
    assert_eq!(flow.stage, Stage::Finished);
}

#[test]
fn no_sync_finishes_after_store() {
    let mut flow = flow_at_diff_preview(false);
    feed(&mut flow, Event::DiffConfirmed(true));
    feed(&mut flow, Event::CommitMessage(Some("T\n\nB".to_string())));
    feed(&mut flow, Event::Edited(Some("T\n\nB".to_string())));
    assert!(is_persist(&feed(&mut flow, Event::MessageConfirmed(true))));
    assert!(matches!(feed(&mut flow, Event::Persisted), Action::Done));
}

#[test]
fn seed_message_round_trip_strips_instructions() {
    let seed = seed_message("Title line\n\nBody text");
    assert!(seed.starts_with("Title line\n\nBody text"));
    assert!(seed.ends_with("-->\n"));
    assert_eq!(seed.len(), "Title line\n\nBody text".len() + PATCH_MSG.len());
    let (title, description) = parse_message(&seed).unwrap();
    assert_eq!(title, "Title line");
    assert_eq!(description, "Body text");
}

#[test]
fn parse_message_splits_at_first_blank_line() {
    let (title, description) = parse_message("  A title \n\nfirst\n\nsecond  \n").unwrap();
    assert_eq!(title, "A title");
    assert_eq!(description, "first\n\nsecond");
    assert!(parse_message("no body here").is_none());
    let (title, description) = parse_message("Title\n\n").unwrap();
    assert_eq!(title, "Title");
    assert_eq!(description, "");
}

#[test]
fn parse_message_trims_unicode_white_space() {
    let (title, description) = parse_message("\u{3000}Title\u{a0}\n\n\u{2003}Body\u{85}").unwrap();
    assert_eq!(title, "Title");
    assert_eq!(description, "Body");
}

#[test]
fn two_line_title_is_malformed() {
    assert!(parse_message("a\nb\n\nc").is_none());
    let (title, description) = parse_message("\nOne line\n\nc").unwrap();
    assert_eq!(title, "One line");
    assert_eq!(description, "c");

    let mut flow = flow_at_diff_preview(true);
    feed(&mut flow, Event::DiffConfirmed(true));
    feed(&mut flow, Event::CommitMessage(Some("m".to_string())));
    let a = feed(&mut flow, Event::Edited(Some("First line\nsecond line\n\nBody".to_string())));
    assert!(matches!(a, Action::Failed(CreateError::MalformedMessage)));
    assert!(!flow.accepts(&Event::MessageConfirmed(true)));
}

#[test]
fn instructions_in_the_middle_are_cut_out() {
    let block = PATCH_MSG.trim();
    let text = format!("Title\n\n Before\n{}\nAfter \n", block);
    let (title, description) = parse_message(&text).unwrap();
    assert_eq!(title, "Title");
    assert_eq!(description, "Before\n\nAfter");

    // What is left once the block is cut out is not cut again.
    let text = format!("Title\n\nx <!{}{}", block, &block[2..]);
    let (_, description) = parse_message(&text).unwrap();
    assert_eq!(description, format!("x {}", block));
}
