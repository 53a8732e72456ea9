use rad_patch::ids::{Oid, PeerId, Urn};
use rad_patch::listing::{
    diff_query, merge_badges, partition_patches, summarize, Merge, Patch, PeerInfo, Revision,
};
use rad_patch::options::{ArgToken, ArgsError};
use rad_patch::Options;

fn oid(n: u32) -> Oid {
    Oid { hi: 1, mid: 2, lo: n }
}

fn urn(n: u32) -> Urn {
    Urn { id: oid(n) }
}

fn peer(n: u64) -> PeerId {
    PeerId { k0: n, k1: 0, k2: 0, k3: 0 }
}

fn patch(author: Urn, title: &str, tags: &[u32]) -> Patch {
    Patch {
        author,
        title: title.to_string(),
        description: String::new(),
        timestamp: 100,
        revisions: tags
            .iter()
            .enumerate()
            .map(|(i, t)| Revision { version: i as u64, tag: oid(*t), merges: vec![] })
            .collect(),
    }
}

#[test]
fn listing_groups_by_author_in_order() {
    let me = urn(1);
    let them = urn(2);
    let patches = vec![
        (oid(10), patch(them, "a", &[1])),
        (oid(11), patch(me, "b", &[2])),
        (oid(12), patch(them, "c", &[3])),
        (oid(13), patch(me, "d", &[4])),
    ];
    let (own, other) = partition_patches(patches, me);
    let own_ids: Vec<Oid> = own.iter().map(|e| e.0).collect();
    let other_ids: Vec<Oid> = other.iter().map(|e| e.0).collect();
    assert_eq!(own_ids, vec![oid(11), oid(13)]);
    assert_eq!(other_ids, vec![oid(10), oid(12)]);
    assert!(own.iter().all(|e| e.1.author == me));
    assert!(other.iter().all(|e| e.1.author != me));
}

#[test]
fn listing_of_nothing_is_empty() {
    let (own, other) = partition_patches(vec![], urn(1));
    assert!(own.is_empty());
    assert!(other.is_empty());
}

#[test]
fn summary_uses_latest_revision_and_fresh_counts() {
    let me = urn(1);
    let p = patch(me, "Title", &[5, 6, 7]);
    assert_eq!(diff_query(&p, Some(oid(40))), Some((oid(7), oid(40))));
    assert_eq!(diff_query(&p, Some(oid(41))), Some((oid(7), oid(41))));
    assert_eq!(diff_query(&p, None), None);

    let s = summarize(&p, me, Some((3, 1)));
    assert_eq!(s.title, "Title");
    assert_eq!(s.version, 2);
    assert_eq!(s.tag, oid(7));
    assert_eq!(s.ahead_behind, Some((3, 1)));
    assert!(s.you);

    let later = summarize(&p, urn(9), Some((4, 0)));
    assert_eq!(later.ahead_behind, Some((4, 0)));
    assert!(!later.you);
    assert_eq!(p.latest_revision().tag, oid(7));
}

#[test]
fn merge_badges_for_delegate_and_self() {
    let local = peer(1);
    let both = merge_badges(&PeerInfo { id: local, delegate: true }, local);
    assert!(both.delegate && both.you);
    let delegate = merge_badges(&PeerInfo { id: peer(2), delegate: true }, local);
    assert!(delegate.delegate && !delegate.you);
    let me = merge_badges(&PeerInfo { id: local, delegate: false }, local);
    assert!(!me.delegate && me.you);
    let none = merge_badges(&PeerInfo { id: peer(3), delegate: false }, local);
    assert!(!none.delegate && !none.you);
    let m = Merge { peer: local, timestamp: 7 };
    assert_eq!(m.timestamp, 7);
}

#[test]
fn options_default_to_sync() {
    let o = Options::from_args(&vec![]).unwrap();
    assert_eq!(o, Options { list: false, verbose: false, sync: true });
}

#[test]
fn options_read_flags() {
    let args = vec![
        ArgToken::Long("list".to_string()),
        ArgToken::Short('v'),
        ArgToken::Long("no-sync".to_string()),
    ];
    assert_eq!(Options::from_args(&args), Ok(Options { list: true, verbose: true, sync: false }));
    let args = vec![ArgToken::Long("no-sync".to_string()), ArgToken::Long("sync".to_string())];
    assert_eq!(Options::from_args(&args), Ok(Options { list: false, verbose: false, sync: true }));
    let args = vec![ArgToken::Short('l'), ArgToken::Long("verbose".to_string())];
    assert_eq!(Options::from_args(&args), Ok(Options { list: true, verbose: true, sync: true }));
}

#[test]
fn options_reject_help_and_unknown() {
    let args = vec![ArgToken::Short('l'), ArgToken::Long("help".to_string())];
    assert_eq!(Options::from_args(&args), Err(ArgsError::Help));
    let args = vec![ArgToken::Short('l'), ArgToken::Short('x'), ArgToken::Long("help".to_string())];
    assert_eq!(Options::from_args(&args), Err(ArgsError::Unexpected(1)));
    let args = vec![ArgToken::Value("extra".to_string())];
    assert_eq!(Options::from_args(&args), Err(ArgsError::Unexpected(0)));
    let args = vec![ArgToken::Long("lists".to_string())];
    assert_eq!(Options::from_args(&args), Err(ArgsError::Unexpected(0)));
}
