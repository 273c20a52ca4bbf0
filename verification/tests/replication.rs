//! Behavioural tests of the verifier, the fast-forward, the gossip
//! facade and the rate limiter.

use librad::gossip::{
    ask, fetch_gate, put_verdict, FetchDecision, FetchOutcome, Payload, PutResult, Rev,
};
use librad::identity::{fast_forward, merge, verify, Error, VerifiedPerson};
use librad::ids::{Oid, PeerId, Revision};
use librad::limiter::{rate_check, RateWindow};
use librad::engine::install;
use librad::fetch::{Fetchspecs, Limit};
use librad::path::{Category, Seg};
use librad::sigrefs::{Refs, RemoteHeads, SigEntry};
use librad::store::{DocData, Obj, Store};
use librad::tracking::track;
use librad::urn::Urn;

fn peer(b: u8) -> PeerId {
    PeerId::new(vec![b; 32])
}

fn rev(b: u8) -> Revision {
    Revision::new(vec![b; 32])
}

fn oid(b: u8) -> Oid {
    Oid::new(vec![b; 20])
}

fn rad_id_path() -> Vec<Seg> {
    vec![
        Seg::Refs,
        Seg::Cat(Category::Rad),
        Seg::Lit(b"id".to_vec()),
    ]
}

fn root_doc(urn_id: u8, delegates: &[u8], signers: &[u8]) -> Obj {
    Obj::Doc(DocData {
        root: rev(urn_id),
        parent: None,
        merged: None,
        delegations: delegates.iter().map(|b| peer(*b)).collect(),
        signatures: signers.iter().map(|b| peer(*b)).collect(),
    })
}

#[test]
fn verify_accepts_a_quorate_root() {
    let mut store = Store::new(peer(1));
    let u = Urn::new(rev(9));
    store.put_obj(oid(7), root_doc(9, &[2, 3, 4], &[2, 3]));
    store.set_ref(&rev(9), rad_id_path(), &oid(7));
    let vp = verify(&store, &u).unwrap();
    assert_eq!(vp.content_id.bytes, vec![7u8; 20]);
    assert_eq!(vp.urn_id.hash, vec![9u8; 32]);
}

#[test]
fn verify_rejects_a_minority() {
    let mut store = Store::new(peer(1));
    let u = Urn::new(rev(9));
    store.put_obj(oid(7), root_doc(9, &[2, 3, 4], &[2]));
    store.set_ref(&rev(9), rad_id_path(), &oid(7));
    assert!(matches!(verify(&store, &u), Err(Error::QuorumFailed)));
}

#[test]
fn verify_walks_to_the_root() {
    let mut store = Store::new(peer(1));
    let u = Urn::new(rev(9));
    store.put_obj(oid(7), root_doc(9, &[2, 3, 4], &[2, 3]));
    store.put_obj(
        oid(8),
        Obj::Doc(DocData {
            root: rev(9),
            parent: Some(oid(7)),
            merged: None,
            delegations: vec![peer(5)],
            // signed by a majority of the *prior* delegations
            signatures: vec![peer(2), peer(4)],
        }),
    );
    store.set_ref(&rev(9), rad_id_path(), &oid(8));
    let vp = verify(&store, &u).unwrap();
    assert_eq!(vp.content_id.bytes, vec![8u8; 20]);
}

#[test]
fn verify_without_the_ref_is_not_found() {
    let store = Store::new(peer(1));
    let u = Urn::new(rev(9));
    assert!(matches!(verify(&store, &u), Err(Error::NotFound)));
}

#[test]
fn verify_rejects_an_unsigned_tip() {
    let mut store = Store::new(peer(1));
    let u = Urn::new(rev(9));
    store.put_obj(oid(7), Obj::Blob);
    store.set_ref(&rev(9), rad_id_path(), &oid(7));
    assert!(matches!(verify(&store, &u), Err(Error::NotSigned)));
}

#[test]
fn verify_rejects_a_foreign_root() {
    let mut store = Store::new(peer(1));
    let u = Urn::new(rev(9));
    store.put_obj(oid(7), root_doc(8, &[2], &[2]));
    store.set_ref(&rev(9), rad_id_path(), &oid(7));
    assert!(matches!(verify(&store, &u), Err(Error::HistoryDiverged)));
}

#[test]
fn fast_forward_advances_only_descendants() {
    let mut store = Store::new(peer(1));
    store.set_ref(&rev(9), rad_id_path(), &oid(7));
    store.add_descent(oid(8), oid(7));
    // not a descendant: a no-op
    let vp = VerifiedPerson { urn_id: rev(9), content_id: oid(6) };
    assert!(fast_forward(&mut store, &vp).is_none());
    assert_eq!(store.get_ref(&rev(9), &rad_id_path()).unwrap().bytes, vec![7u8; 20]);
    // a descendant: the ref advances and the tip is returned
    let vp = VerifiedPerson { urn_id: rev(9), content_id: oid(8) };
    let moved = fast_forward(&mut store, &vp).unwrap();
    assert_eq!(moved.bytes, vec![8u8; 20]);
    assert_eq!(store.get_ref(&rev(9), &rad_id_path()).unwrap().bytes, vec![8u8; 20]);
}

#[test]
fn merge_records_both_parents() {
    let mut store = Store::new(peer(1));
    store.put_obj(oid(7), root_doc(9, &[1, 2], &[1, 2]));
    store.set_ref(&rev(9), rad_id_path(), &oid(7));
    store.set_ref(
        &rev(9),
        vec![
            Seg::Refs,
            Seg::Remotes,
            Seg::Lit(vec![2u8; 32]),
            Seg::Cat(Category::Rad),
            Seg::Lit(b"id".to_vec()),
        ],
        &oid(6),
    );
    let u = Urn::new(rev(9));
    let merged = merge(&mut store, &u, &peer(2), oid(5), vec![peer(1)]).unwrap();
    assert_eq!(merged.bytes, vec![5u8; 20]);
    assert_eq!(store.get_ref(&rev(9), &rad_id_path()).unwrap().bytes, vec![5u8; 20]);
    match store.get_obj(&oid(5)) {
        Some(Obj::Doc(d)) => {
            assert_eq!(d.parent.as_ref().unwrap().bytes, vec![7u8; 20]);
            assert_eq!(d.merged.as_ref().unwrap().bytes, vec![6u8; 20]);
        }
        _ => panic!("merge did not record a document"),
    }
}

#[test]
fn merge_without_their_tip_is_not_found() {
    let mut store = Store::new(peer(1));
    store.put_obj(oid(7), root_doc(9, &[1], &[1]));
    store.set_ref(&rev(9), rad_id_path(), &oid(7));
    let u = Urn::new(rev(9));
    assert!(matches!(
        merge(&mut store, &u, &peer(2), oid(5), vec![peer(1)]),
        Err(Error::NotFound)
    ));
}

fn payload(urn_id: u8, head: Option<u8>, origin: Option<u8>) -> Payload {
    Payload {
        urn: Urn::new(rev(urn_id)),
        rev: head.map(|b| Rev::Git(oid(b))),
        origin: origin.map(peer),
    }
}

#[test]
fn put_of_an_untracked_peer_is_uninteresting() {
    let store = Store::new(peer(1));
    let r = put_verdict(&store, &peer(2), &payload(9, None, None), FetchOutcome::Fetched);
    assert!(matches!(r, PutResult::Uninteresting));
}

#[test]
fn put_applies_what_is_present_and_ask_confirms_it() {
    let mut store = Store::new(peer(1));
    let u = Urn::new(rev(9));
    track(&mut store, &u, peer(2)).unwrap();
    store.put_obj(oid(7), Obj::Blob);
    let r = put_verdict(&store, &peer(2), &payload(9, Some(7), None), FetchOutcome::Fetched);
    match r {
        PutResult::Applied(p) => {
            assert_eq!(p.origin.as_ref().unwrap().key, vec![2u8; 32]);
            assert!(ask(&store, &p));
        }
        _ => panic!("expected the announcement to be applied"),
    }
}

#[test]
fn put_of_an_absent_head_is_stale() {
    let mut store = Store::new(peer(1));
    let u = Urn::new(rev(9));
    track(&mut store, &u, peer(2)).unwrap();
    let r = put_verdict(&store, &peer(2), &payload(9, Some(7), None), FetchOutcome::Fetched);
    assert!(matches!(r, PutResult::Stale));
    let r = put_verdict(&store, &peer(2), &payload(9, Some(7), None), FetchOutcome::RateLimited);
    assert!(matches!(r, PutResult::Stale));
    let r = put_verdict(&store, &peer(2), &payload(9, Some(7), None), FetchOutcome::Failed);
    assert!(matches!(r, PutResult::Error));
}

#[test]
fn rate_limiter_refuses_past_the_quota() {
    let mut w = RateWindow { started_ms: 0, used: 0 };
    assert!(rate_check(&mut w, 100, 1, 1000));
    // the second within-window attempt is refused
    assert!(!rate_check(&mut w, 200, 1, 1000));
    // the window turns and one fetch is accepted again
    assert!(rate_check(&mut w, 1000, 1, 1000));
    assert!(!rate_check(&mut w, 1500, 1, 1000));
}

#[test]
fn fetch_gate_short_circuits_known_objects() {
    let mut store = Store::new(peer(1));
    store.put_obj(oid(7), Obj::Blob);
    let mut w = RateWindow { started_ms: 0, used: 0 };
    let r = fetch_gate(&store, &Some(oid(7)), &mut w, 100, 1, 1000);
    assert!(matches!(r, FetchDecision::KnownObject));
    // the rate window is untouched by the short-circuit
    assert_eq!(w.used, 0);
    let r = fetch_gate(&store, &Some(oid(8)), &mut w, 100, 1, 1000);
    assert!(matches!(r, FetchDecision::Proceed));
    let r = fetch_gate(&store, &Some(oid(8)), &mut w, 200, 1, 1000);
    assert!(matches!(r, FetchDecision::RateLimited));
}

#[test]
fn install_elides_mismatched_signed_refs() {
    let mut store = Store::new(peer(1));
    let u = Urn::new(rev(9));
    track(&mut store, &u, peer(2)).unwrap();

    // peer 2 signs `heads/main` at oid 7 but advertises oid 8: the
    // planner elides the entry and the install writes nothing for it
    let manifest = Refs {
        entries: vec![SigEntry::new(Category::Heads, b"main".to_vec(), oid(7))],
    };
    let mut heads = RemoteHeads::new();
    heads.push_head(
        vec![
            Seg::Refs,
            Seg::Namespaces,
            Seg::Lit(vec![9u8; 32]),
            Seg::Refs,
            Seg::Cat(Category::Heads),
            Seg::Lit(b"main".to_vec()),
        ],
        oid(8),
    );
    let seed = Fetchspecs::Replicate {
        tracked_sigrefs: vec![(peer(2), manifest)],
        delegates: vec![],
        limit: Limit { peek: 10, data: 20 },
    };
    let specs = seed.refspecs(&u, &peer(2), &heads);
    install(&mut store, &specs, &heads);
    let main_path = vec![
        Seg::Refs,
        Seg::Remotes,
        Seg::Lit(vec![2u8; 32]),
        Seg::Cat(Category::Heads),
        Seg::Lit(b"main".to_vec()),
    ];
    assert!(store.get_ref(&rev(9), &main_path).is_none());
}

#[test]
fn install_applies_matching_signed_refs() {
    let mut store = Store::new(peer(1));
    let u = Urn::new(rev(9));
    track(&mut store, &u, peer(2)).unwrap();

    // the advertisement agrees with the signed target: the spec is
    // emitted and the install writes the remote-tracking ref
    let manifest = Refs {
        entries: vec![SigEntry::new(Category::Heads, b"main".to_vec(), oid(7))],
    };
    let mut heads = RemoteHeads::new();
    heads.push_head(
        vec![
            Seg::Refs,
            Seg::Namespaces,
            Seg::Lit(vec![9u8; 32]),
            Seg::Refs,
            Seg::Cat(Category::Heads),
            Seg::Lit(b"main".to_vec()),
        ],
        oid(7),
    );
    let seed = Fetchspecs::Replicate {
        tracked_sigrefs: vec![(peer(2), manifest)],
        delegates: vec![],
        limit: Limit { peek: 10, data: 20 },
    };
    let specs = seed.refspecs(&u, &peer(2), &heads);
    install(&mut store, &specs, &heads);
    let main_path = vec![
        Seg::Refs,
        Seg::Remotes,
        Seg::Lit(vec![2u8; 32]),
        Seg::Cat(Category::Heads),
        Seg::Lit(b"main".to_vec()),
    ];
    assert_eq!(store.get_ref(&rev(9), &main_path).unwrap().bytes, vec![7u8; 20]);
    // and the fetched target is now a stored object
    assert!(store.has_object(&oid(7)));
}
