//! Behavioural tests of the replication core, through its public API.

use librad::fetch::{Fetchspecs, Limit};
use librad::sigrefs::RemoteHeads;
use librad::identity::{newer, urn, VerifiedPerson};
use librad::ids::{Oid, PeerId, Revision};
use librad::peer::{ProtocolStorage, UserStorage};
use librad::signer::Signer;
use librad::store::Store;
use librad::tracking::{is_tracked, track, tracked_peers, untrack, Error};
use librad::urn::{urn_context, Originates, Urn, UrnSource};

fn peer(b: u8) -> PeerId {
    PeerId::new(vec![b; 32])
}

fn rev(b: u8) -> Revision {
    Revision::new(vec![b; 32])
}

fn oid(b: u8) -> Oid {
    Oid::new(vec![b; 20])
}

fn fresh_store() -> Store {
    Store::new(peer(1))
}

#[test]
fn track_self_is_refused() {
    let mut store = fresh_store();
    let u = Urn::new(rev(9));
    let r = track(&mut store, &u, peer(1));
    assert!(matches!(r, Err(Error::SelfReferential)));
}

#[test]
fn track_is_idempotent() {
    let mut store = fresh_store();
    let u = Urn::new(rev(9));
    assert_eq!(track(&mut store, &u, peer(2)).unwrap(), true);
    assert_eq!(track(&mut store, &u, peer(2)).unwrap(), false);
    let peers = tracked_peers(&store, &u);
    assert_eq!(peers.len(), 1);
    assert_eq!(peers[0].key, vec![2u8; 32]);
}

#[test]
fn untrack_removes_the_peer() {
    let mut store = fresh_store();
    let u = Urn::new(rev(9));
    assert_eq!(track(&mut store, &u, peer(2)).unwrap(), true);
    assert_eq!(untrack(&mut store, &u, peer(2)).unwrap(), true);
    assert!(!is_tracked(&store, &u, &peer(2)));
    assert_eq!(tracked_peers(&store, &u).len(), 0);
    assert_eq!(untrack(&mut store, &u, peer(2)).unwrap(), false);
}

#[test]
fn urn_context_local_origin_matches_plain() {
    let local = peer(1);
    let u1 = Urn::new(rev(9));
    let u2 = Urn::new(rev(9));
    let a = urn_context(&local, UrnSource::Left(u1));
    let b = urn_context(
        &local,
        UrnSource::Right(Originates { from: peer(1), value: u2 }),
    );
    assert_eq!(a.id.hash, b.id.hash);
    let pa = a.path.unwrap();
    let pb = b.path.unwrap();
    assert_eq!(pa.len(), pb.len());
    assert_eq!(pa.len(), 3);
}

#[test]
fn peek_specs_are_never_forced() {
    let u = Urn::new(rev(9));
    let seed = Fetchspecs::Peek {
        remotes: vec![peer(2), peer(3)],
        limit: Limit { peek: 10, data: 20 },
    };
    let heads = RemoteHeads::new();
    let specs = seed.refspecs(&u, &peer(2), &heads);
    assert_eq!(specs.len(), 8);
    for s in &specs {
        assert!(!s.force);
    }
}

#[test]
fn fetch_limit_follows_the_phase() {
    let lim = Limit { peek: 10, data: 20 };
    assert_eq!(Fetchspecs::PeekAll { limit: lim }.fetch_limit(), 10);
    assert_eq!(
        Fetchspecs::Replicate {
            tracked_sigrefs: vec![],
            delegates: vec![],
            limit: lim,
        }
        .fetch_limit(),
        20
    );
}

#[test]
fn newer_prefers_the_descendant() {
    let mut store = fresh_store();
    store.add_descent(oid(2), oid(1));
    let a = VerifiedPerson { urn_id: rev(9), content_id: oid(1) };
    let b = VerifiedPerson { urn_id: rev(9), content_id: oid(2) };
    let w = newer(&store, a, b).unwrap();
    assert_eq!(w.content_id.bytes, vec![2u8; 20]);
    let a = VerifiedPerson { urn_id: rev(9), content_id: oid(1) };
    let c = VerifiedPerson { urn_id: rev(9), content_id: oid(3) };
    assert!(newer(&store, a, c).is_err());
}

#[test]
fn urn_of_a_root_revision() {
    let u = urn(&rev(7));
    assert_eq!(u.id.hash, vec![7u8; 32]);
    assert!(u.path.is_none());
}

#[test]
fn signer_parses_stored_key_material() {
    let mut key = vec![5u8; 32];
    key.extend(vec![6u8; 32]);
    let s = Signer::new(key).unwrap();
    assert_eq!(s.public_key().key, vec![6u8; 32]);
    assert!(Signer::new(vec![5u8; 31]).is_err());
}

#[test]
fn storage_defaults_reserve_a_handle_per_core() {
    let u = UserStorage::default();
    assert!(u.pool_size >= 1);
    let p = ProtocolStorage::default();
    assert!(p.pool_size >= 1);
    assert_eq!(p.fetch_slot_wait_timeout_secs, 20);
}
