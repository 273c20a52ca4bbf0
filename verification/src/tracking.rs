//! The tracking registry: the per-URN set of peers whose refs we mirror.
//!
//! A tracking entry is a named remote keyed by `<urn>/<peer>`; the set of
//! names with the `<urn>/` prefix is the tracked set.  `track` creates an
//! entry (idempotently, and never for the local peer itself), `untrack`
//! removes it and prunes the peer's remote-tracking refs, and
//! `tracked_peers` reads the set back.

use vstd::prelude::*;

use crate::ids::PeerId;
use crate::path::{pview, Category, Seg, SegV, path_prefix_of};
use crate::store::{ref_key_is, RefEntry, RemoteEntry, Store};
use crate::urn::Urn;

verus! {

/// Why a tracking operation failed.
#[derive(Debug)]
pub enum Error {
    /// An attempt to track oneself.
    SelfReferential,
}

/// The path prefix of `peer`'s remote-tracking refs within a namespace:
/// `refs/remotes/<peer>/`.
pub open spec fn remotes_prefix(peer: Seq<u8>) -> Seq<SegV> {
    seq![SegV::Refs, SegV::Remotes, SegV::Lit(peer)]
}

/// Whether the ref key `(n, p)` falls under `peer`'s remote-tracking
/// refs of the namespace `ns` — what `untrack` prunes.
pub open spec fn prune_key(n: Seq<u8>, p: Seq<SegV>, ns: Seq<u8>, peer: Seq<u8>) -> bool {
    n == ns && remotes_prefix(peer).len() < p.len() && path_prefix_of(remotes_prefix(peer), p)
}

/// What a successful `track` did: the entry exists afterwards, `created`
/// says whether it was new, and nothing else moved.
pub open spec fn track_transition(
    pre: Store,
    post: Store,
    ns: Seq<u8>,
    peer: Seq<u8>,
    created: bool,
) -> bool {
    &&& created == !pre.has_remote(ns, peer)
    &&& post.has_remote(ns, peer)
    &&& forall|n: Seq<u8>, p: Seq<u8>|
        !(n == ns && p == peer) ==> (post.has_remote(n, p) <==> pre.has_remote(n, p))
    &&& post.refs@ == pre.refs@
    &&& post.objects@ == pre.objects@
    &&& post.ancestry@ == pre.ancestry@
    &&& post.local@ == pre.local@
}

/// What a successful `untrack` did: the entry is gone, `removed` says
/// whether it existed, the peer's remote-tracking refs in the namespace
/// are pruned, and every other ref and remote is untouched.
pub open spec fn untrack_transition(
    pre: Store,
    post: Store,
    ns: Seq<u8>,
    peer: Seq<u8>,
    removed: bool,
) -> bool {
    &&& removed == pre.has_remote(ns, peer)
    &&& !post.has_remote(ns, peer)
    &&& forall|n: Seq<u8>, p: Seq<u8>|
        !(n == ns && p == peer) ==> (post.has_remote(n, p) <==> pre.has_remote(n, p))
    &&& forall|n: Seq<u8>, p: Seq<SegV>| prune_key(n, p, ns, peer) ==> !post.has_ref(n, p)
    &&& forall|n: Seq<u8>, p: Seq<SegV>, t: Seq<u8>|
        !prune_key(n, p, ns, peer) ==> (post.ref_is(n, p, t) <==> pre.ref_is(n, p, t))
    &&& forall|n: Seq<u8>, p: Seq<SegV>|
        !prune_key(n, p, ns, peer) ==> (post.has_ref(n, p) <==> pre.has_ref(n, p))
    &&& post.objects@ == pre.objects@
    &&& post.ancestry@ == pre.ancestry@
    &&& post.local@ == pre.local@
}

/// Track `peer` in the context of `urn`.
///
/// `Ok(true)` is returned if the tracking relationship did not exist
/// before and was created by this call, `Ok(false)` if it already
/// existed.  Tracking oneself is refused with `SelfReferential` and
/// changes nothing.  The backend's auto-installed default fetchspec is
/// discarded on creation: fetchspecs are computed by the planner alone.
#[verifier::rlimit(100)]
pub fn track(store: &mut Store, urn: &Urn, peer: PeerId) -> (r: Result<bool, Error>)
    requires
        old(store).wf(),
    ensures
        final(store).wf(),
        match r {
            Result::Ok(created) => peer@ != old(store).local@ && track_transition(
                *old(store),
                *final(store),
                urn@.id,
                peer@,
                created,
            ),
            Result::Err(_) => peer@ == old(store).local@ && *final(store) == *old(store),
        },
{
    if peer.eq_peer(&store.local) {
        return Result::Err(Error::SelfReferential);
    }
    let mut i: usize = 0;
    let n = store.remotes.len();
    while i < n
        invariant
            *store == *old(store),
            old(store).wf(),
            peer@ != old(store).local@,
            n == store.remotes@.len(),
            i <= n,
            forall|j: int|
                0 <= j < i ==> !((#[trigger] store.remotes@[j]).urn_id@ == urn@.id
                    && store.remotes@[j].peer@ == peer@),
        decreases n - i,
    {
        if store.remotes[i].urn_id.eq_rev(&urn.id) && store.remotes[i].peer.eq_peer(&peer) {
            proof {
                assert((store.remotes@[i as int]).urn_id@ == urn@.id && store.remotes@[
                    i as int
                ].peer@ == peer@);
                assert(store.has_remote(urn@.id, peer@));
            }
            return Result::Ok(false);
        }
        i += 1;
    }
    let ghost pre = *store;
    store.remotes.push(RemoteEntry { urn_id: urn.id.dup(), peer });
    proof {
        let m = pre.remotes@.len() as int;
        assert((store.remotes@[m]).urn_id@ == urn@.id && store.remotes@[m].peer@ == peer@);
        assert forall|a: Seq<u8>, b: Seq<u8>|
            !(a == urn@.id && b == peer@) implies (store.has_remote(a, b) <==> pre.has_remote(
            a,
            b,
        )) by {
            if store.has_remote(a, b) {
                let j = choose|j: int|
                    0 <= j < store.remotes@.len() && (#[trigger] store.remotes@[j]).urn_id@ == a
                        && store.remotes@[j].peer@ == b;
                assert(j != m);
                assert((pre.remotes@[j]).urn_id@ == a && pre.remotes@[j].peer@ == b);
            }
            if pre.has_remote(a, b) {
                let j = choose|j: int|
                    0 <= j < pre.remotes@.len() && (#[trigger] pre.remotes@[j]).urn_id@ == a
                        && pre.remotes@[j].peer@ == b;
                assert((store.remotes@[j]).urn_id@ == a && store.remotes@[j].peer@ == b);
            }
        }
    }
    Result::Ok(true)
}

/// Whether a ref entry falls under `peer`'s remote-tracking section
/// of the namespace of `urn`.
fn entry_pruned(e: &RefEntry, urn: &Urn, peer: &PeerId) -> (r: bool)
    ensures
        r <==> prune_key(e.ns@, pview(e.path@), urn@.id, peer@),
{
    if !e.ns.eq_rev(&urn.id) {
        return false;
    }
    if e.path.len() < 4 {
        proof {
            assert(pview(e.path@).len() < 4);
        }
        return false;
    }
    match (&e.path[0], &e.path[1], &e.path[2]) {
        (Seg::Refs, Seg::Remotes, Seg::Lit(b)) => {
            if crate::bytes::bytes_eq(b, &peer.key) {
                proof {
                    assert(pview(e.path@).take(3) =~= remotes_prefix(peer@));
                }
                true
            } else {
                proof {
                    if path_prefix_of(remotes_prefix(peer@), pview(e.path@)) {
                        assert(pview(e.path@).take(3) == remotes_prefix(peer@));
                        assert(pview(e.path@).take(3)[2] == SegV::Lit(peer@));
                        assert(pview(e.path@)[2] == SegV::Lit(b@));
                        assert(false);
                    }
                }
                false
            }
        },
        _ => {
            proof {
                if path_prefix_of(remotes_prefix(peer@), pview(e.path@)) {
                    assert(pview(e.path@).take(3) == remotes_prefix(peer@));
                    assert(pview(e.path@)[0] == SegV::Refs);
                    assert(pview(e.path@)[1] == SegV::Remotes);
                    assert(pview(e.path@)[2] == SegV::Lit(peer@));
                    assert(e.path@[0]@ == SegV::Refs);
                    assert(e.path@[1]@ == SegV::Remotes);
                    assert(e.path@[2]@ == SegV::Lit(peer@));
                    assert(false);
                }
            }
            false
        },
    }
}

/// Remove the peer's remote-tracking refs in the namespace:
/// everything under `refs/namespaces/<urn>/refs/remotes/<peer>/`.
#[verifier::rlimit(100)]
fn prune_remote_refs(store: &mut Store, urn: &Urn, peer: &PeerId)
    requires
        old(store).wf(),
    ensures
        final(store).wf(),
        forall|n: Seq<u8>, p: Seq<SegV>|
            prune_key(n, p, urn@.id, peer@) ==> !final(store).has_ref(n, p),
        forall|n: Seq<u8>, p: Seq<SegV>, t: Seq<u8>|
            !prune_key(n, p, urn@.id, peer@) ==> (final(store).ref_is(n, p, t) <==> old(
                store,
            ).ref_is(n, p, t)),
        forall|n: Seq<u8>, p: Seq<SegV>|
            !prune_key(n, p, urn@.id, peer@) ==> (final(store).has_ref(n, p) <==> old(
                store,
            ).has_ref(n, p)),
        final(store).remotes@ == old(store).remotes@,
        final(store).objects@ == old(store).objects@,
        final(store).ancestry@ == old(store).ancestry@,
        final(store).local@ == old(store).local@,
    {
    let ghost orig = old(store).refs@;
    let mut work: Vec<RefEntry> = Vec::new();
    core::mem::swap(&mut store.refs, &mut work);
    let mut kept: Vec<RefEntry> = Vec::new();
    proof {
        assert(orig.take(orig.len() as int) =~= orig);
    }
    while work.len() > 0
        invariant
            orig == old(store).refs@,
            work@.len() <= orig.len(),
            work@ == orig.take(work@.len() as int),
            store.refs@.len() == 0,
            store.remotes@ == old(store).remotes@,
            store.objects@ == old(store).objects@,
            store.ancestry@ == old(store).ancestry@,
            store.local@ == old(store).local@,
            old(store).wf(),
            // every kept entry is an original entry beyond the cursor
            // whose key is not pruned
            forall|j: int|
                0 <= j < kept@.len() ==> !prune_key(
                    (#[trigger] kept@[j]).ns@,
                    pview(kept@[j].path@),
                    urn@.id,
                    peer@,
                ),
            forall|j: int|
                0 <= j < kept@.len() ==> exists|m: int|
                    work@.len() <= m < orig.len() && orig[m] == #[trigger] kept@[j],
            // every unpruned original entry beyond the cursor is kept
            forall|m: int|
                work@.len() <= m < orig.len() && !prune_key(
                    (#[trigger] orig[m]).ns@,
                    pview(orig[m].path@),
                    urn@.id,
                    peer@,
                ) ==> exists|j: int| 0 <= j < kept@.len() && kept@[j] == orig[m],
            // the kept keys are pairwise distinct
            forall|a: int, b: int|
                0 <= a < b < kept@.len() ==> !ref_key_is(
                    #[trigger] kept@[a],
                    (#[trigger] kept@[b]).ns@,
                    pview(kept@[b].path@),
                ),
        decreases work@.len(),
    {
        let ghost work_pre = work@;
        let ghost kept_pre = kept@;
        let e = match work.pop() {
            Option::Some(e) => e,
            Option::None => {
                return ;
            },
        };
        proof {
            assert(e == orig[work_pre.len() - 1]);
            assert(work@ =~= orig.take(work@.len() as int));
        }
        let ghost m0 = work@.len() as int;
        let is_pruned = entry_pruned(&e, urn, peer);
        if !is_pruned {
            proof {
                // a kept entry with this key would name a second
                // original entry with the same key, against wf
                assert forall|j: int| 0 <= j < kept@.len() implies !ref_key_is(
                    #[trigger] kept@[j],
                    e.ns@,
                    pview(e.path@),
                ) by {
                    if ref_key_is(kept@[j], e.ns@, pview(e.path@)) {
                        let m = choose|m: int|
                            m0 + 1 <= m < orig.len() && orig[m] == #[trigger] kept@[j];
                        assert(ref_key_is(orig[m], (orig[m0]).ns@, pview(orig[m0].path@)));
                        assert(ref_key_is(orig[m0], (orig[m]).ns@, pview(orig[m].path@)));
                        assert(false);
                    }
                }
            }
            kept.push(e);
            proof {
                assert(kept@.last() == orig[m0]);
                assert forall|m: int|
                    m0 <= m < orig.len() && !prune_key(
                        (#[trigger] orig[m]).ns@,
                        pview(orig[m].path@),
                        urn@.id,
                        peer@,
                    ) implies exists|j: int| 0 <= j < kept@.len() && kept@[j] == orig[m] by {
                    if m == m0 {
                        assert(kept@[kept@.len() - 1] == orig[m]);
                    } else {
                        let j = choose|j: int| 0 <= j < kept_pre.len() && kept_pre[j] == orig[m];
                        assert(kept@[j] == orig[m]);
                    }
                }
            }
        }
    }
    store.refs = kept;
    proof {
        assert forall|n: Seq<u8>, p: Seq<SegV>|
            prune_key(n, p, urn@.id, peer@) implies !store.has_ref(n, p) by {
            if store.has_ref(n, p) {
                let j = choose|j: int|
                    0 <= j < store.refs@.len() && ref_key_is(#[trigger] store.refs@[j], n, p);
                assert(!prune_key((store.refs@[j]).ns@, pview(store.refs@[j].path@), urn@.id, peer@));
                assert(false);
            }
        }
        assert(orig.take(orig.len() as int) =~= orig);
        assert forall|n: Seq<u8>, p: Seq<SegV>, t: Seq<u8>|
            !prune_key(n, p, urn@.id, peer@) implies (store.ref_is(n, p, t) <==> old(
            store,
        ).ref_is(n, p, t)) by {
            if store.ref_is(n, p, t) {
                let j = choose|j: int|
                    0 <= j < store.refs@.len() && ref_key_is(#[trigger] store.refs@[j], n, p)
                        && store.refs@[j].target@ == t;
                let m = choose|m: int| 0 <= m < orig.len() && orig[m] == store.refs@[j];
                assert(ref_key_is(old(store).refs@[m], n, p) && old(store).refs@[m].target@ == t);
            }
            if old(store).ref_is(n, p, t) {
                let m = choose|m: int|
                    0 <= m < orig.len() && ref_key_is(#[trigger] orig[m], n, p) && orig[m].target@
                        == t;
                let j = choose|j: int| 0 <= j < store.refs@.len() && store.refs@[j] == orig[m];
                assert(ref_key_is(store.refs@[j], n, p) && store.refs@[j].target@ == t);
            }
        }
        assert forall|n: Seq<u8>, p: Seq<SegV>|
            !prune_key(n, p, urn@.id, peer@) implies (store.has_ref(n, p) <==> old(
            store,
        ).has_ref(n, p)) by {
            if store.has_ref(n, p) {
                let j = choose|j: int|
                    0 <= j < store.refs@.len() && ref_key_is(#[trigger] store.refs@[j], n, p);
                let m = choose|m: int| 0 <= m < orig.len() && orig[m] == store.refs@[j];
                assert(ref_key_is(old(store).refs@[m], n, p));
            }
            if old(store).has_ref(n, p) {
                let m = choose|m: int|
                    0 <= m < orig.len() && ref_key_is(#[trigger] orig[m], n, p);
                let j = choose|j: int| 0 <= j < store.refs@.len() && store.refs@[j] == orig[m];
                assert(ref_key_is(store.refs@[j], n, p));
            }
        }
    }
}

/// Remove the tracking of `peer` in the context of `urn`.
///
/// `Ok(true)` is returned if the relationship existed and was removed by
/// this call, `Ok(false)` otherwise.  Every ref under the peer's
/// remote-tracking section of the namespace is pruned either way, so
/// repeated calls converge.
pub fn untrack(store: &mut Store, urn: &Urn, peer: PeerId) -> (r: Result<bool, Error>)
    requires
        old(store).wf(),
    ensures
        final(store).wf(),
        match r {
            Result::Ok(removed) => untrack_transition(
                *old(store),
                *final(store),
                urn@.id,
                peer@,
                removed,
            ),
            Result::Err(_) => false,
        },
{
    let ghost pre = *store;
    let mut removed = false;
    match find_remote(store, urn, &peer) {
        Option::None => {},
        Option::Some(i) => {
            store.remotes.remove(i);
            removed = true;
            proof {
                assert forall|a: Seq<u8>, b: Seq<u8>|
                    !(a == urn@.id && b == peer@) implies (store.has_remote(a, b)
                    <==> pre.has_remote(a, b)) by {
                    if store.has_remote(a, b) {
                        let j = choose|j: int|
                            0 <= j < store.remotes@.len() && (#[trigger] store.remotes@[j]).urn_id@
                                == a && store.remotes@[j].peer@ == b;
                        if j < i {
                            assert((pre.remotes@[j]).urn_id@ == a && pre.remotes@[j].peer@ == b);
                        } else {
                            assert((pre.remotes@[j + 1]).urn_id@ == a && pre.remotes@[j + 1].peer@
                                == b);
                        }
                    }
                    if pre.has_remote(a, b) {
                        let j = choose|j: int|
                            0 <= j < pre.remotes@.len() && (#[trigger] pre.remotes@[j]).urn_id@
                                == a && pre.remotes@[j].peer@ == b;
                        assert(j != i);
                        if j < i {
                            assert((store.remotes@[j]).urn_id@ == a && store.remotes@[j].peer@
                                == b);
                        } else {
                            assert((store.remotes@[j - 1]).urn_id@ == a && store.remotes@[j
                                - 1].peer@ == b);
                        }
                    }
                }
                // the removed pair is gone: a survivor naming it would be
                // a second original entry with the same pair
                if store.has_remote(urn@.id, peer@) {
                    let j = choose|j: int|
                        0 <= j < store.remotes@.len() && (#[trigger] store.remotes@[j]).urn_id@
                            == urn@.id && store.remotes@[j].peer@ == peer@;
                    if j < i {
                        assert(false);
                    } else {
                        assert((pre.remotes@[j + 1]).urn_id@ == urn@.id && pre.remotes@[j
                            + 1].peer@ == peer@);
                        assert(false);
                    }
                }
            }
        },
    }
    prune_remote_refs(store, urn, &peer);
    Result::Ok(removed)
}

/// The position of the tracking entry `<urn>/<peer>`, if it exists.
fn find_remote(store: &Store, urn: &Urn, peer: &PeerId) -> (r: Option<usize>)
    ensures
        match r {
            Option::Some(i) => i < store.remotes@.len() && (store.remotes@[i as int]).urn_id@
                == urn@.id && store.remotes@[i as int].peer@ == peer@,
            Option::None => forall|j: int|
                0 <= j < store.remotes@.len() ==> !((#[trigger] store.remotes@[j]).urn_id@
                    == urn@.id && store.remotes@[j].peer@ == peer@),
        },
{
    let mut i: usize = 0;
    while i < store.remotes.len()
        invariant
            i <= store.remotes@.len(),
            forall|j: int|
                0 <= j < i ==> !((#[trigger] store.remotes@[j]).urn_id@ == urn@.id
                    && store.remotes@[j].peer@ == peer@),
        decreases store.remotes@.len() - i,
    {
        if store.remotes[i].urn_id.eq_rev(&urn.id) && store.remotes[i].peer.eq_peer(peer) {
            return Option::Some(i);
        }
        i += 1;
    }
    Option::None
}

/// Whether some entry below position `k` tracks `p` under `ns`.
pub open spec fn tracked_below(remotes: Seq<RemoteEntry>, ns: Seq<u8>, p: Seq<u8>, k: int) -> bool {
    exists|m: int|
        0 <= m < k && (#[trigger] remotes[m]).urn_id@ == ns && remotes[m].peer@ == p
}

/// Obtain the 1st-degree tracked peers in the context of `urn`: each
/// exactly once.
#[verifier::rlimit(100)]
pub fn tracked_peers(store: &Store, urn: &Urn) -> (r: Vec<PeerId>)
    requires
        store.wf(),
    ensures
        forall|j: int| 0 <= j < r@.len() ==> store.has_remote(urn@.id, (#[trigger] r@[j])@),
        forall|p: Seq<u8>|
            store.has_remote(urn@.id, p) ==> exists|j: int|
                0 <= j < r@.len() && (#[trigger] r@[j])@ == p,
        forall|a: int, b: int| 0 <= a < b < r@.len() ==> r@[a]@ != r@[b]@,
{
    let mut peers: Vec<PeerId> = Vec::new();
    let mut i: usize = 0;
    while i < store.remotes.len()
        invariant
            store.wf(),
            i <= store.remotes@.len(),
            forall|j: int|
                0 <= j < peers@.len() ==> tracked_below(
                    store.remotes@,
                    urn@.id,
                    (#[trigger] peers@[j])@,
                    i as int,
                ),
            forall|m: int|
                0 <= m < i && (#[trigger] store.remotes@[m]).urn_id@ == urn@.id ==> exists|j: int|
                    0 <= j < peers@.len() && (#[trigger] peers@[j])@ == store.remotes@[m].peer@,
            forall|a: int, b: int| 0 <= a < b < peers@.len() ==> peers@[a]@ != peers@[b]@,
        decreases store.remotes@.len() - i,
    {
        let ghost peers_pre = peers@;
        if store.remotes[i].urn_id.eq_rev(&urn.id) {
            proof {
                // a duplicate would name two entries with the same pair,
                // against wf
                assert forall|j: int| 0 <= j < peers@.len() implies (#[trigger] peers@[j])@
                    != store.remotes@[i as int].peer@ by {
                    if peers@[j]@ == store.remotes@[i as int].peer@ {
                        let m = choose|m: int|
                            0 <= m < i && (#[trigger] store.remotes@[m]).urn_id@ == urn@.id
                                && store.remotes@[m].peer@ == peers@[j]@;
                        assert(false);
                    }
                }
            }
            peers.push(store.remotes[i].peer.dup());
            proof {
                assert(peers@.last()@ == store.remotes@[i as int].peer@);
                assert forall|m: int|
                    0 <= m < i + 1 && (#[trigger] store.remotes@[m]).urn_id@ == urn@.id implies
                    exists|j: int|
                    0 <= j < peers@.len() && (#[trigger] peers@[j])@
                        == store.remotes@[m].peer@ by {
                    if m == i {
                        assert(peers@[peers@.len() - 1]@ == store.remotes@[m].peer@);
                    } else {
                        let j = choose|j: int|
                            0 <= j < peers_pre.len() && (#[trigger] peers_pre[j])@
                                == store.remotes@[m].peer@;
                        assert(peers@[j]@ == store.remotes@[m].peer@);
                    }
                }
            }
        }
        proof {
            assert forall|j: int| 0 <= j < peers@.len() implies tracked_below(
                store.remotes@,
                urn@.id,
                (#[trigger] peers@[j])@,
                i + 1,
            ) by {
                if j < peers_pre.len() {
                    assert(peers@[j] == peers_pre[j]);
                    assert(tracked_below(store.remotes@, urn@.id, peers_pre[j]@, i as int));
                    let m = choose|m: int|
                        0 <= m < i && (#[trigger] store.remotes@[m]).urn_id@ == urn@.id
                            && store.remotes@[m].peer@ == peers_pre[j]@;
                    assert(0 <= m < i + 1 && (store.remotes@[m]).urn_id@ == urn@.id
                        && store.remotes@[m].peer@ == peers@[j]@);
                } else {
                    assert(0 <= i < i + 1 && (store.remotes@[i as int]).urn_id@ == urn@.id
                        && store.remotes@[i as int].peer@ == peers@[j]@);
                }
            }
        }
        i += 1;
    }
    proof {
        assert forall|j: int| 0 <= j < peers@.len() implies store.has_remote(
            urn@.id,
            (#[trigger] peers@[j])@,
        ) by {
            let m = choose|m: int|
                0 <= m < store.remotes@.len() && (#[trigger] store.remotes@[m]).urn_id@ == urn@.id
                    && store.remotes@[m].peer@ == peers@[j]@;
            assert((store.remotes@[m]).urn_id@ == urn@.id && store.remotes@[m].peer@
                == peers@[j]@);
        }
        assert forall|p: Seq<u8>| store.has_remote(urn@.id, p) implies exists|j: int|
            0 <= j < peers@.len() && (#[trigger] peers@[j])@ == p by {
            let m = choose|m: int|
                0 <= m < store.remotes@.len() && (#[trigger] store.remotes@[m]).urn_id@ == urn@.id
                    && store.remotes@[m].peer@ == p;
            let j = choose|j: int|
                0 <= j < peers@.len() && (#[trigger] peers@[j])@ == store.remotes@[m].peer@;
            assert(peers@[j]@ == p);
        }
    }
    peers
}


/// Whether `peer` is tracked in the context of `urn`.
pub fn is_tracked(store: &Store, urn: &Urn, peer: &PeerId) -> (r: bool)
    ensures
        r <==> store.has_remote(urn@.id, peer@),
{
    let mut i: usize = 0;
    while i < store.remotes.len()
        invariant
            i <= store.remotes@.len(),
            forall|j: int|
                0 <= j < i ==> !((#[trigger] store.remotes@[j]).urn_id@ == urn@.id
                    && store.remotes@[j].peer@ == peer@),
        decreases store.remotes@.len() - i,
    {
        if store.remotes[i].urn_id.eq_rev(&urn.id) && store.remotes[i].peer.eq_peer(peer) {
            return true;
        }
        i += 1;
    }
    false
}

/// Tracking is idempotent: a second `track` of the same peer reports
/// that nothing was created, and leaves the tracked set as the first
/// call left it.
pub proof fn lemma_track_idempotent(
    s0: Store,
    s1: Store,
    s2: Store,
    ns: Seq<u8>,
    peer: Seq<u8>,
    c1: bool,
    c2: bool,
)
    requires
        track_transition(s0, s1, ns, peer, c1),
        track_transition(s1, s2, ns, peer, c2),
    ensures
        !c2,
        forall|n: Seq<u8>, p: Seq<u8>| s2.has_remote(n, p) <==> s1.has_remote(n, p),
{
    assert forall|n: Seq<u8>, p: Seq<u8>| s2.has_remote(n, p) <==> s1.has_remote(n, p) by {
        if !(n == ns && p == peer) {
            assert(s2.has_remote(n, p) <==> s1.has_remote(n, p));
        }
    }
}

/// Untracking after tracking clears the relationship: the peer is no
/// longer tracked, the removal is reported, and no ref under its
/// remote-tracking section of the namespace remains.
pub proof fn lemma_untrack_clears(
    s0: Store,
    s1: Store,
    s2: Store,
    ns: Seq<u8>,
    peer: Seq<u8>,
    c1: bool,
    removed: bool,
)
    requires
        track_transition(s0, s1, ns, peer, c1),
        untrack_transition(s1, s2, ns, peer, removed),
    ensures
        removed,
        !s2.has_remote(ns, peer),
        forall|n: Seq<u8>, p: Seq<SegV>| prune_key(n, p, ns, peer) ==> !s2.has_ref(n, p),
{
}

} // verus!
