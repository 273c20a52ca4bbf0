//! The identity verifier.
//!
//! An identity's root revision names its URN.  Verification walks the
//! document chain from the tip the URN's path resolves to back to the
//! root: at each revision the checked signatures must satisfy the
//! majority quorum of the prior revision's delegations, and the root
//! document must carry the URN's own id.  `fast_forward` advances the
//! canonical ref and never rewinds; `merge` records a two-parent
//! revision signed outside; `newer` orders verified identities by the
//! backend's ancestry answers.

use vstd::prelude::*;

use crate::fetch::peer_views;
use crate::ids::{Oid, PeerId, Revision};
use crate::path::{pview, Category, Seg, SegV};
use crate::store::{obj_lookup, DocData, Obj, ObjEntry, Store};
use crate::urn::{default_path, default_path_segs, name_id, qualify_or_default, resolved_path, Urn};

verus! {

/// Why an identity operation failed.
#[derive(Debug)]
pub enum Error {
    /// The required local ref is absent.
    NotFound,
    /// A revision in the chain is not a signed identity document.
    NotSigned,
    /// A revision's signatures do not meet the prior delegations'
    /// majority quorum.
    QuorumFailed,
    /// The chain does not reach a root of this URN, or two histories
    /// have no common line of descent.
    HistoryDiverged,
}

/// The root URN of an identity whose initial document hashes to `root`.
/// Content addressing is the backend's work; the URN is the hash with
/// no path.
pub fn urn(root: &Revision) -> (r: Urn)
    ensures
        r@.id == root@,
        r@.path is None,
{
    Urn::new(root.dup())
}

/// A verified identity: its URN id and the content id of the revision
/// whose signature chain checked out.
pub struct VerifiedPerson {
    pub urn_id: Revision,
    pub content_id: Oid,
}

/// How many delegated peers appear among the signers.
pub open spec fn signed_count(dels: Seq<Seq<u8>>, sigs: Seq<Seq<u8>>) -> nat
    decreases dels.len(),
{
    if dels.len() == 0 {
        0nat
    } else {
        (if sigs.contains(dels.last()) {
            1nat
        } else {
            0nat
        }) + signed_count(dels.drop_last(), sigs)
    }
}

/// A majority of the delegated peers signed.
pub open spec fn quorum_met(dels: Seq<Seq<u8>>, sigs: Seq<Seq<u8>>) -> bool {
    2 * signed_count(dels, sigs) > dels.len()
}

/// The verification walk as a predicate: within `fuel` steps, `tip`
/// heads a chain of identity documents of root `root` in which every
/// revision's signatures meet the quorum of its parent's delegations,
/// and the root document meets the quorum of its own.
pub open spec fn verified_chain(
    objects: Seq<ObjEntry>,
    tip: Seq<u8>,
    root: Seq<u8>,
    fuel: nat,
) -> bool
    decreases fuel,
{
    &&& fuel > 0
    &&& match obj_lookup(objects, tip) {
        Option::Some(o) => match o {
            Obj::Doc(d) => d.root@ == root && (match d.parent {
                Option::None => quorum_met(
                    peer_views(d.delegations@),
                    peer_views(d.signatures@),
                ),
                Option::Some(p) => match obj_lookup(objects, p@) {
                    Option::Some(po) => match po {
                        Obj::Doc(pd) => quorum_met(
                            peer_views(pd.delegations@),
                            peer_views(d.signatures@),
                        ) && verified_chain(objects, p@, root, (fuel - 1) as nat),
                        Obj::Blob => false,
                    },
                    Option::None => false,
                },
            }),
            Obj::Blob => false,
        },
        Option::None => false,
    }
}

/// Whether `p` is among the peers of `sigs`.
fn contains_peer(sigs: &Vec<PeerId>, p: &PeerId) -> (r: bool)
    ensures
        r <==> peer_views(sigs@).contains(p@),
{
    let mut i: usize = 0;
    while i < sigs.len()
        invariant
            i <= sigs@.len(),
            forall|j: int| 0 <= j < i ==> (#[trigger] sigs@[j])@ != p@,
        decreases sigs@.len() - i,
    {
        if sigs[i].eq_peer(p) {
            proof {
                assert(peer_views(sigs@)[i as int] == p@);
            }
            return true;
        }
        i += 1;
    }
    proof {
        assert forall|k: int| 0 <= k < peer_views(sigs@).len() implies peer_views(sigs@)[k]
            != p@ by {
            assert(sigs@[k]@ != p@);
        }
    }
    false
}

/// Whether a majority of `dels` appears among `sigs`.
fn quorum(dels: &Vec<PeerId>, sigs: &Vec<PeerId>) -> (r: bool)
    ensures
        r == quorum_met(peer_views(dels@), peer_views(sigs@)),
{
    let ghost dv = peer_views(dels@);
    let ghost sv = peer_views(sigs@);
    let mut count: usize = 0;
    let mut i: usize = 0;
    proof {
        assert(dv.take(0).len() == 0);
    }
    while i < dels.len()
        invariant
            i <= dels@.len(),
            count <= i,
            dv == peer_views(dels@),
            sv == peer_views(sigs@),
            count == signed_count(dv.take(i as int), sv),
        decreases dels@.len() - i,
    {
        let found = contains_peer(sigs, &dels[i]);
        proof {
            assert(dv.take(i + 1).drop_last() =~= dv.take(i as int));
            assert(dv.take(i + 1).last() == dv[i as int]);
            assert(dv[i as int] == dels@[i as int]@);
        }
        if found {
            count = count + 1;
        }
        i += 1;
    }
    proof {
        assert(dv.take(dv.len() as int) =~= dv);
    }
    let r = count > dels.len() - count;
    proof {
        assert(r == (2 * signed_count(dv, sv) > dv.len()));
    }
    r
}

/// Read and verify the identity `urn` points at.
///
/// The ref the URN's path resolves to names the tip; the tip must head
/// a verified chain back to a root document of the URN's own id.  An
/// absent ref fails with `NotFound`; an unverifiable chain fails with
/// the step that broke.
#[verifier::rlimit(100)]
pub fn verify(store: &Store, urn: &Urn) -> (r: Result<VerifiedPerson, Error>)
    requires
        store.wf(),
        store.objects@.len() < usize::MAX,
    ensures
        (r matches Result::Err(e) && e is NotFound) <==> !store.has_ref(
            urn@.id,
            qualify_or_default(urn@.path),
        ),
        r matches Result::Ok(vp) ==> vp.urn_id@ == urn@.id && store.ref_is(
            urn@.id,
            qualify_or_default(urn@.path),
            vp.content_id@,
        ) && verified_chain(
            store.objects@,
            vp.content_id@,
            urn@.id,
            (store.objects@.len() + 1) as nat,
        ),
        r is Err && store.has_ref(urn@.id, qualify_or_default(urn@.path)) ==> forall|t: Seq<u8>|
            store.ref_is(urn@.id, qualify_or_default(urn@.path), t) ==> !verified_chain(
                store.objects@,
                t,
                urn@.id,
                (store.objects@.len() + 1) as nat,
            ),
{
    let path = resolved_path(urn);
    let tip = match store.get_ref(&urn.id, &path) {
        Option::None => {
            return Result::Err(Error::NotFound);
        },
        Option::Some(t) => t,
    };
    proof {
        // the canonical tip is unique: two refs with this key would
        // break wf
        assert forall|t: Seq<u8>|
            store.ref_is(urn@.id, qualify_or_default(urn@.path), t) implies t == tip@ by {
            lemma_ref_target_unique(*store, urn@.id, qualify_or_default(urn@.path), t, tip@);
        }
    }
    let ghost n0 = (store.objects@.len() + 1) as nat;
    let mut cur: Oid = tip.dup();
    let mut fuel: usize = store.objects.len() + 1;
    loop
        invariant
            store.wf(),
            store.objects@.len() < usize::MAX,
            n0 == store.objects@.len() + 1,
            1 <= fuel <= n0,
            store.has_ref(urn@.id, qualify_or_default(urn@.path)),
            store.ref_is(urn@.id, qualify_or_default(urn@.path), tip@),
            forall|t: Seq<u8>|
                store.ref_is(urn@.id, qualify_or_default(urn@.path), t) ==> t == tip@,
            verified_chain(store.objects@, tip@, urn@.id, n0) <==> verified_chain(
                store.objects@,
                cur@,
                urn@.id,
                fuel as nat,
            ),
        decreases fuel,
    {
        match store.get_obj(&cur) {
            Option::None => {
                return Result::Err(Error::NotSigned);
            },
            Option::Some(o) => match o {
                Obj::Blob => {
                    return Result::Err(Error::NotSigned);
                },
                Obj::Doc(d) => {
                    if !d.root.eq_rev(&urn.id) {
                        return Result::Err(Error::HistoryDiverged);
                    }
                    match &d.parent {
                        Option::None => {
                            if quorum(&d.delegations, &d.signatures) {
                                proof {
                                    assert(verified_chain(
                                        store.objects@,
                                        cur@,
                                        urn@.id,
                                        fuel as nat,
                                    ));
                                }
                                return Result::Ok(
                                    VerifiedPerson { urn_id: urn.id.dup(), content_id: tip },
                                );
                            } else {
                                return Result::Err(Error::QuorumFailed);
                            }
                        },
                        Option::Some(p) => {
                            match store.get_obj(p) {
                                Option::None => {
                                    return Result::Err(Error::NotSigned);
                                },
                                Option::Some(po) => match po {
                                    Obj::Blob => {
                                        return Result::Err(Error::NotSigned);
                                    },
                                    Obj::Doc(pd) => {
                                        if !quorum(&pd.delegations, &d.signatures) {
                                            return Result::Err(Error::QuorumFailed);
                                        }
                                        proof {
                                            assert(verified_chain(
                                                store.objects@,
                                                cur@,
                                                urn@.id,
                                                fuel as nat,
                                            ) <==> verified_chain(
                                                store.objects@,
                                                p@,
                                                urn@.id,
                                                (fuel - 1) as nat,
                                            ));
                                        }
                                        if fuel == 1 {
                                            return Result::Err(Error::HistoryDiverged);
                                        }
                                        let next = p.dup();
                                        fuel = fuel - 1;
                                        cur = next;
                                    },
                                },
                            }
                        },
                    }
                },
            },
        }
    }
}

/// The target of a ref key is unique in a well-formed store.
pub proof fn lemma_ref_target_unique(s: Store, ns: Seq<u8>, p: Seq<SegV>, t1: Seq<u8>, t2: Seq<u8>)
    requires
        s.wf(),
        s.ref_is(ns, p, t1),
        s.ref_is(ns, p, t2),
    ensures
        t1 == t2,
{
    let i1 = choose|i: int|
        0 <= i < s.refs@.len() && crate::store::ref_key_is(#[trigger] s.refs@[i], ns, p)
            && s.refs@[i].target@ == t1;
    let i2 = choose|i: int|
        0 <= i < s.refs@.len() && crate::store::ref_key_is(#[trigger] s.refs@[i], ns, p)
            && s.refs@[i].target@ == t2;
    if i1 != i2 {
        assert(crate::store::ref_key_is(
            s.refs@[if i1 < i2 {
                i1
            } else {
                i2
            }],
            (s.refs@[if i1 < i2 {
                i2
            } else {
                i1
            }]).ns@,
            pview(s.refs@[if i1 < i2 {
                i2
            } else {
                i1
            }].path@),
        ));
        assert(false);
    }
}

/// The newer of two verified identities of the same URN: the one whose
/// content descends from the other's, either one if they are the same
/// revision, and an error if their histories are unrelated.
pub fn newer(store: &Store, a: VerifiedPerson, b: VerifiedPerson) -> (r: Result<
    VerifiedPerson,
    Error,
>)
    ensures
        store.spec_descends(b.content_id@, a.content_id@) ==> (r matches Result::Ok(w)
            && w.content_id@ == b.content_id@ && w.urn_id@ == b.urn_id@),
        !store.spec_descends(b.content_id@, a.content_id@) && store.spec_descends(
            a.content_id@,
            b.content_id@,
        ) ==> (r matches Result::Ok(w) && w.content_id@ == a.content_id@ && w.urn_id@
            == a.urn_id@),
        !store.spec_descends(b.content_id@, a.content_id@) && !store.spec_descends(
            a.content_id@,
            b.content_id@,
        ) && a.content_id@ == b.content_id@ ==> (r matches Result::Ok(w) && w.content_id@
            == a.content_id@ && w.urn_id@ == a.urn_id@),
        !store.spec_descends(b.content_id@, a.content_id@) && !store.spec_descends(
            a.content_id@,
            b.content_id@,
        ) && a.content_id@ != b.content_id@ ==> r is Err,
{
    if store.descends(&b.content_id, &a.content_id) {
        Result::Ok(b)
    } else if store.descends(&a.content_id, &b.content_id) {
        Result::Ok(a)
    } else if a.content_id.eq_oid(&b.content_id) {
        Result::Ok(a)
    } else {
        Result::Err(Error::HistoryDiverged)
    }
}

/// Advance the canonical identity ref of `latest`'s URN to its content
/// id, never rewinding: the ref moves only when the content id strictly
/// descends from the current tip, and `Some(tip)` is returned exactly
/// when it moved.  An absent canonical ref, or one the content does not
/// descend from, leaves the store as it was.
pub fn fast_forward(store: &mut Store, latest: &VerifiedPerson) -> (r: Option<Oid>)
    requires
        old(store).wf(),
    ensures
        final(store).wf(),
        !old(store).has_ref(latest.urn_id@, default_path()) ==> r is None && *final(store) == *old(
            store,
        ),
        forall|t: Seq<u8>|
            old(store).ref_is(latest.urn_id@, default_path(), t) ==> (if old(store).spec_descends(
                latest.content_id@,
                t,
            ) {
                r matches Option::Some(o) && o@ == latest.content_id@ && final(store).ref_is(
                    latest.urn_id@,
                    default_path(),
                    latest.content_id@,
                )
            } else {
                r is None && *final(store) == *old(store)
            }),
        forall|n: Seq<u8>, p: Seq<SegV>, t: Seq<u8>|
            !(n == latest.urn_id@ && p == default_path()) ==> (final(store).ref_is(n, p, t) <==> old(
                store,
            ).ref_is(n, p, t)),
        final(store).remotes@ == old(store).remotes@,
        final(store).objects@ == old(store).objects@,
        final(store).ancestry@ == old(store).ancestry@,
        final(store).local@ == old(store).local@,
{
    let canonical = match store.get_ref(&latest.urn_id, &default_path_segs()) {
        Option::None => {
            return Option::None;
        },
        Option::Some(t) => t,
    };
    proof {
        assert forall|t: Seq<u8>|
            store.ref_is(latest.urn_id@, default_path(), t) implies t == canonical@ by {
            lemma_ref_target_unique(*store, latest.urn_id@, default_path(), t, canonical@);
        }
    }
    if store.descends(&latest.content_id, &canonical) {
        store.set_ref(&latest.urn_id, default_path_segs(), &latest.content_id);
        Option::Some(latest.content_id.dup())
    } else {
        Option::None
    }
}

/// The fully qualified path of `peer`'s identity ref within a
/// namespace: `refs/remotes/<peer>/rad/id`.
pub open spec fn remote_id_path(peer: Seq<u8>) -> Seq<SegV> {
    seq![SegV::Refs, SegV::Remotes, SegV::Lit(peer), SegV::Cat(Category::Rad), SegV::Lit(
        name_id(),
    )]
}

fn remote_id_segs(peer: &PeerId) -> (r: Vec<Seg>)
    ensures
        pview(r@) == remote_id_path(peer@),
{
    let mut r: Vec<Seg> = Vec::new();
    r.push(Seg::Refs);
    r.push(Seg::Remotes);
    r.push(Seg::Lit(crate::bytes::clone_bytes(&peer.key)));
    r.push(Seg::Cat(Category::Rad));
    r.push(Seg::Lit(crate::urn::name_id_bytes()));
    proof {
        assert(pview(r@) =~= remote_id_path(peer@));
    }
    r
}

/// Whether the canonical tip of `ns` is a signed identity document.
pub open spec fn canonical_is_doc(s: Store, ns: Seq<u8>) -> bool {
    exists|t: Seq<u8>|
        #[trigger] s.ref_is(ns, default_path(), t) && (match obj_lookup(s.objects@, t) {
            Option::Some(o) => o is Doc,
            Option::None => false,
        })
}

/// Merge our identity at `urn` with `from`'s view of it.
///
/// The decision is store logic: our canonical tip and the peer's
/// `rad/id` tip must both exist, and ours must be a signed document.
/// The new revision's content id and signatures come from outside —
/// content addressing and signing are the backend's and the crypto
/// layer's — and must be fresh.  The new document carries both tips as
/// parents and our delegations, and the canonical ref moves to it.
#[verifier::rlimit(100)]
pub fn merge(
    store: &mut Store,
    urn: &Urn,
    from: &PeerId,
    new_id: Oid,
    signatures: Vec<PeerId>,
) -> (r: Result<Oid, Error>)
    requires
        old(store).wf(),
        !old(store).has_obj(new_id@),
    ensures
        final(store).wf(),
        !old(store).has_ref(urn@.id, default_path()) || !old(store).has_ref(
            urn@.id,
            remote_id_path(from@),
        ) ==> (r matches Result::Err(e) && e is NotFound && *final(store) == *old(store)),
        old(store).has_ref(urn@.id, default_path()) && old(store).has_ref(
            urn@.id,
            remote_id_path(from@),
        ) && !canonical_is_doc(*old(store), urn@.id) ==> (r matches Result::Err(e) && e
            is NotSigned && *final(store) == *old(store)),
        old(store).has_ref(urn@.id, default_path()) && old(store).has_ref(
            urn@.id,
            remote_id_path(from@),
        ) && canonical_is_doc(*old(store), urn@.id) ==> (r matches Result::Ok(o) && o@ == new_id@
            && final(store).ref_is(urn@.id, default_path(), new_id@) && (match obj_lookup(
            final(store).objects@,
            new_id@,
        ) {
            Option::Some(no) => match no {
                Obj::Doc(d) => {
                    &&& d.root@ == urn@.id
                    &&& (match d.parent {
                        Option::Some(a) => old(store).ref_is(urn@.id, default_path(), a@),
                        Option::None => false,
                    })
                    &&& (match d.merged {
                        Option::Some(b) => old(store).ref_is(urn@.id, remote_id_path(from@), b@),
                        Option::None => false,
                    })
                    &&& peer_views(d.signatures@) == peer_views(signatures@)
                },
                Obj::Blob => false,
            },
            Option::None => false,
        })),
        forall|n: Seq<u8>, p: Seq<SegV>, t: Seq<u8>|
            !(n == urn@.id && p == default_path()) ==> (final(store).ref_is(n, p, t) <==> old(
                store,
            ).ref_is(n, p, t)),
        final(store).remotes@ == old(store).remotes@,
        final(store).ancestry@ == old(store).ancestry@,
        final(store).local@ == old(store).local@,
{
    let ours = match store.get_ref(&urn.id, &default_path_segs()) {
        Option::None => {
            return Result::Err(Error::NotFound);
        },
        Option::Some(t) => t,
    };
    let theirs = match store.get_ref(&urn.id, &remote_id_segs(from)) {
        Option::None => {
            return Result::Err(Error::NotFound);
        },
        Option::Some(t) => t,
    };
    proof {
        assert forall|t: Seq<u8>|
            store.ref_is(urn@.id, default_path(), t) implies t == ours@ by {
            lemma_ref_target_unique(*store, urn@.id, default_path(), t, ours@);
        }
    }
    let delegations = match store.get_obj(&ours) {
        Option::Some(o) => match o {
            Obj::Doc(d) => {
                let mut ds: Vec<PeerId> = Vec::new();
                let mut i: usize = 0;
                while i < d.delegations.len()
                    invariant
                        i <= d.delegations@.len(),
                        ds@.len() == i,
                        forall|j: int| 0 <= j < i ==> ds@[j]@ == d.delegations@[j]@,
                    decreases d.delegations@.len() - i,
                {
                    ds.push(d.delegations[i].dup());
                    i += 1;
                }
                ds
            },
            Obj::Blob => {
                proof {
                    assert(!canonical_is_doc(*store, urn@.id));
                }
                return Result::Err(Error::NotSigned);
            },
        },
        Option::None => {
            proof {
                assert(!canonical_is_doc(*store, urn@.id));
            }
            return Result::Err(Error::NotSigned);
        },
    };
    proof {
        assert(canonical_is_doc(*store, urn@.id));
    }
    let doc = DocData {
        root: urn.id.dup(),
        parent: Option::Some(ours),
        merged: Option::Some(theirs),
        delegations,
        signatures,
    };
    store.put_obj(new_id.dup(), Obj::Doc(doc));
    store.set_ref(&urn.id, default_path_segs(), &new_id);
    Result::Ok(new_id)
}

} // verus!
