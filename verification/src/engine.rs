//! The replication engine's install step.
//!
//! A fetch hands back the remote's advertisement; what gets installed
//! locally is decided here: for every exact fetchspec whose source the
//! remote advertises, the destination ref is set to the advertised
//! target and the target recorded as an object — and nothing else is
//! touched.  Since the planner emits a spec for a signed ref only when
//! the advertisement equals the signed target, an elided entry installs
//! nothing.

use vstd::prelude::*;

use crate::bytes::clone_bytes;
use crate::fetch::{
    rs_views, sigref_entry_specs, namespaced_path, Fetchspec, NamePat, NamePatV, PatRef, PatRefV,
    RefspecV, RemoteSel, RemoteSelV,
};
use crate::path::{pview, Seg, SegV};
use crate::sigrefs::{heads_lookup, RemoteHeads, SigEntryV};
use crate::store::{Obj, Store};

verus! {

/// The local ref path a spec's destination names, when it is exact: a
/// tracked peer's categorised ref within the namespace.
pub open spec fn dst_ref_path(d: PatRefV) -> Option<Seq<SegV>> {
    match d.name {
        NamePatV::Plain(name) => match d.remote {
            RemoteSelV::Peer(q) => Option::Some(
                seq![SegV::Refs, SegV::Remotes, SegV::Lit(q), SegV::Cat(d.category), SegV::Lit(
                    name,
                )],
            ),
            _ => Option::None,
        },
        NamePatV::Glob(_) => Option::None,
    }
}

/// The advertised name a spec's source is looked up under, when it is
/// exact: the fully qualified path in the remote's namespace.
pub open spec fn src_head_path(s: PatRefV) -> Option<Seq<SegV>> {
    match s.name {
        NamePatV::Plain(name) => match s.remote {
            RemoteSelV::Own => Option::Some(
                seq![SegV::Refs, SegV::Namespaces, SegV::Lit(s.ns), SegV::Refs, SegV::Cat(
                    s.category,
                ), SegV::Lit(name)],
            ),
            RemoteSelV::Peer(q) => Option::Some(
                seq![SegV::Refs, SegV::Namespaces, SegV::Lit(s.ns), SegV::Refs, SegV::Remotes, SegV::Lit(
                    q,
                ), SegV::Cat(s.category), SegV::Lit(name)],
            ),
            RemoteSelV::Any => Option::None,
        },
        NamePatV::Glob(_) => Option::None,
    }
}

/// Whether a spec's destination is the ref key `(n, p)`.
pub open spec fn spec_dst_is(s: RefspecV, n: Seq<u8>, p: Seq<SegV>) -> bool {
    s.dst.ns == n && dst_ref_path(s.dst) == Option::Some(p)
}

/// Whether some spec of the batch has the ref key `(n, p)` as its
/// destination.
pub open spec fn some_dst(specs: Seq<RefspecV>, n: Seq<u8>, p: Seq<SegV>) -> bool {
    exists|i: int| 0 <= i < specs.len() && spec_dst_is(#[trigger] specs[i], n, p)
}

/// Whether some spec of the batch installs the value `t` at the ref key
/// `(n, p)`: its destination is that key and the remote advertises its
/// source at `t`.
pub open spec fn installed_from(
    specs: Seq<RefspecV>,
    heads: Seq<(Seq<SegV>, Seq<u8>)>,
    n: Seq<u8>,
    p: Seq<SegV>,
    t: Seq<u8>,
) -> bool {
    exists|i: int|
        0 <= i < specs.len() && spec_dst_is(#[trigger] specs[i], n, p) && (match src_head_path(
            specs[i].src,
        ) {
            Option::Some(sp) => heads_lookup(heads, sp) == Option::Some(t),
            Option::None => false,
        })
}

/// What installing a batch of specs does to the ref database: a key no
/// spec addresses keeps its binding, and a key that changed was
/// installed from some spec's advertised source.
pub open spec fn install_effect(
    pre: Store,
    post: Store,
    specs: Seq<RefspecV>,
    heads: Seq<(Seq<SegV>, Seq<u8>)>,
) -> bool {
    &&& forall|n: Seq<u8>, p: Seq<SegV>, t: Seq<u8>|
        !some_dst(specs, n, p) ==> (post.ref_is(n, p, t) <==> pre.ref_is(n, p, t))
    &&& forall|n: Seq<u8>, p: Seq<SegV>, t: Seq<u8>|
        post.ref_is(n, p, t) && !pre.ref_is(n, p, t) ==> installed_from(specs, heads, n, p, t)
}

fn dst_segs(d: &PatRef) -> (r: Option<Vec<Seg>>)
    ensures
        match r {
            Option::Some(v) => dst_ref_path(d@) == Option::Some(pview(v@)),
            Option::None => dst_ref_path(d@) is None,
        },
{
    match (&d.remote, &d.name) {
        (RemoteSel::Peer(q), NamePat::Plain(name)) => {
            let mut v: Vec<Seg> = Vec::new();
            v.push(Seg::Refs);
            v.push(Seg::Remotes);
            v.push(Seg::Lit(clone_bytes(&q.key)));
            v.push(Seg::Cat(d.category));
            v.push(Seg::Lit(clone_bytes(name)));
            proof {
                assert(pview(v@) =~= seq![SegV::Refs, SegV::Remotes, SegV::Lit(q@), SegV::Cat(
                    d.category,
                ), SegV::Lit(name@)]);
            }
            Option::Some(v)
        },
        _ => Option::None,
    }
}

fn src_segs(s: &PatRef) -> (r: Option<Vec<Seg>>)
    ensures
        match r {
            Option::Some(v) => src_head_path(s@) == Option::Some(pview(v@)),
            Option::None => src_head_path(s@) is None,
        },
{
    match (&s.remote, &s.name) {
        (RemoteSel::Own, NamePat::Plain(name)) => {
            let mut v: Vec<Seg> = Vec::new();
            v.push(Seg::Refs);
            v.push(Seg::Namespaces);
            v.push(Seg::Lit(clone_bytes(&s.ns.hash)));
            v.push(Seg::Refs);
            v.push(Seg::Cat(s.category));
            v.push(Seg::Lit(clone_bytes(name)));
            proof {
                assert(pview(v@) =~= seq![SegV::Refs, SegV::Namespaces, SegV::Lit(s@.ns), SegV::Refs, SegV::Cat(
                    s.category,
                ), SegV::Lit(name@)]);
            }
            Option::Some(v)
        },
        (RemoteSel::Peer(q), NamePat::Plain(name)) => {
            let mut v: Vec<Seg> = Vec::new();
            v.push(Seg::Refs);
            v.push(Seg::Namespaces);
            v.push(Seg::Lit(clone_bytes(&s.ns.hash)));
            v.push(Seg::Refs);
            v.push(Seg::Remotes);
            v.push(Seg::Lit(clone_bytes(&q.key)));
            v.push(Seg::Cat(s.category));
            v.push(Seg::Lit(clone_bytes(name)));
            proof {
                assert(pview(v@) =~= seq![SegV::Refs, SegV::Namespaces, SegV::Lit(s@.ns), SegV::Refs, SegV::Remotes, SegV::Lit(
                    q@,
                ), SegV::Cat(s.category), SegV::Lit(name@)]);
            }
            Option::Some(v)
        },
        _ => Option::None,
    }
}

/// Install what a fetch delivered.
///
/// For each exact spec whose source the remote advertises, the
/// destination ref is set to the advertised target, which is also
/// recorded as a stored object.  Pattern specs select what the peek
/// phases verify rather than install; they are left to the verifier.
/// No ref outside the specs' destinations moves.
#[verifier::rlimit(100)]
pub fn install(store: &mut Store, specs: &Vec<Fetchspec>, heads: &RemoteHeads)
    requires
        old(store).wf(),
    ensures
        final(store).wf(),
        install_effect(*old(store), *final(store), rs_views(specs@), heads@),
        forall|k: Seq<u8>| old(store).has_obj(k) ==> final(store).has_obj(k),
        final(store).remotes@ == old(store).remotes@,
        final(store).ancestry@ == old(store).ancestry@,
        final(store).local@ == old(store).local@,
{
    let ghost sv = rs_views(specs@);
    let ghost orig = *old(store);
    let mut i: usize = 0;
    while i < specs.len()
        invariant
            store.wf(),
            sv == rs_views(specs@),
            i <= specs@.len(),
            sv.len() == specs@.len(),
            forall|n: Seq<u8>, p: Seq<SegV>, t: Seq<u8>|
                !some_dst(sv.take(i as int), n, p) ==> (store.ref_is(n, p, t) <==> orig.ref_is(
                    n,
                    p,
                    t,
                )),
            forall|n: Seq<u8>, p: Seq<SegV>, t: Seq<u8>|
                store.ref_is(n, p, t) && !orig.ref_is(n, p, t) ==> installed_from(
                    sv.take(i as int),
                    heads@,
                    n,
                    p,
                    t,
                ),
            forall|k: Seq<u8>| orig.has_obj(k) ==> store.has_obj(k),
            store.remotes@ == orig.remotes@,
            store.ancestry@ == orig.ancestry@,
            store.local@ == orig.local@,
            orig == *old(store),
        decreases specs@.len() - i,
    {
        let ghost pre = *store;
        let dst = dst_segs(&specs[i].dst);
        let src = src_segs(&specs[i].src);
        match (dst, src) {
            (Option::Some(dpath), Option::Some(spath)) => {
                match heads.get_target(&spath) {
                    Option::Some(t) => {
                        let ghost dkey = pview(dpath@);
                        store.put_obj(t.dup(), Obj::Blob);
                        store.set_ref(&specs[i].dst.ns, dpath, &t);
                        proof {
                            assert(spec_dst_is(sv[i as int], specs@[i as int].dst.ns@, dkey));
                            assert(sv.take(i + 1)[i as int] == sv[i as int]);
                            assert forall|n: Seq<u8>, p: Seq<SegV>, t2: Seq<u8>|
                                !some_dst(sv.take(i + 1), n, p) implies (store.ref_is(n, p, t2)
                                <==> orig.ref_is(n, p, t2)) by {
                                assert(!spec_dst_is(sv.take(i + 1)[i as int], n, p));
                                assert(!(n == specs@[i as int].dst.ns@ && p == dkey));
                                assert forall|j: int|
                                    0 <= j < i implies !spec_dst_is(
                                    #[trigger] sv.take(i as int)[j],
                                    n,
                                    p,
                                ) by {
                                    assert(sv.take(i + 1)[j] == sv.take(i as int)[j]);
                                }
                                assert(!some_dst(sv.take(i as int), n, p));
                            }
                            assert forall|n: Seq<u8>, p: Seq<SegV>, t2: Seq<u8>|
                                store.ref_is(n, p, t2) && !orig.ref_is(n, p, t2) implies
                                installed_from(sv.take(i + 1), heads@, n, p, t2) by {
                                if n == specs@[i as int].dst.ns@ && p == dkey && t2 == t@ {
                                    assert(spec_dst_is(sv.take(i + 1)[i as int], n, p));
                                } else if n == specs@[i as int].dst.ns@ && p == dkey {
                                    // the key this spec set holds exactly the
                                    // advertised value
                                    crate::identity::lemma_ref_target_unique(
                                        *store,
                                        n,
                                        p,
                                        t2,
                                        t@,
                                    );
                                    assert(false);
                                } else {
                                    assert(pre.ref_is(n, p, t2));
                                    assert(installed_from(sv.take(i as int), heads@, n, p, t2));
                                    let j = choose|j: int|
                                        0 <= j < i && spec_dst_is(
                                            #[trigger] sv.take(i as int)[j],
                                            n,
                                            p,
                                        ) && (match src_head_path(sv.take(i as int)[j].src) {
                                            Option::Some(sp) => heads_lookup(heads@, sp)
                                                == Option::Some(t2),
                                            Option::None => false,
                                        });
                                    assert(spec_dst_is(sv.take(i + 1)[j], n, p));
                                }
                            }
                        }
                    },
                    Option::None => {
                        proof {
                            lemma_take_step_frame(sv, i as int, heads@, orig, *store);
                        }
                    },
                }
            },
            _ => {
                proof {
                    lemma_take_step_frame(sv, i as int, heads@, orig, *store);
                }
            },
        }
        i += 1;
    }
    proof {
        assert(sv.take(sv.len() as int) =~= sv);
    }
}

/// A step that installs nothing extends the processed prefix without
/// changing what the invariants say.
proof fn lemma_take_step_frame(
    sv: Seq<RefspecV>,
    i: int,
    heads: Seq<(Seq<SegV>, Seq<u8>)>,
    orig: Store,
    cur: Store,
)
    requires
        0 <= i < sv.len(),
        forall|n: Seq<u8>, p: Seq<SegV>, t: Seq<u8>|
            !some_dst(sv.take(i), n, p) ==> (cur.ref_is(n, p, t) <==> orig.ref_is(n, p, t)),
        forall|n: Seq<u8>, p: Seq<SegV>, t: Seq<u8>|
            cur.ref_is(n, p, t) && !orig.ref_is(n, p, t) ==> installed_from(
                sv.take(i),
                heads,
                n,
                p,
                t,
            ),
    ensures
        forall|n: Seq<u8>, p: Seq<SegV>, t: Seq<u8>|
            !some_dst(sv.take(i + 1), n, p) ==> (cur.ref_is(n, p, t) <==> orig.ref_is(n, p, t)),
        forall|n: Seq<u8>, p: Seq<SegV>, t: Seq<u8>|
            cur.ref_is(n, p, t) && !orig.ref_is(n, p, t) ==> installed_from(
                sv.take(i + 1),
                heads,
                n,
                p,
                t,
            ),
{
    assert forall|n: Seq<u8>, p: Seq<SegV>, t: Seq<u8>|
        !some_dst(sv.take(i + 1), n, p) implies (cur.ref_is(n, p, t) <==> orig.ref_is(
        n,
        p,
        t,
    )) by {
        assert forall|j: int| 0 <= j < i implies !spec_dst_is(
            #[trigger] sv.take(i)[j],
            n,
            p,
        ) by {
            assert(sv.take(i + 1)[j] == sv.take(i)[j]);
        }
        assert(!some_dst(sv.take(i), n, p));
    }
    assert forall|n: Seq<u8>, p: Seq<SegV>, t: Seq<u8>|
        cur.ref_is(n, p, t) && !orig.ref_is(n, p, t) implies installed_from(
        sv.take(i + 1),
        heads,
        n,
        p,
        t,
    ) by {
        let j = choose|j: int|
            0 <= j < i && spec_dst_is(#[trigger] sv.take(i)[j], n, p) && (match src_head_path(
                sv.take(i)[j].src,
            ) {
                Option::Some(sp) => heads_lookup(heads, sp) == Option::Some(t),
                Option::None => false,
            });
        assert(spec_dst_is(sv.take(i + 1)[j], n, p));
    }
}

/// The local ref key a tracked peer's manifest entry would install to.
pub open spec fn entry_dst(tracked_peer: Seq<u8>, e: SigEntryV) -> Seq<SegV> {
    seq![SegV::Refs, SegV::Remotes, SegV::Lit(tracked_peer), SegV::Cat(e.category), SegV::Lit(
        e.name,
    )]
}

/// An elided manifest entry installs nothing: when the remote's
/// advertisement for a tracked peer's signed ref is absent or disagrees
/// with the signed target, the planner emits no spec for the entry, and
/// an install whose batch has no spec for that destination leaves the
/// local remote-tracking ref exactly as it was.
pub proof fn lemma_elided_entry_installs_nothing(
    pre: Store,
    post: Store,
    specs: Seq<RefspecV>,
    heads: Seq<(Seq<SegV>, Seq<u8>)>,
    ns: Seq<u8>,
    remote_peer: Seq<u8>,
    tracked_peer: Seq<u8>,
    e: SigEntryV,
)
    requires
        install_effect(pre, post, specs, heads),
        heads_lookup(heads, namespaced_path(ns, remote_peer, tracked_peer, e.name, e.category))
            != Option::Some(e.target),
        !some_dst(specs, ns, entry_dst(tracked_peer, e)),
    ensures
        sigref_entry_specs(ns, remote_peer, heads, tracked_peer, e) == Seq::<RefspecV>::empty(),
        forall|t: Seq<u8>|
            post.ref_is(ns, entry_dst(tracked_peer, e), t) <==> pre.ref_is(
                ns,
                entry_dst(tracked_peer, e),
                t,
            ),
{
    assert(sigref_entry_specs(ns, remote_peer, heads, tracked_peer, e) =~= Seq::<
        RefspecV,
    >::empty());
}

} // verus!
