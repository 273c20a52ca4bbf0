//! The fetchspec planner.
//!
//! A fetch proceeds in phases; for each phase the planner computes, as a
//! pure function of the URN, the remote peer, the remote heads
//! advertisement and the local knowledge, the list of non-forced
//! refspecs to hand to the transport.  `Fetchspecs` is the phase seed;
//! `refspecs` the computation; `fetch_limit` the byte ceiling the
//! transport gets for the phase.

use vstd::prelude::*;

use crate::ids::{Oid, PeerId, Revision};
use crate::path::{pview, Category, Seg, SegV};
use crate::seqtools::{cmap, lemma_cmap_take_step};
use crate::sigrefs::{heads_lookup, Refs, RemoteHeads, SigEntryV};
use crate::urn::{name_id, name_id_bytes, Urn, UrnV};
use crate::bytes::clone_bytes;

verus! {

/// The bytes of the ref name `self`.
pub open spec fn name_self() -> Seq<u8> {
    seq![115u8, 101u8, 108u8, 102u8]
}

pub fn name_self_bytes() -> (r: Vec<u8>)
    ensures
        r@ == name_self(),
{
    let mut r: Vec<u8> = Vec::new();
    r.push(115u8);
    r.push(101u8);
    r.push(108u8);
    r.push(102u8);
    proof {
        assert(r@ =~= name_self());
    }
    r
}

/// The bytes of the ref name `signed_refs`.
pub open spec fn name_signed_refs() -> Seq<u8> {
    seq![115u8, 105u8, 103u8, 110u8, 101u8, 100u8, 95u8, 114u8, 101u8, 102u8, 115u8]
}

pub fn name_signed_refs_bytes() -> (r: Vec<u8>)
    ensures
        r@ == name_signed_refs(),
{
    let mut r: Vec<u8> = Vec::new();
    r.push(115u8);
    r.push(105u8);
    r.push(103u8);
    r.push(110u8);
    r.push(101u8);
    r.push(100u8);
    r.push(95u8);
    r.push(114u8);
    r.push(101u8);
    r.push(102u8);
    r.push(115u8);
    proof {
        assert(r@ =~= name_signed_refs());
    }
    r
}

/// The bytes of the ref name `ids`, the stem of the `rad/ids/*` glob.
pub open spec fn name_ids() -> Seq<u8> {
    seq![105u8, 100u8, 115u8]
}

pub fn name_ids_bytes() -> (r: Vec<u8>)
    ensures
        r@ == name_ids(),
{
    let mut r: Vec<u8> = Vec::new();
    r.push(105u8);
    r.push(100u8);
    r.push(115u8);
    proof {
        assert(r@ =~= name_ids());
    }
    r
}

/// Byte ceilings per fetch phase.
#[derive(Clone, Copy, PartialEq, Eq, Structural)]
pub struct Limit {
    pub peek: usize,
    pub data: usize,
}

/// Whose section of the remote's namespace a spec addresses: the
/// remote's own refs, a named peer's remote-tracking refs, or every
/// peer's (a wildcard).
pub enum RemoteSel {
    Own,
    Peer(PeerId),
    Any,
}

pub ghost enum RemoteSelV {
    Own,
    Peer(Seq<u8>),
    Any,
}

impl View for RemoteSel {
    type V = RemoteSelV;

    open spec fn view(&self) -> RemoteSelV {
        match self {
            RemoteSel::Own => RemoteSelV::Own,
            RemoteSel::Peer(p) => RemoteSelV::Peer(p@),
            RemoteSel::Any => RemoteSelV::Any,
        }
    }
}

impl RemoteSel {
    pub fn dup(&self) -> (r: RemoteSel)
        ensures
            r@ == self@,
    {
        match self {
            RemoteSel::Own => RemoteSel::Own,
            RemoteSel::Peer(p) => RemoteSel::Peer(p.dup()),
            RemoteSel::Any => RemoteSel::Any,
        }
    }
}

/// A ref name within a category: one exact name, or a glob under a stem.
pub enum NamePat {
    Plain(Vec<u8>),
    Glob(Vec<u8>),
}

pub ghost enum NamePatV {
    Plain(Seq<u8>),
    Glob(Seq<u8>),
}

impl View for NamePat {
    type V = NamePatV;

    open spec fn view(&self) -> NamePatV {
        match self {
            NamePat::Plain(n) => NamePatV::Plain(n@),
            NamePat::Glob(n) => NamePatV::Glob(n@),
        }
    }
}

impl NamePat {
    pub fn dup(&self) -> (r: NamePat)
        ensures
            r@ == self@,
    {
        match self {
            NamePat::Plain(n) => NamePat::Plain(clone_bytes(n)),
            NamePat::Glob(n) => NamePat::Glob(clone_bytes(n)),
        }
    }
}

/// One side of a refspec: a categorised ref, or pattern of refs, within
/// a namespace.
pub struct PatRef {
    pub ns: Revision,
    pub remote: RemoteSel,
    pub category: Category,
    pub name: NamePat,
}

pub ghost struct PatRefV {
    pub ns: Seq<u8>,
    pub remote: RemoteSelV,
    pub category: Category,
    pub name: NamePatV,
}

impl View for PatRef {
    type V = PatRefV;

    open spec fn view(&self) -> PatRefV {
        PatRefV { ns: self.ns@, remote: self.remote@, category: self.category, name: self.name@ }
    }
}

impl PatRef {
    pub fn dup(&self) -> (r: PatRef)
        ensures
            r@ == self@,
    {
        PatRef {
            ns: self.ns.dup(),
            remote: self.remote.dup(),
            category: self.category,
            name: self.name.dup(),
        }
    }

    /// The same ref addressed through another remote section.
    pub fn with_remote(self, remote: RemoteSel) -> (r: PatRef)
        ensures
            r@ == (PatRefV {
                ns: self@.ns,
                remote: remote@,
                category: self@.category,
                name: self@.name,
            }),
    {
        PatRef { ns: self.ns, remote, category: self.category, name: self.name }
    }
}

/// A fetchspec: copy what `src` matches on the remote into `dst`
/// locally, forcing only if `force` — and the planner never forces.
pub struct Refspec {
    pub src: PatRef,
    pub dst: PatRef,
    pub force: bool,
}

pub ghost struct RefspecV {
    pub src: PatRefV,
    pub dst: PatRefV,
    pub force: bool,
}

impl View for Refspec {
    type V = RefspecV;

    open spec fn view(&self) -> RefspecV {
        RefspecV { src: self.src@, dst: self.dst@, force: self.force }
    }
}

pub type Fetchspec = Refspec;

// ------------------------------------------------------------------
// The planner as spec functions.
// ------------------------------------------------------------------

/// The identity ref of a namespace: `rad/id`.
pub open spec fn rad_id_v(ns: Seq<u8>, remote: RemoteSelV) -> PatRefV {
    PatRefV { ns, remote, category: Category::Rad, name: NamePatV::Plain(name_id()) }
}

/// The self-identity ref: `rad/self`.
pub open spec fn rad_self_v(ns: Seq<u8>, remote: RemoteSelV) -> PatRefV {
    PatRefV { ns, remote, category: Category::Rad, name: NamePatV::Plain(name_self()) }
}

/// The signed-refs ref: `rad/signed_refs`.
pub open spec fn rad_signed_refs_v(ns: Seq<u8>, remote: RemoteSelV) -> PatRefV {
    PatRefV { ns, remote, category: Category::Rad, name: NamePatV::Plain(name_signed_refs()) }
}

/// The delegate-identity glob: `rad/ids/*`.
pub open spec fn rad_ids_v(ns: Seq<u8>, remote: RemoteSelV) -> PatRefV {
    PatRefV { ns, remote, category: Category::Rad, name: NamePatV::Glob(name_ids()) }
}

pub open spec fn unforced(src: PatRefV, dst: PatRefV) -> RefspecV {
    RefspecV { src, dst, force: false }
}

/// Where a peer's refs live in the remote's namespace: its own section
/// if it is the remote peer itself, its remote-tracking section
/// otherwise.
pub open spec fn sel_for(peer: Seq<u8>, remote_peer: Seq<u8>) -> RemoteSelV {
    if peer == remote_peer {
        RemoteSelV::Own
    } else {
        RemoteSelV::Peer(peer)
    }
}

/// The bootstrap phase: the three identity refs of every remote the
/// sending peer knows, under wildcard remote on both sides.
pub open spec fn all_specs(ns: Seq<u8>) -> Seq<RefspecV> {
    seq![
        unforced(rad_id_v(ns, RemoteSelV::Any), rad_id_v(ns, RemoteSelV::Any)),
        unforced(rad_self_v(ns, RemoteSelV::Any), rad_self_v(ns, RemoteSelV::Any)),
        unforced(rad_signed_refs_v(ns, RemoteSelV::Any), rad_signed_refs_v(ns, RemoteSelV::Any)),
    ]
}

/// The peek block for one peer: its three identity refs and its
/// delegate-id glob, placed under its remote-tracking slot locally.
pub open spec fn peek_one(ns: Seq<u8>, remote_peer: Seq<u8>, remote: Seq<u8>) -> Seq<RefspecV> {
    seq![
        unforced(rad_id_v(ns, sel_for(remote, remote_peer)), rad_id_v(ns, RemoteSelV::Peer(remote))),
        unforced(
            rad_self_v(ns, sel_for(remote, remote_peer)),
            rad_self_v(ns, RemoteSelV::Peer(remote)),
        ),
        unforced(
            rad_signed_refs_v(ns, sel_for(remote, remote_peer)),
            rad_signed_refs_v(ns, RemoteSelV::Peer(remote)),
        ),
        unforced(
            rad_ids_v(ns, sel_for(remote, remote_peer)),
            rad_ids_v(ns, RemoteSelV::Peer(remote)),
        ),
    ]
}

/// The peek phase over a set of peers.
pub open spec fn peek_specs(ns: Seq<u8>, remote_peer: Seq<u8>, remotes: Seq<Seq<u8>>) -> Seq<
    RefspecV,
> {
    cmap(remotes, |r: Seq<u8>| peek_one(ns, remote_peer, r))
}

/// The signed-refs request for one tracked peer.
pub open spec fn signed_refs_one(ns: Seq<u8>, remote_peer: Seq<u8>, t: Seq<u8>) -> RefspecV {
    unforced(
        rad_signed_refs_v(ns, sel_for(t, remote_peer)),
        rad_signed_refs_v(ns, RemoteSelV::Peer(t)),
    )
}

/// The signed-refs requests for every tracked peer.
pub open spec fn signed_refs_specs(ns: Seq<u8>, remote_peer: Seq<u8>, peers: Seq<Seq<u8>>) -> Seq<
    RefspecV,
> {
    cmap(peers, |t: Seq<u8>| seq![signed_refs_one(ns, remote_peer, t)])
}

/// The fully qualified name under which the remote publishes
/// `tracked_peer`'s ref `name` of category `cat`: in its own section if
/// it is the tracked peer, in its remote-tracking section otherwise.
pub open spec fn namespaced_path(
    ns: Seq<u8>,
    remote_peer: Seq<u8>,
    tracked_peer: Seq<u8>,
    name: Seq<u8>,
    cat: Category,
) -> Seq<SegV> {
    if tracked_peer == remote_peer {
        seq![SegV::Refs, SegV::Namespaces, SegV::Lit(ns), SegV::Refs, SegV::Cat(cat), SegV::Lit(
            name,
        )]
    } else {
        seq![SegV::Refs, SegV::Namespaces, SegV::Lit(ns), SegV::Refs, SegV::Remotes, SegV::Lit(
            tracked_peer,
        ), SegV::Cat(cat), SegV::Lit(name)]
    }
}

/// The specs one manifest entry contributes: exactly one, and only when
/// the remote advertises the signed target for the corresponding name;
/// an absent or diverging advertisement elides the entry.
pub open spec fn sigref_entry_specs(
    ns: Seq<u8>,
    remote_peer: Seq<u8>,
    heads: Seq<(Seq<SegV>, Seq<u8>)>,
    tracked_peer: Seq<u8>,
    e: SigEntryV,
) -> Seq<RefspecV> {
    match heads_lookup(heads, namespaced_path(ns, remote_peer, tracked_peer, e.name, e.category)) {
        Option::None => Seq::empty(),
        Option::Some(target) => if target == e.target {
            seq![
                unforced(
                    PatRefV {
                        ns,
                        remote: sel_for(tracked_peer, remote_peer),
                        category: e.category,
                        name: NamePatV::Plain(e.name),
                    },
                    PatRefV {
                        ns,
                        remote: RemoteSelV::Peer(tracked_peer),
                        category: e.category,
                        name: NamePatV::Plain(e.name),
                    },
                ),
            ]
        } else {
            Seq::empty()
        },
    }
}

/// The specs one tracked peer's whole manifest contributes.
pub open spec fn sigrefs_specs(
    ns: Seq<u8>,
    remote_peer: Seq<u8>,
    heads: Seq<(Seq<SegV>, Seq<u8>)>,
    tracked_peer: Seq<u8>,
    entries: Seq<SigEntryV>,
) -> Seq<RefspecV> {
    cmap(entries, |e: SigEntryV| sigref_entry_specs(ns, remote_peer, heads, tracked_peer, e))
}

/// The peers of a sigrefs map, in iteration order.
pub open spec fn keys_of(peers: Seq<(Seq<u8>, Seq<SigEntryV>)>) -> Seq<Seq<u8>> {
    peers.map_values(|p: (Seq<u8>, Seq<SigEntryV>)| p.0)
}

/// What one top-level delegate contributes: a peek at the remote peer in
/// the delegate's namespace, plus signed-refs requests for everyone we
/// currently track (we do not yet know the delegate's own tracking
/// graph).
pub open spec fn delegate_specs(d: UrnV, remote_peer: Seq<u8>, keys: Seq<Seq<u8>>) -> Seq<
    RefspecV,
> {
    peek_one(d.id, remote_peer, remote_peer) + signed_refs_specs(d.id, remote_peer, keys)
}

/// The replicate phase: the matching signed refs of every tracked peer,
/// a peek at the remote peer, and the contributions of the top-level
/// delegates.
pub open spec fn replicate_specs(
    ns: Seq<u8>,
    remote_peer: Seq<u8>,
    heads: Seq<(Seq<SegV>, Seq<u8>)>,
    peers: Seq<(Seq<u8>, Seq<SigEntryV>)>,
    delegates: Seq<UrnV>,
) -> Seq<RefspecV> {
    cmap(
        peers,
        |p: (Seq<u8>, Seq<SigEntryV>)| sigrefs_specs(ns, remote_peer, heads, p.0, p.1),
    ) + peek_one(ns, remote_peer, remote_peer) + cmap(
        delegates,
        |d: UrnV| delegate_specs(d, remote_peer, keys_of(peers)),
    )
}

/// The bootstrap phase plus a peek at the remote peer itself.
pub open spec fn peekall_specs(ns: Seq<u8>, remote_peer: Seq<u8>) -> Seq<RefspecV> {
    all_specs(ns) + peek_one(ns, remote_peer, remote_peer)
}

pub open spec fn peer_views(s: Seq<PeerId>) -> Seq<Seq<u8>> {
    s.map_values(|p: PeerId| p@)
}

pub open spec fn sig_pair_views(s: Seq<(PeerId, Refs)>) -> Seq<(Seq<u8>, Seq<SigEntryV>)> {
    s.map_values(|p: (PeerId, Refs)| (p.0@, p.1@))
}

pub open spec fn urn_views(s: Seq<Urn>) -> Seq<UrnV> {
    s.map_values(|u: Urn| u@)
}

pub open spec fn rs_views(s: Seq<Refspec>) -> Seq<RefspecV> {
    s.map_values(|r: Refspec| r@)
}

/// Every spec in `s` is non-forced.
pub open spec fn all_unforced(s: Seq<RefspecV>) -> bool {
    forall|i: int| 0 <= i < s.len() ==> !(#[trigger] s[i]).force
}

// ------------------------------------------------------------------
// The planner as executable functions.
// ------------------------------------------------------------------

/// Append every element of `src` to `dst`, in order.
pub fn append_specs(dst: &mut Vec<Fetchspec>, src: Vec<Fetchspec>)
    ensures
        rs_views(final(dst)@) == rs_views(old(dst)@) + rs_views(src@),
{
    let ghost dorig = old(dst)@;
    let ghost sorig = src@;
    let mut src = src;
    while src.len() > 0
        invariant
            rs_views(dst@) + rs_views(src@) == rs_views(dorig) + rs_views(sorig),
        decreases src@.len(),
    {
        let x = src.remove(0);
        let ghost dpre = dst@;
        let ghost spre = src@;
        dst.push(x);
        proof {
            assert(rs_views(dst@) + rs_views(src@) =~= rs_views(dorig) + rs_views(sorig));
        }
    }
    proof {
        assert(rs_views(dst@) + rs_views(src@) =~= rs_views(dst@));
    }
}

fn rad_id_pat(ns: &Revision, remote: RemoteSel) -> (r: PatRef)
    ensures
        r@ == rad_id_v(ns@, remote@),
{
    PatRef { ns: ns.dup(), remote, category: Category::Rad, name: NamePat::Plain(name_id_bytes()) }
}

fn rad_self_pat(ns: &Revision, remote: RemoteSel) -> (r: PatRef)
    ensures
        r@ == rad_self_v(ns@, remote@),
{
    PatRef {
        ns: ns.dup(),
        remote,
        category: Category::Rad,
        name: NamePat::Plain(name_self_bytes()),
    }
}

fn rad_signed_refs_pat(ns: &Revision, remote: RemoteSel) -> (r: PatRef)
    ensures
        r@ == rad_signed_refs_v(ns@, remote@),
{
    PatRef {
        ns: ns.dup(),
        remote,
        category: Category::Rad,
        name: NamePat::Plain(name_signed_refs_bytes()),
    }
}

fn rad_ids_pat(ns: &Revision, remote: RemoteSel) -> (r: PatRef)
    ensures
        r@ == rad_ids_v(ns@, remote@),
{
    PatRef { ns: ns.dup(), remote, category: Category::Rad, name: NamePat::Glob(name_ids_bytes()) }
}

/// The bootstrap block: all three identity refs under wildcard remote.
pub fn all(urn: &Urn) -> (r: Vec<Fetchspec>)
    ensures
        rs_views(r@) == all_specs(urn@.id),
        all_unforced(rs_views(r@)),
{
    let mut r: Vec<Fetchspec> = Vec::new();
    r.push(
        Refspec {
            src: rad_id_pat(&urn.id, RemoteSel::Any),
            dst: rad_id_pat(&urn.id, RemoteSel::Any),
            force: false,
        },
    );
    r.push(
        Refspec {
            src: rad_self_pat(&urn.id, RemoteSel::Any),
            dst: rad_self_pat(&urn.id, RemoteSel::Any),
            force: false,
        },
    );
    r.push(
        Refspec {
            src: rad_signed_refs_pat(&urn.id, RemoteSel::Any),
            dst: rad_signed_refs_pat(&urn.id, RemoteSel::Any),
            force: false,
        },
    );
    proof {
        assert(rs_views(r@) =~= all_specs(urn@.id));
    }
    r
}

fn sel_for_peer(peer: &PeerId, remote_peer: &PeerId) -> (r: RemoteSel)
    ensures
        r@ == sel_for(peer@, remote_peer@),
{
    if peer.eq_peer(remote_peer) {
        RemoteSel::Own
    } else {
        RemoteSel::Peer(peer.dup())
    }
}

/// The peek block for one peer.
fn peek_one_block(ns: &Revision, remote_peer: &PeerId, remote: &PeerId) -> (r: Vec<Fetchspec>)
    ensures
        rs_views(r@) == peek_one(ns@, remote_peer@, remote@),
        all_unforced(rs_views(r@)),
{
    let mut r: Vec<Fetchspec> = Vec::new();
    r.push(
        Refspec {
            src: rad_id_pat(ns, sel_for_peer(remote, remote_peer)),
            dst: rad_id_pat(ns, RemoteSel::Peer(remote.dup())),
            force: false,
        },
    );
    r.push(
        Refspec {
            src: rad_self_pat(ns, sel_for_peer(remote, remote_peer)),
            dst: rad_self_pat(ns, RemoteSel::Peer(remote.dup())),
            force: false,
        },
    );
    r.push(
        Refspec {
            src: rad_signed_refs_pat(ns, sel_for_peer(remote, remote_peer)),
            dst: rad_signed_refs_pat(ns, RemoteSel::Peer(remote.dup())),
            force: false,
        },
    );
    r.push(
        Refspec {
            src: rad_ids_pat(ns, sel_for_peer(remote, remote_peer)),
            dst: rad_ids_pat(ns, RemoteSel::Peer(remote.dup())),
            force: false,
        },
    );
    proof {
        assert(rs_views(r@) =~= peek_one(ns@, remote_peer@, remote@));
    }
    r
}

/// The peek phase: identity refs and delegate-id globs of every peer in
/// `remotes`, as seen by `remote_peer`.
pub fn peek(urn: &Urn, remote_peer: &PeerId, remotes: &Vec<PeerId>) -> (r: Vec<Fetchspec>)
    ensures
        rs_views(r@) == peek_specs(urn@.id, remote_peer@, peer_views(remotes@)),
        all_unforced(rs_views(r@)),
{
    let mut r: Vec<Fetchspec> = Vec::new();
    let ghost s = peer_views(remotes@);
    let mut i: usize = 0;
    proof {
        assert(s.take(0).len() == 0);
        assert(rs_views(r@) =~= peek_specs(urn@.id, remote_peer@, s.take(0)));
    }
    while i < remotes.len()
        invariant
            i <= remotes.len(),
            s == peer_views(remotes@),
            rs_views(r@) == peek_specs(urn@.id, remote_peer@, s.take(i as int)),
            all_unforced(rs_views(r@)),
        decreases remotes.len() - i,
    {
        let block = peek_one_block(&urn.id, remote_peer, &remotes[i]);
        append_specs(&mut r, block);
        proof {
            lemma_cmap_take_step(s, |p: Seq<u8>| peek_one(urn@.id, remote_peer@, p), i as int);
        }
        i += 1;
    }
    proof {
        assert(s.take(s.len() as int) =~= s);
    }
    r
}

/// The signed-refs requests for every peer in `peers`.
pub fn signed_refs(urn: &Urn, remote_peer: &PeerId, peers: &Vec<PeerId>) -> (r: Vec<Fetchspec>)
    ensures
        rs_views(r@) == signed_refs_specs(urn@.id, remote_peer@, peer_views(peers@)),
        all_unforced(rs_views(r@)),
{
    let mut r: Vec<Fetchspec> = Vec::new();
    let ghost s = peer_views(peers@);
    let mut i: usize = 0;
    proof {
        assert(s.take(0).len() == 0);
        assert(rs_views(r@) =~= signed_refs_specs(urn@.id, remote_peer@, s.take(0)));
    }
    while i < peers.len()
        invariant
            i <= peers.len(),
            s == peer_views(peers@),
            rs_views(r@) == signed_refs_specs(urn@.id, remote_peer@, s.take(i as int)),
            all_unforced(rs_views(r@)),
        decreases peers.len() - i,
    {
        let ghost rpre = rs_views(r@);
        r.push(
            Refspec {
                src: rad_signed_refs_pat(&urn.id, sel_for_peer(&peers[i], remote_peer)),
                dst: rad_signed_refs_pat(&urn.id, RemoteSel::Peer(peers[i].dup())),
                force: false,
            },
        );
        proof {
            lemma_cmap_take_step(
                s,
                |t: Seq<u8>| seq![signed_refs_one(urn@.id, remote_peer@, t)],
                i as int,
            );
            assert(rs_views(r@) =~= rpre + seq![signed_refs_one(urn@.id, remote_peer@, s[i as int])]);
        }
        i += 1;
    }
    proof {
        assert(s.take(s.len() as int) =~= s);
    }
    r
}

/// The fully qualified remote name of a tracked peer's categorised ref.
pub fn namespaced(
    ns: &Revision,
    remote_peer: &PeerId,
    tracked_peer: &PeerId,
    name: &Vec<u8>,
    cat: Category,
) -> (r: Vec<Seg>)
    ensures
        pview(r@) == namespaced_path(ns@, remote_peer@, tracked_peer@, name@, cat),
{
    let mut r: Vec<Seg> = Vec::new();
    r.push(Seg::Refs);
    r.push(Seg::Namespaces);
    r.push(Seg::Lit(clone_bytes(&ns.hash)));
    r.push(Seg::Refs);
    if tracked_peer.eq_peer(remote_peer) {
        r.push(Seg::Cat(cat));
        r.push(Seg::Lit(clone_bytes(name)));
        proof {
            assert(pview(r@) =~= namespaced_path(ns@, remote_peer@, tracked_peer@, name@, cat));
        }
    } else {
        r.push(Seg::Remotes);
        r.push(Seg::Lit(clone_bytes(&tracked_peer.key)));
        r.push(Seg::Cat(cat));
        r.push(Seg::Lit(clone_bytes(name)));
        proof {
            assert(pview(r@) =~= namespaced_path(ns@, remote_peer@, tracked_peer@, name@, cat));
        }
    }
    r
}

/// The specs a tracked peer's manifest contributes: one per entry whose
/// advertised target equals the signed target, none for entries the
/// remote does not advertise or advertises differently.
fn sigrefs_blocks(
    ns: &Revision,
    remote_peer: &PeerId,
    remote_heads: &RemoteHeads,
    tracked_peer: &PeerId,
    refs: &Refs,
) -> (r: Vec<Fetchspec>)
    ensures
        rs_views(r@) == sigrefs_specs(ns@, remote_peer@, remote_heads@, tracked_peer@, refs@),
        all_unforced(rs_views(r@)),
{
    let mut r: Vec<Fetchspec> = Vec::new();
    let ghost es = refs@;
    let mut i: usize = 0;
    proof {
        assert(es.take(0).len() == 0);
        assert(rs_views(r@) =~= sigrefs_specs(ns@, remote_peer@, remote_heads@, tracked_peer@, es.take(0)));
    }
    while i < refs.entries.len()
        invariant
            i <= refs.entries.len(),
            es == refs@,
            es.len() == refs.entries@.len(),
            forall|j: int| 0 <= j < es.len() ==> es[j] == refs.entries@[j]@,
            rs_views(r@) == sigrefs_specs(
                ns@,
                remote_peer@,
                remote_heads@,
                tracked_peer@,
                es.take(i as int),
            ),
            all_unforced(rs_views(r@)),
        decreases refs.entries.len() - i,
    {
        let ghost rpre = rs_views(r@);
        let entry = &refs.entries[i];
        let name_path = namespaced(ns, remote_peer, tracked_peer, &entry.name, entry.category);
        match remote_heads.get_target(&name_path) {
            Option::None => {},
            Option::Some(target) => {
                if target.eq_oid(&entry.target) {
                    r.push(
                        Refspec {
                            src: PatRef {
                                ns: ns.dup(),
                                remote: sel_for_peer(tracked_peer, remote_peer),
                                category: entry.category,
                                name: NamePat::Plain(clone_bytes(&entry.name)),
                            },
                            dst: PatRef {
                                ns: ns.dup(),
                                remote: RemoteSel::Peer(tracked_peer.dup()),
                                category: entry.category,
                                name: NamePat::Plain(clone_bytes(&entry.name)),
                            },
                            force: false,
                        },
                    );
                }
            },
        }
        proof {
            lemma_cmap_take_step(
                es,
                |e: SigEntryV| sigref_entry_specs(
                    ns@,
                    remote_peer@,
                    remote_heads@,
                    tracked_peer@,
                    e,
                ),
                i as int,
            );
            assert(rs_views(r@) =~= rpre + sigref_entry_specs(
                ns@,
                remote_peer@,
                remote_heads@,
                tracked_peer@,
                es[i as int],
            ));
        }
        i += 1;
    }
    proof {
        assert(es.take(es.len() as int) =~= es);
    }
    r
}

/// The replicate phase: signed refs of tracked peers that the remote
/// advertises at their signed targets, a peek at the remote peer, and
/// the top-level delegates' identity refs and signed refs.
pub fn replicate(
    urn: &Urn,
    remote_peer: &PeerId,
    remote_heads: &RemoteHeads,
    tracked_sigrefs: &Vec<(PeerId, Refs)>,
    delegates: &Vec<Urn>,
) -> (r: Vec<Fetchspec>)
    ensures
        rs_views(r@) == replicate_specs(
            urn@.id,
            remote_peer@,
            remote_heads@,
            sig_pair_views(tracked_sigrefs@),
            urn_views(delegates@),
        ),
        all_unforced(rs_views(r@)),
{
    let ghost tv = sig_pair_views(tracked_sigrefs@);
    let ghost dv = urn_views(delegates@);
    let mut r: Vec<Fetchspec> = Vec::new();

    // Signed refs of every tracked peer.
    let mut i: usize = 0;
    proof {
        assert(tv.take(0).len() == 0);
        assert(rs_views(r@) =~= cmap(
            tv.take(0),
            |p: (Seq<u8>, Seq<SigEntryV>)| sigrefs_specs(
                urn@.id,
                remote_peer@,
                remote_heads@,
                p.0,
                p.1,
            ),
        ));
    }
    while i < tracked_sigrefs.len()
        invariant
            i <= tracked_sigrefs.len(),
            tv == sig_pair_views(tracked_sigrefs@),
            rs_views(r@) == cmap(
                tv.take(i as int),
                |p: (Seq<u8>, Seq<SigEntryV>)| sigrefs_specs(
                    urn@.id,
                    remote_peer@,
                    remote_heads@,
                    p.0,
                    p.1,
                ),
            ),
            all_unforced(rs_views(r@)),
        decreases tracked_sigrefs.len() - i,
    {
        let block = sigrefs_blocks(
            &urn.id,
            remote_peer,
            remote_heads,
            &tracked_sigrefs[i].0,
            &tracked_sigrefs[i].1,
        );
        append_specs(&mut r, block);
        proof {
            lemma_cmap_take_step(
                tv,
                |p: (Seq<u8>, Seq<SigEntryV>)| sigrefs_specs(
                    urn@.id,
                    remote_peer@,
                    remote_heads@,
                    p.0,
                    p.1,
                ),
                i as int,
            );
        }
        i += 1;
    }
    let ghost part_sig = rs_views(r@);
    proof {
        assert(tv.take(tv.len() as int) =~= tv);
    }

    // Peek at the remote peer itself.
    let block = peek_one_block(&urn.id, remote_peer, remote_peer);
    append_specs(&mut r, block);
    let ghost part_peek = rs_views(r@);

    // The current peers set, reused for every delegate.
    let mut keys: Vec<PeerId> = Vec::new();
    let mut k: usize = 0;
    while k < tracked_sigrefs.len()
        invariant
            k <= tracked_sigrefs.len(),
            keys@.len() == k,
            forall|j: int| 0 <= j < k ==> keys@[j]@ == tracked_sigrefs@[j].0@,
        decreases tracked_sigrefs.len() - k,
    {
        keys.push(tracked_sigrefs[k].0.dup());
        k += 1;
    }
    proof {
        assert(peer_views(keys@) =~= keys_of(tv));
    }

    // Identity refs and signed refs of every top-level delegate.
    let mut i: usize = 0;
    proof {
        assert(dv.take(0).len() == 0);
        assert(cmap(
            dv.take(0),
            |d: UrnV| delegate_specs(d, remote_peer@, keys_of(tv)),
        ) =~= Seq::<RefspecV>::empty());
        assert(rs_views(r@) =~= part_peek + cmap(
            dv.take(0),
            |d: UrnV| delegate_specs(d, remote_peer@, keys_of(tv)),
        ));
    }
    while i < delegates.len()
        invariant
            i <= delegates.len(),
            dv == urn_views(delegates@),
            tv == sig_pair_views(tracked_sigrefs@),
            peer_views(keys@) == keys_of(tv),
            part_peek == part_sig + peek_one(urn@.id, remote_peer@, remote_peer@),
            part_sig == cmap(
                tv,
                |p: (Seq<u8>, Seq<SigEntryV>)| sigrefs_specs(
                    urn@.id,
                    remote_peer@,
                    remote_heads@,
                    p.0,
                    p.1,
                ),
            ),
            rs_views(r@) == part_peek + cmap(
                dv.take(i as int),
                |d: UrnV| delegate_specs(d, remote_peer@, keys_of(tv)),
            ),
            all_unforced(rs_views(r@)),
        decreases delegates.len() - i,
    {
        let peek_block = peek_one_block(&delegates[i].id, remote_peer, remote_peer);
        append_specs(&mut r, peek_block);
        let sr_block = signed_refs(&delegates[i], remote_peer, &keys);
        append_specs(&mut r, sr_block);
        proof {
            lemma_cmap_take_step(
                dv,
                |d: UrnV| delegate_specs(d, remote_peer@, keys_of(tv)),
                i as int,
            );
            assert(rs_views(r@) =~= part_peek + (cmap(
                dv.take(i as int),
                |d: UrnV| delegate_specs(d, remote_peer@, keys_of(tv)),
            ) + delegate_specs(dv[i as int], remote_peer@, keys_of(tv))));
        }
        i += 1;
    }
    proof {
        assert(dv.take(dv.len() as int) =~= dv);
        assert(rs_views(r@) =~= replicate_specs(urn@.id, remote_peer@, remote_heads@, tv, dv));
    }
    r
}

/// Planner determinism: for fixed inputs, the peek and replicate phases
/// return an equal multiset of refspecs regardless of the iteration
/// order of the input collections (the remotes set, the tracked-sigrefs
/// map and the delegates set).
pub proof fn lemma_refspecs_deterministic(
    ns: Seq<u8>,
    remote_peer: Seq<u8>,
    heads: Seq<(Seq<SegV>, Seq<u8>)>,
    remotes1: Seq<Seq<u8>>,
    remotes2: Seq<Seq<u8>>,
    tracked1: Seq<(Seq<u8>, Seq<SigEntryV>)>,
    tracked2: Seq<(Seq<u8>, Seq<SigEntryV>)>,
    delegates1: Seq<UrnV>,
    delegates2: Seq<UrnV>,
)
    requires
        remotes1.to_multiset() == remotes2.to_multiset(),
        tracked1.to_multiset() == tracked2.to_multiset(),
        delegates1.to_multiset() == delegates2.to_multiset(),
    ensures
        peek_specs(ns, remote_peer, remotes1).to_multiset() == peek_specs(
            ns,
            remote_peer,
            remotes2,
        ).to_multiset(),
        replicate_specs(ns, remote_peer, heads, tracked1, delegates1).to_multiset()
            == replicate_specs(ns, remote_peer, heads, tracked2, delegates2).to_multiset(),
{
    broadcast use vstd::seq_lib::lemma_multiset_commutative;

    crate::seqtools::lemma_cmap_permutation(
        remotes1,
        remotes2,
        |r: Seq<u8>| peek_one(ns, remote_peer, r),
        |r: Seq<u8>| peek_one(ns, remote_peer, r),
    );

    crate::seqtools::lemma_cmap_permutation(
        tracked1,
        tracked2,
        |p: (Seq<u8>, Seq<SigEntryV>)| sigrefs_specs(ns, remote_peer, heads, p.0, p.1),
        |p: (Seq<u8>, Seq<SigEntryV>)| sigrefs_specs(ns, remote_peer, heads, p.0, p.1),
    );

    crate::seqtools::lemma_map_values_permutation(
        tracked1,
        tracked2,
        |p: (Seq<u8>, Seq<SigEntryV>)| p.0,
    );
    assert forall|d: UrnV|
        (#[trigger] delegate_specs(d, remote_peer, keys_of(tracked1))).to_multiset()
            == delegate_specs(d, remote_peer, keys_of(tracked2)).to_multiset() by {
        crate::seqtools::lemma_cmap_permutation(
            keys_of(tracked1),
            keys_of(tracked2),
            |t: Seq<u8>| seq![signed_refs_one(d.id, remote_peer, t)],
            |t: Seq<u8>| seq![signed_refs_one(d.id, remote_peer, t)],
        );
    }
    crate::seqtools::lemma_cmap_permutation(
        delegates1,
        delegates2,
        |d: UrnV| delegate_specs(d, remote_peer, keys_of(tracked1)),
        |d: UrnV| delegate_specs(d, remote_peer, keys_of(tracked2)),
    );
}

// ------------------------------------------------------------------
// The phase seed.
// ------------------------------------------------------------------

/// Seed value to compute the fetchspecs for the desired fetch phase
/// from.
pub enum Fetchspecs {
    /// Request all identity documents.
    PeekAll { limit: Limit },
    /// Only request the branches necessary for identity verification.
    Peek { remotes: Vec<PeerId>, limit: Limit },
    /// Request the remote heads matching the signed refs of the peers
    /// peers, as well as top-level delegates found in the identity
    /// document.
    Replicate { tracked_sigrefs: Vec<(PeerId, Refs)>, delegates: Vec<Urn>, limit: Limit },
}

impl Fetchspecs {
    /// What `refspecs` returns for this seed.
    pub open spec fn spec_refspecs(
        &self,
        urn: UrnV,
        remote_peer: Seq<u8>,
        heads: Seq<(Seq<SegV>, Seq<u8>)>,
    ) -> Seq<RefspecV> {
        match self {
            Fetchspecs::PeekAll { .. } => peekall_specs(urn.id, remote_peer),
            Fetchspecs::Peek { remotes, .. } => peek_specs(
                urn.id,
                remote_peer,
                peer_views(remotes@),
            ),
            Fetchspecs::Replicate { tracked_sigrefs, delegates, .. } => replicate_specs(
                urn.id,
                remote_peer,
                heads,
                sig_pair_views(tracked_sigrefs@),
                urn_views(delegates@),
            ),
        }
    }

    /// The refspecs of the phase this seed stands for.  Every returned
    /// spec is non-forced: history divergence is resolved by
    /// verification, never by forcing.
    pub fn refspecs(&self, urn: &Urn, remote_peer: &PeerId, remote_heads: &RemoteHeads) -> (r: Vec<
        Fetchspec,
    >)
        ensures
            rs_views(r@) == self.spec_refspecs(urn@, remote_peer@, remote_heads@),
            all_unforced(rs_views(r@)),
    {
        match self {
            Fetchspecs::PeekAll { .. } => {
                let mut r = all(urn);
                let block = peek_one_block(&urn.id, remote_peer, remote_peer);
                append_specs(&mut r, block);
                r
            },
            Fetchspecs::Peek { remotes, .. } => peek(urn, remote_peer, remotes),
            Fetchspecs::Replicate { tracked_sigrefs, delegates, .. } => replicate(
                urn,
                remote_peer,
                remote_heads,
                tracked_sigrefs,
                delegates,
            ),
        }
    }

    /// The byte ceiling of this phase.
    pub open spec fn spec_fetch_limit(&self) -> usize {
        match self {
            Fetchspecs::PeekAll { limit } => limit.peek,
            Fetchspecs::Peek { limit, .. } => limit.peek,
            Fetchspecs::Replicate { limit, .. } => limit.data,
        }
    }

    /// The transport's byte ceiling: the peek limit for peek phases, the
    /// data limit for replication.
    pub fn fetch_limit(&self) -> (r: usize)
        ensures
            r == self.spec_fetch_limit(),
    {
        match self {
            Fetchspecs::PeekAll { limit } => limit.peek,
            Fetchspecs::Peek { limit, .. } => limit.peek,
            Fetchspecs::Replicate { limit, .. } => limit.data,
        }
    }
}

} // verus!
