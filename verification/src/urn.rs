//! URNs and the context rewrite that bridges gossip and storage.
//!
//! A URN names an identity: the content hash of its initial document,
//! plus an optional ref path within that namespace.  `urn_context` maps
//! the gossip "what" (a URN and an optional origin peer) to the storage
//! "where": when the origin is the local peer the path is rewritten to
//! its canonical qualified form (defaulting to `refs/rad/id`), otherwise
//! to `refs/remotes/<origin>/<stripped path>`.

use vstd::prelude::*;

use crate::ids::{PeerId, Revision};
use crate::path::{pview, path_dup, path_extend, Category, Seg, SegV};
use crate::bytes::clone_bytes;

verus! {

/// The bytes of the canonical identity ref name, `id`.
pub open spec fn name_id() -> Seq<u8> {
    seq![105u8, 100u8]
}

/// The ref name under which an identity document lives: `id`.
pub fn name_id_bytes() -> (r: Vec<u8>)
    ensures
        r@ == name_id(),
{
    let mut r: Vec<u8> = Vec::new();
    r.push(105u8);
    r.push(100u8);
    proof {
        assert(r@ =~= name_id());
    }
    r
}

/// The default path of a URN: `refs/rad/id`.
pub open spec fn default_path() -> Seq<SegV> {
    seq![SegV::Refs, SegV::Cat(Category::Rad), SegV::Lit(name_id())]
}

pub fn default_path_segs() -> (r: Vec<Seg>)
    ensures
        pview(r@) == default_path(),
{
    let mut r: Vec<Seg> = Vec::new();
    r.push(Seg::Refs);
    r.push(Seg::Cat(Category::Rad));
    r.push(Seg::Lit(name_id_bytes()));
    proof {
        assert(pview(r@) =~= default_path());
    }
    r
}

/// An identity name: a stable id and an optional ref path inside its
/// namespace.
pub struct Urn {
    pub id: Revision,
    pub path: Option<Vec<Seg>>,
}

/// The mathematical value of a URN.
pub ghost struct UrnV {
    pub id: Seq<u8>,
    pub path: Option<Seq<SegV>>,
}

impl View for Urn {
    type V = UrnV;

    open spec fn view(&self) -> UrnV {
        UrnV {
            id: self.id@,
            path: match self.path {
                Option::None => Option::None,
                Option::Some(p) => Option::Some(pview(p@)),
            },
        }
    }
}

impl Urn {
    pub open spec fn wf(&self) -> bool {
        self.id.wf()
    }

    pub fn new(id: Revision) -> (r: Urn)
        ensures
            r@ == (UrnV { id: id@, path: Option::None }),
    {
        Urn { id, path: Option::None }
    }

    pub fn dup(&self) -> (r: Urn)
        ensures
            r@ == self@,
    {
        Urn {
            id: self.id.dup(),
            path: match &self.path {
                Option::None => Option::None,
                Option::Some(p) => Option::Some(path_dup(p)),
            },
        }
    }

    /// The same URN with its path dropped: the name of the namespace
    /// itself.
    pub fn with_no_path(&self) -> (r: Urn)
        ensures
            r@ == (UrnV { id: self@.id, path: Option::None }),
    {
        Urn { id: self.id.dup(), path: Option::None }
    }
}

/// A URN together with the peer whose view of it is meant.
pub struct Originates {
    pub from: PeerId,
    pub value: Urn,
}

/// What a gossip message names: a URN, either plain or qualified by its
/// origin peer.
pub enum UrnSource {
    Left(Urn),
    Right(Originates),
}

/// The mathematical value of a `UrnSource`.
pub ghost enum UrnSourceV {
    Left(UrnV),
    Right(Seq<u8>, UrnV),
}

impl View for UrnSource {
    type V = UrnSourceV;

    open spec fn view(&self) -> UrnSourceV {
        match self {
            UrnSource::Left(u) => UrnSourceV::Left(u@),
            UrnSource::Right(o) => UrnSourceV::Right(o.from@, o.value@),
        }
    }
}

/// A path in canonical qualified form: the given path if it already
/// starts with `refs`, else `refs/heads/<path>`.
pub open spec fn qualify(p: Seq<SegV>) -> Seq<SegV> {
    if p.len() > 0 && p[0] == SegV::Refs {
        p
    } else {
        seq![SegV::Refs, SegV::Cat(Category::Heads)] + p
    }
}

/// The canonical qualified form of an optional path, defaulting to
/// `refs/rad/id`.
pub open spec fn qualify_or_default(p: Option<Seq<SegV>>) -> Seq<SegV> {
    match p {
        Option::None => default_path(),
        Option::Some(q) => qualify(q),
    }
}

/// The local rewrite: the path in canonical qualified form.
pub open spec fn local_urn(u: UrnV) -> UrnV {
    UrnV { id: u.id, path: Option::Some(qualify_or_default(u.path)) }
}

/// The remote rewrite: `refs/remotes/<peer>/<qualified path stripped of
/// its leading refs>`.
pub open spec fn remote_urn(u: UrnV, peer: Seq<u8>) -> UrnV {
    UrnV {
        id: u.id,
        path: Option::Some(
            seq![SegV::Refs, SegV::Remotes, SegV::Lit(peer)] + qualify_or_default(
                u.path,
            ).drop_first(),
        ),
    }
}

/// Where `urn_context` sends each source.
pub open spec fn spec_urn_context(local_peer: Seq<u8>, urn: UrnSourceV) -> UrnV {
    match urn {
        UrnSourceV::Left(u) => local_urn(u),
        UrnSourceV::Right(from, u) => if from == local_peer {
            local_urn(u)
        } else {
            remote_urn(u, from)
        },
    }
}

fn qualify_segs(p: Vec<Seg>) -> (r: Vec<Seg>)
    ensures
        pview(r@) == qualify(pview(p@)),
{
    let starts_with_refs = p.len() > 0 && matches!(p[0], Seg::Refs);
    if starts_with_refs {
        proof {
            assert(pview(p@)[0] == SegV::Refs);
        }
        p
    } else {
        proof {
            assert(pview(p@).len() > 0 ==> pview(p@)[0] != SegV::Refs);
        }
        let mut r: Vec<Seg> = Vec::new();
        r.push(Seg::Refs);
        r.push(Seg::Cat(Category::Heads));
        path_extend(&mut r, &p);
        proof {
            assert(pview(r@) =~= qualify(pview(p@)));
        }
        r
    }
}

fn local_form(u: Urn) -> (r: Urn)
    ensures
        r@ == local_urn(u@),
{
    let path = match u.path {
        Option::None => default_path_segs(),
        Option::Some(p) => qualify_segs(p),
    };
    Urn { id: u.id, path: Option::Some(path) }
}

fn remote_form(u: Urn, from: &PeerId) -> (r: Urn)
    ensures
        r@ == remote_urn(u@, from@),
{
    let qualified = match u.path {
        Option::None => default_path_segs(),
        Option::Some(p) => qualify_segs(p),
    };
    let mut path: Vec<Seg> = Vec::new();
    path.push(Seg::Refs);
    path.push(Seg::Remotes);
    path.push(Seg::Lit(clone_bytes(&from.key)));
    let mut i: usize = 1;
    while i < qualified.len()
        invariant
            1 <= i,
            i <= qualified.len() || qualified.len() == 0,
            path@.len() == 3 + (i - 1),
            path@[0]@ == SegV::Refs,
            path@[1]@ == SegV::Remotes,
            path@[2]@ == SegV::Lit(from@),
            forall|j: int| 3 <= j < path@.len() ==> path@[j]@ == qualified@[j - 2]@,
        decreases qualified.len() - i,
    {
        path.push(crate::path::seg_dup(&qualified[i]));
        i += 1;
    }
    proof {
        assert(qualify_or_default(u@.path).len() > 0);
        assert(pview(path@) =~= seq![SegV::Refs, SegV::Remotes, SegV::Lit(from@)]
            + qualify_or_default(u@.path).drop_first());
    }
    Urn { id: u.id, path: Option::Some(path) }
}

/// The storage path a URN resolves to within its namespace: its path
/// in canonical qualified form, defaulting to `refs/rad/id`.
pub fn resolved_path(u: &Urn) -> (r: Vec<Seg>)
    ensures
        pview(r@) == qualify_or_default(u@.path),
{
    match &u.path {
        Option::None => default_path_segs(),
        Option::Some(p) => qualify_segs(path_dup(p)),
    }
}

/// Map the gossip name of a URN to the storage ref it denotes: the
/// canonical qualified path when the origin is absent or is the local
/// peer, the origin's remote-tracking path otherwise.
pub fn urn_context(local_peer: &PeerId, urn: UrnSource) -> (r: Urn)
    ensures
        r@ == spec_urn_context(local_peer@, urn@),
{
    match urn {
        UrnSource::Left(u) => local_form(u),
        UrnSource::Right(o) => {
            if o.from.eq_peer(local_peer) {
                local_form(o.value)
            } else {
                remote_form(o.value, &o.from)
            }
        },
    }
}

/// A URN named plainly and one named as originating from the local peer
/// itself resolve to the same storage ref.
pub proof fn lemma_urn_context_local_origin(local_peer: Seq<u8>, u: UrnV)
    ensures
        spec_urn_context(local_peer, UrnSourceV::Left(u)) == spec_urn_context(
            local_peer,
            UrnSourceV::Right(local_peer, u),
        ),
{
}

} // verus!
