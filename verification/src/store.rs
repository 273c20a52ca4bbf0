//! The local object store, as the replication core sees it.
//!
//! The raw backend (ref database, object database, ancestry queries) is
//! an external collaborator; the core only relies on what it answers.
//! `Store` holds those answers as plain data: the namespaced refs, the
//! tracking remotes, the objects, and the backend's strict-descent
//! ancestry relation.  Every operation of the core is a verified
//! function of this state.

use vstd::prelude::*;

use crate::ids::{Oid, PeerId, Revision};
use crate::path::{pview, path_eq, Seg, SegV};

verus! {

/// A ref in some URN's namespace: `refs/namespaces/<ns>/<path>` points
/// at `target`.
pub struct RefEntry {
    pub ns: Revision,
    pub path: Vec<Seg>,
    pub target: Oid,
}

/// A tracking remote: the commitment to mirror `peer`'s refs under
/// `urn_id`.  The backend names it `<urn>/<peer>`; the pair is that name.
pub struct RemoteEntry {
    pub urn_id: Revision,
    pub peer: PeerId,
}

/// An identity document: a revision of an identity's history.
pub struct DocData {
    /// The root revision this document claims to belong to.
    pub root: Revision,
    /// The prior revision, absent for the root document.
    pub parent: Option<Oid>,
    /// A second parent, present on an explicitly merged revision.
    pub merged: Option<Oid>,
    /// The peers this revision delegates signing to.
    pub delegations: Vec<PeerId>,
    /// The peers whose signatures on this revision check out.  Checking
    /// the raw signatures is the crypto layer's work; the core reads
    /// only its verdict.
    pub signatures: Vec<PeerId>,
}

/// An object in the store: an identity document, or any other object
/// (a commit, a tag) whose content the core never reads.
pub enum Obj {
    Blob,
    Doc(DocData),
}

/// An object with its content id.
pub struct ObjEntry {
    pub oid: Oid,
    pub obj: Obj,
}

/// Whether a ref entry carries the given key.
pub open spec fn ref_key_is(e: RefEntry, ns: Seq<u8>, path: Seq<SegV>) -> bool {
    e.ns@ == ns && pview(e.path@) == path
}

/// Whether a ref with the given key exists among `refs`.
pub open spec fn refs_has(refs: Seq<RefEntry>, ns: Seq<u8>, path: Seq<SegV>) -> bool {
    exists|i: int| 0 <= i < refs.len() && ref_key_is(#[trigger] refs[i], ns, path)
}

/// Whether a ref with the given key exists among `refs` and points at
/// `target`.
pub open spec fn refs_points(
    refs: Seq<RefEntry>,
    ns: Seq<u8>,
    path: Seq<SegV>,
    target: Seq<u8>,
) -> bool {
    exists|i: int|
        0 <= i < refs.len() && ref_key_is(#[trigger] refs[i], ns, path) && refs[i].target@
            == target
}

/// The first object stored under `oid`, if any.
pub open spec fn obj_lookup(objects: Seq<ObjEntry>, oid: Seq<u8>) -> Option<Obj>
    decreases objects.len(),
{
    if objects.len() == 0 {
        Option::None
    } else if objects[0].oid@ == oid {
        Option::Some(objects[0].obj)
    } else {
        obj_lookup(objects.drop_first(), oid)
    }
}

/// The local object store, as data.
pub struct Store {
    /// The peer this store belongs to.
    pub local: PeerId,
    /// The namespaced refs.
    pub refs: Vec<RefEntry>,
    /// The tracking remotes.
    pub remotes: Vec<RemoteEntry>,
    /// The objects, keyed by content id.
    pub objects: Vec<ObjEntry>,
    /// The backend's ancestry answers: `(a, b)` present means `a` is a
    /// strict descendant of `b`.
    pub ancestry: Vec<(Oid, Oid)>,
}

impl Store {
    /// No two refs share a key.
    pub open spec fn refs_wf(&self) -> bool {
        forall|i: int, j: int|
            0 <= i < j < self.refs@.len() ==> !ref_key_is(
                #[trigger] self.refs@[i],
                (#[trigger] self.refs@[j]).ns@,
                pview(self.refs@[j].path@),
            )
    }

    /// No two remotes share a name.
    pub open spec fn remotes_wf(&self) -> bool {
        forall|i: int, j: int|
            0 <= i < j < self.remotes@.len() ==> !((#[trigger] self.remotes@[i]).urn_id@
                == (#[trigger] self.remotes@[j]).urn_id@ && self.remotes@[i].peer@
                == self.remotes@[j].peer@)
    }

    /// The backend answers strict descent: nothing descends from itself.
    pub open spec fn ancestry_wf(&self) -> bool {
        forall|i: int|
            0 <= i < self.ancestry@.len() ==> (#[trigger] self.ancestry@[i]).0@
                != self.ancestry@[i].1@
    }

    pub open spec fn wf(&self) -> bool {
        self.refs_wf() && self.remotes_wf() && self.ancestry_wf()
    }

    /// Whether a ref with the given key exists.
    pub open spec fn has_ref(&self, ns: Seq<u8>, path: Seq<SegV>) -> bool {
        refs_has(self.refs@, ns, path)
    }

    /// Whether the ref with the given key exists and points at `target`.
    pub open spec fn ref_is(&self, ns: Seq<u8>, path: Seq<SegV>, target: Seq<u8>) -> bool {
        refs_points(self.refs@, ns, path, target)
    }

    /// Whether `peer` is tracked in the context of the URN named by
    /// `ns`.
    pub open spec fn has_remote(&self, ns: Seq<u8>, peer: Seq<u8>) -> bool {
        exists|i: int|
            0 <= i < self.remotes@.len() && (#[trigger] self.remotes@[i]).urn_id@ == ns
                && self.remotes@[i].peer@ == peer
    }

    /// Whether an object with the given id is stored.
    pub open spec fn has_obj(&self, oid: Seq<u8>) -> bool {
        exists|i: int| 0 <= i < self.objects@.len() && (#[trigger] self.objects@[i]).oid@ == oid
    }

    /// Whether the backend answers that `a` strictly descends from `b`.
    pub open spec fn spec_descends(&self, a: Seq<u8>, b: Seq<u8>) -> bool {
        exists|i: int|
            0 <= i < self.ancestry@.len() && (#[trigger] self.ancestry@[i]).0@ == a
                && self.ancestry@[i].1@ == b
    }

    /// A fresh store for `local`: no refs, no remotes, no objects.
    pub fn new(local: PeerId) -> (r: Store)
        ensures
            r.wf(),
            r.local@ == local@,
            r.refs@.len() == 0,
            r.remotes@.len() == 0,
            r.objects@.len() == 0,
            r.ancestry@.len() == 0,
    {
        Store {
            local,
            refs: Vec::new(),
            remotes: Vec::new(),
            objects: Vec::new(),
            ancestry: Vec::new(),
        }
    }

    /// The position of the ref with the given key, if it exists.
    fn find_ref(&self, ns: &Revision, path: &Vec<Seg>) -> (r: Option<usize>)
        ensures
            match r {
                Option::Some(i) => i < self.refs@.len() && ref_key_is(
                    self.refs@[i as int],
                    ns@,
                    pview(path@),
                ),
                Option::None => forall|j: int|
                    0 <= j < self.refs@.len() ==> !ref_key_is(
                        #[trigger] self.refs@[j],
                        ns@,
                        pview(path@),
                    ),
            },
    {
        let mut i: usize = 0;
        while i < self.refs.len()
            invariant
                i <= self.refs@.len(),
                forall|j: int|
                    0 <= j < i ==> !ref_key_is(#[trigger] self.refs@[j], ns@, pview(path@)),
            decreases self.refs@.len() - i,
        {
            if self.refs[i].ns.eq_rev(ns) && path_eq(&self.refs[i].path, path) {
                return Option::Some(i);
            }
            i += 1;
        }
        Option::None
    }

    /// The target of the ref with the given key, if it exists.
    pub fn get_ref(&self, ns: &Revision, path: &Vec<Seg>) -> (r: Option<Oid>)
        ensures
            match r {
                Option::Some(t) => self.ref_is(ns@, pview(path@), t@),
                Option::None => !self.has_ref(ns@, pview(path@)),
            },
    {
        match self.find_ref(ns, path) {
            Option::Some(i) => Option::Some(self.refs[i].target.dup()),
            Option::None => Option::None,
        }
    }

    /// Create or overwrite the ref with the given key so that it points
    /// at `target`.  Every other ref is untouched.
    pub fn set_ref(&mut self, ns: &Revision, path: Vec<Seg>, target: &Oid)
        requires
            old(self).wf(),
        ensures
            final(self).wf(),
            final(self).ref_is(ns@, pview(path@), target@),
            forall|n: Seq<u8>, p: Seq<SegV>, t: Seq<u8>|
                !(n == ns@ && p == pview(path@)) ==> (final(self).ref_is(n, p, t) <==> old(
                    self,
                ).ref_is(n, p, t)),
            forall|n: Seq<u8>, p: Seq<SegV>|
                !(n == ns@ && p == pview(path@)) ==> (final(self).has_ref(n, p) <==> old(
                    self,
                ).has_ref(n, p)),
            final(self).local@ == old(self).local@,
            final(self).remotes@ == old(self).remotes@,
            final(self).objects@ == old(self).objects@,
            final(self).ancestry@ == old(self).ancestry@,
    {
        match self.find_ref(ns, &path) {
            Option::Some(i) => {
                let entry = RefEntry { ns: ns.dup(), path, target: target.dup() };
                self.refs[i] = entry;
                proof {
                    lemma_set_ref_frame(old(self).refs@, self.refs@, i as int, ns@, pview(path@));
                    assert(ref_key_is(self.refs@[i as int], ns@, pview(path@)) && self.refs@[
                        i as int
                    ].target@ == target@);
                }
                return ;
            },
            Option::None => {},
        }
        self.refs.push(RefEntry { ns: ns.dup(), path, target: target.dup() });
        proof {
            let oldrefs = old(self).refs@;
            let newrefs = self.refs@;
            let n = oldrefs.len() as int;
            assert(ref_key_is(newrefs[n], ns@, pview(path@)));
            assert(newrefs[n].target@ == target@);
            assert forall|a: int, b: int| 0 <= a < b < newrefs.len() implies !ref_key_is(
                #[trigger] newrefs[a],
                (#[trigger] newrefs[b]).ns@,
                pview(newrefs[b].path@),
            ) by {
                if b == n {
                    assert(newrefs[a] == oldrefs[a]);
                    assert(newrefs[b].ns@ == ns@ && pview(newrefs[b].path@) == pview(path@));
                    assert(!ref_key_is(oldrefs[a], ns@, pview(path@)));
                } else {
                    assert(newrefs[a] == oldrefs[a] && newrefs[b] == oldrefs[b]);
                    assert(!ref_key_is(oldrefs[a], oldrefs[b].ns@, pview(oldrefs[b].path@)));
                }
            }
            assert forall|a: Seq<u8>, p: Seq<SegV>, t: Seq<u8>|
                !(a == ns@ && p == pview(path@)) implies (self.ref_is(a, p, t) <==> old(
                self,
            ).ref_is(a, p, t)) by {
                if old(self).ref_is(a, p, t) {
                    let j = choose|j: int|
                        0 <= j < oldrefs.len() && ref_key_is(#[trigger] oldrefs[j], a, p)
                            && oldrefs[j].target@ == t;
                    assert(ref_key_is(newrefs[j], a, p) && newrefs[j].target@ == t);
                }
                if self.ref_is(a, p, t) {
                    let j = choose|j: int|
                        0 <= j < newrefs.len() && ref_key_is(#[trigger] newrefs[j], a, p)
                            && newrefs[j].target@ == t;
                    assert(j != n);
                    assert(ref_key_is(oldrefs[j], a, p) && oldrefs[j].target@ == t);
                }
            }
            assert forall|a: Seq<u8>, p: Seq<SegV>|
                !(a == ns@ && p == pview(path@)) implies (self.has_ref(a, p) <==> old(
                self,
            ).has_ref(a, p)) by {
                if old(self).has_ref(a, p) {
                    let j = choose|j: int|
                        0 <= j < oldrefs.len() && ref_key_is(#[trigger] oldrefs[j], a, p);
                    assert(ref_key_is(newrefs[j], a, p));
                }
                if self.has_ref(a, p) {
                    let j = choose|j: int|
                        0 <= j < newrefs.len() && ref_key_is(#[trigger] newrefs[j], a, p);
                    assert(j != n);
                    assert(ref_key_is(oldrefs[j], a, p));
                }
            }
        }
    }

    /// Whether the object named `oid` is stored.
    pub fn has_object(&self, oid: &Oid) -> (r: bool)
        ensures
            r <==> self.has_obj(oid@),
    {
        let mut i: usize = 0;
        while i < self.objects.len()
            invariant
                i <= self.objects@.len(),
                forall|j: int| 0 <= j < i ==> (#[trigger] self.objects@[j]).oid@ != oid@,
            decreases self.objects@.len() - i,
        {
            if self.objects[i].oid.eq_oid(oid) {
                return true;
            }
            i += 1;
        }
        false
    }

    /// The first object stored under `oid`, if any.
    pub fn get_obj(&self, oid: &Oid) -> (r: Option<&Obj>)
        ensures
            match r {
                Option::Some(o) => obj_lookup(self.objects@, oid@) == Option::Some(*o),
                Option::None => obj_lookup(self.objects@, oid@) == Option::<Obj>::None,
            },
    {
        let mut i: usize = 0;
        proof {
            assert(self.objects@.skip(0) =~= self.objects@);
        }
        while i < self.objects.len()
            invariant
                i <= self.objects@.len(),
                obj_lookup(self.objects@, oid@) == obj_lookup(self.objects@.skip(i as int), oid@),
            decreases self.objects@.len() - i,
        {
            proof {
                assert(self.objects@.skip(i as int).drop_first() =~= self.objects@.skip(i + 1));
                assert(self.objects@.skip(i as int)[0] == self.objects@[i as int]);
            }
            if self.objects[i].oid.eq_oid(oid) {
                return Option::Some(&self.objects[i].obj);
            }
            i += 1;
        }
        proof {
            assert(self.objects@.skip(self.objects@.len() as int) =~= Seq::<ObjEntry>::empty());
        }
        Option::None
    }

    /// Store `obj` under `oid`.  An id already present keeps its first
    /// object: the store is content-addressed, so equal ids carry equal
    /// content.
    pub fn put_obj(&mut self, oid: Oid, obj: Obj)
        requires
            old(self).wf(),
        ensures
            final(self).wf(),
            final(self).has_obj(oid@),
            forall|k: Seq<u8>|
                k != oid@ ==> obj_lookup(final(self).objects@, k) == obj_lookup(
                    old(self).objects@,
                    k,
                ),
            !old(self).has_obj(oid@) ==> obj_lookup(final(self).objects@, oid@)
                == Option::Some(obj),
            forall|k: Seq<u8>| old(self).has_obj(k) ==> final(self).has_obj(k),
            final(self).local@ == old(self).local@,
            final(self).refs@ == old(self).refs@,
            final(self).remotes@ == old(self).remotes@,
            final(self).ancestry@ == old(self).ancestry@,
    {
        let ghost pre = self.objects@;
        self.objects.push(ObjEntry { oid, obj });
        proof {
            lemma_obj_lookup_push(pre, self.objects@.last(), self.objects@);
            if !old(self).has_obj(self.objects@.last().oid@) {
                lemma_obj_lookup_none(pre, self.objects@.last().oid@);
            }
            assert forall|k: Seq<u8>| obj_lookup(pre, k) is Some implies obj_lookup(
                self.objects@,
                k,
            ) == obj_lookup(pre, k) by {
                lemma_obj_lookup_push(pre, self.objects@.last(), self.objects@);
            }
            assert forall|k: Seq<u8>|
                k != self.objects@.last().oid@ && obj_lookup(pre, k) is None implies obj_lookup(
                self.objects@,
                k,
            ) == obj_lookup(pre, k) by {}
            assert forall|k: Seq<u8>| old(self).has_obj(k) implies self.has_obj(k) by {
                let j = choose|j: int|
                    0 <= j < pre.len() && (#[trigger] pre[j]).oid@ == k;
                assert((self.objects@[j]).oid@ == k);
            }
        }
    }

    /// Record the backend's answer that `a` strictly descends from `b`.
    pub fn add_descent(&mut self, a: Oid, b: Oid)
        requires
            old(self).wf(),
            a@ != b@,
        ensures
            final(self).wf(),
            final(self).spec_descends(a@, b@),
            forall|x: Seq<u8>, y: Seq<u8>|
                !(x == a@ && y == b@) ==> (final(self).spec_descends(x, y) <==> old(
                    self,
                ).spec_descends(x, y)),
            final(self).local@ == old(self).local@,
            final(self).refs@ == old(self).refs@,
            final(self).remotes@ == old(self).remotes@,
            final(self).objects@ == old(self).objects@,
    {
        self.ancestry.push((a, b));
        proof {
            let n = old(self).ancestry@.len() as int;
            assert(self.ancestry@[n].0@ == a@ && self.ancestry@[n].1@ == b@);
            assert forall|x: Seq<u8>, y: Seq<u8>|
                !(x == a@ && y == b@) implies (self.spec_descends(x, y) <==> old(
                self,
            ).spec_descends(x, y)) by {
                if self.spec_descends(x, y) {
                    let j = choose|j: int|
                        0 <= j < self.ancestry@.len() && (#[trigger] self.ancestry@[j]).0@ == x
                            && self.ancestry@[j].1@ == y;
                    assert(j != n);
                    assert((old(self).ancestry@[j]).0@ == x && old(self).ancestry@[j].1@ == y);
                }
                if old(self).spec_descends(x, y) {
                    let j = choose|j: int|
                        0 <= j < old(self).ancestry@.len() && (#[trigger] old(
                            self,
                        ).ancestry@[j]).0@ == x && old(self).ancestry@[j].1@ == y;
                    assert((self.ancestry@[j]).0@ == x && self.ancestry@[j].1@ == y);
                }
            }
        }
    }

    /// Whether the backend answers that `a` strictly descends from `b`.
    pub fn descends(&self, a: &Oid, b: &Oid) -> (r: bool)
        ensures
            r <==> self.spec_descends(a@, b@),
    {
        let mut i: usize = 0;
        while i < self.ancestry.len()
            invariant
                i <= self.ancestry@.len(),
                forall|j: int|
                    0 <= j < i ==> !((#[trigger] self.ancestry@[j]).0@ == a@
                        && self.ancestry@[j].1@ == b@),
            decreases self.ancestry@.len() - i,
        {
            if self.ancestry[i].0.eq_oid(a) && self.ancestry[i].1.eq_oid(b) {
                return true;
            }
            i += 1;
        }
        false
    }
}

/// Replacing the entry at `i` by one with the same key leaves every
/// other key's bindings alone and keeps the keys pairwise distinct.
proof fn lemma_set_ref_frame(
    oldrefs: Seq<RefEntry>,
    newrefs: Seq<RefEntry>,
    i: int,
    ns: Seq<u8>,
    path: Seq<SegV>,
)
    requires
        0 <= i < oldrefs.len(),
        newrefs.len() == oldrefs.len(),
        forall|j: int| 0 <= j < newrefs.len() && j != i ==> newrefs[j] == oldrefs[j],
        ref_key_is(oldrefs[i], ns, path),
        ref_key_is(newrefs[i], ns, path),
        forall|a: int, b: int|
            0 <= a < b < oldrefs.len() ==> !ref_key_is(
                #[trigger] oldrefs[a],
                (#[trigger] oldrefs[b]).ns@,
                pview(oldrefs[b].path@),
            ),
    ensures
        forall|a: int, b: int|
            0 <= a < b < newrefs.len() ==> !ref_key_is(
                #[trigger] newrefs[a],
                (#[trigger] newrefs[b]).ns@,
                pview(newrefs[b].path@),
            ),
        forall|n: Seq<u8>, p: Seq<SegV>, t: Seq<u8>|
            !(n == ns && p == path) ==> (#[trigger] refs_points(newrefs, n, p, t) <==> refs_points(
                oldrefs,
                n,
                p,
                t,
            )),
        forall|n: Seq<u8>, p: Seq<SegV>|
            !(n == ns && p == path) ==> (#[trigger] refs_has(newrefs, n, p) <==> refs_has(
                oldrefs,
                n,
                p,
            )),
{
    assert forall|j: int| 0 <= j < newrefs.len() implies (#[trigger] newrefs[j]).ns@
        == oldrefs[j].ns@ && pview(newrefs[j].path@) == pview(oldrefs[j].path@) by {
        if j == i {
            assert(newrefs[j].ns@ == ns && pview(newrefs[j].path@) == path);
            assert(oldrefs[j].ns@ == ns && pview(oldrefs[j].path@) == path);
        }
    }
    assert forall|n: Seq<u8>, p: Seq<SegV>, t: Seq<u8>|
        !(n == ns && p == path) implies (#[trigger] refs_points(newrefs, n, p, t) <==> refs_points(
        oldrefs,
        n,
        p,
        t,
    )) by {
        if refs_points(newrefs, n, p, t) {
            let j = choose|j: int|
                0 <= j < newrefs.len() && ref_key_is(#[trigger] newrefs[j], n, p) && newrefs[
                    j
                ].target@ == t;
            assert(j != i);
            assert(ref_key_is(oldrefs[j], n, p) && oldrefs[j].target@ == t);
        }
        if refs_points(oldrefs, n, p, t) {
            let j = choose|j: int|
                0 <= j < oldrefs.len() && ref_key_is(#[trigger] oldrefs[j], n, p) && oldrefs[
                    j
                ].target@ == t;
            assert(j != i);
            assert(ref_key_is(newrefs[j], n, p) && newrefs[j].target@ == t);
        }
    }
    assert forall|n: Seq<u8>, p: Seq<SegV>|
        !(n == ns && p == path) implies (#[trigger] refs_has(newrefs, n, p) <==> refs_has(
        oldrefs,
        n,
        p,
    )) by {
        if refs_has(newrefs, n, p) {
            let j = choose|j: int|
                0 <= j < newrefs.len() && ref_key_is(#[trigger] newrefs[j], n, p);
            assert(j != i);
            assert(ref_key_is(oldrefs[j], n, p));
        }
        if refs_has(oldrefs, n, p) {
            let j = choose|j: int|
                0 <= j < oldrefs.len() && ref_key_is(#[trigger] oldrefs[j], n, p);
            assert(j != i);
            assert(ref_key_is(newrefs[j], n, p));
        }
    }
}

/// Looking an id up after a push: an id already bound keeps its object;
/// the pushed id answers its object if it was new.
proof fn lemma_obj_lookup_push(s: Seq<ObjEntry>, e: ObjEntry, t: Seq<ObjEntry>)
    requires
        t == s.push(e),
    ensures
        forall|k: Seq<u8>|
            obj_lookup(s, k) is Some ==> obj_lookup(t, k) == #[trigger] obj_lookup(s, k),
        forall|k: Seq<u8>|
            obj_lookup(s, k) is None && k != e.oid@ ==> obj_lookup(t, k) == Option::<Obj>::None,
        obj_lookup(s, e.oid@) is None ==> obj_lookup(t, e.oid@) == Option::Some(e.obj),
    decreases s.len(),
{
    if s.len() == 0 {
        assert(t.len() == 1);
        assert(t[0] == e);
        assert(t.drop_first() =~= Seq::<ObjEntry>::empty());
        assert forall|k: Seq<u8>|
            obj_lookup(s, k) is None && k != e.oid@ implies obj_lookup(t, k) == Option::<
            Obj,
        >::None by {
            lemma_obj_lookup_none(t, k);
        }
    } else {
        lemma_obj_lookup_push(s.drop_first(), e, s.drop_first().push(e));
        assert(t.drop_first() =~= s.drop_first().push(e));
        assert(t[0] == s[0]);
        assert forall|k: Seq<u8>| obj_lookup(s, k) is Some implies obj_lookup(t, k) == obj_lookup(
            s,
            k,
        ) by {
            if s[0].oid@ == k {
                assert(obj_lookup(t, k) == Option::Some(t[0].obj));
            } else {
                assert(obj_lookup(s, k) == obj_lookup(s.drop_first(), k));
                assert(obj_lookup(t, k) == obj_lookup(t.drop_first(), k));
            }
        }
        assert forall|k: Seq<u8>|
            obj_lookup(s, k) is None && k != e.oid@ implies obj_lookup(t, k) == Option::<
            Obj,
        >::None by {
            assert(s[0].oid@ != k);
            assert(obj_lookup(s.drop_first(), k) is None);
            assert(obj_lookup(t.drop_first(), k) == Option::<Obj>::None);
            assert(obj_lookup(t, k) == obj_lookup(t.drop_first(), k));
        }
    }
}

/// An id no entry carries looks up to nothing.
proof fn lemma_obj_lookup_none(s: Seq<ObjEntry>, k: Seq<u8>)
    requires
        forall|i: int| 0 <= i < s.len() ==> (#[trigger] s[i]).oid@ != k,
    ensures
        obj_lookup(s, k) == Option::<Obj>::None,
    decreases s.len(),
{
    if s.len() > 0 {
        assert(s[0].oid@ != k);
        lemma_obj_lookup_none(s.drop_first(), k);
    }
}

/// The converse: a successful lookup names an entry.
pub proof fn lemma_obj_lookup_some(s: Seq<ObjEntry>, k: Seq<u8>)
    requires
        obj_lookup(s, k) is Some,
    ensures
        exists|i: int| 0 <= i < s.len() && (#[trigger] s[i]).oid@ == k,
    decreases s.len(),
{
    if s.len() > 0 {
        if s[0].oid@ == k {
        } else {
            lemma_obj_lookup_some(s.drop_first(), k);
            let i = choose|i: int|
                0 <= i < s.drop_first().len() && (#[trigger] s.drop_first()[i]).oid@ == k;
            assert(s[i + 1].oid@ == k);
        }
    }
}

} // verus!
