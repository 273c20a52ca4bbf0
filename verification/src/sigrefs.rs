//! Signed ref manifests and remote head advertisements.
//!
//! A peer's signed refs are the manifest of `(category, name) → object id`
//! pairs it asserts it publishes under a URN.  A remote heads map is what
//! the other side of a fetch advertises: fully qualified ref paths and
//! the ids they point at.

use vstd::prelude::*;

use crate::ids::Oid;
use crate::path::{pview, Category, Seg, SegV};
use crate::bytes::clone_bytes;

verus! {

/// One entry of a signed refs manifest.
pub struct SigEntry {
    pub category: Category,
    pub name: Vec<u8>,
    pub target: Oid,
}

/// The mathematical value of a manifest entry.
pub ghost struct SigEntryV {
    pub category: Category,
    pub name: Seq<u8>,
    pub target: Seq<u8>,
}

impl View for SigEntry {
    type V = SigEntryV;

    open spec fn view(&self) -> SigEntryV {
        SigEntryV { category: self.category, name: self.name@, target: self.target@ }
    }
}

impl SigEntry {
    pub fn new(category: Category, name: Vec<u8>, target: Oid) -> (r: SigEntry)
        ensures
            r@ == (SigEntryV { category, name: name@, target: target@ }),
    {
        SigEntry { category, name, target }
    }

    pub fn dup(&self) -> (r: SigEntry)
        ensures
            r@ == self@,
    {
        SigEntry {
            category: self.category,
            name: clone_bytes(&self.name),
            target: self.target.dup(),
        }
    }
}

/// The mathematical value of a whole manifest.
pub open spec fn entry_views(s: Seq<SigEntry>) -> Seq<SigEntryV> {
    s.map_values(|e: SigEntry| e@)
}

/// A signed refs manifest: the tips one peer asserts it publishes under
/// a URN.  The signature itself is checked where the manifest is read
/// from the store; a manifest value in hand is the signed content.
pub struct Refs {
    pub entries: Vec<SigEntry>,
}

impl View for Refs {
    type V = Seq<SigEntryV>;

    open spec fn view(&self) -> Seq<SigEntryV> {
        entry_views(self.entries@)
    }
}

impl Refs {
    pub fn new(entries: Vec<SigEntry>) -> (r: Refs)
        ensures
            r@ == entry_views(entries@),
    {
        Refs { entries }
    }

    pub fn dup(&self) -> (r: Refs)
        ensures
            r@ == self@,
    {
        let mut entries: Vec<SigEntry> = Vec::new();
        let mut i: usize = 0;
        while i < self.entries.len()
            invariant
                i <= self.entries.len(),
                entries@.len() == i,
                forall|j: int| 0 <= j < i ==> entries@[j]@ == self.entries@[j]@,
            decreases self.entries.len() - i,
        {
            entries.push(self.entries[i].dup());
            i += 1;
        }
        let r = Refs { entries };
        proof {
            assert(r@ =~= self@);
        }
        r
    }
}

/// What the key of an advertised head maps to, if anything.  The first
/// entry with the given path decides.
pub open spec fn heads_lookup(entries: Seq<(Seq<SegV>, Seq<u8>)>, key: Seq<SegV>) -> Option<
    Seq<u8>,
>
    decreases entries.len(),
{
    if entries.len() == 0 {
        Option::None
    } else if entries[0].0 == key {
        Option::Some(entries[0].1)
    } else {
        heads_lookup(entries.drop_first(), key)
    }
}

/// The mathematical value of a heads advertisement.
pub open spec fn head_views(s: Seq<(Vec<Seg>, Oid)>) -> Seq<(Seq<SegV>, Seq<u8>)> {
    s.map_values(|h: (Vec<Seg>, Oid)| (pview(h.0@), h.1@))
}

/// The ref tips a remote peer advertises, keyed by fully qualified path.
pub struct RemoteHeads {
    pub entries: Vec<(Vec<Seg>, Oid)>,
}

impl View for RemoteHeads {
    type V = Seq<(Seq<SegV>, Seq<u8>)>;

    open spec fn view(&self) -> Seq<(Seq<SegV>, Seq<u8>)> {
        head_views(self.entries@)
    }
}

impl RemoteHeads {
    pub fn new() -> (r: RemoteHeads)
        ensures
            r@ == Seq::<(Seq<SegV>, Seq<u8>)>::empty(),
    {
        let r = RemoteHeads { entries: Vec::new() };
        proof {
            assert(r@ =~= Seq::<(Seq<SegV>, Seq<u8>)>::empty());
        }
        r
    }

    pub fn push_head(&mut self, path: Vec<Seg>, target: Oid)
        ensures
            final(self)@ == old(self)@.push((pview(path@), target@)),
    {
        let ghost before = self@;
        self.entries.push((path, target));
        proof {
            assert(self@ =~= before.push((pview(self.entries@.last().0@), self.entries@.last().1@)));
        }
    }

    /// Look the advertised target of `path` up.
    pub fn get_target(&self, path: &Vec<Seg>) -> (r: Option<Oid>)
        ensures
            match r {
                Option::Some(t) => heads_lookup(self@, pview(path@)) == Option::Some(t@),
                Option::None => heads_lookup(self@, pview(path@)) == Option::<Seq<u8>>::None,
            },
    {
        let mut i: usize = 0;
        proof {
            assert(self@.skip(0) =~= self@);
        }
        while i < self.entries.len()
            invariant
                i <= self.entries.len(),
                heads_lookup(self@, pview(path@)) == heads_lookup(
                    self@.skip(i as int),
                    pview(path@),
                ),
            decreases self.entries.len() - i,
        {
            proof {
                assert(self@.skip(i as int).drop_first() =~= self@.skip(i + 1));
                assert(self@.skip(i as int)[0] == self@[i as int]);
            }
            if crate::path::path_eq(&self.entries[i].0, path) {
                return Option::Some(self.entries[i].1.dup());
            }
            i += 1;
        }
        proof {
            assert(self@.skip(self@.len() as int) =~= Seq::<(Seq<SegV>, Seq<u8>)>::empty());
        }
        Option::None
    }
}

} // verus!
