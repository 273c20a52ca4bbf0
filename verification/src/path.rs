//! Ref paths as segment lists.
//!
//! A ref name is a `/`-separated path.  The logic never needs the textual
//! rendering, only the path structure, so a path is a list of segments:
//! the well-known words (`refs`, `namespaces`, `remotes`, the category
//! words) are enum constants, a wildcard is `Star`, and everything
//! dynamic (a namespace id, a peer id, a branch name) is a literal
//! segment holding its bytes.

use vstd::prelude::*;

use crate::bytes::{bytes_eq, clone_bytes};

verus! {

/// The four ref categories a namespace carries.
#[derive(Clone, Copy, PartialEq, Eq, Structural, Debug)]
pub enum Category {
    Rad,
    Heads,
    Tags,
    Notes,
}

/// One segment of a ref path.
pub enum Seg {
    /// The word `refs`.
    Refs,
    /// The word `namespaces`.
    Namespaces,
    /// The word `remotes`.
    Remotes,
    /// A category word: `rad`, `heads`, `tags` or `notes`.
    Cat(Category),
    /// The wildcard `*`.
    Star,
    /// A dynamic segment: a namespace id, a peer id or a ref name.
    Lit(Vec<u8>),
}

/// The mathematical value of a segment.
pub ghost enum SegV {
    Refs,
    Namespaces,
    Remotes,
    Cat(Category),
    Star,
    Lit(Seq<u8>),
}

impl View for Seg {
    type V = SegV;

    open spec fn view(&self) -> SegV {
        match self {
            Seg::Refs => SegV::Refs,
            Seg::Namespaces => SegV::Namespaces,
            Seg::Remotes => SegV::Remotes,
            Seg::Cat(c) => SegV::Cat(*c),
            Seg::Star => SegV::Star,
            Seg::Lit(b) => SegV::Lit(b@),
        }
    }
}

/// The mathematical value of a path.
pub open spec fn pview(p: Seq<Seg>) -> Seq<SegV> {
    p.map_values(|s: Seg| s@)
}

pub fn seg_eq(a: &Seg, b: &Seg) -> (r: bool)
    ensures
        r <==> a@ == b@,
{
    match (a, b) {
        (Seg::Refs, Seg::Refs) => true,
        (Seg::Namespaces, Seg::Namespaces) => true,
        (Seg::Remotes, Seg::Remotes) => true,
        (Seg::Cat(c), Seg::Cat(d)) => c == d,
        (Seg::Star, Seg::Star) => true,
        (Seg::Lit(x), Seg::Lit(y)) => bytes_eq(x, y),
        _ => false,
    }
}

pub fn seg_dup(s: &Seg) -> (r: Seg)
    ensures
        r@ == s@,
{
    match s {
        Seg::Refs => Seg::Refs,
        Seg::Namespaces => Seg::Namespaces,
        Seg::Remotes => Seg::Remotes,
        Seg::Cat(c) => Seg::Cat(*c),
        Seg::Star => Seg::Star,
        Seg::Lit(b) => Seg::Lit(clone_bytes(b)),
    }
}

pub fn path_eq(a: &Vec<Seg>, b: &Vec<Seg>) -> (r: bool)
    ensures
        r <==> pview(a@) == pview(b@),
{
    if a.len() != b.len() {
        assert(pview(a@).len() != pview(b@).len());
        return false;
    }
    let mut i: usize = 0;
    while i < a.len()
        invariant
            i <= a.len(),
            a.len() == b.len(),
            forall|j: int| 0 <= j < i ==> pview(a@)[j] == pview(b@)[j],
        decreases a.len() - i,
    {
        if !seg_eq(&a[i], &b[i]) {
            assert(pview(a@)[i as int] != pview(b@)[i as int]);
            return false;
        }
        i += 1;
    }
    proof {
        assert(pview(a@) =~= pview(b@));
    }
    true
}

pub fn path_dup(p: &Vec<Seg>) -> (r: Vec<Seg>)
    ensures
        pview(r@) == pview(p@),
{
    let mut r: Vec<Seg> = Vec::new();
    let mut i: usize = 0;
    while i < p.len()
        invariant
            i <= p.len(),
            r@.len() == i,
            forall|j: int| 0 <= j < i ==> r@[j]@ == p@[j]@,
        decreases p.len() - i,
    {
        r.push(seg_dup(&p[i]));
        i += 1;
    }
    proof {
        assert(pview(r@) =~= pview(p@));
    }
    r
}

/// Append a copy of every segment of `src` to `dst`.
pub fn path_extend(dst: &mut Vec<Seg>, src: &Vec<Seg>)
    ensures
        pview(final(dst)@) == pview(old(dst)@) + pview(src@),
{
    let mut i: usize = 0;
    while i < src.len()
        invariant
            i <= src.len(),
            dst@.len() == old(dst)@.len() + i,
            forall|j: int| 0 <= j < old(dst)@.len() ==> dst@[j]@ == old(dst)@[j]@,
            forall|j: int| 0 <= j < i ==> dst@[old(dst)@.len() + j]@ == src@[j]@,
        decreases src.len() - i,
    {
        dst.push(seg_dup(&src[i]));
        i += 1;
    }
    proof {
        assert(pview(dst@) =~= pview(old(dst)@) + pview(src@));
    }
}

/// Whether `p` is a (segment-wise) prefix of `v`.
pub open spec fn path_prefix_of(p: Seq<SegV>, v: Seq<SegV>) -> bool {
    p.len() <= v.len() && v.take(p.len() as int) == p
}

} // verus!
