//! The gossip-facing storage facade.
//!
//! Incoming gossip names a URN, perhaps a head, perhaps an origin peer.
//! `put_verdict` decides what one such announcement means for us, given
//! the store and the outcome of the transport's fetch; `ask` answers
//! whether we hold what a peer wants; `fetch_gate` orders the known-
//! object short-circuit before the rate limiter, as the fetch path
//! does.  The transport and the clock are outside work: app code runs
//! them and hands the outcomes in.

use vstd::prelude::*;

use crate::ids::{Oid, PeerId};
use crate::limiter::{rate_transition, rate_check, RateWindow};
use crate::store::Store;
use crate::tracking::is_tracked;
use crate::urn::{spec_urn_context, urn_context, Originates, Urn, UrnSource, UrnSourceV, UrnV};

verus! {

/// An announced revision: the store's object id of a head.
pub enum Rev {
    Git(Oid),
}

/// A gossip payload: a URN, an optional announced head, an optional
/// origin peer whose view of the URN is meant.
pub struct Payload {
    pub urn: Urn,
    pub rev: Option<Rev>,
    pub origin: Option<PeerId>,
}

/// The mathematical value of a payload.
pub ghost struct PayloadV {
    pub urn: UrnV,
    pub rev: Option<Seq<u8>>,
    pub origin: Option<Seq<u8>>,
}

impl View for Payload {
    type V = PayloadV;

    open spec fn view(&self) -> PayloadV {
        PayloadV {
            urn: self.urn@,
            rev: match self.rev {
                Option::Some(Rev::Git(o)) => Option::Some(o@),
                Option::None => Option::None,
            },
            origin: match self.origin {
                Option::Some(p) => Option::Some(p@),
                Option::None => Option::None,
            },
        }
    }
}

/// What one `put` came to.
pub enum PutResult {
    /// The announcement was fetched and is present: pass it on, with
    /// the origin resolved.
    Applied(Payload),
    /// Nothing new for us; the broadcast ends here.
    Stale,
    /// We do not track the announcing peer for this URN.
    Uninteresting,
    /// Something failed along the way.
    Error,
}

/// The origin a payload resolves to: its stated origin, else the
/// providing peer.
pub open spec fn spec_origin(h: PayloadV, provider: Seq<u8>) -> Seq<u8> {
    match h.origin {
        Option::Some(o) => o,
        Option::None => provider,
    }
}

/// The storage URN a payload resolves to under an optional origin.
pub open spec fn spec_resolved(local: Seq<u8>, h: PayloadV, origin: Option<Seq<u8>>) -> UrnV {
    match origin {
        Option::Some(o) => spec_urn_context(local, UrnSourceV::Right(o, h.urn)),
        Option::None => spec_urn_context(local, UrnSourceV::Left(h.urn)),
    }
}

/// Whether the announced data is locally present: the announced head as
/// a stored object, or, with no head announced, the resolved ref
/// itself.
pub open spec fn spec_present(s: Store, h: PayloadV, origin: Option<Seq<u8>>) -> bool {
    match h.rev {
        Option::Some(o) => s.has_obj(o),
        Option::None => {
            let resolved = spec_resolved(s.local@, h, origin);
            match resolved.path {
                Option::Some(p) => s.has_ref(resolved.id, p),
                Option::None => false,
            }
        },
    }
}

/// The view of an optional peer.
pub open spec fn opt_peer_view(o: Option<PeerId>) -> Option<Seq<u8>> {
    match o {
        Option::Some(p) => Option::Some(p@),
        Option::None => Option::None,
    }
}

/// Whether the data `has` announces is present, resolving the URN
/// through `origin`.
fn announced_present(store: &Store, has: &Payload, origin: &Option<PeerId>) -> (r: bool)
    ensures
        r <==> spec_present(*store, has@, opt_peer_view(*origin)),
{
    match &has.rev {
        Option::Some(rev) => match rev {
            Rev::Git(o) => store.has_object(o),
        },
        Option::None => {
            let source = match origin {
                Option::Some(o) => UrnSource::Right(
                    Originates { from: o.dup(), value: has.urn.dup() },
                ),
                Option::None => UrnSource::Left(has.urn.dup()),
            };
            let resolved = urn_context(&store.local, source);
            match &resolved.path {
                Option::Some(p) => {
                    match store.get_ref(&resolved.id, p) {
                        Option::Some(_) => {
                            proof {
                                assert(store.has_ref(resolved@.id, crate::path::pview(p@)));
                            }
                            true
                        },
                        Option::None => false,
                    }
                },
                Option::None => false,
            }
        },
    }
}

/// Whether we hold what `want` asks for: the announced head, or the URN
/// itself if none, under the same URN-context mapping `put` uses.
pub fn ask(store: &Store, want: &Payload) -> (r: bool)
    ensures
        r <==> spec_present(*store, want@, want@.origin),
{
    announced_present(store, want, &want.origin)
}

/// What the transport's fetch came to, as the facade sees it.
pub enum FetchOutcome {
    /// The fetch ran to completion.
    Fetched,
    /// Short-circuited: the announced head was already stored.
    KnownObject,
    /// Refused by the rate limiter.
    RateLimited,
    /// The transport failed.
    Failed,
}

fn dup_rev(r: &Option<Rev>) -> (d: Option<Rev>)
    ensures
        (match d {
            Option::Some(Rev::Git(o)) => (match r {
                Option::Some(Rev::Git(x)) => o@ == x@,
                Option::None => false,
            }),
            Option::None => r is None,
        }),
{
    match r {
        Option::Some(rev) => match rev {
            Rev::Git(o) => Option::Some(Rev::Git(o.dup())),
        },
        Option::None => Option::None,
    }
}

/// One gossip `put`, decided from the store and the transport's
/// outcome.
///
/// An announcement by a peer we do not track for that URN is
/// uninteresting.  A clean fetch is applied exactly when the announced
/// data is then present — otherwise the provider lied and the broadcast
/// ends as stale.  A known object and a rate-limited fetch are local
/// signals, also stale.  A failed transport is an error.  The applied
/// payload carries the resolved origin, so peers down the line fetch
/// that remote from us.
pub fn put_verdict(
    store: &Store,
    provider: &PeerId,
    has: &Payload,
    fetch: FetchOutcome,
) -> (r: PutResult)
    ensures
        !store.has_remote(has@.urn.id, spec_origin(has@, provider@)) ==> r is Uninteresting,
        store.has_remote(has@.urn.id, spec_origin(has@, provider@)) && fetch is Fetched
            && spec_present(*store, has@, Option::Some(spec_origin(has@, provider@))) ==> (
        r matches PutResult::Applied(p) && p@.urn == has@.urn && p@.rev == has@.rev && p@.origin
            == Option::Some(spec_origin(has@, provider@))),
        store.has_remote(has@.urn.id, spec_origin(has@, provider@)) && fetch is Fetched
            && !spec_present(*store, has@, Option::Some(spec_origin(has@, provider@))) ==> r
            is Stale,
        store.has_remote(has@.urn.id, spec_origin(has@, provider@)) && (fetch is KnownObject
            || fetch is RateLimited) ==> r is Stale,
        store.has_remote(has@.urn.id, spec_origin(has@, provider@)) && fetch is Failed ==> r
            is Error,
{
    let origin = match &has.origin {
        Option::Some(o) => o.dup(),
        Option::None => provider.dup(),
    };
    proof {
        assert(origin@ == spec_origin(has@, provider@));
    }
    if !is_tracked(store, &has.urn, &origin) {
        return PutResult::Uninteresting;
    }
    match fetch {
        FetchOutcome::Fetched => {
            let some_origin = Option::Some(origin);
            if announced_present(store, has, &some_origin) {
                let p = Payload { urn: has.urn.dup(), rev: dup_rev(&has.rev), origin: some_origin };
                proof {
                    assert(p@.urn == has@.urn && p@.rev == has@.rev);
                }
                PutResult::Applied(p)
            } else {
                PutResult::Stale
            }
        },
        FetchOutcome::KnownObject => PutResult::Stale,
        FetchOutcome::RateLimited => PutResult::Stale,
        FetchOutcome::Failed => PutResult::Error,
    }
}

/// After a successful `put` applied a payload, asking for that payload
/// answers true: the applied payload names the resolved origin, and its
/// presence was checked under the same mapping `ask` uses.
pub proof fn lemma_put_applied_implies_ask(s: Store, provider: Seq<u8>, h: PayloadV, p: PayloadV)
    requires
        p.urn == h.urn,
        p.rev == h.rev,
        p.origin == Option::Some(spec_origin(h, provider)),
        spec_present(s, h, Option::Some(spec_origin(h, provider))),
    ensures
        spec_present(s, p, p.origin),
{
}

/// Whether a gossip-driven fetch may proceed.
pub enum FetchDecision {
    Proceed,
    KnownObject,
    RateLimited,
}

/// Gate a gossip-driven fetch: an announced head already stored
/// short-circuits as a known object before the rate limiter is even
/// consulted; otherwise the key's rate window decides.
pub fn fetch_gate(
    store: &Store,
    head: &Option<Oid>,
    w: &mut RateWindow,
    now_ms: u64,
    quota: u64,
    window_ms: u64,
) -> (r: FetchDecision)
    requires
        1 <= quota,
        old(w).used <= quota,
    ensures
        (match head {
            Option::Some(h) => store.has_obj(h@),
            Option::None => false,
        }) ==> r is KnownObject && *final(w) == *old(w),
        !(match head {
            Option::Some(h) => store.has_obj(h@),
            Option::None => false,
        }) ==> rate_transition(*old(w), *final(w), now_ms, quota, window_ms, r is Proceed) && (r
            is Proceed || r is RateLimited),
        final(w).used <= quota,
{
    match head {
        Option::Some(h) => {
            if store.has_object(h) {
                return FetchDecision::KnownObject;
            }
        },
        Option::None => {},
    }
    if rate_check(w, now_ms, quota, window_ms) {
        FetchDecision::Proceed
    } else {
        FetchDecision::RateLimited
    }
}

} // verus!
