//! What the discovery exchanges came to.

use crate::identity::LocalIdentity;
use crate::tunnel_manager::{Error, ErrorView};
use crate::tunnel_manager::contact::{PendingInquiry, PendingInquiryView};
use vstd::prelude::*;
use vstd::string::*;

verus! {

/// A neighbor that answered: who it is, and the interface of its tunnel.
#[derive(Debug)]
pub struct FoundNeighbor {
    pub identity: LocalIdentity,
    pub iface_name: String,
}

pub struct FoundNeighborView {
    pub identity: LocalIdentity,
    pub iface_name: Seq<char>,
}

impl DeepView for FoundNeighbor {
    type V = FoundNeighborView;

    open spec fn deep_view(&self) -> FoundNeighborView {
        FoundNeighborView { identity: self.identity, iface_name: self.iface_name@ }
    }
}

/// What one exchange came to: the peer's identity with the interface of its
/// tunnel, or the failure of the exchange.
pub open spec fn settled(p: PendingInquiryView, result: Result<LocalIdentity, Seq<char>>) -> Result<
    FoundNeighborView,
    ErrorView,
> {
    match result {
        Ok(identity) => Ok(FoundNeighborView { identity, iface_name: p.iface_name }),
        Err(e) => Err(ErrorView::HTTPClientError(e)),
    }
}

/// What the first `n` exchanges of a sweep came to: the neighbors that
/// answered, in order; the exchanges that failed leave no trace.
pub open spec fn neighbors_found(
    pending: Seq<PendingInquiryView>,
    results: Seq<Result<LocalIdentity, Seq<char>>>,
    n: nat,
) -> Seq<FoundNeighborView>
    decreases n,
{
    if n == 0 {
        Seq::empty()
    } else {
        let before = neighbors_found(pending, results, (n - 1) as nat);
        match settled(pending[n - 1], results[n - 1]) {
            Ok(found) => before.push(found),
            Err(_) => before,
        }
    }
}

/// The text of an exchange's result, where it has one.
pub open spec fn result_view(r: Result<LocalIdentity, String>) -> Result<LocalIdentity, Seq<char>> {
    match r {
        Ok(id) => Ok(id),
        Err(e) => Err(e@),
    }
}

/// Settles one exchange.
pub fn settle(pending: &PendingInquiry, result: &Result<LocalIdentity, String>) -> (r: Result<
    FoundNeighbor,
    Error,
>)
    ensures
        match settled(pending.deep_view(), result_view(*result)) {
            Ok(found) => r matches Ok(f) && f.deep_view() == found,
            Err(e) => r matches Err(x) && x.deep_view() == e,
        },
{
    match result {
        Ok(identity) => Ok(
            FoundNeighbor { identity: *identity, iface_name: pending.iface_name.clone() },
        ),
        Err(e) => Err(Error::HTTPClientError(e.clone())),
    }
}

/// Settles the exchanges of a sweep, each with its result: the neighbors
/// that answered are returned, the others dropped.
pub fn settle_all(pending: &Vec<PendingInquiry>, results: &Vec<Result<LocalIdentity, String>>) -> (r:
    Vec<FoundNeighbor>)
    requires
        pending.len() == results.len(),
    ensures
        r.deep_view() == neighbors_found(
            pending.deep_view(),
            Seq::new(results.len() as nat, |i: int| result_view(results[i])),
            pending.len() as nat,
        ),
{
    let ghost outcomes = Seq::new(results.len() as nat, |i: int| result_view(results[i]));
    let mut r: Vec<FoundNeighbor> = Vec::new();
    let mut i: usize = 0;
    proof {
        assert(r.deep_view() =~= Seq::<FoundNeighborView>::empty());
    }
    while i < pending.len()
        invariant
            i <= pending.len(),
            pending.len() == results.len(),
            outcomes == Seq::new(results.len() as nat, |i: int| result_view(results[i])),
            r.deep_view() == neighbors_found(pending.deep_view(), outcomes, i as nat),
        decreases pending.len() - i,
    {
        let ghost before = r.deep_view();
        proof {
            assert(pending.deep_view()[i as int] == pending[i as int].deep_view());
            assert(outcomes[i as int] == result_view(results[i as int]));
        }
        match settle(&pending[i], &results[i]) {
            Ok(found) => {
                let ghost one = found.deep_view();
                r.push(found);
                proof {
                    assert(r.deep_view() =~= before.push(one));
                }
            },
            Err(_) => {},
        }
        i += 1;
    }
    r
}

} // verus!
