//! What a pass finds to remove and to create, and why that converges.

use crate::exit_server_tunnel::{ExitClient, holds_key, is_authorized};
use crate::identity::WgKey;
use crate::net::Ipv4Address;
use vstd::prelude::*;
use vstd::string::*;

verus! {

/// The live peers that no client accounts for, in the order in which the
/// kernel listed them.
pub open spec fn stale_peers(live: Seq<WgKey>, clients: Seq<ExitClient>) -> Seq<WgKey> {
    live.filter(|k: WgKey| !is_authorized(clients, k))
}

/// The internal addresses of the clients that have no enforcement flow yet,
/// in the order of the clients.
pub open spec fn missing_flows(clients: Seq<ExitClient>, flows: Seq<Ipv4Address>) -> Seq<
    Ipv4Address,
> {
    clients.filter(|c: ExitClient| !flows.contains(c.internal_ip)).map_values(
        |c: ExitClient| c.internal_ip,
    )
}

/// The live peers that no client accounts for.
pub fn find_stale_peers(live: &Vec<WgKey>, clients: &Vec<ExitClient>) -> (stale: Vec<WgKey>)
    ensures
        stale@ == stale_peers(live@, clients@),
{
    let ghost pred = |k: WgKey| !is_authorized(clients@, k);
    let mut stale: Vec<WgKey> = Vec::new();
    let mut i: usize = 0;
    proof {
        reveal(Seq::filter);
        assert(live@.subrange(0, 0) =~= Seq::<WgKey>::empty());
    }
    while i < live.len()
        invariant
            i <= live.len(),
            pred == |k: WgKey| !is_authorized(clients@, k),
            stale@ == live@.subrange(0, i as int).filter(pred),
        decreases live.len() - i,
    {
        let authorized = holds_key(clients, &live[i]);
        proof {
            reveal(Seq::filter);
            let next = live@.subrange(0, i + 1);
            assert(next.drop_last() =~= live@.subrange(0, i as int));
            assert(next.last() == live@[i as int]);
            assert(pred(live@[i as int]) == !authorized);
        }
        if !authorized {
            stale.push(live[i]);
        }
        i += 1;
    }
    proof {
        assert(live@.subrange(0, live@.len() as int) =~= live@);
    }
    stale
}

/// Whether `flows` lists an enforcement flow for `ip`.
pub fn has_flow_bulk(ip: &Ipv4Address, flows: &Vec<Ipv4Address>) -> (r: bool)
    ensures
        r == flows@.contains(*ip),
{
    let mut i: usize = 0;
    while i < flows.len()
        invariant
            i <= flows.len(),
            forall|j: int| 0 <= j < i ==> flows@[j] != *ip,
        decreases flows.len() - i,
    {
        if flows[i].same(ip) {
            proof {
                assert(flows@[i as int].octets =~= ip.octets);
            }
            return true;
        }
        i += 1;
    }
    false
}

/// The internal addresses of the clients that have no enforcement flow yet.
pub fn find_missing_flows(clients: &Vec<ExitClient>, flows: &Vec<Ipv4Address>) -> (missing: Vec<
    Ipv4Address,
>)
    ensures
        missing@ == missing_flows(clients@, flows@),
{
    let ghost pred = |c: ExitClient| !flows@.contains(c.internal_ip);
    let ghost addr = |c: ExitClient| c.internal_ip;
    let mut missing: Vec<Ipv4Address> = Vec::new();
    let mut i: usize = 0;
    proof {
        reveal(Seq::filter);
        assert(clients@.subrange(0, 0) =~= Seq::<ExitClient>::empty());
        assert(Seq::<ExitClient>::empty().filter(pred).map_values(addr) =~= Seq::<
            Ipv4Address,
        >::empty());
    }
    while i < clients.len()
        invariant
            i <= clients.len(),
            pred == |c: ExitClient| !flows@.contains(c.internal_ip),
            addr == |c: ExitClient| c.internal_ip,
            missing@ == clients@.subrange(0, i as int).filter(pred).map_values(addr),
        decreases clients.len() - i,
    {
        let present = has_flow_bulk(&clients[i].internal_ip, flows);
        proof {
            reveal(Seq::filter);
            let prev = clients@.subrange(0, i as int);
            let next = clients@.subrange(0, i + 1);
            assert(next.drop_last() =~= prev);
            assert(next.last() == clients@[i as int]);
            assert(pred(clients@[i as int]) == !present);
            if !present {
                assert(next.filter(pred) == prev.filter(pred).push(clients@[i as int]));
                assert(next.filter(pred).map_values(addr) =~= prev.filter(pred).map_values(
                    addr,
                ).push(clients@[i as int].internal_ip));
            }
        }
        if !present {
            missing.push(clients[i].internal_ip);
        }
        i += 1;
    }
    proof {
        assert(clients@.subrange(0, clients@.len() as int) =~= clients@);
    }
    missing
}

/// The public keys of the clients, as a set.
pub open spec fn authorized_keys(clients: Seq<ExitClient>) -> Set<WgKey> {
    Set::new(|k: WgKey| is_authorized(clients, k))
}

/// The kernel's peer set once the peers in `removed` are gone from `live`.
pub open spec fn peers_after_removal(live: Seq<WgKey>, removed: Seq<WgKey>) -> Set<WgKey> {
    live.to_set().difference(removed.to_set())
}

/// A key is among the stale peers exactly if it is live and unauthorized.
pub proof fn lemma_stale_peers_contains(live: Seq<WgKey>, clients: Seq<ExitClient>, key: WgKey)
    ensures
        stale_peers(live, clients).contains(key) <==> live.contains(key) && !is_authorized(
            clients,
            key,
        ),
{
    let pred = |k: WgKey| !is_authorized(clients, k);
    let kept = live.filter(pred);
    if kept.contains(key) {
        let i = choose|i: int| 0 <= i < kept.len() && kept[i] == key;
        live.lemma_filter_pred(pred, i);
        live.lemma_filter_contains_rev(pred, key);
    }
    if live.contains(key) && !is_authorized(clients, key) {
        let i = choose|i: int| 0 <= i < live.len() && live[i] == key;
        live.lemma_filter_contains(pred, i);
    }
}

/// After the removals that a pass asks for, no live peer is
/// unauthorized; and where every client was live before them, which the
/// submission of the peer table sees to, the live peers are exactly the
/// authorized keys.
pub proof fn lemma_reconcile_converges(live: Seq<WgKey>, clients: Seq<ExitClient>)
    ensures
        peers_after_removal(live, stale_peers(live, clients)).subset_of(authorized_keys(clients)),
        (forall|i: int| 0 <= i < clients.len() ==> live.contains(#[trigger] clients[i].public_key))
            ==> peers_after_removal(live, stale_peers(live, clients)) == authorized_keys(clients),
{
    let after = peers_after_removal(live, stale_peers(live, clients));
    assert forall|k: WgKey| after.contains(k) implies authorized_keys(clients).contains(k) by {
        lemma_stale_peers_contains(live, clients, k);
    }
    if forall|i: int| 0 <= i < clients.len() ==> live.contains(#[trigger] clients[i].public_key) {
        assert forall|k: WgKey| authorized_keys(clients).contains(k) implies after.contains(k) by {
            lemma_stale_peers_contains(live, clients, k);
            let i = choose|i: int| 0 <= i < clients.len() && clients[i].public_key == k;
            assert(live.contains(clients[i].public_key));
        }
        assert(after =~= authorized_keys(clients));
    }
}

/// Once the flows that a pass asks for exist, a second pass
/// for the same clients asks for none.
pub proof fn lemma_flows_idempotent(clients: Seq<ExitClient>, flows: Seq<Ipv4Address>)
    ensures
        missing_flows(clients, flows + missing_flows(clients, flows)) == Seq::<
            Ipv4Address,
        >::empty(),
{
    let first = missing_flows(clients, flows);
    let after = flows + first;
    let pred0 = |c: ExitClient| !flows.contains(c.internal_ip);
    let pred1 = |c: ExitClient| !after.contains(c.internal_ip);
    let addr = |c: ExitClient| c.internal_ip;
    assert forall|i: int| 0 <= i < clients.len() implies !pred1(#[trigger] clients[i]) by {
        let c = clients[i];
        if flows.contains(c.internal_ip) {
            let j = choose|j: int| 0 <= j < flows.len() && flows[j] == c.internal_ip;
            assert(after[j] == c.internal_ip);
        } else {
            assert(pred0(c));
            clients.lemma_filter_contains(pred0, i);
            let j = choose|j: int|
                0 <= j < clients.filter(pred0).len() && clients.filter(pred0)[j] == c;
            assert(first[j] == c.internal_ip);
            assert(after[flows.len() + j] == c.internal_ip);
        }
    }
    clients.lemma_all_neg_filter_empty(pred1);
    assert(clients.filter(pred1).map_values(addr) =~= Seq::<Ipv4Address>::empty());
}

} // verus!
