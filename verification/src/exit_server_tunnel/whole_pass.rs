//! A reconciliation pass from its first request to its last.

use crate::exit_server_tunnel::ExitClient;
use crate::exit_server_tunnel::commands::{command, remove_args, route_args};
use crate::exit_server_tunnel::plan::{missing_flows, stale_peers};
use crate::exit_server_tunnel::reconcile::{ExitReconcileView, reconcile_step, ReconcileStage};
use crate::identity::WgKey;
use crate::kernel::{KernelReplyView, KernelRequestView, ProgressView};
use crate::net::Ipv4Address;
use vstd::prelude::*;

verus! {

/// The requests that a pass makes when it is given `replies` one by one,
/// the first of them in answer to the request that is out.
pub open spec fn requests_after(v: ExitReconcileView, replies: Seq<KernelReplyView>) -> Seq<
    KernelRequestView,
>
    decreases replies.len(),
{
    if replies.len() == 0 {
        Seq::empty()
    } else {
        match reconcile_step(v, replies[0]) {
            (Some(next), ProgressView::Request(request)) => seq![request] + requests_after(
                next,
                replies.drop_first(),
            ),
            _ => Seq::empty(),
        }
    }
}

/// Whether the pass, given `replies` one by one, ends with the last of them,
/// and ends well.
pub open spec fn ends_well(v: ExitReconcileView, replies: Seq<KernelReplyView>) -> bool
    decreases replies.len(),
{
    if replies.len() == 0 {
        false
    } else {
        match reconcile_step(v, replies[0]) {
            (Some(next), _) => ends_well(next, replies.drop_first()),
            (None, progress) => replies.len() == 1 && progress == ProgressView::Finished(Ok(())),
        }
    }
}

/// The route requests of the clients from `from` on.
pub open spec fn route_requests(clients: Seq<ExitClient>, netmask: u8, from: int) -> Seq<
    KernelRequestView,
> {
    Seq::new(
        (clients.len() - from) as nat,
        |k: int| command("ip"@, route_args(clients[from + k], netmask)),
    )
}

/// The removal requests of the stale peers from `from` on.
pub open spec fn removal_requests(stale: Seq<WgKey>, from: int) -> Seq<KernelRequestView> {
    Seq::new((stale.len() - from) as nat, |k: int| command("wg"@, remove_args(stale[from + k])))
}

/// The flow requests of the missing addresses from `from` on.
pub open spec fn creation_requests(missing: Seq<Ipv4Address>, from: int) -> Seq<
    KernelRequestView,
> {
    Seq::new(
        (missing.len() - from) as nat,
        |k: int| KernelRequestView::CreateFlowByIp { iface: "wg_exit"@, ip: missing[from + k] },
    )
}

/// All the requests of a pass after the submission of the peer table, where
/// the kernel lists `live` as its peers and `flows` as its flows: a route
/// for every client, the listing of the peers, the removal of every stale
/// peer, the listing of the flows, and a flow for every address without one.
pub open spec fn pass_requests(
    clients: Seq<ExitClient>,
    netmask: u8,
    live: Seq<WgKey>,
    flows: Seq<Ipv4Address>,
) -> Seq<KernelRequestView> {
    route_requests(clients, netmask, 0) + seq![KernelRequestView::GetPeers { iface: "wg_exit"@ }]
        + removal_requests(stale_peers(live, clients), 0) + seq![
        KernelRequestView::GetFlows { iface: "wg_exit"@ },
    ] + creation_requests(missing_flows(clients, flows), 0)
}

proof fn lemma_creations(v: ExitReconcileView, replies: Seq<KernelReplyView>)
    requires
        v.stage == ReconcileStage::CreatingFlows,
        0 <= v.cursor < v.missing.len(),
        replies.len() == v.missing.len() - v.cursor,
    ensures
        requests_after(v, replies) == creation_requests(v.missing, v.cursor + 1),
        ends_well(v, replies),
    decreases replies.len(),
{
    let (next, progress) = reconcile_step(v, replies[0]);
    if v.cursor + 1 < v.missing.len() {
        let n = next->Some_0;
        lemma_creations(n, replies.drop_first());
        assert(requests_after(v, replies) =~= creation_requests(v.missing, v.cursor + 1));
    } else {
        assert(requests_after(v, replies) =~= creation_requests(v.missing, v.cursor + 1));
    }
}

proof fn lemma_flows_fetched(
    v: ExitReconcileView,
    flows: Seq<Ipv4Address>,
    replies: Seq<KernelReplyView>,
)
    requires
        v.stage == ReconcileStage::FetchingFlows,
        replies.len() == 1 + missing_flows(v.clients, flows).len(),
        replies[0] == KernelReplyView::Flows(flows),
    ensures
        requests_after(v, replies) == creation_requests(missing_flows(v.clients, flows), 0),
        ends_well(v, replies),
{
    let missing = missing_flows(v.clients, flows);
    let (next, progress) = reconcile_step(v, replies[0]);
    if missing.len() > 0 {
        let n = next->Some_0;
        lemma_creations(n, replies.drop_first());
        assert(requests_after(v, replies) =~= creation_requests(missing, 0));
    } else {
        assert(requests_after(v, replies) =~= creation_requests(missing, 0));
    }
}

proof fn lemma_removals(v: ExitReconcileView, flows: Seq<Ipv4Address>, replies: Seq<KernelReplyView>)
    requires
        v.stage == ReconcileStage::RemovingPeers,
        0 <= v.cursor < v.stale.len(),
        replies.len() == (v.stale.len() - v.cursor) + 1 + missing_flows(v.clients, flows).len(),
        replies[(v.stale.len() - v.cursor) as int] == KernelReplyView::Flows(flows),
    ensures
        requests_after(v, replies) == removal_requests(v.stale, v.cursor + 1) + seq![
            KernelRequestView::GetFlows { iface: "wg_exit"@ },
        ] + creation_requests(missing_flows(v.clients, flows), 0),
        ends_well(v, replies),
    decreases v.stale.len() - v.cursor,
{
    let (next, progress) = reconcile_step(v, replies[0]);
    let n = next->Some_0;
    let rest = replies.drop_first();
    let goal = removal_requests(v.stale, v.cursor + 1) + seq![
        KernelRequestView::GetFlows { iface: "wg_exit"@ },
    ] + creation_requests(missing_flows(v.clients, flows), 0);
    if v.cursor + 1 < v.stale.len() {
        assert(rest[(v.stale.len() - v.cursor - 1) as int] == replies[(v.stale.len() - v.cursor) as int]);
        lemma_removals(n, flows, rest);
        assert(requests_after(v, replies) =~= goal);
    } else {
        assert(rest[0] == replies[1]);
        lemma_flows_fetched(n, flows, rest);
        assert(requests_after(v, replies) =~= goal);
    }
}

proof fn lemma_peers_fetched(
    v: ExitReconcileView,
    live: Seq<WgKey>,
    flows: Seq<Ipv4Address>,
    replies: Seq<KernelReplyView>,
)
    requires
        v.stage == ReconcileStage::FetchingPeers,
        replies.len() == 1 + stale_peers(live, v.clients).len() + 1 + missing_flows(
            v.clients,
            flows,
        ).len(),
        replies[0] == KernelReplyView::Peers(live),
        replies[(1 + stale_peers(live, v.clients).len()) as int] == KernelReplyView::Flows(flows),
    ensures
        requests_after(v, replies) == removal_requests(stale_peers(live, v.clients), 0) + seq![
            KernelRequestView::GetFlows { iface: "wg_exit"@ },
        ] + creation_requests(missing_flows(v.clients, flows), 0),
        ends_well(v, replies),
{
    let stale = stale_peers(live, v.clients);
    let (next, progress) = reconcile_step(v, replies[0]);
    let n = next->Some_0;
    let rest = replies.drop_first();
    let goal = removal_requests(stale, 0) + seq![KernelRequestView::GetFlows { iface: "wg_exit"@ }]
        + creation_requests(missing_flows(v.clients, flows), 0);
    if stale.len() > 0 {
        assert(rest[stale.len() as int] == replies[(1 + stale.len()) as int]);
        lemma_removals(n, flows, rest);
        assert(requests_after(v, replies) =~= goal);
    } else {
        assert(rest[0] == replies[1]);
        lemma_flows_fetched(n, flows, rest);
        assert(requests_after(v, replies) =~= goal);
    }
}

proof fn lemma_routes(
    v: ExitReconcileView,
    live: Seq<WgKey>,
    flows: Seq<Ipv4Address>,
    replies: Seq<KernelReplyView>,
)
    requires
        v.stage == ReconcileStage::AddingRoutes,
        0 <= v.cursor < v.clients.len(),
        replies.len() == (v.clients.len() - v.cursor) + 1 + stale_peers(live, v.clients).len() + 1
            + missing_flows(v.clients, flows).len(),
        replies[(v.clients.len() - v.cursor) as int] == KernelReplyView::Peers(live),
        replies[(v.clients.len() - v.cursor + 1 + stale_peers(live, v.clients).len()) as int]
            == KernelReplyView::Flows(flows),
    ensures
        requests_after(v, replies) == route_requests(v.clients, v.netmask, v.cursor + 1) + seq![
            KernelRequestView::GetPeers { iface: "wg_exit"@ },
        ] + removal_requests(stale_peers(live, v.clients), 0) + seq![
            KernelRequestView::GetFlows { iface: "wg_exit"@ },
        ] + creation_requests(missing_flows(v.clients, flows), 0),
        ends_well(v, replies),
    decreases v.clients.len() - v.cursor,
{
    let stale = stale_peers(live, v.clients);
    let (next, progress) = reconcile_step(v, replies[0]);
    let n = next->Some_0;
    let rest = replies.drop_first();
    let goal = route_requests(v.clients, v.netmask, v.cursor + 1) + seq![
        KernelRequestView::GetPeers { iface: "wg_exit"@ },
    ] + removal_requests(stale, 0) + seq![KernelRequestView::GetFlows { iface: "wg_exit"@ }]
        + creation_requests(missing_flows(v.clients, flows), 0);
    let d = v.clients.len() - v.cursor;
    assert(rest[d - 1] == replies[d]);
    assert(rest[(d + stale.len()) as int] == replies[(d + 1 + stale.len()) as int]);
    if v.cursor + 1 < v.clients.len() {
        lemma_routes(n, live, flows, rest);
        assert(requests_after(v, replies) =~= goal);
    } else {
        lemma_peers_fetched(n, live, flows, rest);
        assert(requests_after(v, replies) =~= goal);
    }
}

/// The whole pass. Once the peer table is accepted, and where the kernel
/// then lists its peers and its flows when asked, a pass makes the same
/// requests whatever the kernel answers to each route, removal and flow: a
/// route for every client in order, the listing of the peers, the removal
/// of every peer that no client accounts for, the listing of the flows, and
/// a flow for every client address that has none. With the answer to the
/// last of them it ends well.
pub proof fn lemma_pass_requests(
    clients: Seq<ExitClient>,
    netmask: u8,
    live: Seq<WgKey>,
    flows: Seq<Ipv4Address>,
    replies: Seq<KernelReplyView>,
)
    requires
        replies.len() == 1 + clients.len() + 1 + stale_peers(live, clients).len() + 1
            + missing_flows(clients, flows).len(),
        replies[0] is Output,
        replies[(1 + clients.len()) as int] == KernelReplyView::Peers(live),
        replies[(1 + clients.len() + 1 + stale_peers(live, clients).len()) as int] == KernelReplyView::Flows(
            flows,
        ),
    ensures
        ({
            let start = ExitReconcileView {
                clients,
                netmask,
                stage: ReconcileStage::ConfiguringPeers,
                cursor: 0,
                stale: Seq::empty(),
                missing: Seq::empty(),
            };
            &&& requests_after(start, replies) == pass_requests(clients, netmask, live, flows)
            &&& ends_well(start, replies)
        }),
{
    let start = ExitReconcileView {
        clients,
        netmask,
        stage: ReconcileStage::ConfiguringPeers,
        cursor: 0,
        stale: Seq::empty(),
        missing: Seq::empty(),
    };
    let stale = stale_peers(live, clients);
    let (next, progress) = reconcile_step(start, replies[0]);
    let n = next->Some_0;
    let rest = replies.drop_first();
    assert(rest[clients.len() as int] == replies[(1 + clients.len()) as int]);
    assert(rest[(clients.len() + 1 + stale.len()) as int] == replies[(1 + clients.len() + 1 + stale.len()) as int]);
    if clients.len() > 0 {
        lemma_routes(n, live, flows, rest);
    } else {
        lemma_peers_fetched(n, live, flows, rest);
    }
    assert(requests_after(start, replies) =~= pass_requests(clients, netmask, live, flows));
}

} // verus!
