//! The reconciliation pass, step by step.

use crate::exit_server_tunnel::{ExitClient, ExitClientSet};
use crate::exit_server_tunnel::commands::{
    build_command,
    build_remove_args,
    build_route_args,
    build_wg_config_args,
    command,
    remove_args,
    route_args,
    wg_config_args,
};
use crate::exit_server_tunnel::plan::{
    find_missing_flows,
    find_stale_peers,
    missing_flows,
    stale_peers,
};
use crate::identity::WgKey;
use crate::kernel::{
    fail_with,
    failed_with,
    KernelInterfaceError,
    KernelReply,
    KernelReplyView,
    KernelRequest,
    KernelRequestView,
    Progress,
    ProgressView,
    unexpected_reply,
};
use crate::net::Ipv4Address;
use vstd::prelude::*;
use vstd::string::*;

verus! {

/// Where a reconciliation pass stands: which request is out.
#[derive(Clone, Copy, Debug, PartialEq, Eq)]
pub enum ReconcileStage {
    /// The peer table was submitted.
    ConfiguringPeers,
    /// The route of the client under the cursor was requested.
    AddingRoutes,
    /// The live peers were asked for.
    FetchingPeers,
    /// The removal of the stale peer under the cursor was requested.
    RemovingPeers,
    /// The enforcement flows were asked for.
    FetchingFlows,
    /// The flow of the missing address under the cursor was requested.
    CreatingFlows,
}

/// A reconciliation pass in flight.
pub struct ExitReconcile {
    clients: Vec<ExitClient>,
    netmask: u8,
    stage: ReconcileStage,
    cursor: usize,
    stale: Vec<WgKey>,
    missing: Vec<Ipv4Address>,
}

/// A reconciliation pass in flight: the client set it works for, where it
/// stands, and what it found to remove and to create.
pub struct ExitReconcileView {
    pub clients: Seq<ExitClient>,
    pub netmask: u8,
    pub stage: ReconcileStage,
    pub cursor: int,
    pub stale: Seq<WgKey>,
    pub missing: Seq<Ipv4Address>,
}

impl ExitReconcileView {
    /// The cursor points at an item of the list that the stage walks.
    pub open spec fn valid(self) -> bool {
        match self.stage {
            ReconcileStage::AddingRoutes => 0 <= self.cursor < self.clients.len(),
            ReconcileStage::RemovingPeers => 0 <= self.cursor < self.stale.len(),
            ReconcileStage::CreatingFlows => 0 <= self.cursor < self.missing.len(),
            _ => true,
        }
    }

    /// Goes on with the route of client `i`, or, after the last client, asks
    /// for the live peers.
    pub open spec fn route_from(self, i: int) -> (Option<ExitReconcileView>, ProgressView) {
        if 0 <= i < self.clients.len() {
            (
                Some(ExitReconcileView { stage: ReconcileStage::AddingRoutes, cursor: i, ..self }),
                ProgressView::Request(command("ip"@, route_args(self.clients[i], self.netmask))),
            )
        } else {
            (
                Some(ExitReconcileView { stage: ReconcileStage::FetchingPeers, cursor: 0, ..self }),
                ProgressView::Request(KernelRequestView::GetPeers { iface: "wg_exit"@ }),
            )
        }
    }

    /// Goes on with the removal of stale peer `i`, or, after the last one,
    /// asks for the enforcement flows.
    pub open spec fn removal_from(self, i: int) -> (Option<ExitReconcileView>, ProgressView) {
        if 0 <= i < self.stale.len() {
            (
                Some(ExitReconcileView { stage: ReconcileStage::RemovingPeers, cursor: i, ..self }),
                ProgressView::Request(command("wg"@, remove_args(self.stale[i]))),
            )
        } else {
            (
                Some(ExitReconcileView { stage: ReconcileStage::FetchingFlows, cursor: 0, ..self }),
                ProgressView::Request(KernelRequestView::GetFlows { iface: "wg_exit"@ }),
            )
        }
    }

    /// Goes on with the flow of missing address `i`, or, after the last one,
    /// ends the pass well.
    pub open spec fn creation_from(self, i: int) -> (Option<ExitReconcileView>, ProgressView) {
        if 0 <= i < self.missing.len() {
            (
                Some(ExitReconcileView { stage: ReconcileStage::CreatingFlows, cursor: i, ..self }),
                ProgressView::Request(
                    KernelRequestView::CreateFlowByIp { iface: "wg_exit"@, ip: self.missing[i] },
                ),
            )
        } else {
            (None, ProgressView::Finished(Ok(())))
        }
    }
}

/// What a reconciliation pass does with the reply to its last request.
///
/// The peer table is submitted first, and a failure there ends the pass.
/// Then every client gets its route, whatever the replies. Then the live
/// peers are fetched once, which must succeed, and every one that no client
/// accounts for is removed, whatever the replies. Then the flows are fetched
/// once, which must succeed, and every client address without a flow gets
/// one, whatever the replies.
pub open spec fn reconcile_step(v: ExitReconcileView, reply: KernelReplyView) -> (
    Option<ExitReconcileView>,
    ProgressView,
) {
    match v.stage {
        ReconcileStage::ConfiguringPeers => match reply {
            KernelReplyView::Failed(m) => (None, failed_with(m)),
            KernelReplyView::Output(_) => v.route_from(0),
            _ => (None, unexpected_reply()),
        },
        ReconcileStage::AddingRoutes => v.route_from(v.cursor + 1),
        ReconcileStage::FetchingPeers => match reply {
            KernelReplyView::Failed(m) => (None, failed_with(m)),
            KernelReplyView::Peers(live) => (ExitReconcileView {
                stale: stale_peers(live, v.clients),
                ..v
            }).removal_from(0),
            _ => (None, unexpected_reply()),
        },
        ReconcileStage::RemovingPeers => v.removal_from(v.cursor + 1),
        ReconcileStage::FetchingFlows => match reply {
            KernelReplyView::Failed(m) => (None, failed_with(m)),
            KernelReplyView::Flows(flows) => (ExitReconcileView {
                missing: missing_flows(v.clients, flows),
                ..v
            }).creation_from(0),
            _ => (None, unexpected_reply()),
        },
        ReconcileStage::CreatingFlows => v.creation_from(v.cursor + 1),
    }
}

impl DeepView for ExitReconcile {
    type V = ExitReconcileView;

    closed spec fn deep_view(&self) -> ExitReconcileView {
        ExitReconcileView {
            clients: self.clients@,
            netmask: self.netmask,
            stage: self.stage,
            cursor: self.cursor as int,
            stale: self.stale@,
            missing: self.missing@,
        }
    }
}

/// A copy of a list of clients.
fn copy_clients(clients: &Vec<ExitClient>) -> (r: Vec<ExitClient>)
    ensures
        r@ == clients@,
{
    let mut r: Vec<ExitClient> = Vec::new();
    let mut i: usize = 0;
    while i < clients.len()
        invariant
            i <= clients.len(),
            r@ == clients@.subrange(0, i as int),
        decreases clients.len() - i,
    {
        r.push(clients[i]);
        proof {
            assert(r@ =~= clients@.subrange(0, i + 1));
        }
        i += 1;
    }
    proof {
        assert(clients@.subrange(0, clients@.len() as int) =~= clients@);
    }
    r
}

impl ExitReconcile {
    /// Starts a pass for `clients`: the whole peer table is to be submitted.
    pub fn begin(
        clients: &ExitClientSet,
        client_netmaskv6: u8,
        listen_port: u16,
        private_key_path: &str,
    ) -> (r: (ExitReconcile, KernelRequest))
        requires
            clients.wf(),
        ensures
            r.0.deep_view() == (ExitReconcileView {
                clients: clients@,
                netmask: client_netmaskv6,
                stage: ReconcileStage::ConfiguringPeers,
                cursor: 0,
                stale: Seq::empty(),
                missing: Seq::empty(),
            }),
            r.1.deep_view() == command(
                "wg"@,
                wg_config_args(clients@, client_netmaskv6, listen_port, private_key_path@),
            ),
    {
        let members = copy_clients(clients.members());
        let args = build_wg_config_args(&members, client_netmaskv6, listen_port, private_key_path);
        (
            ExitReconcile {
                clients: members,
                netmask: client_netmaskv6,
                stage: ReconcileStage::ConfiguringPeers,
                cursor: 0,
                stale: Vec::new(),
                missing: Vec::new(),
            },
            build_command("wg", args),
        )
    }

    fn route_from(self, i: usize) -> (r: (Option<ExitReconcile>, Progress))
        ensures
            (r.0.deep_view(), r.1.deep_view()) == self.deep_view().route_from(i as int),
            r.0 matches Some(p) ==> p.deep_view().valid(),
    {
        if i < self.clients.len() {
            let request = build_command("ip", build_route_args(&self.clients[i], self.netmask));
            (
                Some(ExitReconcile { stage: ReconcileStage::AddingRoutes, cursor: i, ..self }),
                Progress::Request(request),
            )
        } else {
            (
                Some(ExitReconcile { stage: ReconcileStage::FetchingPeers, cursor: 0, ..self }),
                Progress::Request(KernelRequest::GetPeers { iface: String::from_str("wg_exit") }),
            )
        }
    }

    fn removal_from(self, i: usize) -> (r: (Option<ExitReconcile>, Progress))
        ensures
            (r.0.deep_view(), r.1.deep_view()) == self.deep_view().removal_from(i as int),
            r.0 matches Some(p) ==> p.deep_view().valid(),
    {
        if i < self.stale.len() {
            let request = build_command("wg", build_remove_args(&self.stale[i]));
            (
                Some(ExitReconcile { stage: ReconcileStage::RemovingPeers, cursor: i, ..self }),
                Progress::Request(request),
            )
        } else {
            (
                Some(ExitReconcile { stage: ReconcileStage::FetchingFlows, cursor: 0, ..self }),
                Progress::Request(KernelRequest::GetFlows { iface: String::from_str("wg_exit") }),
            )
        }
    }

    fn creation_from(self, i: usize) -> (r: (Option<ExitReconcile>, Progress))
        ensures
            (r.0.deep_view(), r.1.deep_view()) == self.deep_view().creation_from(i as int),
            r.0 matches Some(p) ==> p.deep_view().valid(),
    {
        if i < self.missing.len() {
            let request = KernelRequest::CreateFlowByIp {
                iface: String::from_str("wg_exit"),
                ip: self.missing[i],
            };
            (
                Some(ExitReconcile { stage: ReconcileStage::CreatingFlows, cursor: i, ..self }),
                Progress::Request(request),
            )
        } else {
            (None, Progress::Finished(Ok(())))
        }
    }

    /// Takes the reply to the last request and says what comes next.
    pub fn advance(self, reply: &KernelReply) -> (r: (Option<ExitReconcile>, Progress))
        requires
            self.deep_view().valid(),
        ensures
            (r.0.deep_view(), r.1.deep_view()) == reconcile_step(
                self.deep_view(),
                reply.deep_view(),
            ),
            r.0 matches Some(p) ==> p.deep_view().valid(),
    {
        match self.stage {
            ReconcileStage::ConfiguringPeers => match reply {
                KernelReply::Failed(m) => (None, fail_with(m)),
                KernelReply::Output(_) => self.route_from(0),
                _ => (None, Progress::Finished(Err(KernelInterfaceError::UnexpectedReply))),
            },
            ReconcileStage::AddingRoutes => {
                let len = self.clients.len();
                assert(self.cursor < len);
                let next = self.cursor + 1;
                self.route_from(next)
            },
            ReconcileStage::FetchingPeers => match reply {
                KernelReply::Failed(m) => (None, fail_with(m)),
                KernelReply::Peers(live) => {
                    let stale = find_stale_peers(live, &self.clients);
                    (ExitReconcile { stale, ..self }).removal_from(0)
                },
                _ => (None, Progress::Finished(Err(KernelInterfaceError::UnexpectedReply))),
            },
            ReconcileStage::RemovingPeers => {
                let len = self.stale.len();
                assert(self.cursor < len);
                let next = self.cursor + 1;
                self.removal_from(next)
            },
            ReconcileStage::FetchingFlows => match reply {
                KernelReply::Failed(m) => (None, fail_with(m)),
                KernelReply::Flows(flows) => {
                    let missing = find_missing_flows(&self.clients, flows);
                    (ExitReconcile { missing, ..self }).creation_from(0)
                },
                _ => (None, Progress::Finished(Err(KernelInterfaceError::UnexpectedReply))),
            },
            ReconcileStage::CreatingFlows => {
                let len = self.missing.len();
                assert(self.cursor < len);
                let next = self.cursor + 1;
                self.creation_from(next)
            },
        }
    }
}

/// The place of a stage in the order of a pass.
pub open spec fn stage_rank(stage: ReconcileStage) -> int {
    match stage {
        ReconcileStage::ConfiguringPeers => 0,
        ReconcileStage::AddingRoutes => 1,
        ReconcileStage::FetchingPeers => 2,
        ReconcileStage::RemovingPeers => 3,
        ReconcileStage::FetchingFlows => 4,
        ReconcileStage::CreatingFlows => 5,
    }
}

/// Whether `request` is one that a pass makes in `stage`.
pub open spec fn belongs_to(request: KernelRequestView, stage: ReconcileStage) -> bool {
    match stage {
        ReconcileStage::ConfiguringPeers => request matches KernelRequestView::RunCommand {
            program,
            ..
        } && program == "wg"@,
        ReconcileStage::AddingRoutes => request matches KernelRequestView::RunCommand {
            program,
            ..
        } && program == "ip"@,
        ReconcileStage::FetchingPeers => request is GetPeers,
        ReconcileStage::RemovingPeers => request matches KernelRequestView::RunCommand {
            program,
            ..
        } && program == "wg"@,
        ReconcileStage::FetchingFlows => request is GetFlows,
        ReconcileStage::CreatingFlows => request is CreateFlowByIp,
    }
}

/// Order. Within a pass the submission of the peer table precedes the
/// routes, the routes precede the removal of peers, and the removals precede
/// the creation of flows: no step goes back to an earlier stage, the client
/// set and the netmask stay what they were, and every request is of the kind
/// of the stage that it opens.
pub proof fn lemma_reconcile_order(v: ExitReconcileView, reply: KernelReplyView)
    ensures
        reconcile_step(v, reply).0 matches Some(next) ==> {
            &&& stage_rank(next.stage) >= stage_rank(v.stage)
            &&& next.clients == v.clients
            &&& next.netmask == v.netmask
            &&& reconcile_step(v, reply).1 matches ProgressView::Request(request)
            &&& belongs_to(request, next.stage)
        },
        reconcile_step(v, reply).0 is None ==> reconcile_step(v, reply).1 is Finished,
{
}

} // verus!
