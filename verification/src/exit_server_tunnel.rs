//! The exit's side of its client tunnel: bring-up, NAT, and the pass that
//! makes the kernel's peer table, routes and enforcement flows agree with the
//! authoritative client set.

pub mod commands;
pub mod nat_rules;
pub mod plan;
pub mod reconcile;
pub mod setup;
pub mod whole_pass;

use crate::exit_server_tunnel::commands::{command, wg_config_args};
use crate::exit_server_tunnel::nat_rules::{nat_rule_request, nat_step, NatSetup, NatSetupView};
use crate::exit_server_tunnel::reconcile::{
    ExitReconcile,
    ExitReconcileView,
    reconcile_step,
    ReconcileStage,
};
use crate::exit_server_tunnel::setup::{address_args, ExitSetup, setup_step, SetupStage};
use crate::identity::WgKey;
use crate::kernel::{KernelReply, KernelReplyView, KernelRequestView, Progress, ProgressView};
use crate::net::{Ipv4Address, Ipv6Address};
use vstd::prelude::*;
use vstd::string::*;

verus! {

/// One authorized client of the exit.
#[derive(Debug, Clone, Copy, Eq, PartialEq, Hash)]
pub struct ExitClient {
    pub internal_ip: Ipv4Address,
    pub internal_ipv6: Ipv6Address,
    pub public_key: WgKey,
    pub mesh_ip: Ipv6Address,
    pub port: u16,
}

/// Whether some client in `clients` has the public key `key`.
pub open spec fn is_authorized(clients: Seq<ExitClient>, key: WgKey) -> bool {
    exists|i: int| 0 <= i < clients.len() && #[trigger] clients[i].public_key == key
}

/// Whether no two clients in `clients` share a public key.
pub open spec fn distinct_keys(clients: Seq<ExitClient>) -> bool {
    forall|i: int, j: int|
        0 <= i < j < clients.len() ==> #[trigger] clients[i].public_key
            != #[trigger] clients[j].public_key
}

/// The authoritative client set: no public key occurs twice.
pub struct ExitClientSet {
    members: Vec<ExitClient>,
}

impl View for ExitClientSet {
    type V = Seq<ExitClient>;

    closed spec fn view(&self) -> Seq<ExitClient> {
        self.members@
    }
}

impl ExitClientSet {
    /// What every set built by `new` and `insert` satisfies.
    pub closed spec fn wf(&self) -> bool {
        distinct_keys(self.members@)
    }

    /// The empty set.
    pub fn new() -> (r: Self)
        ensures
            r.wf(),
            r@ == Seq::<ExitClient>::empty(),
    {
        ExitClientSet { members: Vec::new() }
    }

    /// How many clients the set holds.
    pub fn len(&self) -> (n: usize)
        ensures
            n == self@.len(),
    {
        self.members.len()
    }

    /// The clients in the order in which they were added; no key occurs twice.
    pub fn members(&self) -> (r: &Vec<ExitClient>)
        requires
            self.wf(),
        ensures
            r@ == self@,
            distinct_keys(r@),
    {
        &self.members
    }

    /// Whether a client with this public key is in the set.
    pub fn contains_key(&self, key: &WgKey) -> (r: bool)
        ensures
            r == is_authorized(self@, *key),
    {
        holds_key(&self.members, key)
    }

    /// Adds `client` unless its public key is already in the set.
    pub fn insert(&mut self, client: ExitClient) -> (added: bool)
        requires
            old(self).wf(),
        ensures
            final(self).wf(),
            added == !is_authorized(old(self)@, client.public_key),
            added ==> final(self)@ == old(self)@.push(client),
            !added ==> final(self)@ == old(self)@,
    {
        if holds_key(&self.members, &client.public_key) {
            false
        } else {
            self.members.push(client);
            true
        }
    }
}

/// Whether some client in `clients` has the public key `key`.
pub fn holds_key(clients: &Vec<ExitClient>, key: &WgKey) -> (r: bool)
    ensures
        r == is_authorized(clients@, *key),
{
    let mut i: usize = 0;
    while i < clients.len()
        invariant
            i <= clients.len(),
            forall|j: int| 0 <= j < i ==> clients@[j].public_key != *key,
        decreases clients.len() - i,
    {
        if clients[i].public_key.same(key) {
            return true;
        }
        i += 1;
    }
    false
}

/// The operation on the exit tunnel that is in flight, if any.
pub enum Pass {
    Idle,
    Nat(NatSetup),
    Setup(ExitSetup),
    Reconcile(ExitReconcile),
}

pub enum PassView {
    Idle,
    Nat(NatSetupView),
    Setup(ExitSetup),
    Reconcile(ExitReconcileView),
}

impl DeepView for Pass {
    type V = PassView;

    open spec fn deep_view(&self) -> PassView {
        match self {
            Pass::Idle => PassView::Idle,
            Pass::Nat(p) => PassView::Nat(p.deep_view()),
            Pass::Setup(p) => PassView::Setup(*p),
            Pass::Reconcile(p) => PassView::Reconcile(p.deep_view()),
        }
    }
}

impl PassView {
    pub open spec fn valid(self) -> bool {
        match self {
            PassView::Nat(p) => p.valid(),
            PassView::Reconcile(p) => p.valid(),
            _ => true,
        }
    }
}

/// Starting an operation: it is taken up only if nothing is in flight.
pub open spec fn start_step(v: PassView, begun: PassView, first: KernelRequestView) -> (
    PassView,
    ProgressView,
) {
    if v is Idle {
        (begun, ProgressView::Request(first))
    } else {
        (v, ProgressView::Busy)
    }
}

/// Resuming: the operation in flight takes the reply; when it ends, nothing
/// is in flight any more.
pub open spec fn resume_step(v: PassView, reply: KernelReplyView) -> (PassView, ProgressView) {
    match v {
        PassView::Idle => (PassView::Idle, ProgressView::Idle),
        PassView::Nat(p) => {
            let (next, progress) = nat_step(p, reply);
            (
                match next {
                    Some(q) => PassView::Nat(q),
                    None => PassView::Idle,
                },
                progress,
            )
        },
        PassView::Setup(p) => {
            let (next, progress) = setup_step(p, reply);
            (
                match next {
                    Some(q) => PassView::Setup(q),
                    None => PassView::Idle,
                },
                progress,
            )
        },
        PassView::Reconcile(p) => {
            let (next, progress) = reconcile_step(p, reply);
            (
                match next {
                    Some(q) => PassView::Reconcile(q),
                    None => PassView::Idle,
                },
                progress,
            )
        },
    }
}

/// The exit's handle on the kernel: at most one operation is in flight, and
/// one that is asked for meanwhile is not started.
pub struct KernelInterface {
    pass: Pass,
}

impl DeepView for KernelInterface {
    type V = PassView;

    closed spec fn deep_view(&self) -> PassView {
        self.pass.deep_view()
    }
}

impl KernelInterface {
    /// A handle with nothing in flight.
    pub fn new() -> (r: Self)
        ensures
            r.deep_view() is Idle,
    {
        KernelInterface { pass: Pass::Idle }
    }

    /// Whether an operation is in flight.
    pub fn is_busy(&self) -> (r: bool)
        ensures
            r == !(self.deep_view() is Idle),
    {
        match self.pass {
            Pass::Idle => false,
            _ => true,
        }
    }

    /// Makes the kernel's peer table, routes and enforcement flows agree with
    /// `clients`: starts the pass, whose first request submits the whole peer
    /// table, listen port and private key in one command.
    pub fn set_exit_wg_config(
        &mut self,
        clients: &ExitClientSet,
        client_netmaskv6: u8,
        listen_port: u16,
        private_key_path: &str,
    ) -> (r: Progress)
        requires
            clients.wf(),
            old(self).deep_view().valid(),
        ensures
            final(self).deep_view().valid(),
            (final(self).deep_view(), r.deep_view()) == start_step(
                old(self).deep_view(),
                PassView::Reconcile(
                    ExitReconcileView {
                        clients: clients@,
                        netmask: client_netmaskv6,
                        stage: ReconcileStage::ConfiguringPeers,
                        cursor: 0,
                        stale: Seq::empty(),
                        missing: Seq::empty(),
                    },
                ),
                command(
                    "wg"@,
                    wg_config_args(clients@, client_netmaskv6, listen_port, private_key_path@),
                ),
            ),
    {
        if self.is_busy() {
            return Progress::Busy;
        }
        let (pass, first) = ExitReconcile::begin(
            clients,
            client_netmaskv6,
            listen_port,
            private_key_path,
        );
        self.pass = Pass::Reconcile(pass);
        Progress::Request(first)
    }

    /// Performs the one time startup tasks of the exit tunnel: starts the
    /// bring-up, whose first request assigns the IPv4 address.
    pub fn one_time_exit_setup(
        &mut self,
        local_ip: &Ipv4Address,
        local_ipv6: &Ipv6Address,
        netmask: u8,
        client_netmask_v6: u8,
    ) -> (r: Progress)
        requires
            old(self).deep_view().valid(),
        ensures
            final(self).deep_view().valid(),
            (final(self).deep_view(), r.deep_view()) == start_step(
                old(self).deep_view(),
                PassView::Setup(
                    ExitSetup {
                        local_ip: *local_ip,
                        local_ipv6: *local_ipv6,
                        netmask,
                        client_netmask_v6,
                        stage: SetupStage::AddressV4,
                    },
                ),
                command("ip"@, address_args(local_ip.text(), netmask)),
            ),
    {
        if self.is_busy() {
            return Progress::Busy;
        }
        let (pass, first) = ExitSetup::begin(local_ip, local_ipv6, netmask, client_netmask_v6);
        self.pass = Pass::Setup(pass);
        Progress::Request(first)
    }

    /// Sets up NAT towards `external_interface`: starts the bring-up, whose
    /// first request installs the masquerade rule.
    pub fn setup_nat(&mut self, external_interface: &str) -> (r: Progress)
        requires
            old(self).deep_view().valid(),
        ensures
            final(self).deep_view().valid(),
            (final(self).deep_view(), r.deep_view()) == start_step(
                old(self).deep_view(),
                PassView::Nat(
                    NatSetupView { external_interface: external_interface@, issued: 1 },
                ),
                nat_rule_request(external_interface@, 0),
            ),
    {
        if self.is_busy() {
            return Progress::Busy;
        }
        let (pass, first) = NatSetup::begin(external_interface);
        self.pass = Pass::Nat(pass);
        Progress::Request(first)
    }

    /// Hands the reply to the last request to the operation in flight.
    pub fn resume(&mut self, reply: &KernelReply) -> (r: Progress)
        requires
            old(self).deep_view().valid(),
        ensures
            final(self).deep_view().valid(),
            (final(self).deep_view(), r.deep_view()) == resume_step(
                old(self).deep_view(),
                reply.deep_view(),
            ),
    {
        let mut pass = Pass::Idle;
        core::mem::swap(&mut self.pass, &mut pass);
        match pass {
            Pass::Idle => Progress::Idle,
            Pass::Nat(p) => {
                let (next, progress) = p.advance(reply);
                if let Some(q) = next {
                    self.pass = Pass::Nat(q);
                }
                progress
            },
            Pass::Setup(p) => {
                let (next, progress) = p.advance(reply);
                if let Some(q) = next {
                    self.pass = Pass::Setup(q);
                }
                progress
            },
            Pass::Reconcile(p) => {
                let (next, progress) = p.advance(reply);
                if let Some(q) = next {
                    self.pass = Pass::Reconcile(q);
                }
                progress
            },
        }
    }
}

} // verus!
