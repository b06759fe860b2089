//! The client's side of its exit: asking exits for service, and bringing the
//! tunnel to the chosen exit up.

use crate::identity::{EthAddress, Identity, WgKey};
use crate::kernel::{
    fail_with,
    failed_with,
    KernelReply,
    KernelReplyView,
    KernelRequest,
    KernelRequestView,
    Progress,
    ProgressView,
};
use crate::net::IpAddress;
use crate::text::{decimal_text, push_decimal};
use vstd::prelude::*;
use vstd::string::*;

verus! {

/// How far the registration with an exit has come.
#[derive(Clone, Copy, Debug, PartialEq, Eq)]
pub enum ExitState {
    New,
    Pending,
    Registered,
    Denied,
    Disabled,
}

/// What an exit told a registered client.
#[derive(Clone, Copy, Debug, PartialEq, Eq)]
pub struct ExitDetails {
    pub own_internal_ip: IpAddress,
    pub eth_address: EthAddress,
    pub wg_public_key: WgKey,
    pub wg_exit_port: u16,
    pub server_internal_ip: IpAddress,
    pub exit_price: u64,
    pub netmask: u8,
}

/// An exit as the client knows it.
#[derive(Debug)]
pub struct ExitServer {
    pub ip: IpAddress,
    pub registration_port: u16,
    pub state: ExitState,
    pub message: String,
    pub details: Option<ExitDetails>,
}

/// What an exit holds of a client that it serves.
#[derive(Clone, Copy, Debug, PartialEq, Eq)]
pub struct ExitClientRecord {
    pub global: Identity,
    pub wg_port: u16,
    pub own_local_ip: IpAddress,
    pub server_local_ip: IpAddress,
    pub price: u64,
    pub netmask: u8,
}

/// What an exit answers to a request for service.
#[derive(Debug)]
pub struct ExitServerReply {
    pub identity: Option<ExitClientRecord>,
    pub state: ExitState,
    pub message: String,
}

/// The payment notice that follows a tunnel to the exit: whom to watch for
/// payment, and at which price.
#[derive(Clone, Copy, Debug, PartialEq, Eq)]
pub struct Watch(pub Identity, pub u64);

/// Whether an exit in this state is to be asked for service.
pub open spec fn wants_request(state: ExitState) -> bool {
    state is New || state is Pending
}

/// The address to which the request for service goes.
pub open spec fn setup_endpoint(ip: IpAddress, registration_port: u16) -> Seq<char> {
    "http://["@ + ip.text() + "]:"@ + decimal_text(registration_port as nat) + "/setup"@
}

/// The address to which the request for service goes.
pub fn build_setup_endpoint(ip: &IpAddress, registration_port: u16) -> (r: String)
    ensures
        r@ == setup_endpoint(*ip, registration_port),
{
    let mut r = String::from_str("http://[");
    ip.push_text(&mut r);
    r.append("]:");
    push_decimal(&mut r, registration_port as u128);
    r.append("/setup");
    proof {
        assert(r@ =~= setup_endpoint(*ip, registration_port));
    }
    r
}

/// The details that a reply brings, if it names the client.
pub open spec fn details_of(record: ExitClientRecord) -> ExitDetails {
    ExitDetails {
        own_internal_ip: record.own_local_ip,
        eth_address: record.global.eth_address,
        wg_public_key: record.global.wg_public_key,
        wg_exit_port: record.wg_port,
        server_internal_ip: record.server_local_ip,
        exit_price: record.price,
        netmask: record.netmask,
    }
}

/// Takes over what an exit answered: its message and the state it assigns,
/// and, where the reply names the client, the details of the service. Tells
/// whether the details came.
pub fn exit_setup_request(current: &mut ExitServer, reply: &ExitServerReply) -> (detailed: bool)
    ensures
        detailed == reply.identity is Some,
        final(current).ip == old(current).ip,
        final(current).registration_port == old(current).registration_port,
        final(current).message@ == reply.message@,
        final(current).state == reply.state,
        final(current).details == match reply.identity {
            Some(record) => Some(details_of(record)),
            None => old(current).details,
        },
{
    current.message = reply.message.clone();
    current.state = reply.state;
    match reply.identity {
        Some(record) => {
            current.details = Some(
                ExitDetails {
                    own_internal_ip: record.own_local_ip,
                    eth_address: record.global.eth_address,
                    wg_public_key: record.global.wg_public_key,
                    wg_exit_port: record.wg_port,
                    server_internal_ip: record.server_local_ip,
                    exit_price: record.price,
                    netmask: record.netmask,
                },
            );
            true
        },
        None => false,
    }
}

/// What a tick of the exit manager calls for.
#[derive(Debug)]
pub struct TickPlan {
    /// The tunnel to the current exit is to be brought up, and then the exit
    /// watched for payment: set where the current exit has told its details.
    pub connect: Option<(ExitDetails, Watch)>,
    /// The positions, in the list of exits, of those to ask for service.
    pub ask: Vec<usize>,
}

/// The positions of the exits that are to be asked, among the first `n`.
pub open spec fn to_ask(states: Seq<ExitState>, n: nat) -> Seq<usize>
    decreases n,
{
    if n == 0 {
        Seq::empty()
    } else {
        let before = to_ask(states, (n - 1) as nat);
        if wants_request(states[n - 1]) {
            before.push((n - 1) as usize)
        } else {
            before
        }
    }
}

/// The states of a list of exits.
pub open spec fn states_of(exits: Seq<ExitServer>) -> Seq<ExitState> {
    Seq::new(exits.len(), |i: int| exits[i].state)
}

/// The tunnel and the payment notice for an exit that has told its details.
pub open spec fn connection(exit_ip: IpAddress, details: Option<ExitDetails>) -> Option<
    (ExitDetails, Watch),
> {
    match details {
        Some(d) => Some(
            (
                d,
                Watch(
                    Identity {
                        mesh_ip: exit_ip,
                        eth_address: d.eth_address,
                        wg_public_key: d.wg_public_key,
                    },
                    d.exit_price,
                ),
            ),
        ),
        None => None,
    }
}

/// An actor which keeps the client connected to its exit.
pub struct ExitManager;

impl ExitManager {
    /// Plans one tick: the current exit, if it has told its details, is
    /// connected to and watched; every exit that is new or pending is asked
    /// for service; denied, disabled and registered exits are left alone.
    pub fn handle(&self, current: Option<&ExitServer>, exits: &Vec<ExitServer>) -> (plan: TickPlan)
        ensures
            plan.connect == match current {
                Some(exit) => connection(exit.ip, exit.details),
                None => None,
            },
            plan.ask@ == to_ask(states_of(exits@), exits.len() as nat),
    {
        let connect = match current {
            Some(exit) => match exit.details {
                Some(d) => Some(
                    (
                        d,
                        Watch(
                            Identity {
                                mesh_ip: exit.ip,
                                eth_address: d.eth_address,
                                wg_public_key: d.wg_public_key,
                            },
                            d.exit_price,
                        ),
                    ),
                ),
                None => None,
            },
            None => None,
        };
        let mut ask: Vec<usize> = Vec::new();
        let mut i: usize = 0;
        while i < exits.len()
            invariant
                i <= exits.len(),
                ask@ == to_ask(states_of(exits@), i as nat),
            decreases exits.len() - i,
        {
            match exits[i].state {
                ExitState::New | ExitState::Pending => {
                    ask.push(i);
                },
                ExitState::Denied | ExitState::Disabled | ExitState::Registered => {},
            }
            i += 1;
        }
        TickPlan { connect, ask }
    }
}

/// Which request of the tunnel bring-up is out.
#[derive(Clone, Copy, Debug, PartialEq, Eq)]
pub enum TunnelStage {
    Interface,
    Config,
    Route,
    /// The NAT rules of the LAN interface under the cursor.
    Nat,
}

/// The bring-up of the tunnel to the exit, in flight.
pub struct ExitTunnelSetup {
    pub exit_ip: IpAddress,
    pub details: ExitDetails,
    pub private_key_path: String,
    pub listen_port: u16,
    pub lan_nics: Vec<String>,
    pub stage: TunnelStage,
    pub cursor: usize,
}

pub struct ExitTunnelSetupView {
    pub exit_ip: IpAddress,
    pub details: ExitDetails,
    pub private_key_path: Seq<char>,
    pub listen_port: u16,
    pub lan_nics: Seq<Seq<char>>,
    pub stage: TunnelStage,
    pub cursor: int,
}

impl DeepView for ExitTunnelSetup {
    type V = ExitTunnelSetupView;

    open spec fn deep_view(&self) -> ExitTunnelSetupView {
        ExitTunnelSetupView {
            exit_ip: self.exit_ip,
            details: self.details,
            private_key_path: self.private_key_path@,
            listen_port: self.listen_port,
            lan_nics: self.lan_nics.deep_view(),
            stage: self.stage,
            cursor: self.cursor as int,
        }
    }
}

impl ExitTunnelSetupView {
    pub open spec fn valid(self) -> bool {
        self.stage is Nat ==> 0 <= self.cursor < self.lan_nics.len()
    }

    /// Goes on with the NAT rules of LAN interface `i`, or ends well after
    /// the last.
    pub open spec fn nat_from(self, i: int) -> (Option<ExitTunnelSetupView>, ProgressView) {
        if 0 <= i < self.lan_nics.len() {
            (
                Some(ExitTunnelSetupView { stage: TunnelStage::Nat, cursor: i, ..self }),
                ProgressView::Request(
                    KernelRequestView::AddClientNatRules { lan_nic: self.lan_nics[i] },
                ),
            )
        } else {
            (None, ProgressView::Finished(Ok(())))
        }
    }

    /// What the bring-up does with the reply to its last request: the
    /// interface, its configuration, the route and the NAT rules of each LAN
    /// interface follow one another, and the first failure ends it.
    pub open spec fn step(self, reply: KernelReplyView) -> (
        Option<ExitTunnelSetupView>,
        ProgressView,
    ) {
        match reply {
            KernelReplyView::Failed(m) => (None, failed_with(m)),
            _ => match self.stage {
                TunnelStage::Interface => (
                    Some(ExitTunnelSetupView { stage: TunnelStage::Config, ..self }),
                    ProgressView::Request(
                        KernelRequestView::SetClientExitTunnelConfig {
                            endpoint_ip: self.exit_ip,
                            endpoint_port: self.details.wg_exit_port,
                            pubkey: self.details.wg_public_key,
                            private_key_path: self.private_key_path,
                            listen_port: self.listen_port,
                            local_ip: self.details.own_internal_ip,
                            netmask: self.details.netmask,
                        },
                    ),
                ),
                TunnelStage::Config => (
                    Some(ExitTunnelSetupView { stage: TunnelStage::Route, ..self }),
                    ProgressView::Request(
                        KernelRequestView::SetRouteToTunnel {
                            gateway: self.details.server_internal_ip,
                        },
                    ),
                ),
                TunnelStage::Route => self.nat_from(0),
                TunnelStage::Nat => self.nat_from(self.cursor + 1),
            },
        }
    }
}

/// A copy of a list of names.
fn copy_names(names: &Vec<String>) -> (r: Vec<String>)
    ensures
        r.deep_view() == names.deep_view(),
{
    let mut r: Vec<String> = Vec::new();
    let mut i: usize = 0;
    while i < names.len()
        invariant
            i <= names.len(),
            r.len() == i,
            forall|j: int| 0 <= j < i ==> r[j]@ == names[j]@,
        decreases names.len() - i,
    {
        r.push(names[i].clone());
        i += 1;
    }
    proof {
        assert(r.deep_view() =~= names.deep_view());
    }
    r
}

impl ExitTunnelSetup {
    /// Starts the bring-up: the interface `wg_exit` is to be made.
    pub fn begin(
        exit_ip: IpAddress,
        details: ExitDetails,
        private_key_path: &str,
        listen_port: u16,
        lan_nics: &Vec<String>,
    ) -> (r: (ExitTunnelSetup, KernelRequest))
        ensures
            r.0.deep_view() == (ExitTunnelSetupView {
                exit_ip,
                details,
                private_key_path: private_key_path@,
                listen_port,
                lan_nics: lan_nics.deep_view(),
                stage: TunnelStage::Interface,
                cursor: 0,
            }),
            r.1.deep_view() == (KernelRequestView::SetupWgIfNamed { name: "wg_exit"@ }),
    {
        (
            ExitTunnelSetup {
                exit_ip,
                details,
                private_key_path: String::from_str(private_key_path),
                listen_port,
                lan_nics: copy_names(lan_nics),
                stage: TunnelStage::Interface,
                cursor: 0,
            },
            KernelRequest::SetupWgIfNamed { name: String::from_str("wg_exit") },
        )
    }

    fn nat_from(self, i: usize) -> (r: (Option<ExitTunnelSetup>, Progress))
        ensures
            (r.0.deep_view(), r.1.deep_view()) == self.deep_view().nat_from(i as int),
            r.0 matches Some(p) ==> p.deep_view().valid(),
    {
        if i < self.lan_nics.len() {
            let request = KernelRequest::AddClientNatRules { lan_nic: self.lan_nics[i].clone() };
            proof {
                assert(self.lan_nics.deep_view()[i as int] == self.lan_nics[i as int]@);
            }
            (
                Some(
                    ExitTunnelSetup {
                        exit_ip: self.exit_ip,
                        details: self.details,
                        private_key_path: self.private_key_path,
                        listen_port: self.listen_port,
                        lan_nics: self.lan_nics,
                        stage: TunnelStage::Nat,
                        cursor: i,
                    },
                ),
                Progress::Request(request),
            )
        } else {
            (None, Progress::Finished(Ok(())))
        }
    }

    /// Takes the reply to the last request and says what comes next.
    pub fn advance(self, reply: &KernelReply) -> (r: (Option<ExitTunnelSetup>, Progress))
        requires
            self.deep_view().valid(),
        ensures
            (r.0.deep_view(), r.1.deep_view()) == self.deep_view().step(reply.deep_view()),
            r.0 matches Some(p) ==> p.deep_view().valid(),
    {
        if let KernelReply::Failed(m) = reply {
            return (None, fail_with(m));
        }
        match self.stage {
            TunnelStage::Interface => {
                let request = KernelRequest::SetClientExitTunnelConfig {
                    endpoint_ip: self.exit_ip,
                    endpoint_port: self.details.wg_exit_port,
                    pubkey: self.details.wg_public_key,
                    private_key_path: self.private_key_path.clone(),
                    listen_port: self.listen_port,
                    local_ip: self.details.own_internal_ip,
                    netmask: self.details.netmask,
                };
                (
                    Some(
                        ExitTunnelSetup {
                            exit_ip: self.exit_ip,
                            details: self.details,
                            private_key_path: self.private_key_path,
                            listen_port: self.listen_port,
                            lan_nics: self.lan_nics,
                            stage: TunnelStage::Config,
                            cursor: self.cursor,
                        },
                    ),
                    Progress::Request(request),
                )
            },
            TunnelStage::Config => {
                let request = KernelRequest::SetRouteToTunnel {
                    gateway: self.details.server_internal_ip,
                };
                (
                    Some(
                        ExitTunnelSetup {
                            exit_ip: self.exit_ip,
                            details: self.details,
                            private_key_path: self.private_key_path,
                            listen_port: self.listen_port,
                            lan_nics: self.lan_nics,
                            stage: TunnelStage::Route,
                            cursor: self.cursor,
                        },
                    ),
                    Progress::Request(request),
                )
            },
            TunnelStage::Route => self.nat_from(0),
            TunnelStage::Nat => {
                let len = self.lan_nics.len();
                assert(self.cursor < len);
                let next = self.cursor + 1;
                self.nat_from(next)
            },
        }
    }
}

} // verus!
