//! The boundary to the kernel network adapter.
//!
//! The library never touches the kernel. An operation that needs privileged
//! work hands out a [`KernelRequest`]; the caller performs it and hands back
//! the [`KernelReply`]. What the library guarantees is which requests it makes,
//! in which order, and what it concludes from each reply.

use crate::identity::WgKey;
use crate::net::{IpAddress, Ipv4Address, MacAddress};
use vstd::prelude::*;
use vstd::string::*;

verus! {

/// One row of the kernel's neighbor table.
#[derive(Debug)]
pub struct Neighbor {
    pub mac: MacAddress,
    pub ip: IpAddress,
    pub dev: String,
}

pub struct NeighborView {
    pub mac: MacAddress,
    pub ip: IpAddress,
    pub dev: Seq<char>,
}

impl DeepView for Neighbor {
    type V = NeighborView;

    open spec fn deep_view(&self) -> NeighborView {
        NeighborView { mac: self.mac, ip: self.ip, dev: self.dev@ }
    }
}

/// What a finished command wrote.
#[derive(Debug)]
pub struct CommandOutput {
    pub stdout: String,
    pub stderr: String,
}

pub struct CommandOutputView {
    pub stdout: Seq<char>,
    pub stderr: Seq<char>,
}

impl DeepView for CommandOutput {
    type V = CommandOutputView;

    open spec fn deep_view(&self) -> CommandOutputView {
        CommandOutputView { stdout: self.stdout@, stderr: self.stderr@ }
    }
}

/// A privileged operation that the adapter is asked to perform.
#[derive(Debug)]
pub enum KernelRequest {
    /// Run a program with arguments and report what it wrote.
    RunCommand { program: String, args: Vec<String> },
    /// Append a firewall rule.
    AddIptablesRule { command: String, args: Vec<String> },
    /// List the public keys of the peers configured on a tunnel interface.
    GetPeers { iface: String },
    /// List the internal addresses that have an enforcement flow on an interface.
    GetFlows { iface: String },
    /// Create the enforcement flow of one internal address.
    CreateFlowByIp { iface: String, ip: Ipv4Address },
    /// Tell whether the root of the traffic-shaping hierarchy is installed.
    HasLimit { iface: String },
    /// Install the root of the traffic-shaping hierarchy.
    CreateRootClassfulLimit { iface: String },
    /// Create a new point-to-point tunnel interface and report its name.
    SetupWgIf,
    /// Make the neighbors on the local links announce themselves.
    TriggerNeighborDisc,
    /// Read the neighbor table.
    GetNeighbors,
    /// Report the index of a network device.
    GetIfaceIndex { dev: String },
    /// Report the link-local address from which a peer is reached.
    GetLinkLocalReplyIp { their_ip: IpAddress },
    /// Bind a tunnel interface to a peer and route through it.
    OpenTunnel {
        iface: String,
        port: u16,
        endpoint_ip: IpAddress,
        endpoint_port: u16,
        remote_pub_key: WgKey,
        private_key_path: String,
        own_ip: IpAddress,
    },
    /// Create a tunnel interface with this name.
    SetupWgIfNamed { name: String },
    /// Point the client's exit tunnel at the exit.
    SetClientExitTunnelConfig {
        endpoint_ip: IpAddress,
        endpoint_port: u16,
        pubkey: WgKey,
        private_key_path: String,
        listen_port: u16,
        local_ip: IpAddress,
        netmask: u8,
    },
    /// Make the exit tunnel the default route, by way of this gateway.
    SetRouteToTunnel { gateway: IpAddress },
    /// Let the traffic of a LAN interface leave through the exit tunnel.
    AddClientNatRules { lan_nic: String },
}

pub enum KernelRequestView {
    RunCommand { program: Seq<char>, args: Seq<Seq<char>> },
    AddIptablesRule { command: Seq<char>, args: Seq<Seq<char>> },
    GetPeers { iface: Seq<char> },
    GetFlows { iface: Seq<char> },
    CreateFlowByIp { iface: Seq<char>, ip: Ipv4Address },
    HasLimit { iface: Seq<char> },
    CreateRootClassfulLimit { iface: Seq<char> },
    SetupWgIf,
    TriggerNeighborDisc,
    GetNeighbors,
    GetIfaceIndex { dev: Seq<char> },
    GetLinkLocalReplyIp { their_ip: IpAddress },
    OpenTunnel {
        iface: Seq<char>,
        port: u16,
        endpoint_ip: IpAddress,
        endpoint_port: u16,
        remote_pub_key: WgKey,
        private_key_path: Seq<char>,
        own_ip: IpAddress,
    },
    SetupWgIfNamed { name: Seq<char> },
    SetClientExitTunnelConfig {
        endpoint_ip: IpAddress,
        endpoint_port: u16,
        pubkey: WgKey,
        private_key_path: Seq<char>,
        listen_port: u16,
        local_ip: IpAddress,
        netmask: u8,
    },
    SetRouteToTunnel { gateway: IpAddress },
    AddClientNatRules { lan_nic: Seq<char> },
}

impl DeepView for KernelRequest {
    type V = KernelRequestView;

    open spec fn deep_view(&self) -> KernelRequestView {
        match self {
            KernelRequest::RunCommand { program, args } => KernelRequestView::RunCommand {
                program: program@,
                args: args.deep_view(),
            },
            KernelRequest::AddIptablesRule { command, args } => KernelRequestView::AddIptablesRule {
                command: command@,
                args: args.deep_view(),
            },
            KernelRequest::GetPeers { iface } => KernelRequestView::GetPeers { iface: iface@ },
            KernelRequest::GetFlows { iface } => KernelRequestView::GetFlows { iface: iface@ },
            KernelRequest::CreateFlowByIp { iface, ip } => KernelRequestView::CreateFlowByIp {
                iface: iface@,
                ip: *ip,
            },
            KernelRequest::HasLimit { iface } => KernelRequestView::HasLimit { iface: iface@ },
            KernelRequest::CreateRootClassfulLimit {
                iface,
            } => KernelRequestView::CreateRootClassfulLimit { iface: iface@ },
            KernelRequest::SetupWgIf => KernelRequestView::SetupWgIf,
            KernelRequest::TriggerNeighborDisc => KernelRequestView::TriggerNeighborDisc,
            KernelRequest::GetNeighbors => KernelRequestView::GetNeighbors,
            KernelRequest::GetIfaceIndex { dev } => KernelRequestView::GetIfaceIndex { dev: dev@ },
            KernelRequest::GetLinkLocalReplyIp {
                their_ip,
            } => KernelRequestView::GetLinkLocalReplyIp { their_ip: *their_ip },
            KernelRequest::OpenTunnel {
                iface,
                port,
                endpoint_ip,
                endpoint_port,
                remote_pub_key,
                private_key_path,
                own_ip,
            } => KernelRequestView::OpenTunnel {
                iface: iface@,
                port: *port,
                endpoint_ip: *endpoint_ip,
                endpoint_port: *endpoint_port,
                remote_pub_key: *remote_pub_key,
                private_key_path: private_key_path@,
                own_ip: *own_ip,
            },
            KernelRequest::SetupWgIfNamed { name } => KernelRequestView::SetupWgIfNamed {
                name: name@,
            },
            KernelRequest::SetClientExitTunnelConfig {
                endpoint_ip,
                endpoint_port,
                pubkey,
                private_key_path,
                listen_port,
                local_ip,
                netmask,
            } => KernelRequestView::SetClientExitTunnelConfig {
                endpoint_ip: *endpoint_ip,
                endpoint_port: *endpoint_port,
                pubkey: *pubkey,
                private_key_path: private_key_path@,
                listen_port: *listen_port,
                local_ip: *local_ip,
                netmask: *netmask,
            },
            KernelRequest::SetRouteToTunnel { gateway } => KernelRequestView::SetRouteToTunnel {
                gateway: *gateway,
            },
            KernelRequest::AddClientNatRules { lan_nic } => KernelRequestView::AddClientNatRules {
                lan_nic: lan_nic@,
            },
        }
    }
}

/// What the adapter answered to one request.
#[derive(Debug)]
pub enum KernelReply {
    /// The operation failed; the text is its diagnostic output.
    Failed(String),
    /// The operation succeeded and has nothing to report.
    Done,
    /// A command ran; this is what it wrote.
    Output(CommandOutput),
    /// The keys of the configured peers.
    Peers(Vec<WgKey>),
    /// The internal addresses that have an enforcement flow.
    Flows(Vec<Ipv4Address>),
    /// The answer to a yes-or-no question.
    Flag(bool),
    /// The name of an interface.
    Interface(String),
    /// The neighbor table.
    Neighbors(Vec<Neighbor>),
    /// The index of a device.
    Index(u32),
    /// An address.
    Address(IpAddress),
}

pub enum KernelReplyView {
    Failed(Seq<char>),
    Done,
    Output(CommandOutputView),
    Peers(Seq<WgKey>),
    Flows(Seq<Ipv4Address>),
    Flag(bool),
    Interface(Seq<char>),
    Neighbors(Seq<NeighborView>),
    Index(u32),
    Address(IpAddress),
}

impl DeepView for KernelReply {
    type V = KernelReplyView;

    open spec fn deep_view(&self) -> KernelReplyView {
        match self {
            KernelReply::Failed(m) => KernelReplyView::Failed(m@),
            KernelReply::Done => KernelReplyView::Done,
            KernelReply::Output(o) => KernelReplyView::Output(o.deep_view()),
            KernelReply::Peers(p) => KernelReplyView::Peers(p@),
            KernelReply::Flows(f) => KernelReplyView::Flows(f@),
            KernelReply::Flag(b) => KernelReplyView::Flag(*b),
            KernelReply::Interface(n) => KernelReplyView::Interface(n@),
            KernelReply::Neighbors(n) => KernelReplyView::Neighbors(n.deep_view()),
            KernelReply::Index(i) => KernelReplyView::Index(*i),
            KernelReply::Address(a) => KernelReplyView::Address(*a),
        }
    }
}

/// Why a privileged operation did not succeed.
#[derive(Debug)]
pub enum KernelInterfaceError {
    /// The adapter reported a failure; the text is its diagnostic output.
    CommandFailed(String),
    /// A command ran but complained; the text says about what.
    RuntimeError(String),
    /// The adapter answered with something that the request does not call for.
    UnexpectedReply,
}

pub enum KernelInterfaceErrorView {
    CommandFailed(Seq<char>),
    RuntimeError(Seq<char>),
    UnexpectedReply,
}

impl DeepView for KernelInterfaceError {
    type V = KernelInterfaceErrorView;

    open spec fn deep_view(&self) -> KernelInterfaceErrorView {
        match self {
            KernelInterfaceError::CommandFailed(m) => KernelInterfaceErrorView::CommandFailed(m@),
            KernelInterfaceError::RuntimeError(m) => KernelInterfaceErrorView::RuntimeError(m@),
            KernelInterfaceError::UnexpectedReply => KernelInterfaceErrorView::UnexpectedReply,
        }
    }
}

impl KernelInterfaceError {
    /// What the error says, for a log or a caller.
    pub fn message(&self) -> (s: String)
        ensures
            s@ == match self.deep_view() {
                KernelInterfaceErrorView::CommandFailed(m) => m,
                KernelInterfaceErrorView::RuntimeError(m) => m,
                KernelInterfaceErrorView::UnexpectedReply => "unexpected reply from the kernel interface"@,
            },
    {
        match self {
            KernelInterfaceError::CommandFailed(m) => m.clone(),
            KernelInterfaceError::RuntimeError(m) => m.clone(),
            KernelInterfaceError::UnexpectedReply => String::from_str(
                "unexpected reply from the kernel interface",
            ),
        }
    }
}

/// Appends a copy of `word` to `list`.
pub fn push_word(list: &mut Vec<String>, word: &str)
    ensures
        final(list).deep_view() == old(list).deep_view().push(word@),
{
    list.push(String::from_str(word));
    proof {
        assert(final(list).deep_view() =~= old(list).deep_view().push(word@));
    }
}

/// Appends `word` to `list`.
pub fn push_owned(list: &mut Vec<String>, word: String)
    ensures
        final(list).deep_view() == old(list).deep_view().push(word@),
{
    let ghost text = word@;
    list.push(word);
    proof {
        assert(final(list).deep_view() =~= old(list).deep_view().push(text));
    }
}

/// What an operation on the kernel wants next.
#[derive(Debug)]
pub enum Progress {
    /// Perform this request and come back with the reply.
    Request(KernelRequest),
    /// The operation is over, with this result.
    Finished(Result<(), KernelInterfaceError>),
    /// Another operation is in flight; this one was not started.
    Busy,
    /// No operation is in flight; there was nothing to resume.
    Idle,
}

pub enum ProgressView {
    Request(KernelRequestView),
    Finished(Result<(), KernelInterfaceErrorView>),
    Busy,
    Idle,
}

impl DeepView for Progress {
    type V = ProgressView;

    open spec fn deep_view(&self) -> ProgressView {
        match self {
            Progress::Request(r) => ProgressView::Request(r.deep_view()),
            Progress::Finished(Ok(())) => ProgressView::Finished(Ok(())),
            Progress::Finished(Err(e)) => ProgressView::Finished(Err(e.deep_view())),
            Progress::Busy => ProgressView::Busy,
            Progress::Idle => ProgressView::Idle,
        }
    }
}

/// The outcome "the adapter failed with this diagnostic output".
pub open spec fn failed_with(diagnostic: Seq<char>) -> ProgressView {
    ProgressView::Finished(Err(KernelInterfaceErrorView::CommandFailed(diagnostic)))
}

/// The outcome "the adapter answered beside the question".
pub open spec fn unexpected_reply() -> ProgressView {
    ProgressView::Finished(Err(KernelInterfaceErrorView::UnexpectedReply))
}

/// The outcome "the adapter failed with this diagnostic output".
pub fn fail_with(diagnostic: &String) -> (p: Progress)
    ensures
        p.deep_view() == failed_with(diagnostic@),
{
    Progress::Finished(Err(KernelInterfaceError::CommandFailed(diagnostic.clone())))
}

} // verus!
