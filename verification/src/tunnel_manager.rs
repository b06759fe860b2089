//! Per-peer tunnels: which peer has which interface and port, and the steps
//! that turn a neighbor on the local link into a tunnel with a known identity.

pub mod contact;
pub mod laws;
pub mod settle;
pub mod sweep;

use crate::identity::{Identity, LocalIdentity};
use crate::kernel::{
    KernelInterfaceError,
    KernelInterfaceErrorView,
    KernelReply,
    KernelReplyView,
    KernelRequest,
    KernelRequestView,
    NeighborView,
};
use crate::net::IpAddress;
use crate::tunnel_manager::contact::{
    Contact,
    ContactProgress,
    ContactProgressView,
    ContactStage,
    ContactView,
    fresh_contact,
    inquiry_contact,
    PendingInquiry,
    PendingInquiryView,
    Purpose,
    PurposeView,
};
use crate::tunnel_manager::laws::lemma_tunnel_of_none;
use crate::tunnel_manager::sweep::{Sweep, SweepStage, SweepView};
use vstd::prelude::*;
use vstd::string::*;

verus! {

/// The tunnel of one peer.
#[derive(Debug)]
pub struct TunnelData {
    pub iface_name: String,
    pub listen_port: u16,
    pub peer: IpAddress,
}

pub struct TunnelView {
    pub iface_name: Seq<char>,
    pub listen_port: u16,
    pub peer: IpAddress,
}

impl DeepView for TunnelData {
    type V = TunnelView;

    open spec fn deep_view(&self) -> TunnelView {
        TunnelView { iface_name: self.iface_name@, listen_port: self.listen_port, peer: self.peer }
    }
}

impl Clone for TunnelData {
    fn clone(&self) -> (r: Self)
        ensures
            r.deep_view() == self.deep_view(),
    {
        TunnelData {
            iface_name: self.iface_name.clone(),
            listen_port: self.listen_port,
            peer: self.peer,
        }
    }
}

/// The tunnel that `tunnels` holds for `ip`, if any: the first one, which by
/// the manager's invariant is the only one.
pub open spec fn tunnel_of(tunnels: Seq<TunnelView>, ip: IpAddress) -> Option<TunnelView>
    decreases tunnels.len(),
{
    if tunnels.len() == 0 {
        None
    } else if tunnels[0].peer == ip {
        Some(tunnels[0])
    } else {
        tunnel_of(tunnels.drop_first(), ip)
    }
}

/// What a tunnel manager holds: the next port to hand out, and the tunnels.
pub struct ManagerView {
    pub next_port: int,
    pub tunnels: Seq<TunnelView>,
}

impl ManagerView {
    /// The next port is within range or just past it; no peer has two
    /// tunnels; and the ports of the tunnels, in the order in which the
    /// tunnels were made, increase strictly and lie below the next port: no
    /// port is used twice, and none that was handed out is handed out again.
    pub open spec fn wf(self) -> bool {
        &&& 0 <= self.next_port <= 65536
        &&& forall|i: int, j: int|
            0 <= i < j < self.tunnels.len() ==> #[trigger] self.tunnels[i].peer
                != #[trigger] self.tunnels[j].peer
        &&& forall|i: int, j: int|
            0 <= i < j < self.tunnels.len() ==> (#[trigger] self.tunnels[i]).listen_port < (
            #[trigger] self.tunnels[j]).listen_port
        &&& forall|i: int|
            0 <= i < self.tunnels.len() ==> (#[trigger] self.tunnels[i]).listen_port
                < self.next_port
    }

    /// Whether `port` lies above the ports of all tunnels.
    pub open spec fn is_unused(self, port: u16) -> bool {
        forall|i: int| 0 <= i < self.tunnels.len() ==> (#[trigger] self.tunnels[i]).listen_port < port
    }

    /// Resolving `ip`: an existing tunnel is found and nothing changes;
    /// otherwise the next port is consumed, for good, unless none is left.
    pub open spec fn get_if(self, ip: IpAddress) -> (ManagerView, LookupView) {
        match tunnel_of(self.tunnels, ip) {
            Some(t) => (self, LookupView::Found(t)),
            None => if self.next_port <= 65535 {
                (
                    ManagerView { next_port: self.next_port + 1, ..self },
                    LookupView::Reserved(self.next_port as u16),
                )
            } else {
                (self, LookupView::Exhausted)
            },
        }
    }

    /// Storing the interface made for `ip` on a reserved port: the mapping is
    /// added, unless the peer has a tunnel by now, which then stands.
    pub open spec fn new_if(self, ip: IpAddress, listen_port: u16, iface_name: Seq<char>) -> (
        ManagerView,
        TunnelView,
    ) {
        match tunnel_of(self.tunnels, ip) {
            Some(t) => (self, t),
            None => {
                let t = TunnelView { iface_name, listen_port, peer: ip };
                (ManagerView { tunnels: self.tunnels.push(t), ..self }, t)
            },
        }
    }
}

/// What resolving an address came to.
pub enum Lookup {
    /// The peer has this tunnel.
    Found(TunnelData),
    /// The peer has none; this port is now reserved for the one to be made.
    Reserved(u16),
    /// The peer has none, and no port is left.
    Exhausted,
}

pub enum LookupView {
    Found(TunnelView),
    Reserved(u16),
    Exhausted,
}

impl DeepView for Lookup {
    type V = LookupView;

    open spec fn deep_view(&self) -> LookupView {
        match self {
            Lookup::Found(t) => LookupView::Found(t.deep_view()),
            Lookup::Reserved(p) => LookupView::Reserved(*p),
            Lookup::Exhausted => LookupView::Exhausted,
        }
    }
}

/// Owner of the peer-address → tunnel mapping.
pub struct TunnelManager {
    next_port: u32,
    tunnel_map: Vec<TunnelData>,
    flight: Flight,
}

impl DeepView for TunnelManager {
    type V = ManagerView;

    closed spec fn deep_view(&self) -> ManagerView {
        ManagerView { next_port: self.next_port as int, tunnels: self.tunnel_map.deep_view() }
    }
}

impl TunnelManager {
    /// The operation in flight.
    pub closed spec fn flight_view(&self) -> FlightView {
        self.flight.deep_view()
    }

    /// What every manager satisfies between operations.
    pub open spec fn valid(&self) -> bool {
        self.deep_view().wf() && self.flight_view().valid(self.deep_view())
    }

    /// A manager without tunnels whose first port will be `wg_start_port`.
    pub fn new(wg_start_port: u16) -> (r: Self)
        ensures
            r.valid(),
            r.flight_view() is Idle,
            r.deep_view() == (ManagerView {
                next_port: wg_start_port as int,
                tunnels: Seq::empty(),
            }),
    {
        let r = TunnelManager {
            next_port: wg_start_port as u32,
            tunnel_map: Vec::new(),
            flight: Flight::Idle,
        };
        proof {
            assert(r.tunnel_map.deep_view() =~= Seq::<TunnelView>::empty());
        }
        r
    }

    /// The port that the next new tunnel gets, if one is left.
    pub fn port(&self) -> (r: Option<u16>)
        requires
            self.deep_view().wf(),
        ensures
            r == if self.deep_view().next_port <= 65535 {
                Some(self.deep_view().next_port as u16)
            } else {
                None
            },
    {
        if self.next_port <= 65535 {
            Some(self.next_port as u16)
        } else {
            None
        }
    }

    /// How many tunnels there are.
    pub fn len(&self) -> (n: usize)
        ensures
            n == self.deep_view().tunnels.len(),
    {
        self.tunnel_map.len()
    }

    /// The tunnel of `ip`, if it has one.
    pub fn find(&self, ip: &IpAddress) -> (r: Option<TunnelData>)
        ensures
            r.deep_view() == tunnel_of(self.deep_view().tunnels, *ip),
    {
        let ghost all = self.tunnel_map.deep_view();
        let mut i: usize = 0;
        proof {
            assert(all.skip(0) =~= all);
        }
        while i < self.tunnel_map.len()
            invariant
                i <= self.tunnel_map.len(),
                all == self.tunnel_map.deep_view(),
                tunnel_of(all, *ip) == tunnel_of(all.skip(i as int), *ip),
            decreases self.tunnel_map.len() - i,
        {
            if self.tunnel_map[i].peer.same(ip) {
                proof {
                    assert(all.skip(i as int)[0] == self.tunnel_map[i as int].deep_view());
                }
                return Some(self.tunnel_map[i].clone());
            }
            proof {
                assert(all.skip(i as int)[0] == self.tunnel_map[i as int].deep_view());
                assert(all.skip(i as int).drop_first() =~= all.skip(i + 1));
            }
            i += 1;
        }
        None
    }

    /// Resolves `ip`: returns its tunnel, or reserves the next port for one.
    pub(crate) fn get_if(&mut self, ip: &IpAddress) -> (r: Lookup)
        requires
            old(self).deep_view().wf(),
        ensures
            final(self).deep_view().wf(),
            final(self).flight_view() == old(self).flight_view(),
            (final(self).deep_view(), r.deep_view()) == old(self).deep_view().get_if(*ip),
    {
        match self.find(ip) {
            Some(t) => Lookup::Found(t),
            None => {
                if self.next_port <= 65535 {
                    let port = self.next_port as u16;
                    self.next_port = self.next_port + 1;
                    Lookup::Reserved(port)
                } else {
                    Lookup::Exhausted
                }
            },
        }
    }

    /// Stores the interface made for `ip` on the port reserved for it.
    pub(crate) fn new_if(&mut self, ip: &IpAddress, listen_port: u16, iface_name: String) -> (r:
        TunnelData)
        requires
            old(self).deep_view().wf(),
            listen_port < old(self).deep_view().next_port,
            old(self).deep_view().is_unused(listen_port),
        ensures
            final(self).deep_view().wf(),
            final(self).flight_view() == old(self).flight_view(),
            (final(self).deep_view(), r.deep_view()) == old(self).deep_view().new_if(
                *ip,
                listen_port,
                iface_name@,
            ),
    {
        match self.find(ip) {
            Some(t) => t,
            None => {
                let t = TunnelData { iface_name, listen_port, peer: *ip };
                let r = t.clone();
                let ghost before = self.tunnel_map.deep_view();
                self.tunnel_map.push(t);
                proof {
                    assert(self.tunnel_map.deep_view() =~= before.push(r.deep_view()));
                    lemma_tunnel_of_none(before, *ip);
                }
                r
            },
        }
    }
}

/// Why an operation of the tunnel manager did not succeed.
#[derive(Debug)]
pub enum Error {
    /// The discovery exchange failed; the text says how.
    HTTPClientError(String),
    /// A privileged operation failed.
    KernelInterfaceError(KernelInterfaceError),
    /// The manager cannot do what was asked.
    TunnelManagerError(String),
    /// The candidate is not a link-local IPv6 neighbor, and never will be.
    UnsupportedPeerError(String),
}

pub enum ErrorView {
    HTTPClientError(Seq<char>),
    KernelInterfaceError(KernelInterfaceErrorView),
    TunnelManagerError(Seq<char>),
    UnsupportedPeerError(Seq<char>),
}

impl DeepView for Error {
    type V = ErrorView;

    open spec fn deep_view(&self) -> ErrorView {
        match self {
            Error::HTTPClientError(m) => ErrorView::HTTPClientError(m@),
            Error::KernelInterfaceError(e) => ErrorView::KernelInterfaceError(e.deep_view()),
            Error::TunnelManagerError(m) => ErrorView::TunnelManagerError(m@),
            Error::UnsupportedPeerError(m) => ErrorView::UnsupportedPeerError(m@),
        }
    }
}

/// The failure "the adapter failed with this diagnostic output".
pub open spec fn kernel_failure(diagnostic: Seq<char>) -> ErrorView {
    ErrorView::KernelInterfaceError(KernelInterfaceErrorView::CommandFailed(diagnostic))
}

/// The failure "the adapter answered beside the question".
pub open spec fn kernel_confusion() -> ErrorView {
    ErrorView::KernelInterfaceError(KernelInterfaceErrorView::UnexpectedReply)
}

/// The failure "this candidate is no link-local IPv6 neighbor".
pub open spec fn unsupported_peer(ip: IpAddress) -> ErrorView {
    if ip is V4 {
        ErrorView::UnsupportedPeerError("IPv4 neighbors are not supported"@)
    } else {
        ErrorView::UnsupportedPeerError("only link-local neighbors are supported"@)
    }
}

/// The failure "no port is left".
pub open spec fn ports_exhausted() -> ErrorView {
    ErrorView::TunnelManagerError("no listen port is left for a new tunnel"@)
}

/// The failure "the adapter failed with this diagnostic output".
pub(crate) fn fail_kernel(diagnostic: &String) -> (e: Error)
    ensures
        e.deep_view() == kernel_failure(diagnostic@),
{
    Error::KernelInterfaceError(KernelInterfaceError::CommandFailed(diagnostic.clone()))
}

/// The failure "the adapter answered beside the question".
pub(crate) fn fail_confused() -> (e: Error)
    ensures
        e.deep_view() == kernel_confusion(),
{
    Error::KernelInterfaceError(KernelInterfaceError::UnexpectedReply)
}

/// What an operation of the tunnel manager wants next, or came to.
#[derive(Debug)]
pub enum TunnelProgress {
    /// Perform this request and come back with the reply.
    Request(KernelRequest),
    /// Make these discovery exchanges, all at once, and settle each when it
    /// ends; the manager is free meanwhile.
    Inquire(Vec<PendingInquiry>),
    /// This is who we are for the peer that asked.
    Identity(LocalIdentity),
    /// The tunnel on this interface is open; have its route quality watched.
    Opened(String),
    /// The operation failed.
    Failed(Error),
    /// Another operation is in flight; this one was not started.
    Busy,
    /// No operation is in flight; there was nothing to resume.
    Idle,
}

pub enum TunnelProgressView {
    Request(KernelRequestView),
    Inquire(Seq<PendingInquiryView>),
    Identity(LocalIdentity),
    Opened(Seq<char>),
    Failed(ErrorView),
    Busy,
    Idle,
}

impl DeepView for TunnelProgress {
    type V = TunnelProgressView;

    open spec fn deep_view(&self) -> TunnelProgressView {
        match self {
            TunnelProgress::Request(r) => TunnelProgressView::Request(r.deep_view()),
            TunnelProgress::Inquire(p) => TunnelProgressView::Inquire(p.deep_view()),
            TunnelProgress::Identity(i) => TunnelProgressView::Identity(*i),
            TunnelProgress::Opened(n) => TunnelProgressView::Opened(n@),
            TunnelProgress::Failed(e) => TunnelProgressView::Failed(e.deep_view()),
            TunnelProgress::Busy => TunnelProgressView::Busy,
            TunnelProgress::Idle => TunnelProgressView::Idle,
        }
    }
}

/// The operation of the tunnel manager that is in flight, if any.
pub enum Flight {
    Idle,
    Contact(Contact),
    Sweep(Sweep),
}

pub enum FlightView {
    Idle,
    Contact(ContactView),
    Sweep(SweepView),
}

impl DeepView for Flight {
    type V = FlightView;

    open spec fn deep_view(&self) -> FlightView {
        match self {
            Flight::Idle => FlightView::Idle,
            Flight::Contact(c) => FlightView::Contact(c.deep_view()),
            Flight::Sweep(s) => FlightView::Sweep(s.deep_view()),
        }
    }
}

/// The progress of a single contact as the caller sees it.
pub open spec fn shown(progress: ContactProgressView) -> TunnelProgressView {
    match progress {
        ContactProgressView::Request(r) => TunnelProgressView::Request(r),
        ContactProgressView::Inquire(p) => TunnelProgressView::Inquire(seq![p]),
        ContactProgressView::Identity(i) => TunnelProgressView::Identity(i),
        ContactProgressView::Opened(n) => TunnelProgressView::Opened(n),
        ContactProgressView::Failed(e) => TunnelProgressView::Failed(e),
    }
}

/// How the end or the next request of a single contact shows to the caller.
pub open spec fn contact_flight(
    result: (Option<ContactView>, ManagerView, ContactProgressView),
) -> (ManagerView, FlightView, TunnelProgressView) {
    (
        result.1,
        match result.0 {
            Some(c) => FlightView::Contact(c),
            None => FlightView::Idle,
        },
        shown(result.2),
    )
}

impl FlightView {
    pub open spec fn valid(self, m: ManagerView) -> bool {
        match self {
            FlightView::Idle => true,
            FlightView::Contact(c) => c.valid(m),
            FlightView::Sweep(s) => s.valid(m),
        }
    }

    /// Resuming: the operation in flight takes the reply.
    pub open spec fn step(self, m: ManagerView, reply: KernelReplyView) -> (
        ManagerView,
        FlightView,
        TunnelProgressView,
    ) {
        match self {
            FlightView::Idle => (m, FlightView::Idle, TunnelProgressView::Idle),
            FlightView::Contact(c) => contact_flight(c.step(m, reply)),
            FlightView::Sweep(s) => s.step(m, reply),
        }
    }
}

/// Starting an inquiry. A candidate that is no link-local IPv6 neighbor is
/// rejected at once, whatever else goes on: nothing is asked of the adapter
/// and nothing changes. Otherwise the inquiry starts, unless an operation is
/// in flight, by asking for the index of the device.
pub open spec fn begin_inquiry(
    m: ManagerView,
    f: FlightView,
    their_ip: IpAddress,
    dev: Seq<char>,
    own: Identity,
) -> (ManagerView, FlightView, TunnelProgressView) {
    if !their_ip.link_local() {
        (m, f, TunnelProgressView::Failed(unsupported_peer(their_ip)))
    } else if !(f is Idle) {
        (m, f, TunnelProgressView::Busy)
    } else {
        (
            m,
            FlightView::Contact(inquiry_contact(their_ip, dev, own)),
            TunnelProgressView::Request(KernelRequestView::GetIfaceIndex { dev }),
        )
    }
}

/// Starting a contact that begins with the peer's tunnel.
pub open spec fn begin_contact(m: ManagerView, f: FlightView, c: ContactView) -> (
    ManagerView,
    FlightView,
    TunnelProgressView,
) {
    if !(f is Idle) {
        (m, f, TunnelProgressView::Busy)
    } else {
        contact_flight(c.resolve(m))
    }
}

/// Starting a neighbor sweep: the neighbors are asked to announce themselves.
pub open spec fn begin_sweep(m: ManagerView, f: FlightView, own: Identity) -> (
    ManagerView,
    FlightView,
    TunnelProgressView,
) {
    if !(f is Idle) {
        (m, f, TunnelProgressView::Busy)
    } else {
        (
            m,
            FlightView::Sweep(
                SweepView {
                    own,
                    stage: SweepStage::Trigger,
                    candidates: Seq::empty(),
                    cursor: 0,
                    pending: Seq::empty(),
                    current: None,
                },
            ),
            TunnelProgressView::Request(KernelRequestView::TriggerNeighborDisc),
        )
    }
}

/// The progress of a single contact as the caller sees it.
fn show_contact(progress: ContactProgress) -> (r: TunnelProgress)
    ensures
        r.deep_view() == shown(progress.deep_view()),
{
    match progress {
        ContactProgress::Request(r) => TunnelProgress::Request(r),
        ContactProgress::Inquire(p) => {
            let ghost one = p.deep_view();
            let mut all: Vec<PendingInquiry> = Vec::new();
            all.push(p);
            proof {
                assert(all.deep_view() =~= seq![one]);
            }
            TunnelProgress::Inquire(all)
        },
        ContactProgress::Identity(i) => TunnelProgress::Identity(i),
        ContactProgress::Opened(n) => TunnelProgress::Opened(n),
        ContactProgress::Failed(e) => TunnelProgress::Failed(e),
    }
}

impl TunnelManager {
    /// Whether an operation is in flight.
    pub fn is_busy(&self) -> (r: bool)
        ensures
            r == !(self.flight_view() is Idle),
    {
        match self.flight {
            Flight::Idle => false,
            _ => true,
        }
    }

    fn start_contact(&mut self, contact: Contact) -> (r: TunnelProgress)
        requires
            old(self).valid(),
        ensures
            final(self).valid(),
            (final(self).deep_view(), final(self).flight_view(), r.deep_view()) == begin_contact(
                old(self).deep_view(),
                old(self).flight_view(),
                contact.deep_view(),
            ),
    {
        if self.is_busy() {
            return TunnelProgress::Busy;
        }
        let (next, progress) = contact.resolve(self);
        if let Some(c) = next {
            self.flight = Flight::Contact(c);
        }
        show_contact(progress)
    }

    /// This gets the list of link-local neighbors, and then contacts them to
    /// get their identity as well as the interface of their tunnel: starts
    /// the sweep.
    pub fn get_neighbors(&mut self, own: Identity) -> (r: TunnelProgress)
        requires
            old(self).valid(),
        ensures
            final(self).valid(),
            (final(self).deep_view(), final(self).flight_view(), r.deep_view()) == begin_sweep(
                old(self).deep_view(),
                old(self).flight_view(),
                own,
            ),
    {
        if self.is_busy() {
            return TunnelProgress::Busy;
        }
        let sweep = Sweep {
            own,
            stage: SweepStage::Trigger,
            candidates: Vec::new(),
            cursor: 0,
            pending: Vec::new(),
            current: None,
        };
        proof {
            assert(sweep.candidates.deep_view() =~= Seq::<NeighborView>::empty());
            assert(sweep.pending.deep_view() =~= Seq::<PendingInquiryView>::empty());
        }
        self.flight = Flight::Sweep(sweep);
        TunnelProgress::Request(KernelRequest::TriggerNeighborDisc)
    }

    /// Contacts one neighbor with our identity to get theirs and the
    /// interface of their tunnel: starts the inquiry.
    pub fn neighbor_inquiry(&mut self, their_ip: IpAddress, dev: &str, own: Identity) -> (r:
        TunnelProgress)
        requires
            old(self).valid(),
        ensures
            final(self).valid(),
            (final(self).deep_view(), final(self).flight_view(), r.deep_view()) == begin_inquiry(
                old(self).deep_view(),
                old(self).flight_view(),
                their_ip,
                dev@,
                own,
            ),
    {
        if !their_ip.is_link_local() {
            let message = if their_ip.is_ipv6() {
                "only link-local neighbors are supported"
            } else {
                "IPv4 neighbors are not supported"
            };
            return TunnelProgress::Failed(
                Error::UnsupportedPeerError(String::from_str(message)),
            );
        }
        if self.is_busy() {
            return TunnelProgress::Busy;
        }
        self.flight = Flight::Contact(
            Contact {
                purpose: Purpose::Inquiry { dev: String::from_str(dev), index: 0, own },
                stage: ContactStage::Index,
                peer: their_ip,
                port: 0,
                tunnel: None,
            },
        );
        TunnelProgress::Request(KernelRequest::GetIfaceIndex { dev: String::from_str(dev) })
    }

    /// Answers a peer that asks who we are: resolves the tunnel of the
    /// address it claims, and starts finding the address to reply from.
    pub fn get_local_identity(&mut self, requester: &LocalIdentity, own: Identity) -> (r:
        TunnelProgress)
        requires
            old(self).valid(),
        ensures
            final(self).valid(),
            (final(self).deep_view(), final(self).flight_view(), r.deep_view()) == begin_contact(
                old(self).deep_view(),
                old(self).flight_view(),
                fresh_contact(PurposeView::LocalIdentity { own }, requester.local_ip),
            ),
    {
        self.start_contact(
            Contact {
                purpose: Purpose::LocalIdentity { own },
                stage: ContactStage::Interface,
                peer: requester.local_ip,
                port: 0,
                tunnel: None,
            },
        )
    }

    /// Given the identity of a neighbor, connects to it: resolves its tunnel
    /// and starts binding it to the neighbor's address, port and key.
    pub fn open_tunnel(
        &mut self,
        their_id: LocalIdentity,
        private_key_path: &str,
        own_ip: IpAddress,
    ) -> (r: TunnelProgress)
        requires
            old(self).valid(),
        ensures
            final(self).valid(),
            (final(self).deep_view(), final(self).flight_view(), r.deep_view()) == begin_contact(
                old(self).deep_view(),
                old(self).flight_view(),
                fresh_contact(
                    PurposeView::Open {
                        their: their_id,
                        private_key_path: private_key_path@,
                        own_ip,
                    },
                    their_id.local_ip,
                ),
            ),
    {
        self.start_contact(
            Contact {
                purpose: Purpose::Open {
                    their: their_id,
                    private_key_path: String::from_str(private_key_path),
                    own_ip,
                },
                stage: ContactStage::Interface,
                peer: their_id.local_ip,
                port: 0,
                tunnel: None,
            },
        )
    }

    /// Hands the reply to the last request to the operation in flight.
    pub fn resume(&mut self, reply: &KernelReply) -> (r: TunnelProgress)
        requires
            old(self).valid(),
        ensures
            final(self).valid(),
            (final(self).deep_view(), final(self).flight_view(), r.deep_view())
                == old(self).flight_view().step(old(self).deep_view(), reply.deep_view()),
    {
        let mut flight = Flight::Idle;
        core::mem::swap(&mut self.flight, &mut flight);
        match flight {
            Flight::Idle => TunnelProgress::Idle,
            Flight::Contact(c) => {
                let (next, progress) = c.step(self, reply);
                if let Some(c) = next {
                    self.flight = Flight::Contact(c);
                }
                show_contact(progress)
            },
            Flight::Sweep(s) => {
                let (next, progress) = s.step(self, reply);
                self.flight = next;
                progress
            },
        }
    }
}

} // verus!
