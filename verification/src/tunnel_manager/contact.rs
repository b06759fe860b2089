//! A contact with one peer: from its address to what the contact is for.

use crate::http_client::{Hello, HELLO_PORT, PeerSocket};
use crate::identity::{Identity, LocalIdentity};
use crate::kernel::{KernelReply, KernelReplyView, KernelRequest, KernelRequestView};
use crate::net::IpAddress;
use crate::tunnel_manager::{
    Error,
    ErrorView,
    fail_confused,
    fail_kernel,
    kernel_confusion,
    kernel_failure,
    Lookup,
    LookupView,
    ManagerView,
    ports_exhausted,
    tunnel_of,
    TunnelData,
    TunnelManager,
    TunnelView,
};
use crate::tunnel_manager::laws::lemma_tunnel_of_push;
use vstd::prelude::*;
use vstd::string::*;

verus! {

/// A discovery exchange that is ready to be made: what to send, and the
/// interface of the tunnel that stands for the peer on this side.
#[derive(Debug)]
pub struct PendingInquiry {
    pub hello: Hello,
    pub iface_name: String,
}

pub struct PendingInquiryView {
    pub hello: Hello,
    pub iface_name: Seq<char>,
}

impl DeepView for PendingInquiry {
    type V = PendingInquiryView;

    open spec fn deep_view(&self) -> PendingInquiryView {
        PendingInquiryView { hello: self.hello, iface_name: self.iface_name@ }
    }
}

/// What a contact with one peer is for.
pub enum Purpose {
    /// To ask the peer, seen on device `dev` with index `index`, who it is.
    Inquiry { dev: String, index: u32, own: Identity },
    /// To tell the peer who we are.
    LocalIdentity { own: Identity },
    /// To connect to the peer, now that we know who it is.
    Open { their: LocalIdentity, private_key_path: String, own_ip: IpAddress },
}

pub enum PurposeView {
    Inquiry { dev: Seq<char>, index: u32, own: Identity },
    LocalIdentity { own: Identity },
    Open { their: LocalIdentity, private_key_path: Seq<char>, own_ip: IpAddress },
}

impl DeepView for Purpose {
    type V = PurposeView;

    open spec fn deep_view(&self) -> PurposeView {
        match self {
            Purpose::Inquiry { dev, index, own } => PurposeView::Inquiry {
                dev: dev@,
                index: *index,
                own: *own,
            },
            Purpose::LocalIdentity { own } => PurposeView::LocalIdentity { own: *own },
            Purpose::Open { their, private_key_path, own_ip } => PurposeView::Open {
                their: *their,
                private_key_path: private_key_path@,
                own_ip: *own_ip,
            },
        }
    }
}

/// Which request of a contact is out.
#[derive(Clone, Copy, Debug, PartialEq, Eq)]
pub enum ContactStage {
    /// The index of the device was asked for.
    Index,
    /// A new tunnel interface was asked for.
    Interface,
    /// The address to reply from was asked for.
    ReplyIp,
    /// The tunnel was asked to be bound to the peer.
    Open,
}

/// A contact with one peer in flight.
pub struct Contact {
    pub purpose: Purpose,
    pub stage: ContactStage,
    pub peer: IpAddress,
    pub port: u16,
    pub tunnel: Option<TunnelData>,
}

pub struct ContactView {
    pub purpose: PurposeView,
    pub stage: ContactStage,
    pub peer: IpAddress,
    pub port: u16,
    pub tunnel: Option<TunnelView>,
}

impl DeepView for Contact {
    type V = ContactView;

    open spec fn deep_view(&self) -> ContactView {
        ContactView {
            purpose: self.purpose.deep_view(),
            stage: self.stage,
            peer: self.peer,
            port: self.port,
            tunnel: self.tunnel.deep_view(),
        }
    }
}

/// What a contact wants next, or came to.
pub enum ContactProgress {
    Request(KernelRequest),
    Inquire(PendingInquiry),
    Identity(LocalIdentity),
    Opened(String),
    Failed(Error),
}

pub enum ContactProgressView {
    Request(KernelRequestView),
    Inquire(PendingInquiryView),
    Identity(LocalIdentity),
    Opened(Seq<char>),
    Failed(ErrorView),
}

impl DeepView for ContactProgress {
    type V = ContactProgressView;

    open spec fn deep_view(&self) -> ContactProgressView {
        match self {
            ContactProgress::Request(r) => ContactProgressView::Request(r.deep_view()),
            ContactProgress::Inquire(p) => ContactProgressView::Inquire(p.deep_view()),
            ContactProgress::Identity(i) => ContactProgressView::Identity(*i),
            ContactProgress::Opened(n) => ContactProgressView::Opened(n@),
            ContactProgress::Failed(e) => ContactProgressView::Failed(e.deep_view()),
        }
    }
}

impl ContactView {
    /// The stage fits the purpose, and what the stage relies on is there:
    /// a port that was reserved is above all ports in use, and a tunnel that
    /// the contact works with is the one that the table holds for the peer.
    pub open spec fn valid(self, m: ManagerView) -> bool {
        match self.stage {
            ContactStage::Index => self.purpose is Inquiry,
            ContactStage::Interface => self.port < m.next_port && m.is_unused(self.port),
            ContactStage::ReplyIp => self.tunnel is Some && tunnel_of(m.tunnels, self.peer)
                == self.tunnel && !(self.purpose is Open),
            ContactStage::Open => self.tunnel is Some && tunnel_of(m.tunnels, self.peer)
                == self.tunnel && self.purpose is Open,
        }
    }

    /// Goes on once the peer's tunnel is known: towards the address to reply
    /// from, or, to connect, towards binding the tunnel to the peer.
    pub open spec fn resolved(self, m: ManagerView, t: TunnelView) -> (
        Option<ContactView>,
        ManagerView,
        ContactProgressView,
    ) {
        match self.purpose {
            PurposeView::Open { their, private_key_path, own_ip } => (
                Some(ContactView { stage: ContactStage::Open, tunnel: Some(t), ..self }),
                m,
                ContactProgressView::Request(
                    KernelRequestView::OpenTunnel {
                        iface: t.iface_name,
                        port: t.listen_port,
                        endpoint_ip: their.local_ip,
                        endpoint_port: their.wg_port,
                        remote_pub_key: their.global.wg_public_key,
                        private_key_path,
                        own_ip,
                    },
                ),
            ),
            _ => (
                Some(ContactView { stage: ContactStage::ReplyIp, tunnel: Some(t), ..self }),
                m,
                ContactProgressView::Request(
                    KernelRequestView::GetLinkLocalReplyIp { their_ip: self.peer },
                ),
            ),
        }
    }

    /// Resolves the peer's tunnel: an existing one is used as it is; for a new
    /// one the port is reserved first and the interface asked for then; and
    /// without a port left the contact fails.
    pub open spec fn resolve(self, m: ManagerView) -> (
        Option<ContactView>,
        ManagerView,
        ContactProgressView,
    ) {
        let (after, lookup) = m.get_if(self.peer);
        match lookup {
            LookupView::Found(t) => self.resolved(after, t),
            LookupView::Reserved(port) => (
                Some(ContactView { stage: ContactStage::Interface, port, ..self }),
                after,
                ContactProgressView::Request(KernelRequestView::SetupWgIf),
            ),
            LookupView::Exhausted => (None, after, ContactProgressView::Failed(ports_exhausted())),
        }
    }

    /// What the contact does with the reply to its last request. A failure of
    /// the adapter ends the contact with that failure; nothing that was
    /// consumed before is given back.
    pub open spec fn step(self, m: ManagerView, reply: KernelReplyView) -> (
        Option<ContactView>,
        ManagerView,
        ContactProgressView,
    ) {
        if reply is Failed {
            (None, m, ContactProgressView::Failed(kernel_failure(reply->Failed_0)))
        } else {
            match self.stage {
                ContactStage::Index => match (reply, self.purpose) {
                    (KernelReplyView::Index(i), PurposeView::Inquiry { dev, index, own }) => (
                        ContactView { purpose: PurposeView::Inquiry { dev, index: i, own }, ..self }
                    ).resolve(m),
                    _ => (None, m, ContactProgressView::Failed(kernel_confusion())),
                },
                ContactStage::Interface => match reply {
                    KernelReplyView::Interface(name) => {
                        let (after, t) = m.new_if(self.peer, self.port, name);
                        self.resolved(after, t)
                    },
                    _ => (None, m, ContactProgressView::Failed(kernel_confusion())),
                },
                ContactStage::ReplyIp => match (reply, self.tunnel) {
                    (KernelReplyView::Address(a), Some(t)) => match self.purpose {
                        PurposeView::Inquiry { dev, index, own } => (
                            None,
                            m,
                            ContactProgressView::Inquire(
                                PendingInquiryView {
                                    hello: Hello {
                                        my_id: LocalIdentity {
                                            global: own,
                                            local_ip: a,
                                            wg_port: t.listen_port,
                                        },
                                        to: PeerSocket {
                                            ip: self.peer,
                                            port: HELLO_PORT,
                                            scope_id: index,
                                        },
                                    },
                                    iface_name: t.iface_name,
                                },
                            ),
                        ),
                        PurposeView::LocalIdentity { own } => (
                            None,
                            m,
                            ContactProgressView::Identity(
                                LocalIdentity { global: own, local_ip: a, wg_port: t.listen_port },
                            ),
                        ),
                        _ => (None, m, ContactProgressView::Failed(kernel_confusion())),
                    },
                    _ => (None, m, ContactProgressView::Failed(kernel_confusion())),
                },
                ContactStage::Open => match self.tunnel {
                    Some(t) => (None, m, ContactProgressView::Opened(t.iface_name)),
                    None => (None, m, ContactProgressView::Failed(kernel_confusion())),
                },
            }
        }
    }
}

impl Contact {
    fn resolved(self, Ghost(m): Ghost<ManagerView>, t: TunnelData) -> (r: (
        Option<Contact>,
        ContactProgress,
    ))
        requires
            tunnel_of(m.tunnels, self.peer) == Some(t.deep_view()),
        ensures
            (r.0.deep_view(), m, r.1.deep_view()) == self.deep_view().resolved(m, t.deep_view()),
            r.0 matches Some(c) ==> c.deep_view().valid(m),
    {
        match self.purpose {
            Purpose::Open { their, private_key_path, own_ip } => {
                let request = KernelRequest::OpenTunnel {
                    iface: t.iface_name.clone(),
                    port: t.listen_port,
                    endpoint_ip: their.local_ip,
                    endpoint_port: their.wg_port,
                    remote_pub_key: their.global.wg_public_key,
                    private_key_path: private_key_path.clone(),
                    own_ip,
                };
                (
                    Some(
                        Contact {
                            purpose: Purpose::Open { their, private_key_path, own_ip },
                            stage: ContactStage::Open,
                            peer: self.peer,
                            port: self.port,
                            tunnel: Some(t),
                        },
                    ),
                    ContactProgress::Request(request),
                )
            },
            purpose => (
                Some(
                    Contact {
                        purpose,
                        stage: ContactStage::ReplyIp,
                        peer: self.peer,
                        port: self.port,
                        tunnel: Some(t),
                    },
                ),
                ContactProgress::Request(KernelRequest::GetLinkLocalReplyIp { their_ip: self.peer }),
            ),
        }
    }

    pub(crate) fn resolve(self, manager: &mut TunnelManager) -> (r: (Option<Contact>, ContactProgress))
        requires
            old(manager).deep_view().wf(),
        ensures
            final(manager).deep_view().wf(),
            final(manager).flight_view() == old(manager).flight_view(),
            (r.0.deep_view(), final(manager).deep_view(), r.1.deep_view())
                == self.deep_view().resolve(old(manager).deep_view()),
            r.0 matches Some(c) ==> c.deep_view().valid(final(manager).deep_view()),
    {
        match manager.get_if(&self.peer) {
            Lookup::Found(t) => self.resolved(Ghost(manager.deep_view()), t),
            Lookup::Reserved(port) => (
                Some(
                    Contact {
                        purpose: self.purpose,
                        stage: ContactStage::Interface,
                        peer: self.peer,
                        port,
                        tunnel: self.tunnel,
                    },
                ),
                ContactProgress::Request(KernelRequest::SetupWgIf),
            ),
            Lookup::Exhausted => (
                None,
                ContactProgress::Failed(
                    Error::TunnelManagerError(
                        String::from_str("no listen port is left for a new tunnel"),
                    ),
                ),
            ),
        }
    }

    /// Takes the reply to the last request and says what comes next.
    pub(crate) fn step(self, manager: &mut TunnelManager, reply: &KernelReply) -> (r: (
        Option<Contact>,
        ContactProgress,
    ))
        requires
            old(manager).deep_view().wf(),
            self.deep_view().valid(old(manager).deep_view()),
        ensures
            final(manager).deep_view().wf(),
            final(manager).flight_view() == old(manager).flight_view(),
            (r.0.deep_view(), final(manager).deep_view(), r.1.deep_view())
                == self.deep_view().step(old(manager).deep_view(), reply.deep_view()),
            r.0 matches Some(c) ==> c.deep_view().valid(final(manager).deep_view()),
    {
        if let KernelReply::Failed(d) = reply {
            return (None, ContactProgress::Failed(fail_kernel(d)));
        }
        match self.stage {
            ContactStage::Index => match reply {
                KernelReply::Index(i) => match self.purpose {
                    Purpose::Inquiry { dev, index: _, own } => {
                        let next = Contact {
                            purpose: Purpose::Inquiry { dev, index: *i, own },
                            stage: self.stage,
                            peer: self.peer,
                            port: self.port,
                            tunnel: self.tunnel,
                        };
                        next.resolve(manager)
                    },
                    _ => (None, ContactProgress::Failed(fail_confused())),
                },
                _ => (None, ContactProgress::Failed(fail_confused())),
            },
            ContactStage::Interface => match reply {
                KernelReply::Interface(name) => {
                    let ghost before = manager.deep_view();
                    let t = manager.new_if(&self.peer, self.port, name.clone());
                    proof {
                        lemma_tunnel_of_push(before.tunnels, t.deep_view(), self.peer);
                    }
                    self.resolved(Ghost(manager.deep_view()), t)
                },
                _ => (None, ContactProgress::Failed(fail_confused())),
            },
            ContactStage::ReplyIp => match reply {
                KernelReply::Address(a) => match self.tunnel {
                    Some(t) => match self.purpose {
                        Purpose::Inquiry { dev: _, index, own } => (
                            None,
                            ContactProgress::Inquire(
                                PendingInquiry {
                                    hello: Hello {
                                        my_id: LocalIdentity {
                                            global: own,
                                            local_ip: *a,
                                            wg_port: t.listen_port,
                                        },
                                        to: PeerSocket {
                                            ip: self.peer,
                                            port: HELLO_PORT,
                                            scope_id: index,
                                        },
                                    },
                                    iface_name: t.iface_name,
                                },
                            ),
                        ),
                        Purpose::LocalIdentity { own } => (
                            None,
                            ContactProgress::Identity(
                                LocalIdentity { global: own, local_ip: *a, wg_port: t.listen_port },
                            ),
                        ),
                        _ => (None, ContactProgress::Failed(fail_confused())),
                    },
                    None => (None, ContactProgress::Failed(fail_confused())),
                },
                _ => (None, ContactProgress::Failed(fail_confused())),
            },
            ContactStage::Open => match self.tunnel {
                Some(t) => (None, ContactProgress::Opened(t.iface_name)),
                None => (None, ContactProgress::Failed(fail_confused())),
            },
        }
    }
}

/// The contact that asks the neighbor at `ip`, seen on `dev`, who it is.
pub open spec fn inquiry_contact(ip: IpAddress, dev: Seq<char>, own: Identity) -> ContactView {
    ContactView {
        purpose: PurposeView::Inquiry { dev, index: 0, own },
        stage: ContactStage::Index,
        peer: ip,
        port: 0,
        tunnel: None,
    }
}

/// A contact that has not resolved its peer's tunnel yet.
pub open spec fn fresh_contact(purpose: PurposeView, peer: IpAddress) -> ContactView {
    ContactView { purpose, stage: ContactStage::Interface, peer, port: 0, tunnel: None }
}

/// A step of a contact keeps the peer, and an exchange it makes ready goes
/// to that peer.
pub proof fn lemma_contact_keeps_peer(c: ContactView, m: ManagerView, reply: KernelReplyView)
    ensures
        c.step(m, reply).0 matches Some(next) ==> next.peer == c.peer,
        c.step(m, reply).2 matches ContactProgressView::Inquire(p) ==> p.hello.to.ip == c.peer,
{
}

/// What a contact hands out speaks of the peer's own tunnel. The identity
/// that is announced to a peer, in an exchange or in answer to its request,
/// names the port of the tunnel that the table holds for that peer, and the
/// interface that is reported for an exchange or for an open tunnel is the
/// interface of that tunnel.
pub proof fn lemma_contact_speaks_of_its_tunnel(
    c: ContactView,
    m: ManagerView,
    reply: KernelReplyView,
)
    requires
        m.wf(),
        c.valid(m),
    ensures
        ({
            let (next, after, progress) = c.step(m, reply);
            let tunnel = tunnel_of(after.tunnels, c.peer);
            &&& progress matches ContactProgressView::Inquire(p) ==> tunnel matches Some(t)
                && p.iface_name == t.iface_name && p.hello.my_id.wg_port == t.listen_port
                && p.hello.to.port == 4876
            &&& progress matches ContactProgressView::Identity(me) ==> tunnel matches Some(t)
                && me.wg_port == t.listen_port
            &&& progress matches ContactProgressView::Opened(iface) ==> tunnel matches Some(t)
                && iface == t.iface_name
            &&& progress matches ContactProgressView::Request(
                KernelRequestView::OpenTunnel { iface, port, .. },
            ) ==> tunnel matches Some(t) && iface == t.iface_name && port == t.listen_port
        }),
{
    if c.stage is Interface && reply is Interface {
        let name = reply->Interface_0;
        if tunnel_of(m.tunnels, c.peer) is None {
            lemma_tunnel_of_push(
                m.tunnels,
                TunnelView { iface_name: name, listen_port: c.port, peer: c.peer },
                c.peer,
            );
        }
    }
}

} // verus!
