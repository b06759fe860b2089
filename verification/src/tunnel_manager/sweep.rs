//! The neighbor sweep: from the neighbor table to the exchanges to make.

use crate::identity::Identity;
use crate::kernel::{
    KernelReply,
    KernelReplyView,
    KernelRequest,
    KernelRequestView,
    Neighbor,
    NeighborView,
};
use crate::text::{starts_with, text_starts_with};
use crate::tunnel_manager::{
    begin_sweep,
    fail_confused,
    fail_kernel,
    Flight,
    FlightView,
    kernel_confusion,
    kernel_failure,
    ManagerView,
    TunnelManager,
    TunnelProgress,
    TunnelProgressView,
};
use crate::tunnel_manager::contact::{
    Contact,
    ContactProgress,
    ContactProgressView,
    ContactStage,
    ContactView,
    inquiry_contact,
    lemma_contact_keeps_peer,
    PendingInquiry,
    PendingInquiryView,
    Purpose,
};
use vstd::prelude::*;
use vstd::string::*;

verus! {

/// Whether a device is one of the tunnel interfaces, which are named `wg…`.
pub open spec fn is_tunnel_device(dev: Seq<char>) -> bool {
    starts_with(dev, "wg"@)
}

/// Whether a row of the neighbor table is worth a discovery exchange: it was
/// not seen on a tunnel and its address is link-local.
pub open spec fn is_candidate(n: NeighborView) -> bool {
    !is_tunnel_device(n.dev) && n.ip.link_local()
}

/// Whether a row of the neighbor table is worth a discovery exchange.
pub fn check_candidate(n: &Neighbor) -> (r: bool)
    ensures
        r == is_candidate(n.deep_view()),
{
    !text_starts_with(n.dev.as_str(), "wg") && n.ip.is_link_local()
}

/// Which request of a neighbor sweep is out.
#[derive(Clone, Copy, Debug, PartialEq, Eq)]
pub enum SweepStage {
    /// The neighbors were asked to announce themselves.
    Trigger,
    /// The neighbor table was asked for.
    Table,
    /// The contact with the candidate under the cursor is in flight.
    Contacting,
}

/// A neighbor sweep in flight.
pub struct Sweep {
    pub own: Identity,
    pub stage: SweepStage,
    pub candidates: Vec<Neighbor>,
    pub cursor: usize,
    pub pending: Vec<PendingInquiry>,
    pub current: Option<Contact>,
}

pub struct SweepView {
    pub own: Identity,
    pub stage: SweepStage,
    pub candidates: Seq<NeighborView>,
    pub cursor: int,
    pub pending: Seq<PendingInquiryView>,
    pub current: Option<ContactView>,
}

impl DeepView for Sweep {
    type V = SweepView;

    open spec fn deep_view(&self) -> SweepView {
        SweepView {
            own: self.own,
            stage: self.stage,
            candidates: self.candidates.deep_view(),
            cursor: self.cursor as int,
            pending: self.pending.deep_view(),
            current: self.current.deep_view(),
        }
    }
}

/// The rows of the neighbor table that are worth a discovery exchange, in
/// the order of the table.
pub open spec fn candidates(table: Seq<NeighborView>) -> Seq<NeighborView> {
    table.filter(|n: NeighborView| is_candidate(n))
}

impl SweepView {
    pub open spec fn valid(self, m: ManagerView) -> bool {
        match self.stage {
            SweepStage::Contacting => {
                &&& 0 <= self.cursor < self.candidates.len()
                &&& self.current matches Some(c) && c.valid(m)
            },
            _ => true,
        }
    }

    /// Goes on with candidate `i`, whose contact starts by asking for the
    /// index of its device; after the last candidate the sweep hands out the
    /// exchanges that are ready and ends.
    pub open spec fn from(self, m: ManagerView, i: int) -> (
        ManagerView,
        FlightView,
        TunnelProgressView,
    ) {
        if 0 <= i < self.candidates.len() {
            let n = self.candidates[i];
            (
                m,
                FlightView::Sweep(
                    SweepView {
                        stage: SweepStage::Contacting,
                        cursor: i,
                        current: Some(inquiry_contact(n.ip, n.dev, self.own)),
                        ..self
                    },
                ),
                TunnelProgressView::Request(KernelRequestView::GetIfaceIndex { dev: n.dev }),
            )
        } else {
            (m, FlightView::Idle, TunnelProgressView::Inquire(self.pending))
        }
    }

    /// What the sweep does with the reply to its last request.
    ///
    /// The trigger's reply is not looked at. The table must arrive, and only
    /// its candidates are contacted: no row on a tunnel device and none
    /// without a link-local address. A contact that fails is dropped, and the
    /// sweep goes on with the next candidate.
    pub open spec fn step(self, m: ManagerView, reply: KernelReplyView) -> (
        ManagerView,
        FlightView,
        TunnelProgressView,
    ) {
        match self.stage {
            SweepStage::Trigger => (
                m,
                FlightView::Sweep(SweepView { stage: SweepStage::Table, ..self }),
                TunnelProgressView::Request(KernelRequestView::GetNeighbors),
            ),
            SweepStage::Table => match reply {
                KernelReplyView::Failed(d) => (
                    m,
                    FlightView::Idle,
                    TunnelProgressView::Failed(kernel_failure(d)),
                ),
                KernelReplyView::Neighbors(table) => (SweepView {
                    candidates: candidates(table),
                    ..self
                }).from(m, 0),
                _ => (m, FlightView::Idle, TunnelProgressView::Failed(kernel_confusion())),
            },
            SweepStage::Contacting => match self.current {
                Some(c) => {
                    let (next, after, progress) = c.step(m, reply);
                    match progress {
                        ContactProgressView::Request(r) => (
                            after,
                            FlightView::Sweep(SweepView { current: next, ..self }),
                            TunnelProgressView::Request(r),
                        ),
                        ContactProgressView::Inquire(p) => (SweepView {
                            pending: self.pending.push(p),
                            current: None,
                            ..self
                        }).from(after, self.cursor + 1),
                        _ => (SweepView { current: None, ..self }).from(after, self.cursor + 1),
                    }
                },
                None => (SweepView { current: None, ..self }).from(m, self.cursor + 1),
            },
        }
    }
}

/// A copy of a row of the neighbor table.
pub(crate) fn copy_neighbor(n: &Neighbor) -> (r: Neighbor)
    ensures
        r.deep_view() == n.deep_view(),
{
    Neighbor { mac: n.mac, ip: n.ip, dev: n.dev.clone() }
}

/// The rows of the neighbor table that are worth a discovery exchange.
pub fn find_candidates(table: &Vec<Neighbor>) -> (r: Vec<Neighbor>)
    ensures
        r.deep_view() == candidates(table.deep_view()),
{
    let ghost pred = |n: NeighborView| is_candidate(n);
    let ghost all = table.deep_view();
    let mut r: Vec<Neighbor> = Vec::new();
    let mut i: usize = 0;
    proof {
        reveal(Seq::filter);
        assert(all.subrange(0, 0) =~= Seq::<NeighborView>::empty());
        assert(r.deep_view() =~= Seq::<NeighborView>::empty());
    }
    while i < table.len()
        invariant
            i <= table.len(),
            all == table.deep_view(),
            pred == |n: NeighborView| is_candidate(n),
            r.deep_view() == all.subrange(0, i as int).filter(pred),
        decreases table.len() - i,
    {
        let keep = check_candidate(&table[i]);
        let ghost before = r.deep_view();
        proof {
            reveal(Seq::filter);
            let next = all.subrange(0, i + 1);
            assert(next.drop_last() =~= all.subrange(0, i as int));
            assert(next.last() == table[i as int].deep_view());
        }
        if keep {
            r.push(copy_neighbor(&table[i]));
            proof {
                assert(r.deep_view() =~= before.push(table[i as int].deep_view()));
            }
        }
        i += 1;
    }
    proof {
        assert(all.subrange(0, all.len() as int) =~= all);
    }
    r
}

impl Sweep {
    fn from(self, Ghost(m): Ghost<ManagerView>, i: usize) -> (r: (Flight, TunnelProgress))
        ensures
            (m, r.0.deep_view(), r.1.deep_view()) == self.deep_view().from(m, i as int),
            r.0.deep_view().valid(m),
    {
        if i < self.candidates.len() {
            let dev = self.candidates[i].dev.clone();
            let contact = Contact {
                purpose: Purpose::Inquiry { dev: dev.clone(), index: 0, own: self.own },
                stage: ContactStage::Index,
                peer: self.candidates[i].ip,
                port: 0,
                tunnel: None,
            };
            proof {
                assert(self.candidates.deep_view()[i as int] == self.candidates[i as int].deep_view());
            }
            (
                Flight::Sweep(
                    Sweep {
                        own: self.own,
                        stage: SweepStage::Contacting,
                        candidates: self.candidates,
                        cursor: i,
                        pending: self.pending,
                        current: Some(contact),
                    },
                ),
                TunnelProgress::Request(KernelRequest::GetIfaceIndex { dev }),
            )
        } else {
            (Flight::Idle, TunnelProgress::Inquire(self.pending))
        }
    }

    /// Takes the reply to the last request and says what comes next.
    pub(crate) fn step(self, manager: &mut TunnelManager, reply: &KernelReply) -> (r: (
        Flight,
        TunnelProgress,
    ))
        requires
            old(manager).deep_view().wf(),
            self.deep_view().valid(old(manager).deep_view()),
        ensures
            final(manager).deep_view().wf(),
            final(manager).flight_view() == old(manager).flight_view(),
            (final(manager).deep_view(), r.0.deep_view(), r.1.deep_view())
                == self.deep_view().step(old(manager).deep_view(), reply.deep_view()),
            r.0.deep_view().valid(final(manager).deep_view()),
    {
        match self.stage {
            SweepStage::Trigger => (
                Flight::Sweep(
                    Sweep {
                        own: self.own,
                        stage: SweepStage::Table,
                        candidates: self.candidates,
                        cursor: self.cursor,
                        pending: self.pending,
                        current: self.current,
                    },
                ),
                TunnelProgress::Request(KernelRequest::GetNeighbors),
            ),
            SweepStage::Table => match reply {
                KernelReply::Failed(d) => (Flight::Idle, TunnelProgress::Failed(fail_kernel(d))),
                KernelReply::Neighbors(table) => {
                    let next = Sweep {
                        own: self.own,
                        stage: self.stage,
                        candidates: find_candidates(table),
                        cursor: self.cursor,
                        pending: self.pending,
                        current: self.current,
                    };
                    next.from(Ghost(manager.deep_view()), 0)
                },
                _ => (Flight::Idle, TunnelProgress::Failed(fail_confused())),
            },
            SweepStage::Contacting => {
                let len = self.candidates.len();
                assert(self.cursor < len);
                let following = self.cursor + 1;
                match self.current {
                    Some(c) => {
                        let (next, progress) = c.step(manager, reply);
                        match progress {
                            ContactProgress::Request(r) => (
                                Flight::Sweep(
                                    Sweep {
                                        own: self.own,
                                        stage: self.stage,
                                        candidates: self.candidates,
                                        cursor: self.cursor,
                                        pending: self.pending,
                                        current: next,
                                    },
                                ),
                                TunnelProgress::Request(r),
                            ),
                            ContactProgress::Inquire(p) => {
                                let mut pending = self.pending;
                                let ghost before = pending.deep_view();
                                let ghost one = p.deep_view();
                                pending.push(p);
                                proof {
                                    assert(pending.deep_view() =~= before.push(one));
                                }
                                let rest = Sweep {
                                    own: self.own,
                                    stage: self.stage,
                                    candidates: self.candidates,
                                    cursor: self.cursor,
                                    pending,
                                    current: None,
                                };
                                rest.from(Ghost(manager.deep_view()), following)
                            },
                            _ => {
                                let rest = Sweep {
                                    own: self.own,
                                    stage: self.stage,
                                    candidates: self.candidates,
                                    cursor: self.cursor,
                                    pending: self.pending,
                                    current: None,
                                };
                                rest.from(Ghost(manager.deep_view()), following)
                            },
                        }
                    },
                    None => {
                        let rest = Sweep {
                            own: self.own,
                            stage: self.stage,
                            candidates: self.candidates,
                            cursor: self.cursor,
                            pending: self.pending,
                            current: None,
                        };
                        rest.from(Ghost(manager.deep_view()), following)
                    },
                }
            },
        }
    }
}

/// Every candidate is a row of the table, was not seen on a tunnel device
/// and has a link-local address.
pub proof fn lemma_candidates_filtered(table: Seq<NeighborView>, i: int)
    requires
        0 <= i < candidates(table).len(),
    ensures
        table.contains(candidates(table)[i]),
        !is_tunnel_device(candidates(table)[i].dev),
        candidates(table)[i].ip.link_local(),
{
    let pred = |n: NeighborView| is_candidate(n);
    table.lemma_filter_pred(pred, i);
    assert(table.filter(pred).contains(table.filter(pred)[i]));
    table.lemma_filter_contains_rev(pred, candidates(table)[i]);
}

impl SweepView {
    /// What holds of a sweep in every state: it contacts candidates only,
    /// and every exchange it has made ready goes to a link-local address
    /// that was not seen on a tunnel device.
    pub open spec fn filtered(self) -> bool {
        &&& forall|i: int|
            0 <= i < self.candidates.len() ==> is_candidate(#[trigger] self.candidates[i])
        &&& forall|i: int|
            0 <= i < self.pending.len() ==> (#[trigger] self.pending[i]).hello.to.ip.link_local()
        &&& self.stage is Contacting ==> (self.current matches Some(c) && 0 <= self.cursor
            < self.candidates.len() && c.peer == self.candidates[self.cursor].ip)
    }
}

/// A row of the neighbor table that was seen on a tunnel device,
/// or whose address is not link-local, never leads to a discovery exchange:
/// whatever the replies, a sweep keeps to the candidates, and the exchanges
/// it hands out at its end go to link-local addresses only.
pub proof fn lemma_sweep_filters(s: SweepView, m: ManagerView, reply: KernelReplyView)
    requires
        s.filtered(),
    ensures
        s.step(m, reply).1 matches FlightView::Sweep(next) ==> next.filtered(),
        s.step(m, reply).2 matches TunnelProgressView::Inquire(ready) ==> forall|i: int|
            0 <= i < ready.len() ==> (#[trigger] ready[i]).hello.to.ip.link_local(),
{
    match s.stage {
        SweepStage::Trigger => {},
        SweepStage::Table => {
            if let KernelReplyView::Neighbors(table) = reply {
                let next = SweepView { candidates: candidates(table), ..s };
                assert forall|i: int| 0 <= i < next.candidates.len() implies is_candidate(
                    #[trigger] next.candidates[i],
                ) by {
                    lemma_candidates_filtered(table, i);
                }
            }
        },
        SweepStage::Contacting => {
            let c = s.current->Some_0;
            lemma_contact_keeps_peer(c, m, reply);
            let (next, after, progress) = c.step(m, reply);
            if let ContactProgressView::Inquire(p) = progress {
                let grown = s.pending.push(p);
                assert forall|i: int| 0 <= i < grown.len() implies (
                #[trigger] grown[i]).hello.to.ip.link_local() by {
                    if i == s.pending.len() {
                        assert(is_candidate(s.candidates[s.cursor]));
                    } else {
                        assert(grown[i] == s.pending[i]);
                    }
                }
            }
        },
    }
}

/// A sweep starts in a state that keeps to the candidates: it has none yet,
/// and no exchange ready.
pub proof fn lemma_sweep_starts_filtered(m: ManagerView, own: Identity)
    ensures
        begin_sweep(m, FlightView::Idle, own).1 matches FlightView::Sweep(s) && s.filtered(),
{
}

/// Every candidate has its turn. While a sweep contacts its candidates, a
/// step stays with the candidate at hand or moves on to the next one, and
/// adds an exchange only when it moves on; the sweep ends, by handing out
/// the exchanges, only after the last candidate.
pub proof fn lemma_sweep_visits_every_candidate(
    s: SweepView,
    m: ManagerView,
    reply: KernelReplyView,
)
    requires
        s.stage is Contacting,
        0 <= s.cursor < s.candidates.len(),
    ensures
        match s.step(m, reply).1 {
            FlightView::Sweep(next) => {
                &&& next.stage is Contacting
                &&& next.candidates == s.candidates
                &&& next.own == s.own
                &&& next.cursor == s.cursor && next.pending == s.pending || next.cursor == s.cursor
                    + 1 && (next.pending == s.pending || next.pending.drop_last() == s.pending)
            },
            FlightView::Idle => {
                &&& s.cursor + 1 == s.candidates.len()
                &&& s.step(m, reply).2 matches TunnelProgressView::Inquire(ready)
                &&& (ready == s.pending || ready.drop_last() == s.pending)
            },
            FlightView::Contact(_) => false,
        },
{
    if let Some(c) = s.current {
        let (next, after, progress) = c.step(m, reply);
        if let ContactProgressView::Inquire(p) = progress {
            assert(s.pending.push(p).drop_last() =~= s.pending);
        }
    }
}

} // verus!
