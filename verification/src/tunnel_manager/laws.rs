//! What holds of the tunnel table whatever is asked of it.

use crate::identity::Identity;
use crate::net::IpAddress;
use crate::tunnel_manager::{
    begin_inquiry,
    ErrorView,
    FlightView,
    LookupView,
    ManagerView,
    tunnel_of,
    TunnelProgressView,
    TunnelView,
};
use vstd::prelude::*;
use vstd::string::*;

verus! {

/// An address without a tunnel is the peer of none.
pub proof fn lemma_tunnel_of_none(tunnels: Seq<TunnelView>, ip: IpAddress)
    requires
        tunnel_of(tunnels, ip) is None,
    ensures
        forall|i: int| 0 <= i < tunnels.len() ==> (#[trigger] tunnels[i]).peer != ip,
    decreases tunnels.len(),
{
    if tunnels.len() > 0 {
        lemma_tunnel_of_none(tunnels.drop_first(), ip);
        assert forall|i: int| 0 <= i < tunnels.len() implies (#[trigger] tunnels[i]).peer != ip by {
            if i > 0 {
                assert(tunnels.drop_first()[i - 1] == tunnels[i]);
            }
        }
    }
}

/// A tunnel that was stored is found again.
pub proof fn lemma_tunnel_of_push(tunnels: Seq<TunnelView>, t: TunnelView, ip: IpAddress)
    ensures
        tunnel_of(tunnels.push(t), ip) == match tunnel_of(tunnels, ip) {
            Some(found) => Some(found),
            None => if t.peer == ip {
                Some(t)
            } else {
                None
            },
        },
    decreases tunnels.len(),
{
    if tunnels.len() == 0 {
        assert(tunnels.push(t).drop_first() =~= tunnels);
    } else {
        assert(tunnels.push(t).drop_first() =~= tunnels.drop_first().push(t));
        lemma_tunnel_of_push(tunnels.drop_first(), t, ip);
    }
}

/// Once an address has its tunnel, resolving it again returns
/// the same interface name and port, any number of times, and changes
/// nothing: no port is consumed and no tunnel is added.
pub proof fn lemma_resolve_idempotent(
    m: ManagerView,
    ip: IpAddress,
    listen_port: u16,
    iface_name: Seq<char>,
)
    ensures
        ({
            let (stored, tunnel) = m.new_if(ip, listen_port, iface_name);
            &&& stored.get_if(ip) == (stored, LookupView::Found(tunnel))
            &&& forall|port: u16, name: Seq<char>|
                #![trigger stored.new_if(ip, port, name)]
                stored.new_if(ip, port, name) == (stored, tunnel)
        }),
{
    if tunnel_of(m.tunnels, ip) is None {
        lemma_tunnel_of_push(
            m.tunnels,
            TunnelView { iface_name, listen_port, peer: ip },
            ip,
        );
    }
}

/// What resolving each of `ips` in turn comes to, from the state `m` on.
pub open spec fn resolve_all(m: ManagerView, ips: Seq<IpAddress>) -> (
    ManagerView,
    Seq<LookupView>,
)
    decreases ips.len(),
{
    if ips.len() == 0 {
        (m, Seq::empty())
    } else {
        let (before, found) = resolve_all(m, ips.drop_last());
        let (after, last) = before.get_if(ips.last());
        (after, found.push(last))
    }
}

/// Sequential allocations for peers without a tunnel hand out
/// the ports that follow one another from the next port on: each is one
/// above the one before, so they increase strictly and no two are equal.
pub proof fn lemma_ports_increase(m: ManagerView, ips: Seq<IpAddress>)
    requires
        m.wf(),
        m.next_port + ips.len() <= 65536,
        forall|i: int| 0 <= i < ips.len() ==> tunnel_of(m.tunnels, #[trigger] ips[i]) is None,
    ensures
        resolve_all(m, ips).0 == (ManagerView { next_port: m.next_port + ips.len(), ..m }),
        resolve_all(m, ips).1.len() == ips.len(),
        forall|k: int|
            0 <= k < ips.len() ==> #[trigger] resolve_all(m, ips).1[k] == LookupView::Reserved(
                (m.next_port + k) as u16,
            ),
        forall|i: int, j: int|
            0 <= i < j < ips.len() ==> (#[trigger] resolve_all(m, ips).1[i])->Reserved_0 < (
            #[trigger] resolve_all(m, ips).1[j])->Reserved_0,
    decreases ips.len(),
{
    if ips.len() > 0 {
        let head = ips.drop_last();
        assert forall|i: int| 0 <= i < head.len() implies tunnel_of(
            m.tunnels,
            #[trigger] head[i],
        ) is None by {
            assert(head[i] == ips[i]);
        }
        lemma_ports_increase(m, head);
        assert(tunnel_of(m.tunnels, ips.last()) is None) by {
            assert(ips.last() == ips[ips.len() - 1]);
        }
    }
}

/// An inquiry for an IPv4 address fails at once as unsupported:
/// no request is made and nothing changes, whatever is in flight.
pub proof fn lemma_inquiry_rejects_ipv4(
    m: ManagerView,
    f: FlightView,
    their_ip: IpAddress,
    dev: Seq<char>,
    own: Identity,
)
    requires
        their_ip is V4,
    ensures
        begin_inquiry(m, f, their_ip, dev, own) == (
            m,
            f,
            TunnelProgressView::Failed(
                ErrorView::UnsupportedPeerError("IPv4 neighbors are not supported"@),
            ),
        ),
{
}

/// The table stays well formed. Resolving an address keeps every tunnel and
/// every port as it is, and a tunnel that is stored on a port above all ports
/// in use, as a reserved port is, joins them without disturbing the order:
/// still no peer has two tunnels, and no port is used twice.
pub proof fn lemma_table_stays_well_formed(
    m: ManagerView,
    ip: IpAddress,
    listen_port: u16,
    iface_name: Seq<char>,
)
    requires
        m.wf(),
    ensures
        m.get_if(ip).0.wf(),
        m.get_if(ip).0.tunnels == m.tunnels,
        m.get_if(ip).1 matches LookupView::Reserved(port) ==> m.is_unused(port) && port
            < m.get_if(ip).0.next_port,
        listen_port < m.next_port && m.is_unused(listen_port) ==> m.new_if(
            ip,
            listen_port,
            iface_name,
        ).0.wf(),
{
    if tunnel_of(m.tunnels, ip) is None {
        lemma_tunnel_of_none(m.tunnels, ip);
    }
}

} // verus!
