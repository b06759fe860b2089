use rita::http_client::{HTTPClientError, HTTPSyncExecutor, Hello, PeerSocket};
use rita::identity::{EthAddress, Identity, LocalIdentity, WgKey};
use rita::kernel::{KernelInterfaceError, KernelReply, KernelRequest, Neighbor};
use rita::net::{IpAddress, Ipv4Address, Ipv6Address, MacAddress};
use rita::tunnel_manager::contact::PendingInquiry;
use rita::tunnel_manager::settle::{settle, settle_all};
use rita::tunnel_manager::sweep::{check_candidate, find_candidates};
use rita::tunnel_manager::{Error, TunnelManager, TunnelProgress};

fn ll(last: u16) -> IpAddress {
    IpAddress::V6(Ipv6Address::new([0xfe80, 0, 0, 0, 0, 0, 0, last]))
}

fn own() -> Identity {
    Identity::new(
        IpAddress::V6(Ipv6Address::new([0xfd00, 0, 0, 0, 0, 0, 0, 0xaa])),
        EthAddress::new([7u8; 20]),
        WgKey::new([9u8; 32]),
    )
}

fn peer_identity(last: u16) -> LocalIdentity {
    LocalIdentity {
        global: Identity::new(
            IpAddress::V6(Ipv6Address::new([0xfd00, 0, 0, 0, 0, 0, 0, last])),
            EthAddress::new([last as u8; 20]),
            WgKey::new([last as u8; 32]),
        ),
        local_ip: ll(last),
        wg_port: 60000 + last,
    }
}

fn neighbor(ip: IpAddress, dev: &str) -> Neighbor {
    Neighbor { mac: MacAddress { octets: [2, 0, 0, 0, 0, 1] }, ip, dev: dev.to_string() }
}

/// Resolves the tunnel of `ip` by answering a request for our identity;
/// `name` is the interface that the kernel makes if it is asked for one.
fn resolve(tm: &mut TunnelManager, ip: &IpAddress, name: &str) -> (String, u16) {
    let requester = LocalIdentity { global: own(), local_ip: *ip, wg_port: 1 };
    let mut progress = tm.get_local_identity(&requester, own());
    if let TunnelProgress::Request(KernelRequest::SetupWgIf) = progress {
        progress = tm.resume(&KernelReply::Interface(name.to_string()));
    }
    assert!(matches!(
        progress,
        TunnelProgress::Request(KernelRequest::GetLinkLocalReplyIp { .. })
    ));
    match tm.resume(&KernelReply::Address(ll(0xff))) {
        TunnelProgress::Identity(me) => {
            let t = tm.find(ip).unwrap();
            assert_eq!(t.listen_port, me.wg_port);
            (t.iface_name, t.listen_port)
        }
        other => panic!("{:?}", other),
    }
}

/// Starts resolving the tunnel of `ip` and lets the kernel fail to make it.
fn fail_to_resolve(tm: &mut TunnelManager, ip: &IpAddress) {
    let requester = LocalIdentity { global: own(), local_ip: *ip, wg_port: 1 };
    assert!(matches!(
        tm.get_local_identity(&requester, own()),
        TunnelProgress::Request(KernelRequest::SetupWgIf)
    ));
    assert!(matches!(
        tm.resume(&KernelReply::Failed("cannot create".to_string())),
        TunnelProgress::Failed(Error::KernelInterfaceError(_))
    ));
}

#[test]
fn it_works() {
    assert_eq!(2 + 2, 4);
}

#[test]
fn resolving_twice_returns_the_same_tunnel() {
    let mut tm = TunnelManager::new(60000);
    let first = resolve(&mut tm, &ll(1), "wg0");
    let second = resolve(&mut tm, &ll(1), "wg1");
    assert_eq!(first, ("wg0".to_string(), 60000));
    assert_eq!(second, first);
    assert_eq!(tm.len(), 1);
    assert_eq!(tm.port(), Some(60001));
    let found = tm.find(&ll(1)).unwrap();
    assert_eq!((found.iface_name, found.listen_port), first);
    assert!(found.peer.same(&ll(1)));
    assert!(tm.find(&ll(2)).is_none());
}

#[test]
fn sequential_allocations_increase_strictly() {
    let mut tm = TunnelManager::new(51000);
    let mut ports = Vec::new();
    for i in 0..50u16 {
        let (_, port) = resolve(&mut tm, &ll(i + 1), &format!("wg{}", i));
        ports.push(port);
    }
    for w in ports.windows(2) {
        assert!(w[0] < w[1]);
    }
    assert_eq!(ports[0], 51000);
    assert_eq!(ports[49], 51049);
    assert_eq!(tm.len(), 50);
}

#[test]
fn a_reserved_port_is_not_reclaimed() {
    let mut tm = TunnelManager::new(100);
    fail_to_resolve(&mut tm, &ll(1));
    assert_eq!(tm.len(), 0);
    assert_eq!(tm.port(), Some(101));
    fail_to_resolve(&mut tm, &ll(1));
    assert_eq!(tm.port(), Some(102));
    assert_eq!(resolve(&mut tm, &ll(1), "wg0"), ("wg0".to_string(), 102));
    assert_eq!(tm.port(), Some(103));
}

#[test]
fn the_last_port_can_be_used_and_then_none_is_left() {
    let mut tm = TunnelManager::new(65535);
    assert_eq!(resolve(&mut tm, &ll(1), "wg0").1, 65535);
    assert_eq!(tm.port(), None);
    match tm.get_local_identity(&peer_identity(2), own()) {
        TunnelProgress::Failed(Error::TunnelManagerError(m)) => {
            assert_eq!(m, "no listen port is left for a new tunnel")
        }
        other => panic!("{:?}", other),
    }
    assert!(!tm.is_busy());
    assert_eq!(resolve(&mut tm, &ll(1), "wg9"), ("wg0".to_string(), 65535));
    assert_eq!(tm.len(), 1);
}

#[test]
fn tunnels_keep_their_ports_apart() {
    let mut tm = TunnelManager::new(7);
    let a = resolve(&mut tm, &ll(1), "wg0");
    fail_to_resolve(&mut tm, &ll(2));
    let b = resolve(&mut tm, &ll(2), "wg1");
    let c = resolve(&mut tm, &IpAddress::V4(Ipv4Address::new(10, 0, 0, 1)), "wg2");
    assert_eq!((a.1, b.1, c.1), (7, 9, 10));
    assert_eq!(resolve(&mut tm, &ll(1), "x"), a);
    assert_eq!(resolve(&mut tm, &ll(2), "x"), b);
    assert_eq!(tm.len(), 3);
}

#[test]
fn filtering_of_the_neighbor_table() {
    assert!(check_candidate(&neighbor(ll(1), "eth0")));
    assert!(check_candidate(&neighbor(ll(1), "w")));
    assert!(check_candidate(&neighbor(ll(1), "")));
    assert!(!check_candidate(&neighbor(ll(1), "wg0")));
    assert!(!check_candidate(&neighbor(ll(1), "wg_exit")));
    assert!(!check_candidate(&neighbor(ll(1), "wg")));
    let global = IpAddress::V6(Ipv6Address::new([0xfd00, 0, 0, 0, 0, 0, 0, 1]));
    assert!(!check_candidate(&neighbor(global, "eth0")));
    assert!(!check_candidate(&neighbor(IpAddress::V4(Ipv4Address::new(192, 168, 1, 1)), "eth0")));
    let table = vec![
        neighbor(ll(1), "wg3"),
        neighbor(ll(2), "eth0"),
        neighbor(global, "eth0"),
        neighbor(ll(3), "wlan0"),
    ];
    let kept = find_candidates(&table);
    assert_eq!(kept.len(), 2);
    assert!(kept[0].ip.same(&ll(2)));
    assert_eq!(kept[1].dev, "wlan0");
}

#[test]
fn inquiry_for_ipv4_is_rejected_without_any_request() {
    let mut tm = TunnelManager::new(60000);
    let v4 = IpAddress::V4(Ipv4Address::new(192, 168, 1, 1));
    match tm.neighbor_inquiry(v4, "eth0", own()) {
        TunnelProgress::Failed(Error::UnsupportedPeerError(m)) => {
            assert_eq!(m, "IPv4 neighbors are not supported")
        }
        other => panic!("{:?}", other),
    }
    assert!(!tm.is_busy());
    assert_eq!(tm.len(), 0);
    assert_eq!(tm.port(), Some(60000));
    assert!(matches!(tm.resume(&KernelReply::Done), TunnelProgress::Idle));
}

#[test]
fn inquiry_for_a_routable_address_is_rejected() {
    let mut tm = TunnelManager::new(60000);
    let global = IpAddress::V6(Ipv6Address::new([0xfd00, 0, 0, 0, 0, 0, 0, 1]));
    match tm.neighbor_inquiry(global, "eth0", own()) {
        TunnelProgress::Failed(Error::UnsupportedPeerError(m)) => {
            assert_eq!(m, "only link-local neighbors are supported")
        }
        other => panic!("{:?}", other),
    }
    assert_eq!(tm.port(), Some(60000));
}

fn run_inquiry(tm: &mut TunnelManager, ip: IpAddress, dev: &str, iface: &str) -> PendingInquiry {
    match tm.neighbor_inquiry(ip, dev, own()) {
        TunnelProgress::Request(KernelRequest::GetIfaceIndex { dev: d }) => assert_eq!(d, dev),
        other => panic!("{:?}", other),
    }
    let mut progress = tm.resume(&KernelReply::Index(7));
    if let TunnelProgress::Request(KernelRequest::SetupWgIf) = progress {
        progress = tm.resume(&KernelReply::Interface(iface.to_string()));
    }
    match progress {
        TunnelProgress::Request(KernelRequest::GetLinkLocalReplyIp { their_ip }) => {
            assert!(their_ip.same(&ip))
        }
        other => panic!("{:?}", other),
    }
    match tm.resume(&KernelReply::Address(ll(0xff))) {
        TunnelProgress::Inquire(mut ready) => {
            assert_eq!(ready.len(), 1);
            assert!(!tm.is_busy());
            ready.pop().unwrap()
        }
        other => panic!("{:?}", other),
    }
}

#[test]
fn inquiry_prepares_the_exchange() {
    let mut tm = TunnelManager::new(60000);
    let pending = run_inquiry(&mut tm, ll(5), "eth1", "wg0");
    assert_eq!(pending.iface_name, "wg0");
    assert_eq!(
        pending.hello,
        Hello {
            my_id: LocalIdentity { global: own(), local_ip: ll(0xff), wg_port: 60000 },
            to: PeerSocket { ip: ll(5), port: 4876, scope_id: 7 },
        }
    );
    // the same neighbor again: same tunnel, same port, no new interface
    let again = run_inquiry(&mut tm, ll(5), "eth1", "wg-unused");
    assert_eq!(again.iface_name, "wg0");
    assert_eq!(again.hello.my_id.wg_port, 60000);
    assert_eq!(tm.len(), 1);
    assert_eq!(tm.port(), Some(60001));
}

#[test]
fn inquiry_fails_with_the_adapter() {
    let mut tm = TunnelManager::new(60000);
    tm.neighbor_inquiry(ll(5), "eth1", own());
    match tm.resume(&KernelReply::Failed("no such device".to_string())) {
        TunnelProgress::Failed(Error::KernelInterfaceError(KernelInterfaceError::CommandFailed(
            m,
        ))) => assert_eq!(m, "no such device"),
        other => panic!("{:?}", other),
    }
    assert!(!tm.is_busy());
    tm.neighbor_inquiry(ll(5), "eth1", own());
    tm.resume(&KernelReply::Index(2));
    assert!(matches!(
        tm.resume(&KernelReply::Failed("cannot create".to_string())),
        TunnelProgress::Failed(_)
    ));
    // the port that was reserved is gone, and nothing was stored
    assert_eq!(tm.len(), 0);
    assert_eq!(tm.port(), Some(60001));
    tm.neighbor_inquiry(ll(5), "eth1", own());
    assert!(matches!(
        tm.resume(&KernelReply::Flag(true)),
        TunnelProgress::Failed(Error::KernelInterfaceError(KernelInterfaceError::UnexpectedReply))
    ));
}

#[test]
fn only_one_operation_at_a_time() {
    let mut tm = TunnelManager::new(60000);
    assert!(matches!(tm.get_neighbors(own()), TunnelProgress::Request(_)));
    assert!(tm.is_busy());
    assert!(matches!(tm.get_neighbors(own()), TunnelProgress::Busy));
    assert!(matches!(tm.neighbor_inquiry(ll(1), "eth0", own()), TunnelProgress::Busy));
    assert!(matches!(tm.get_local_identity(&peer_identity(1), own()), TunnelProgress::Busy));
    assert!(matches!(tm.open_tunnel(peer_identity(1), "/k", ll(9)), TunnelProgress::Busy));
    // a candidate that can never be a peer is still told so
    assert!(matches!(
        tm.neighbor_inquiry(IpAddress::V4(Ipv4Address::new(1, 1, 1, 1)), "eth0", own()),
        TunnelProgress::Failed(Error::UnsupportedPeerError(_))
    ));
}

#[test]
fn local_identity_is_scoped_to_the_requester() {
    let mut tm = TunnelManager::new(60000);
    assert!(matches!(
        tm.get_local_identity(&peer_identity(3), own()),
        TunnelProgress::Request(KernelRequest::SetupWgIf)
    ));
    assert!(matches!(
        tm.resume(&KernelReply::Interface("wg0".to_string())),
        TunnelProgress::Request(KernelRequest::GetLinkLocalReplyIp { .. })
    ));
    match tm.resume(&KernelReply::Address(ll(0xee))) {
        TunnelProgress::Identity(me) => assert_eq!(
            me,
            LocalIdentity { global: own(), local_ip: ll(0xee), wg_port: 60000 }
        ),
        other => panic!("{:?}", other),
    }
    // known requester: no interface is made
    assert!(matches!(
        tm.get_local_identity(&peer_identity(3), own()),
        TunnelProgress::Request(KernelRequest::GetLinkLocalReplyIp { .. })
    ));
}

#[test]
fn open_tunnel_binds_the_tunnel_to_the_peer() {
    let mut tm = TunnelManager::new(60000);
    let them = peer_identity(4);
    let own_ip = IpAddress::V6(Ipv6Address::new([0xfd00, 0, 0, 0, 0, 0, 0, 0xaa]));
    assert!(matches!(
        tm.open_tunnel(them, "/etc/wg.key", own_ip),
        TunnelProgress::Request(KernelRequest::SetupWgIf)
    ));
    match tm.resume(&KernelReply::Interface("wg0".to_string())) {
        TunnelProgress::Request(KernelRequest::OpenTunnel {
            iface,
            port,
            endpoint_ip,
            endpoint_port,
            remote_pub_key,
            private_key_path,
            own_ip: mine,
        }) => {
            assert_eq!(iface, "wg0");
            assert_eq!(port, 60000);
            assert!(endpoint_ip.same(&them.local_ip));
            assert_eq!(endpoint_port, them.wg_port);
            assert!(remote_pub_key.same(&them.global.wg_public_key));
            assert_eq!(private_key_path, "/etc/wg.key");
            assert!(mine.same(&own_ip));
        }
        other => panic!("{:?}", other),
    }
    match tm.resume(&KernelReply::Done) {
        TunnelProgress::Opened(iface) => assert_eq!(iface, "wg0"),
        other => panic!("{:?}", other),
    }
    assert!(!tm.is_busy());
    tm.open_tunnel(them, "/etc/wg.key", own_ip);
    assert!(matches!(
        tm.resume(&KernelReply::Failed("route exists".to_string())),
        TunnelProgress::Failed(Error::KernelInterfaceError(_))
    ));
}

#[test]
fn sweep_contacts_candidates_only_and_drops_failures() {
    let mut tm = TunnelManager::new(60000);
    assert!(matches!(
        tm.get_neighbors(own()),
        TunnelProgress::Request(KernelRequest::TriggerNeighborDisc)
    ));
    // whatever the trigger came to, the table is read
    assert!(matches!(
        tm.resume(&KernelReply::Failed("ping6 failed".to_string())),
        TunnelProgress::Request(KernelRequest::GetNeighbors)
    ));
    let table = vec![
        neighbor(ll(1), "eth0"),
        neighbor(ll(2), "wg7"),
        neighbor(IpAddress::V6(Ipv6Address::new([0x2001, 0xdb8, 0, 0, 0, 0, 0, 1])), "eth0"),
        neighbor(ll(3), "eth1"),
        neighbor(ll(4), "eth2"),
    ];
    let mut asked = Vec::new();
    let mut progress = tm.resume(&KernelReply::Neighbors(table));
    let ready = loop {
        match progress {
            TunnelProgress::Request(KernelRequest::GetIfaceIndex { dev }) => {
                let reply = if dev == "eth1" {
                    KernelReply::Failed("gone".to_string())
                } else {
                    KernelReply::Index(3)
                };
                asked.push(dev);
                progress = tm.resume(&reply);
            }
            TunnelProgress::Request(KernelRequest::SetupWgIf) => {
                let name = format!("wg{}", tm.len());
                progress = tm.resume(&KernelReply::Interface(name));
            }
            TunnelProgress::Request(KernelRequest::GetLinkLocalReplyIp { .. }) => {
                progress = tm.resume(&KernelReply::Address(ll(0xff)));
            }
            TunnelProgress::Inquire(ready) => break ready,
            other => panic!("{:?}", other),
        }
    };
    assert_eq!(asked, vec!["eth0", "eth1", "eth2"]);
    assert!(!tm.is_busy());
    assert_eq!(ready.len(), 2);
    assert!(ready[0].hello.to.ip.same(&ll(1)));
    assert_eq!(ready[0].iface_name, "wg0");
    assert!(ready[1].hello.to.ip.same(&ll(4)));
    assert_eq!(ready[1].iface_name, "wg1");
    assert_eq!(ready[1].hello.my_id.wg_port, 60001);
    let results = vec![Err("connection refused".to_string()), Ok(peer_identity(4))];
    let found = settle_all(&ready, &results);
    assert_eq!(found.len(), 1);
    assert_eq!(found[0].identity, peer_identity(4));
    assert_eq!(found[0].iface_name, "wg1");
}

#[test]
fn sweep_with_an_empty_table_hands_out_nothing() {
    let mut tm = TunnelManager::new(60000);
    tm.get_neighbors(own());
    tm.resume(&KernelReply::Done);
    match tm.resume(&KernelReply::Neighbors(vec![neighbor(ll(1), "wg0")])) {
        TunnelProgress::Inquire(ready) => assert!(ready.is_empty()),
        other => panic!("{:?}", other),
    }
    tm.get_neighbors(own());
    tm.resume(&KernelReply::Done);
    assert!(matches!(
        tm.resume(&KernelReply::Failed("ip neigh failed".to_string())),
        TunnelProgress::Failed(Error::KernelInterfaceError(_))
    ));
    assert!(!tm.is_busy());
}

#[test]
fn settling_one_exchange() {
    let pending = PendingInquiry {
        hello: Hello {
            my_id: LocalIdentity { global: own(), local_ip: ll(1), wg_port: 1 },
            to: PeerSocket { ip: ll(2), port: 4876, scope_id: 1 },
        },
        iface_name: "wg5".to_string(),
    };
    let found = settle(&pending, &Ok(peer_identity(2))).unwrap();
    assert_eq!(found.iface_name, "wg5");
    match settle(&pending, &Err("timed out".to_string())) {
        Err(Error::HTTPClientError(m)) => assert_eq!(m, "timed out"),
        other => panic!("{:?}", other),
    }
}

#[test]
fn hello_request_is_framed_as_http() {
    let msg = Hello {
        my_id: LocalIdentity { global: own(), local_ip: ll(1), wg_port: 1 },
        to: PeerSocket { ip: ll(2), port: 4876, scope_id: 3 },
    };
    let body = "{\"wg_port\":1}";
    assert_eq!(
        HTTPSyncExecutor.request(&msg, body),
        "POST /hello HTTP/1.0\r\nHost: [fe80::2%3]:4876\r\nContent-Type:application/json\r\nContent-Length: 14\r\n\r\n\n{\"wg_port\":1}\r\n"
    );
    let unicode = "{\"n\":\"é\"}";
    assert!(HTTPSyncExecutor
        .request(&msg, unicode)
        .contains(&format!("Content-Length: {}\r\n", unicode.len() + 1)));
}

#[test]
fn socket_text() {
    let mut s = String::new();
    PeerSocket { ip: ll(2), port: 80, scope_id: 0 }.push_text(&mut s);
    assert_eq!(s, "[fe80::2]:80");
    let mut s = String::new();
    PeerSocket { ip: IpAddress::V4(Ipv4Address::new(10, 1, 2, 3)), port: 8080, scope_id: 9 }
        .push_text(&mut s);
    assert_eq!(s, "10.1.2.3:8080");
    assert_eq!(HTTPClientError::HTTPParseError.message(), "HTTP Parse Error");
}
