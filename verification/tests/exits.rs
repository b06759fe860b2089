use rita::exit_manager::{
    build_setup_endpoint, exit_setup_request, ExitClientRecord, ExitDetails, ExitManager,
    ExitServer, ExitServerReply, ExitState, ExitTunnelSetup, Watch,
};
use rita::identity::{EthAddress, Identity, WgKey};
use rita::kernel::{KernelInterfaceError, KernelReply, KernelRequest, Progress};
use rita::net::{IpAddress, Ipv4Address, Ipv6Address};

fn exit_ip() -> IpAddress {
    IpAddress::V6(Ipv6Address::new([0xfd00, 0, 0, 0, 0, 0, 0, 0xe]))
}

fn details() -> ExitDetails {
    ExitDetails {
        own_internal_ip: IpAddress::V4(Ipv4Address::new(172, 168, 1, 5)),
        eth_address: EthAddress::new([0xee; 20]),
        wg_public_key: WgKey::new([0x11; 32]),
        wg_exit_port: 59999,
        server_internal_ip: IpAddress::V4(Ipv4Address::new(172, 168, 1, 254)),
        exit_price: 50,
        netmask: 24,
    }
}

fn server(state: ExitState, details: Option<ExitDetails>) -> ExitServer {
    ExitServer { ip: exit_ip(), registration_port: 4875, state, message: String::new(), details }
}

#[test]
fn the_setup_endpoint() {
    assert_eq!(build_setup_endpoint(&exit_ip(), 4875), "http://[fd00::e]:4875/setup");
    assert_eq!(
        build_setup_endpoint(&IpAddress::V4(Ipv4Address::new(10, 0, 0, 1)), 80),
        "http://[10.0.0.1]:80/setup"
    );
}

#[test]
fn a_reply_that_names_the_client_brings_the_details() {
    let mut current = server(ExitState::New, None);
    let reply = ExitServerReply {
        identity: Some(ExitClientRecord {
            global: Identity::new(exit_ip(), EthAddress::new([0xee; 20]), WgKey::new([0x11; 32])),
            wg_port: 59999,
            own_local_ip: IpAddress::V4(Ipv4Address::new(172, 168, 1, 5)),
            server_local_ip: IpAddress::V4(Ipv4Address::new(172, 168, 1, 254)),
            price: 50,
            netmask: 24,
        }),
        state: ExitState::Registered,
        message: "welcome".to_string(),
    };
    assert!(exit_setup_request(&mut current, &reply));
    assert_eq!(current.state, ExitState::Registered);
    assert_eq!(current.message, "welcome");
    assert_eq!(current.details, Some(details()));
    assert_eq!(current.registration_port, 4875);
}

#[test]
fn a_reply_that_names_nobody_brings_state_and_message() {
    let mut current = server(ExitState::New, Some(details()));
    let reply =
        ExitServerReply { identity: None, state: ExitState::Denied, message: "no".to_string() };
    assert!(!exit_setup_request(&mut current, &reply));
    assert_eq!(current.state, ExitState::Denied);
    assert_eq!(current.message, "no");
    assert_eq!(current.details, Some(details()));
}

#[test]
fn a_tick_asks_new_and_pending_exits() {
    let exits = vec![
        server(ExitState::Registered, Some(details())),
        server(ExitState::New, None),
        server(ExitState::Denied, None),
        server(ExitState::Pending, None),
        server(ExitState::Disabled, None),
        server(ExitState::New, None),
    ];
    let plan = ExitManager.handle(Some(&exits[0]), &exits);
    assert_eq!(plan.ask, vec![1, 3, 5]);
    assert_eq!(
        plan.connect,
        Some((
            details(),
            Watch(Identity::new(exit_ip(), EthAddress::new([0xee; 20]), WgKey::new([0x11; 32])), 50)
        ))
    );
    let plan = ExitManager.handle(Some(&exits[1]), &exits);
    assert_eq!(plan.connect, None);
    let plan = ExitManager.handle(None, &Vec::new());
    assert_eq!(plan.connect, None);
    assert!(plan.ask.is_empty());
}

#[test]
fn the_exit_tunnel_is_brought_up_step_by_step() {
    let nics = vec!["br-lan".to_string(), "eth1".to_string()];
    let (setup, first) = ExitTunnelSetup::begin(exit_ip(), details(), "/tmp/key", 59998, &nics);
    match first {
        KernelRequest::SetupWgIfNamed { name } => assert_eq!(name, "wg_exit"),
        other => panic!("{:?}", other),
    }
    let (setup, progress) = setup.advance(&KernelReply::Done);
    match progress {
        Progress::Request(KernelRequest::SetClientExitTunnelConfig {
            endpoint_ip,
            endpoint_port,
            pubkey,
            private_key_path,
            listen_port,
            local_ip,
            netmask,
        }) => {
            assert!(endpoint_ip.same(&exit_ip()));
            assert_eq!(endpoint_port, 59999);
            assert!(pubkey.same(&WgKey::new([0x11; 32])));
            assert_eq!(private_key_path, "/tmp/key");
            assert_eq!(listen_port, 59998);
            assert!(local_ip.same(&details().own_internal_ip));
            assert_eq!(netmask, 24);
        }
        other => panic!("{:?}", other),
    }
    let (setup, progress) = setup.unwrap().advance(&KernelReply::Done);
    match progress {
        Progress::Request(KernelRequest::SetRouteToTunnel { gateway }) => {
            assert!(gateway.same(&details().server_internal_ip))
        }
        other => panic!("{:?}", other),
    }
    let (setup, progress) = setup.unwrap().advance(&KernelReply::Done);
    match progress {
        Progress::Request(KernelRequest::AddClientNatRules { lan_nic }) => {
            assert_eq!(lan_nic, "br-lan")
        }
        other => panic!("{:?}", other),
    }
    let (setup, progress) = setup.unwrap().advance(&KernelReply::Done);
    match progress {
        Progress::Request(KernelRequest::AddClientNatRules { lan_nic }) => {
            assert_eq!(lan_nic, "eth1")
        }
        other => panic!("{:?}", other),
    }
    let (setup, progress) = setup.unwrap().advance(&KernelReply::Done);
    assert!(setup.is_none());
    assert!(matches!(progress, Progress::Finished(Ok(()))));
}

#[test]
fn the_bring_up_ends_at_the_first_failure() {
    let (setup, _) = ExitTunnelSetup::begin(exit_ip(), details(), "/tmp/key", 1, &Vec::new());
    let (setup, _) = setup.advance(&KernelReply::Done);
    let (setup, progress) = setup.unwrap().advance(&KernelReply::Failed("wg: no".to_string()));
    assert!(setup.is_none());
    match progress {
        Progress::Finished(Err(KernelInterfaceError::CommandFailed(m))) => assert_eq!(m, "wg: no"),
        other => panic!("{:?}", other),
    }
    let (setup, _) = ExitTunnelSetup::begin(exit_ip(), details(), "/tmp/key", 1, &Vec::new());
    let (setup, _) = setup.advance(&KernelReply::Done);
    let (setup, _) = setup.unwrap().advance(&KernelReply::Done);
    let (setup, progress) = setup.unwrap().advance(&KernelReply::Done);
    assert!(setup.is_none());
    assert!(matches!(progress, Progress::Finished(Ok(()))));
}
