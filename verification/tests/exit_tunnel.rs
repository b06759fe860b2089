use rita::exit_server_tunnel::commands::{
    build_remove_args, build_route_args, build_wg_config_args,
};
use rita::exit_server_tunnel::plan::{find_missing_flows, find_stale_peers, has_flow_bulk};
use rita::exit_server_tunnel::{ExitClient, ExitClientSet, KernelInterface};
use rita::identity::WgKey;
use rita::kernel::{CommandOutput, KernelInterfaceError, KernelReply, KernelRequest, Progress};
use rita::net::{Ipv4Address, Ipv6Address};

fn key(seed: u8) -> WgKey {
    let mut bytes = [0u8; 32];
    for (i, b) in bytes.iter_mut().enumerate() {
        *b = seed.wrapping_mul(31).wrapping_add(i as u8);
    }
    WgKey::new(bytes)
}

fn client(seed: u8, last: u8, port: u16) -> ExitClient {
    ExitClient {
        internal_ip: Ipv4Address::new(10, 0, 0, last),
        internal_ipv6: Ipv6Address::new([0xfd00, 0, 0, 0, 0, 0, 0, last as u16]),
        public_key: key(seed),
        mesh_ip: Ipv6Address::new([0xfd00, 0, 0, 0, 0, 0, 0x1337, last as u16]),
        port,
    }
}

fn two_clients() -> ExitClientSet {
    let mut set = ExitClientSet::new();
    assert!(set.insert(client(1, 2, 51820)));
    assert!(set.insert(client(2, 3, 51821)));
    set
}

fn ok() -> KernelReply {
    KernelReply::Output(CommandOutput { stdout: String::new(), stderr: String::new() })
}

fn failed(text: &str) -> KernelReply {
    KernelReply::Failed(text.to_string())
}

fn words(args: &[&str]) -> Vec<String> {
    args.iter().map(|s| s.to_string()).collect()
}

fn command(progress: Progress) -> (String, Vec<String>) {
    match progress {
        Progress::Request(KernelRequest::RunCommand { program, args }) => (program, args),
        other => panic!("not a command: {:?}", other),
    }
}

/// A kernel that keeps a peer table and a flow table, and records what it is asked.
struct Kernel {
    peers: Vec<WgKey>,
    flows: Vec<Ipv4Address>,
    commands: Vec<(String, Vec<String>)>,
    flows_created: usize,
    fail_routes: bool,
}

impl Kernel {
    fn new(peers: Vec<WgKey>, flows: Vec<Ipv4Address>) -> Kernel {
        Kernel { peers, flows, commands: Vec::new(), flows_created: 0, fail_routes: false }
    }

    fn perform(&mut self, request: KernelRequest, clients: &ExitClientSet) -> KernelReply {
        match request {
            KernelRequest::RunCommand { program, args } => {
                self.commands.push((program.clone(), args.clone()));
                if program == "wg" && args.last().map(|s| s.as_str()) == Some("remove") {
                    let text = &args[3];
                    self.peers.retain(|k| &k.to_text() != text);
                    ok()
                } else if program == "wg" {
                    for c in clients.members() {
                        if !self.peers.iter().any(|k| k.same(&c.public_key)) {
                            self.peers.push(c.public_key);
                        }
                    }
                    ok()
                } else if self.fail_routes {
                    failed("RTNETLINK answers: File exists")
                } else {
                    ok()
                }
            }
            KernelRequest::GetPeers { iface } => {
                assert_eq!(iface, "wg_exit");
                KernelReply::Peers(self.peers.clone())
            }
            KernelRequest::GetFlows { iface } => {
                assert_eq!(iface, "wg_exit");
                KernelReply::Flows(self.flows.clone())
            }
            KernelRequest::CreateFlowByIp { iface, ip } => {
                assert_eq!(iface, "wg_exit");
                self.flows.push(ip);
                self.flows_created += 1;
                KernelReply::Done
            }
            other => panic!("unexpected request {:?}", other),
        }
    }

    fn reconcile(&mut self, clients: &ExitClientSet) -> Result<(), KernelInterfaceError> {
        let mut ki = KernelInterface::new();
        let mut progress = ki.set_exit_wg_config(clients, 64, 59999, "/tmp/key");
        loop {
            match progress {
                Progress::Request(request) => {
                    let reply = self.perform(request, clients);
                    progress = ki.resume(&reply);
                }
                Progress::Finished(result) => {
                    assert!(!ki.is_busy());
                    return result;
                }
                other => panic!("unexpected progress {:?}", other),
            }
        }
    }
}

#[test]
fn peer_set_command_contains_both_stanzas() {
    let set = two_clients();
    let args = build_wg_config_args(set.members(), 64, 59999, "/tmp/key");
    let mut expected = words(&["set", "wg_exit", "listen-port", "59999", "private-key", "/tmp/key"]);
    for (seed, last, port) in [(1u8, 2u8, 51820u16), (2, 3, 51821)] {
        expected.push("peer".into());
        expected.push(key(seed).to_text());
        expected.push("endpoint".into());
        expected.push(format!("[fd00::1337:{}]:{}", last, port));
        expected.push("allowed-ips".into());
        expected.push(format!("10.0.0.{},", last));
        expected.push(format!("fd00::{}/64", last));
        expected.push("persistent-keepalive".into());
        expected.push("5".into());
    }
    assert_eq!(args, expected);
}

#[test]
fn two_clients_are_configured_and_routed() {
    let set = two_clients();
    let mut kernel = Kernel::new(Vec::new(), Vec::new());
    assert!(kernel.reconcile(&set).is_ok());
    assert_eq!(kernel.commands.len(), 3);
    assert_eq!(kernel.commands[0].0, "wg");
    assert_eq!(
        kernel.commands[0].1,
        build_wg_config_args(set.members(), 64, 59999, "/tmp/key")
    );
    let keepalives = kernel.commands[0]
        .1
        .windows(2)
        .filter(|w| w[0] == "persistent-keepalive" && w[1] == "5")
        .count();
    assert_eq!(keepalives, 2);
    assert_eq!(
        kernel.commands[1],
        (
            "ip".to_string(),
            words(&["route", "add", "fd00::2/64", "via", "fd00::2", "dev", "wg_exit"])
        )
    );
    assert_eq!(
        kernel.commands[2],
        (
            "ip".to_string(),
            words(&["route", "add", "fd00::3/64", "via", "fd00::3", "dev", "wg_exit"])
        )
    );
}

#[test]
fn route_and_removal_arguments() {
    let c = client(1, 2, 51820);
    assert_eq!(
        build_route_args(&c, 48),
        words(&["route", "add", "fd00::2/48", "via", "fd00::2", "dev", "wg_exit"])
    );
    let k = key(9);
    assert_eq!(
        build_remove_args(&k),
        vec![
            "set".to_string(),
            "wg_exit".to_string(),
            "peer".to_string(),
            k.to_text(),
            "remove".to_string()
        ]
    );
}

#[test]
fn convergence_removes_the_stale_peer_only() {
    let mut set = ExitClientSet::new();
    set.insert(client(1, 2, 51820));
    let mut kernel = Kernel::new(vec![key(1), key(77)], Vec::new());
    assert!(kernel.reconcile(&set).is_ok());
    assert_eq!(kernel.peers.len(), 1);
    assert!(kernel.peers[0].same(&key(1)));
    let removals: Vec<_> = kernel
        .commands
        .iter()
        .filter(|(_, args)| args.last().map(|s| s.as_str()) == Some("remove"))
        .collect();
    assert_eq!(removals.len(), 1);
    assert_eq!(removals[0].1[3], key(77).to_text());
}

#[test]
fn stale_peers_keep_the_order_of_the_kernel() {
    let set = two_clients();
    let live = vec![key(50), key(1), key(40), key(2), key(30)];
    let stale = find_stale_peers(&live, set.members());
    assert_eq!(stale.len(), 3);
    assert!(stale[0].same(&key(50)));
    assert!(stale[1].same(&key(40)));
    assert!(stale[2].same(&key(30)));
    assert!(find_stale_peers(&Vec::new(), set.members()).is_empty());
}

#[test]
fn flow_idempotence_second_pass_creates_nothing() {
    let set = two_clients();
    let mut kernel = Kernel::new(Vec::new(), Vec::new());
    assert!(kernel.reconcile(&set).is_ok());
    assert_eq!(kernel.flows_created, 2);
    assert!(kernel.reconcile(&set).is_ok());
    assert_eq!(kernel.flows_created, 2);
}

#[test]
fn existing_flows_are_left_alone() {
    let set = two_clients();
    let flows = vec![Ipv4Address::new(10, 0, 0, 3), Ipv4Address::new(10, 0, 0, 9)];
    let missing = find_missing_flows(set.members(), &flows);
    assert_eq!(missing.len(), 1);
    assert!(missing[0].same(&Ipv4Address::new(10, 0, 0, 2)));
    assert!(has_flow_bulk(&Ipv4Address::new(10, 0, 0, 9), &flows));
    assert!(!has_flow_bulk(&Ipv4Address::new(10, 0, 0, 2), &flows));
}

#[test]
fn route_failures_do_not_stop_the_pass() {
    let set = two_clients();
    let mut kernel = Kernel::new(vec![key(5)], Vec::new());
    kernel.fail_routes = true;
    assert!(kernel.reconcile(&set).is_ok());
    assert_eq!(kernel.peers.len(), 2);
    assert_eq!(kernel.flows_created, 2);
}

#[test]
fn failed_submission_ends_the_pass() {
    let set = two_clients();
    let mut ki = KernelInterface::new();
    let first = ki.set_exit_wg_config(&set, 64, 1, "k");
    assert!(matches!(first, Progress::Request(_)));
    assert!(ki.is_busy());
    match ki.resume(&failed("wg: permission denied")) {
        Progress::Finished(Err(KernelInterfaceError::CommandFailed(m))) => {
            assert_eq!(m, "wg: permission denied")
        }
        other => panic!("{:?}", other),
    }
    assert!(!ki.is_busy());
    assert!(matches!(ki.resume(&ok()), Progress::Idle));
}

#[test]
fn failed_peer_listing_ends_the_pass() {
    let mut set = ExitClientSet::new();
    set.insert(client(1, 2, 51820));
    let mut ki = KernelInterface::new();
    ki.set_exit_wg_config(&set, 64, 1, "k");
    assert_eq!(command(ki.resume(&ok())).0, "ip");
    assert!(matches!(
        ki.resume(&ok()),
        Progress::Request(KernelRequest::GetPeers { .. })
    ));
    assert!(matches!(
        ki.resume(&KernelReply::Flag(true)),
        Progress::Finished(Err(KernelInterfaceError::UnexpectedReply))
    ));
    assert!(!ki.is_busy());
}

#[test]
fn a_second_pass_is_not_started_while_one_is_in_flight() {
    let set = two_clients();
    let mut ki = KernelInterface::new();
    assert!(matches!(ki.set_exit_wg_config(&set, 64, 1, "k"), Progress::Request(_)));
    assert!(matches!(ki.set_exit_wg_config(&set, 64, 1, "k"), Progress::Busy));
    assert!(matches!(ki.setup_nat("eth0"), Progress::Busy));
    assert!(matches!(
        ki.one_time_exit_setup(
            &Ipv4Address::new(172, 16, 0, 1),
            &Ipv6Address::new([0xfd00, 0, 0, 0, 0, 0, 0, 1]),
            24,
            64
        ),
        Progress::Busy
    ));
    assert_eq!(command(ki.resume(&ok())).0, "ip");
}

#[test]
fn client_set_refuses_a_second_client_with_the_same_key() {
    let mut set = ExitClientSet::new();
    assert!(set.insert(client(1, 2, 51820)));
    assert!(!set.insert(client(1, 9, 4)));
    assert_eq!(set.len(), 1);
    assert!(set.contains_key(&key(1)));
    assert!(!set.contains_key(&key(2)));
    assert_eq!(set.members()[0].port, 51820);
}

fn rule(progress: Progress) -> Vec<String> {
    match progress {
        Progress::Request(KernelRequest::AddIptablesRule { command, args }) => {
            assert_eq!(command, "iptables");
            args
        }
        other => panic!("not a rule: {:?}", other),
    }
}

#[test]
fn nat_installs_exactly_three_rules() {
    let mut ki = KernelInterface::new();
    assert_eq!(
        rule(ki.setup_nat("eth0")),
        words(&["-w", "-t", "nat", "-A", "POSTROUTING", "-o", "eth0", "-j", "MASQUERADE"])
    );
    assert_eq!(
        rule(ki.resume(&KernelReply::Done)),
        words(&[
            "-w", "-t", "filter", "-A", "FORWARD", "-o", "eth0", "-i", "wg_exit", "-j", "ACCEPT"
        ])
    );
    assert_eq!(
        rule(ki.resume(&KernelReply::Done)),
        words(&[
            "-w",
            "-t",
            "filter",
            "-A",
            "FORWARD",
            "-o",
            "wg_exit",
            "-i",
            "eth0",
            "-m",
            "state",
            "--state",
            "RELATED,ESTABLISHED",
            "-j",
            "ACCEPT"
        ])
    );
    assert!(matches!(ki.resume(&KernelReply::Done), Progress::Finished(Ok(()))));
    assert!(!ki.is_busy());
}

#[test]
fn nat_stops_at_the_first_failure() {
    let mut ki = KernelInterface::new();
    ki.setup_nat("eth0");
    ki.resume(&KernelReply::Done);
    assert!(matches!(
        ki.resume(&failed("iptables: busy")),
        Progress::Finished(Err(KernelInterfaceError::CommandFailed(_)))
    ));
    assert!(matches!(ki.resume(&KernelReply::Done), Progress::Idle));
}

fn begin_setup(ki: &mut KernelInterface) -> Progress {
    ki.one_time_exit_setup(
        &Ipv4Address::new(172, 168, 1, 254),
        &Ipv6Address::new([0xfd00, 0, 0, 0, 0, 0, 0, 1]),
        24,
        64,
    )
}

#[test]
fn one_time_setup_runs_its_commands_in_order() {
    let mut ki = KernelInterface::new();
    assert_eq!(
        command(begin_setup(&mut ki)),
        ("ip".to_string(), words(&["address", "add", "172.168.1.254/24", "dev", "wg_exit"]))
    );
    assert_eq!(
        command(ki.resume(&ok())),
        ("ip".to_string(), words(&["address", "add", "fd00::1/64", "dev", "wg_exit"]))
    );
    assert_eq!(
        command(ki.resume(&ok())),
        ("ip".to_string(), words(&["link", "set", "dev", "wg_exit", "mtu", "1340"]))
    );
    assert_eq!(
        command(ki.resume(&ok())),
        ("ip".to_string(), words(&["link", "set", "dev", "wg_exit", "up"]))
    );
    match ki.resume(&ok()) {
        Progress::Request(KernelRequest::HasLimit { iface }) => assert_eq!(iface, "wg_exit"),
        other => panic!("{:?}", other),
    }
    match ki.resume(&KernelReply::Flag(false)) {
        Progress::Request(KernelRequest::CreateRootClassfulLimit { iface }) => {
            assert_eq!(iface, "wg_exit")
        }
        other => panic!("{:?}", other),
    }
    assert!(matches!(ki.resume(&KernelReply::Done), Progress::Finished(Ok(()))));
}

#[test]
fn one_time_setup_does_not_recreate_the_root_limit() {
    let mut ki = KernelInterface::new();
    begin_setup(&mut ki);
    for _ in 0..4 {
        ki.resume(&ok());
    }
    assert!(matches!(ki.resume(&KernelReply::Flag(true)), Progress::Finished(Ok(()))));
    assert!(!ki.is_busy());
}

#[test]
fn one_time_setup_fails_on_what_the_link_commands_complain_of() {
    let complaint = KernelReply::Output(CommandOutput {
        stdout: String::new(),
        stderr: "RTNETLINK answers: No such device".to_string(),
    });
    let mut ki = KernelInterface::new();
    begin_setup(&mut ki);
    ki.resume(&ok());
    ki.resume(&ok());
    match ki.resume(&complaint) {
        Progress::Finished(Err(KernelInterfaceError::RuntimeError(m))) => assert_eq!(
            m,
            "received error adding wg link: RTNETLINK answers: No such device"
        ),
        other => panic!("{:?}", other),
    }
    let mut ki = KernelInterface::new();
    begin_setup(&mut ki);
    ki.resume(&ok());
    ki.resume(&ok());
    ki.resume(&ok());
    match ki.resume(&complaint) {
        Progress::Finished(Err(e)) => assert_eq!(
            e.message(),
            "received error setting wg interface up: RTNETLINK answers: No such device"
        ),
        other => panic!("{:?}", other),
    }
}

#[test]
fn one_time_setup_ignores_complaints_about_the_addresses() {
    let complaint = KernelReply::Output(CommandOutput {
        stdout: String::new(),
        stderr: "RTNETLINK answers: File exists".to_string(),
    });
    let mut ki = KernelInterface::new();
    begin_setup(&mut ki);
    assert_eq!(command(ki.resume(&complaint)).1[2], "fd00::1/64");
    assert_eq!(command(ki.resume(&complaint)).1[4], "mtu");
}
