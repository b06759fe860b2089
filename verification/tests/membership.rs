use rita::dao_manager::{
    check_cache, enforcement_decision, timer_check, CacheCallback, DAOCheck, DAOEntry, DAOError,
    DAOManager, Endpoint, MissPolicy,
};
use rita::identity::{EthAddress, Identity, WgKey};
use rita::net::{IpAddress, Ipv4Address, Ipv6Address};

fn id(n: u8) -> Identity {
    Identity::new(
        IpAddress::V6(Ipv6Address::new([0xfd00, 0, 0, 0, 0, 0, 0, n as u16])),
        EthAddress::new([n; 20]),
        WgKey::new([n; 32]),
    )
}

fn dao(n: u8) -> EthAddress {
    EthAddress::new([0xd0 | n; 20])
}

fn entry(who: u8, authority: u8, on_list: bool, at: u64) -> DAOEntry {
    DAOEntry { on_list, dao_address: dao(authority), id: id(who), last_updated: at }
}

fn number(low: u8) -> [u8; 32] {
    let mut n = [0u8; 32];
    n[31] = low;
    n
}

const MINUTE: u64 = 60_000;

#[test]
fn ttl_of_sixty_seconds() {
    let t = 1_000_000;
    assert!(timer_check(t, t + 59_000, MINUTE));
    assert!(timer_check(t, t + 59_999, MINUTE));
    assert!(!timer_check(t, t + 60_000, MINUTE));
    assert!(!timer_check(t, t + 61_000, MINUTE));
    assert!(timer_check(t, t, MINUTE));
}

#[test]
fn ttl_at_the_edges_of_the_clock() {
    assert!(!timer_check(5, 5, 0));
    assert!(timer_check(10, 5, 1));
    assert!(!timer_check(10, 5, 0));
    assert!(timer_check(0, u64::MAX - 1, u64::MAX));
    assert!(!timer_check(0, u64::MAX, u64::MAX));
}

#[test]
fn without_enforcement_everyone_is_authorized() {
    let entries = vec![entry(1, 1, false, 0)];
    let r = check_cache(&id(1), &entries, 10, MINUTE, false, &vec![dao(1), dao(2)]);
    assert_eq!(r.answer, Some(true));
    assert!(r.refresh.is_empty());
    let r = check_cache(&id(9), &Vec::new(), 10, MINUTE, false, &Vec::new());
    assert_eq!(r.answer, Some(true));
}

#[test]
fn a_miss_asks_every_authority_and_answers_nothing() {
    let entries = vec![entry(1, 1, true, 0)];
    let r = check_cache(&id(2), &entries, 10, MINUTE, true, &vec![dao(1), dao(2), dao(3)]);
    assert_eq!(r.answer, None);
    assert_eq!(r.refresh, vec![dao(1), dao(2), dao(3)]);
}

#[test]
fn a_fresh_listing_authorizes() {
    let entries = vec![entry(1, 1, false, 100), entry(2, 1, true, 100), entry(1, 2, true, 100)];
    let r = check_cache(&id(1), &entries, 200, MINUTE, true, &vec![dao(1), dao(2)]);
    assert_eq!(r.answer, Some(true));
    assert!(r.refresh.is_empty());
}

#[test]
fn fresh_entries_that_do_not_list_deny() {
    let entries = vec![entry(1, 1, false, 100), entry(2, 2, true, 100)];
    let r = check_cache(&id(1), &entries, 200, MINUTE, true, &vec![dao(1), dao(2)]);
    assert_eq!(r.answer, Some(false));
    assert!(r.refresh.is_empty());
}

#[test]
fn expired_entries_are_refreshed_one_by_one_and_do_not_authorize() {
    let entries = vec![
        entry(1, 1, true, 0),
        entry(1, 2, false, 100_000),
        entry(1, 3, true, 1),
        entry(2, 4, true, 0),
    ];
    let r = check_cache(&id(1), &entries, 100_000, MINUTE, true, &vec![dao(9)]);
    assert_eq!(r.answer, Some(false));
    assert_eq!(r.refresh, vec![dao(1), dao(3)]);
    let all_stale = vec![entry(1, 1, true, 0)];
    let r = check_cache(&id(1), &all_stale, 100_000, MINUTE, true, &vec![dao(9)]);
    assert_eq!(r.answer, None);
    assert_eq!(r.refresh, vec![dao(1)]);
}

#[test]
fn the_policy_decides_where_the_cache_cannot() {
    assert!(enforcement_decision(Some(true), MissPolicy::DefaultDeny));
    assert!(!enforcement_decision(Some(false), MissPolicy::DefaultAllow));
    assert!(!enforcement_decision(None, MissPolicy::DefaultDeny));
    assert!(enforcement_decision(None, MissPolicy::DefaultAllow));
}

#[test]
fn an_answer_is_written_once_per_identity_and_authority() {
    let mut m = DAOManager::new();
    m.record(&CacheCallback { id: id(1), dao_address: dao(1), result: number(1) }, 10);
    m.record(&CacheCallback { id: id(1), dao_address: dao(2), result: number(0) }, 20);
    m.record(&CacheCallback { id: id(2), dao_address: dao(1), result: [0xff; 32] }, 30);
    assert_eq!(
        m.entries(),
        &vec![entry(1, 1, true, 10), entry(1, 2, false, 20), entry(2, 1, true, 30)]
    );
    m.record(&CacheCallback { id: id(1), dao_address: dao(2), result: number(7) }, 40);
    m.record(&CacheCallback { id: id(1), dao_address: dao(1), result: number(0) }, 50);
    assert_eq!(
        m.entries(),
        &vec![entry(1, 1, false, 50), entry(1, 2, true, 40), entry(2, 1, true, 30)]
    );
    let mut high = [0u8; 32];
    high[0] = 0x80;
    m.record(&CacheCallback { id: id(2), dao_address: dao(1), result: high }, 60);
    assert!(m.entries()[2].on_list);
}

#[test]
fn a_written_entry_is_fresh_for_the_timeout() {
    let mut m = DAOManager::new();
    m.record(&CacheCallback { id: id(1), dao_address: dao(1), result: number(1) }, 1_000);
    let addresses = vec![dao(1)];
    let r = m.handle(DAOCheck(id(1)), 1_000 + 59_000, MINUTE, true, &addresses);
    assert_eq!(r.answer, Some(true));
    let r = m.handle(DAOCheck(id(1)), 1_000 + 61_000, MINUTE, true, &addresses);
    assert_eq!(r.answer, None);
    assert_eq!(r.refresh, vec![dao(1)]);
}

fn nodes() -> Vec<Endpoint> {
    vec![
        Endpoint { ip: IpAddress::V6(Ipv6Address::new([0xfd00, 0, 0, 0, 0, 0, 0, 1])), port: 8545 },
        Endpoint { ip: IpAddress::V6(Ipv6Address::new([0xfd00, 0, 0, 0, 0, 0, 0, 2])), port: 8546 },
        Endpoint { ip: IpAddress::V4(Ipv4Address::new(10, 0, 0, 3)), port: 8547 },
    ]
}

#[test]
fn full_nodes_take_turns() {
    let mut m = DAOManager::new();
    let list = nodes();
    let served: Vec<u16> = (0..7).map(|_| m.get_web3_server(&list).unwrap().port).collect();
    assert_eq!(served, vec![8545, 8546, 8547, 8545, 8546, 8547, 8545]);
    assert_eq!(m.get_web3_server(&Vec::new()), None);
    // a shorter list: the cursor is taken modulo its length
    assert_eq!(m.get_web3_server(&list[..1].to_vec()).unwrap().port, 8545);
}

#[test]
fn the_query_names_authority_and_target() {
    let mut m = DAOManager::new();
    let target = Identity::new(
        IpAddress::V6(Ipv6Address::new([0xfd00, 0x1234, 0, 0, 0, 0, 0xab, 0x9e6])),
        EthAddress::new([1; 20]),
        WgKey::new([1; 32]),
    );
    let authority = EthAddress::new([0x0a; 20]);
    let q = m.get_membership(&authority, target, &nodes()).unwrap();
    assert_eq!(q.url, "http://[fd00::1]:8545/");
    assert_eq!(q.server, nodes()[0]);
    assert_eq!(q.timeout_secs, 8);
    assert_eq!(q.dao_address, authority);
    assert_eq!(q.target, target);
    assert_eq!(
        q.body,
        "{'jsonrpc':'2.0','method':'eth_call','params':[{'to': '0a0a0a0a0a0a0a0a0a0a0a0a0a0a0a0a0a0a0a0a', 'data': 'fd001234000000000000000000ab09e600000000000000000000000000000000'}, 'latest'],'id':1}"
    );
    let q = m.get_membership(&authority, target, &nodes()).unwrap();
    assert_eq!(q.url, "http://[fd00::2]:8546/");
    let q = m.get_membership(&authority, target, &nodes()).unwrap();
    assert_eq!(q.url, "http://[10.0.0.3]:8547/");
}

#[test]
fn the_call_data_has_no_leading_zeros() {
    let mut m = DAOManager::new();
    let low = Identity::new(
        IpAddress::V6(Ipv6Address::new([0, 0, 0, 0, 0, 0, 0, 1])),
        EthAddress::new([1; 20]),
        WgKey::new([1; 32]),
    );
    let q = m.get_membership(&dao(1), low, &nodes()).unwrap();
    assert!(q.body.contains("'data': '100000000000000000000000000000000'"));
    let zero = Identity::new(
        IpAddress::V6(Ipv6Address::new([0; 8])),
        EthAddress::new([1; 20]),
        WgKey::new([1; 32]),
    );
    let q = m.get_membership(&dao(1), zero, &nodes()).unwrap();
    assert!(q.body.contains("'data': '0'"));
}

#[test]
fn no_query_without_a_full_node_or_for_an_ipv4_target() {
    let mut m = DAOManager::new();
    assert_eq!(
        m.get_membership(&dao(1), id(1), &Vec::new()).err(),
        Some(DAOError::NoFullNode)
    );
    let v4 = Identity::new(
        IpAddress::V4(Ipv4Address::new(10, 0, 0, 1)),
        EthAddress::new([1; 20]),
        WgKey::new([1; 32]),
    );
    assert_eq!(m.get_membership(&dao(1), v4, &nodes()).err(), Some(DAOError::MeshIpNotIpv6));
    // the turn was taken all the same
    assert_eq!(m.get_web3_server(&nodes()).unwrap().port, 8546);
}
