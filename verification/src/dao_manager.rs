//! The membership cache: whether an identity is on the list of one of the
//! authorities, answered from memory and refreshed in the background.

use crate::identity::{EthAddress, Identity};
use crate::net::{IpAddress, Ipv6Address};
use crate::text::{hex_text, push_decimal};
use crate::uint256::{be_value, uint256_hex, uint256_is_zero};
use vstd::prelude::*;
use vstd::string::*;

verus! {

/// Where a full node of an authority listens.
#[derive(Clone, Copy, Debug, PartialEq, Eq)]
pub struct Endpoint {
    pub ip: IpAddress,
    pub port: u16,
}

/// What one authority said of one identity, and when. Times are
/// milliseconds on a clock that never runs backwards.
#[derive(Clone, Copy, Debug, PartialEq, Eq)]
pub struct DAOEntry {
    pub on_list: bool,
    pub dao_address: EthAddress,
    pub id: Identity,
    pub last_updated: u64,
}

/// The request to look an identity up.
#[derive(Clone, Copy, Debug, PartialEq, Eq)]
pub struct DAOCheck(pub Identity);

/// What an authority answered about an identity: the 256-bit number it
/// returned, most significant byte first. Zero means "not on the list".
#[derive(Clone, Copy, Debug, PartialEq, Eq)]
pub struct CacheCallback {
    pub id: Identity,
    pub dao_address: EthAddress,
    pub result: [u8; 32],
}

/// The time that passed from `since` to `now`; none, if `now` is earlier.
pub open spec fn elapsed(since: u64, now: u64) -> int {
    if now >= since {
        now - since
    } else {
        0
    }
}

/// Whether what was learned at `timestamp` still counts at `now`: less than
/// `timeout` has passed.
pub open spec fn is_fresh(timestamp: u64, now: u64, timeout: u64) -> bool {
    elapsed(timestamp, now) < timeout
}

/// True if the timestamp does not need to be updated.
pub fn timer_check(timestamp: u64, now: u64, timeout: u64) -> (r: bool)
    ensures
        r == is_fresh(timestamp, now, timeout),
{
    if now >= timestamp {
        now - timestamp < timeout
    } else {
        0 < timeout
    }
}

/// An entry is fresh up to, and not including, the moment
/// when the timeout has passed since it was written, and stale from then on.
pub proof fn lemma_ttl(written: u64, now: u64, timeout: u64)
    requires
        written <= now,
    ensures
        now - written < timeout ==> is_fresh(written, now, timeout),
        now - written >= timeout ==> !is_fresh(written, now, timeout),
{
}

/// Whether the cache holds anything about `id`.
pub open spec fn is_cached(entries: Seq<DAOEntry>, id: Identity) -> bool {
    exists|i: int| 0 <= i < entries.len() && (#[trigger] entries[i]).id == id
}

/// Whether the cache holds something fresh about `id`.
pub open spec fn is_known(entries: Seq<DAOEntry>, id: Identity, now: u64, timeout: u64) -> bool {
    exists|i: int|
        0 <= i < entries.len() && (#[trigger] entries[i]).id == id && is_fresh(
            entries[i].last_updated,
            now,
            timeout,
        )
}

/// Whether some authority is freshly known to list `id`.
pub open spec fn is_approved(entries: Seq<DAOEntry>, id: Identity, now: u64, timeout: u64) -> bool {
    exists|i: int|
        0 <= i < entries.len() && (#[trigger] entries[i]).id == id && entries[i].on_list
            && is_fresh(entries[i].last_updated, now, timeout)
}

/// The authorities whose word on `id` has expired, in the order of the cache.
pub open spec fn expired_authorities(
    entries: Seq<DAOEntry>,
    id: Identity,
    now: u64,
    timeout: u64,
) -> Seq<EthAddress> {
    entries.filter(|e: DAOEntry| e.id == id && !is_fresh(e.last_updated, now, timeout)).map_values(
        |e: DAOEntry| e.dao_address,
    )
}

/// The outcome of a lookup.
pub struct CacheCheck {
    /// Whether the identity is authorized, where the cache can tell.
    pub answer: Option<bool>,
    /// The authorities to ask again, in the background.
    pub refresh: Vec<EthAddress>,
}

/// What a lookup of `id` comes to.
///
/// Without enforcement everyone is authorized and nobody is asked. An
/// identity of which the cache holds nothing gets no answer, and every
/// configured authority is asked. Otherwise the authorities whose entry has
/// expired are asked again, each on its own, and the answer rests on the
/// fresh entries alone: authorized if one of them lists the identity, denied
/// if none does, and no answer if there is no fresh entry at all, since an
/// expired entry counts as a miss.
pub open spec fn cache_check(
    entries: Seq<DAOEntry>,
    id: Identity,
    now: u64,
    timeout: u64,
    enforcement: bool,
    dao_addresses: Seq<EthAddress>,
) -> (Option<bool>, Seq<EthAddress>) {
    if !enforcement {
        (Some(true), Seq::empty())
    } else if !is_cached(entries, id) {
        (None, dao_addresses)
    } else {
        (
            if is_known(entries, id, now, timeout) {
                Some(is_approved(entries, id, now, timeout))
            } else {
                None
            },
            expired_authorities(entries, id, now, timeout),
        )
    }
}

/// What to do where the cache has no answer: the policy for an identity seen
/// for the first time, or whose entries have all expired.
#[derive(Clone, Copy, Debug, PartialEq, Eq)]
pub enum MissPolicy {
    /// Deny until the first refresh completes.
    DefaultDeny,
    /// Allow, and correct when the refresh completes.
    DefaultAllow,
}

/// The enforcement decision: the cache's answer where it has one, and the
/// chosen policy where it has none.
pub fn enforcement_decision(answer: Option<bool>, policy: MissPolicy) -> (allow: bool)
    ensures
        allow == match answer {
            Some(a) => a,
            None => policy is DefaultAllow,
        },
{
    match answer {
        Some(a) => a,
        None => match policy {
            MissPolicy::DefaultAllow => true,
            MissPolicy::DefaultDeny => false,
        },
    }
}

/// A copy of a list of addresses.
fn copy_addresses(list: &Vec<EthAddress>) -> (r: Vec<EthAddress>)
    ensures
        r@ == list@,
{
    let mut r: Vec<EthAddress> = Vec::new();
    let mut i: usize = 0;
    while i < list.len()
        invariant
            i <= list.len(),
            r@ == list@.subrange(0, i as int),
        decreases list.len() - i,
    {
        r.push(list[i]);
        proof {
            assert(r@ =~= list@.subrange(0, i + 1));
        }
        i += 1;
    }
    proof {
        assert(list@.subrange(0, list@.len() as int) =~= list@);
    }
    r
}

/// Checks if an identity is on the list of at least one of the authorities,
/// from the cache alone, and says which authorities to ask again.
pub fn check_cache(
    their_id: &Identity,
    entries: &Vec<DAOEntry>,
    now: u64,
    timeout: u64,
    enforcement: bool,
    dao_addresses: &Vec<EthAddress>,
) -> (r: CacheCheck)
    ensures
        (r.answer, r.refresh@) == cache_check(
            entries@,
            *their_id,
            now,
            timeout,
            enforcement,
            dao_addresses@,
        ),
{
    if !enforcement {
        return CacheCheck { answer: Some(true), refresh: Vec::new() };
    }
    let ghost id = *their_id;
    let ghost pred = |e: DAOEntry| e.id == id && !is_fresh(e.last_updated, now, timeout);
    let ghost addr = |e: DAOEntry| e.dao_address;
    let mut cached = false;
    let mut known = false;
    let mut approved = false;
    let mut refresh: Vec<EthAddress> = Vec::new();
    let mut i: usize = 0;
    proof {
        reveal(Seq::filter);
        assert(entries@.subrange(0, 0) =~= Seq::<DAOEntry>::empty());
        assert(Seq::<DAOEntry>::empty().filter(pred).map_values(addr) =~= Seq::<
            EthAddress,
        >::empty());
    }
    while i < entries.len()
        invariant
            i <= entries.len(),
            id == *their_id,
            pred == |e: DAOEntry| e.id == id && !is_fresh(e.last_updated, now, timeout),
            addr == |e: DAOEntry| e.dao_address,
            cached == is_cached(entries@.subrange(0, i as int), id),
            known == is_known(entries@.subrange(0, i as int), id, now, timeout),
            approved == is_approved(entries@.subrange(0, i as int), id, now, timeout),
            refresh@ == entries@.subrange(0, i as int).filter(pred).map_values(addr),
        decreases entries.len() - i,
    {
        let e = &entries[i];
        let mine = e.id.same(their_id);
        let fresh = timer_check(e.last_updated, now, timeout);
        proof {
            reveal(Seq::filter);
            let prev = entries@.subrange(0, i as int);
            let next = entries@.subrange(0, i + 1);
            assert(next.drop_last() =~= prev);
            assert(next.last() == entries@[i as int]);
            assert(next[i as int] == entries@[i as int]);
            assert forall|j: int| 0 <= j < i implies next[j] == prev[j] by {}
            assert(is_cached(next, id) == (is_cached(prev, id) || mine)) by {
                if is_cached(prev, id) {
                    let j = choose|j: int| 0 <= j < prev.len() && prev[j].id == id;
                    assert(next[j].id == id);
                }
                if is_cached(next, id) && !mine {
                    let j = choose|j: int| 0 <= j < next.len() && next[j].id == id;
                    assert(prev[j].id == id);
                }
            }
            assert(is_known(next, id, now, timeout) == (is_known(prev, id, now, timeout) || (mine
                && fresh))) by {
                if is_known(prev, id, now, timeout) {
                    let j = choose|j: int|
                        0 <= j < prev.len() && prev[j].id == id && is_fresh(
                            prev[j].last_updated,
                            now,
                            timeout,
                        );
                    assert(next[j].id == id);
                }
                if is_known(next, id, now, timeout) && !(mine && fresh) {
                    let j = choose|j: int|
                        0 <= j < next.len() && next[j].id == id && is_fresh(
                            next[j].last_updated,
                            now,
                            timeout,
                        );
                    assert(prev[j].id == id);
                }
            }
            assert(is_approved(next, id, now, timeout) == (is_approved(prev, id, now, timeout) || (
            mine && fresh && e.on_list))) by {
                if is_approved(prev, id, now, timeout) {
                    let j = choose|j: int|
                        0 <= j < prev.len() && prev[j].id == id && prev[j].on_list && is_fresh(
                            prev[j].last_updated,
                            now,
                            timeout,
                        );
                    assert(next[j].id == id);
                }
                if is_approved(next, id, now, timeout) && !(mine && fresh && e.on_list) {
                    let j = choose|j: int|
                        0 <= j < next.len() && next[j].id == id && next[j].on_list && is_fresh(
                            next[j].last_updated,
                            now,
                            timeout,
                        );
                    assert(prev[j].id == id);
                }
            }
            assert(pred(entries@[i as int]) == (mine && !fresh));
            if mine && !fresh {
                assert(next.filter(pred) == prev.filter(pred).push(entries@[i as int]));
                assert(next.filter(pred).map_values(addr) =~= prev.filter(pred).map_values(
                    addr,
                ).push(e.dao_address));
            }
        }
        if mine {
            cached = true;
            if fresh {
                known = true;
                if e.on_list {
                    approved = true;
                }
            } else {
                refresh.push(e.dao_address);
            }
        }
        i += 1;
    }
    proof {
        assert(entries@.subrange(0, entries@.len() as int) =~= entries@);
    }
    if !cached {
        CacheCheck { answer: None, refresh: copy_addresses(dao_addresses) }
    } else if known {
        CacheCheck { answer: Some(approved), refresh }
    } else {
        CacheCheck { answer: None, refresh }
    }
}

/// The sixteen octets of an IPv6 address followed by sixteen zeros: the
/// argument of the membership call.
pub open spec fn call_data(ip: Ipv6Address) -> Seq<u8> {
    Seq::new(
        32,
        |i: int|
            if i < 16 {
                if i % 2 == 0 {
                    (ip.segments@[i / 2] / 256) as u8
                } else {
                    (ip.segments@[i / 2] % 256) as u8
                }
            } else {
                0u8
            },
    )
}

/// The address of a full node as the query is sent to it.
pub open spec fn server_url(server: Endpoint) -> Seq<char> {
    "http://["@ + server.ip.text() + "]:"@ + crate::text::decimal_text(server.port as nat) + "/"@
}

/// The call that asks the authority `dao_address` about the node at `ip`.
pub open spec fn query_body(dao_address: EthAddress, ip: Ipv6Address) -> Seq<char> {
    "{'jsonrpc':'2.0','method':'eth_call','params':[{'to': '"@ + dao_address.text()
        + "', 'data': '"@ + hex_text(be_value(call_data(ip))) + "'}, 'latest'],'id':1}"@
}

/// The seconds after which a query is given up.
pub const QUERY_TIMEOUT_SECS: u64 = 8;

/// One query to an authority, ready to be sent.
#[derive(Debug)]
pub struct MembershipQuery {
    pub server: Endpoint,
    pub url: String,
    pub body: String,
    pub dao_address: EthAddress,
    pub target: Identity,
    pub timeout_secs: u64,
}

/// Why no query could be made.
#[derive(Clone, Copy, Debug, PartialEq, Eq)]
pub enum DAOError {
    /// Enforcement is on but no full node is configured.
    NoFullNode,
    /// The mesh address of the target is not an IPv6 address.
    MeshIpNotIpv6,
}

/// The argument of the membership call for the node at `ip`.
fn build_call_data(ip: &Ipv6Address) -> (data: [u8; 32])
    ensures
        data@ == call_data(*ip),
{
    let mut data: [u8; 32] = [0u8; 32];
    let mut i: usize = 0;
    while i < 8
        invariant
            i <= 8,
            forall|j: int| 0 <= j < 2 * i ==> data@[j] == call_data(*ip)[j],
            forall|j: int| 2 * i <= j < 32 ==> data@[j] == 0,
        decreases 8 - i,
    {
        let seg = ip.segments[i];
        data[2 * i] = (seg / 256) as u8;
        data[2 * i + 1] = (seg % 256) as u8;
        i += 1;
    }
    proof {
        assert(data@ =~= call_data(*ip));
    }
    data
}

/// The address of a full node as the query is sent to it.
fn build_server_url(server: &Endpoint) -> (url: String)
    ensures
        url@ == server_url(*server),
{
    let mut url = String::from_str("http://[");
    server.ip.push_text(&mut url);
    url.append("]:");
    push_decimal(&mut url, server.port as u128);
    url.append("/");
    proof {
        assert(url@ =~= server_url(*server));
    }
    url
}

/// The call that asks the authority `dao_address` about the node at `ip`.
fn build_query_body(dao_address: &EthAddress, ip: &Ipv6Address) -> (body: String)
    ensures
        body@ == query_body(*dao_address, *ip),
{
    let data = build_call_data(ip);
    let mut body = String::from_str("{'jsonrpc':'2.0','method':'eth_call','params':[{'to': '");
    dao_address.push_text(&mut body);
    body.append("', 'data': '");
    let hex = uint256_hex(&data);
    body.append(hex.as_str());
    body.append("'}, 'latest'],'id':1}");
    proof {
        assert(body@ =~= query_body(*dao_address, *ip));
    }
    body
}

/// Whether the entry at `i` is the word of `dao_address` on `id`.
pub open spec fn is_pair(e: DAOEntry, id: Identity, dao_address: EthAddress) -> bool {
    e.id == id && e.dao_address == dao_address
}

/// The index of the first entry that is the word of `dao_address` on `id`,
/// or -1 if there is none.
pub open spec fn pair_index(entries: Seq<DAOEntry>, id: Identity, dao_address: EthAddress) -> int
    decreases entries.len(),
{
    if entries.len() == 0 {
        -1
    } else {
        let before = pair_index(entries.drop_last(), id, dao_address);
        if before >= 0 {
            before
        } else if is_pair(entries.last(), id, dao_address) {
            entries.len() - 1
        } else {
            -1
        }
    }
}

/// The cache once `entry` is written: it takes the place of the entry of the
/// same identity and authority, or is added where there is none.
pub open spec fn recorded(entries: Seq<DAOEntry>, entry: DAOEntry) -> Seq<DAOEntry> {
    let at = pair_index(entries, entry.id, entry.dao_address);
    if at >= 0 {
        entries.update(at, entry)
    } else {
        entries.push(entry)
    }
}

/// The membership cache: what the authorities said, and which full node is
/// asked next.
pub struct DaoView {
    pub entries: Seq<DAOEntry>,
    pub cursor: int,
}

impl DaoView {
    /// There is one entry per identity and authority.
    pub open spec fn wf(self) -> bool {
        forall|i: int, j: int|
            0 <= i < j < self.entries.len() ==> !is_pair(
                #[trigger] self.entries[i],
                (#[trigger] self.entries[j]).id,
                self.entries[j].dao_address,
            )
    }

    /// The full node that is asked next, taking turns: none if the list is
    /// empty, else the one under the cursor, which then moves on by one and
    /// starts over after the last.
    pub open spec fn next_server(self, node_list: Seq<Endpoint>) -> (DaoView, Option<Endpoint>) {
        if node_list.len() == 0 {
            (self, None)
        } else {
            let at = self.cursor % (node_list.len() as int);
            (
                DaoView { cursor: (at + 1) % (node_list.len() as int), ..self },
                Some(node_list[at]),
            )
        }
    }
}

/// The membership cache.
pub struct DAOManager {
    entries: Vec<DAOEntry>,
    cursor: usize,
}

impl View for DAOManager {
    type V = DaoView;

    closed spec fn view(&self) -> DaoView {
        DaoView { entries: self.entries@, cursor: self.cursor as int }
    }
}

/// A match sits at or after its index: before it there is none.
proof fn lemma_pair_index_bounds(entries: Seq<DAOEntry>, id: Identity, dao_address: EthAddress)
    ensures
        -1 <= pair_index(entries, id, dao_address) < entries.len(),
        pair_index(entries, id, dao_address) >= 0 ==> is_pair(
            entries[pair_index(entries, id, dao_address)],
            id,
            dao_address,
        ),
        pair_index(entries, id, dao_address) < 0 ==> forall|i: int|
            0 <= i < entries.len() ==> !is_pair(#[trigger] entries[i], id, dao_address),
    decreases entries.len(),
{
    if entries.len() > 0 {
        lemma_pair_index_bounds(entries.drop_last(), id, dao_address);
        let before = pair_index(entries.drop_last(), id, dao_address);
        if before >= 0 {
            assert(entries.drop_last()[before] == entries[before]);
        } else if !is_pair(entries.last(), id, dao_address) {
            assert forall|i: int| 0 <= i < entries.len() implies !is_pair(
                #[trigger] entries[i],
                id,
                dao_address,
            ) by {
                if i < entries.len() - 1 {
                    assert(entries.drop_last()[i] == entries[i]);
                }
            }
        }
    }
}

/// A match found in a prefix is the match of the whole.
proof fn lemma_pair_index_prefix(
    entries: Seq<DAOEntry>,
    n: int,
    id: Identity,
    dao_address: EthAddress,
)
    requires
        0 <= n <= entries.len(),
        pair_index(entries.subrange(0, n), id, dao_address) >= 0,
    ensures
        pair_index(entries, id, dao_address) == pair_index(
            entries.subrange(0, n),
            id,
            dao_address,
        ),
    decreases entries.len() - n,
{
    if n < entries.len() {
        assert(entries.subrange(0, n + 1).drop_last() =~= entries.subrange(0, n));
        lemma_pair_index_prefix(entries, n + 1, id, dao_address);
    } else {
        assert(entries.subrange(0, n) =~= entries);
    }
}

impl DAOManager {
    /// An empty cache.
    pub fn new() -> (r: Self)
        ensures
            r@.wf(),
            r@ == (DaoView { entries: Seq::empty(), cursor: 0 }),
    {
        DAOManager { entries: Vec::new(), cursor: 0 }
    }

    /// What the cache holds.
    pub fn entries(&self) -> (r: &Vec<DAOEntry>)
        ensures
            r@ == self@.entries,
    {
        &self.entries
    }

    /// Looks an identity up.
    pub fn handle(
        &self,
        msg: DAOCheck,
        now: u64,
        timeout: u64,
        enforcement: bool,
        dao_addresses: &Vec<EthAddress>,
    ) -> (r: CacheCheck)
        ensures
            (r.answer, r.refresh@) == cache_check(
                self@.entries,
                msg.0,
                now,
                timeout,
                enforcement,
                dao_addresses@,
            ),
    {
        check_cache(&msg.0, &self.entries, now, timeout, enforcement, dao_addresses)
    }

    /// Writes what an authority answered at `now`: the identity is on its
    /// list unless the number it returned is zero.
    pub fn record(&mut self, msg: &CacheCallback, now: u64)
        requires
            old(self)@.wf(),
        ensures
            final(self)@.wf(),
            final(self)@.cursor == old(self)@.cursor,
            final(self)@.entries == recorded(
                old(self)@.entries,
                DAOEntry {
                    on_list: be_value(msg.result@) != 0,
                    dao_address: msg.dao_address,
                    id: msg.id,
                    last_updated: now,
                },
            ),
    {
        let entry = DAOEntry {
            on_list: !uint256_is_zero(&msg.result),
            dao_address: msg.dao_address,
            id: msg.id,
            last_updated: now,
        };
        let ghost before = self.entries@;
        let mut i: usize = 0;
        proof {
            assert(before.subrange(0, 0) =~= Seq::<DAOEntry>::empty());
        }
        while i < self.entries.len()
            invariant
                i <= self.entries.len(),
                self.entries@ == before,
                before == old(self)@.entries,
                self.cursor == old(self).cursor,
                (DaoView { entries: before, cursor: 0 }).wf(),
                entry == (DAOEntry {
                    on_list: be_value(msg.result@) != 0,
                    dao_address: msg.dao_address,
                    id: msg.id,
                    last_updated: now,
                }),
                pair_index(before.subrange(0, i as int), msg.id, msg.dao_address) == -1,
            decreases self.entries.len() - i,
        {
            let found = self.entries[i].id.same(&msg.id) && self.entries[i].dao_address.same(
                &msg.dao_address,
            );
            proof {
                assert(before.subrange(0, i + 1).drop_last() =~= before.subrange(0, i as int));
                assert(before.subrange(0, i + 1).last() == before[i as int]);
            }
            if found {
                proof {
                    assert(is_pair(before[i as int], msg.id, msg.dao_address));
                    assert(pair_index(before.subrange(0, i + 1), msg.id, msg.dao_address) == i);
                    lemma_pair_index_prefix(before, i + 1, msg.id, msg.dao_address);
                }
                self.entries[i] = entry;
                proof {
                    assert(self.entries@ =~= before.update(i as int, entry));
                    assert forall|a: int, b: int|
                        0 <= a < b < self.entries@.len() implies !is_pair(
                        #[trigger] self.entries@[a],
                        (#[trigger] self.entries@[b]).id,
                        self.entries@[b].dao_address,
                    ) by {
                        assert(is_pair(before[i as int], msg.id, msg.dao_address));
                        if a == i {
                            assert(!is_pair(before[a], before[b].id, before[b].dao_address));
                        } else if b == i {
                            assert(!is_pair(before[a], before[b].id, before[b].dao_address));
                        } else {
                            assert(!is_pair(before[a], before[b].id, before[b].dao_address));
                        }
                    }
                }
                return ;
            }
            i += 1;
        }
        proof {
            assert(before.subrange(0, before.len() as int) =~= before);
            lemma_pair_index_bounds(before, msg.id, msg.dao_address);
        }
        self.entries.push(entry);
    }

    /// Picks the full node to ask next, taking turns among `node_list`.
    pub fn get_web3_server(&mut self, node_list: &Vec<Endpoint>) -> (r: Option<Endpoint>)
        ensures
            (final(self)@, r) == old(self)@.next_server(node_list@),
    {
        let n = node_list.len();
        if n == 0 {
            return None;
        }
        let at = self.cursor % n;
        self.cursor = (at + 1) % n;
        Some(node_list[at])
    }

    /// Makes the query that asks `dao_address` whether `target` is on its
    /// list, for the full node whose turn it is.
    pub fn get_membership(
        &mut self,
        dao_address: &EthAddress,
        target: Identity,
        node_list: &Vec<Endpoint>,
    ) -> (r: Result<MembershipQuery, DAOError>)
        requires
            old(self)@.wf(),
        ensures
            final(self)@.wf(),
            final(self)@ == old(self)@.next_server(node_list@).0,
            match (old(self)@.next_server(node_list@).1, target.mesh_ip) {
                (None, _) => r == Err::<MembershipQuery, DAOError>(DAOError::NoFullNode),
                (Some(_), IpAddress::V4(_)) => r == Err::<MembershipQuery, DAOError>(
                    DAOError::MeshIpNotIpv6,
                ),
                (Some(server), IpAddress::V6(ip)) => {
                    &&& r matches Ok(q)
                    &&& q.server == server
                    &&& q.url@ == server_url(server)
                    &&& q.body@ == query_body(*dao_address, ip)
                    &&& q.dao_address == *dao_address
                    &&& q.target == target
                    &&& q.timeout_secs == 8
                },
            },
    {
        let server = match self.get_web3_server(node_list) {
            Some(s) => s,
            None => {
                return Err(DAOError::NoFullNode);
            },
        };
        match target.mesh_ip {
            IpAddress::V4(_) => Err(DAOError::MeshIpNotIpv6),
            IpAddress::V6(ip) => Ok(
                MembershipQuery {
                    server,
                    url: build_server_url(&server),
                    body: build_query_body(dao_address, &ip),
                    dao_address: *dao_address,
                    target,
                    timeout_secs: QUERY_TIMEOUT_SECS,
                },
            ),
        }
    }
}

/// The cache after `k` full nodes were picked from `node_list`.
pub open spec fn after_turns(v: DaoView, node_list: Seq<Endpoint>, k: nat) -> DaoView
    decreases k,
{
    if k == 0 {
        v
    } else {
        after_turns(v, node_list, (k - 1) as nat).next_server(node_list).0
    }
}

/// Taking turns. Over an unchanged list, the full node picked after `k`
/// earlier picks is the one `k` places past the first pick, counting around
/// the list: every full node is asked once before any is asked again.
pub proof fn lemma_full_nodes_take_turns(v: DaoView, node_list: Seq<Endpoint>, k: nat)
    requires
        node_list.len() > 0,
        v.cursor >= 0,
    ensures
        after_turns(v, node_list, k).cursor >= 0,
        k > 0 ==> after_turns(v, node_list, k).cursor == (v.cursor + k) % (node_list.len() as int),
        after_turns(v, node_list, k).next_server(node_list).1 == Some(
            node_list[(v.cursor + k) % (node_list.len() as int)],
        ),
    decreases k,
{
    let n = node_list.len() as int;
    if k > 0 {
        lemma_full_nodes_take_turns(v, node_list, (k - 1) as nat);
        let before = after_turns(v, node_list, (k - 1) as nat);
        assert(before.cursor % n == (v.cursor + k - 1) % n) by {
            if k > 1 {
                vstd::arithmetic::div_mod::lemma_mod_twice(v.cursor + k - 1, n);
            }
        }
        assert(((v.cursor + k - 1) % n + 1) % n == (v.cursor + k) % n) by {
            vstd::arithmetic::div_mod::lemma_add_mod_noop(v.cursor + k - 1, 1, n);
            vstd::arithmetic::div_mod::lemma_mod_twice(v.cursor + k - 1, n);
            vstd::arithmetic::div_mod::lemma_add_mod_noop((v.cursor + k - 1) % n, 1, n);
        }
        vstd::arithmetic::div_mod::lemma_mod_twice(v.cursor + k, n);
    }
}

/// Where a written entry lies in the cache.
proof fn lemma_recorded_at(entries: Seq<DAOEntry>, entry: DAOEntry) -> (at: int)
    ensures
        0 <= at < recorded(entries, entry).len(),
        recorded(entries, entry)[at] == entry,
        recorded(entries, entry).len() >= entries.len(),
{
    lemma_pair_index_bounds(entries, entry.id, entry.dao_address);
    let found = pair_index(entries, entry.id, entry.dao_address);
    if found >= 0 {
        found
    } else {
        entries.len() as int
    }
}

/// A written answer is kept once per identity and authority, and counts
/// while it is fresh: from the moment it is written until the timeout has
/// passed, a listing authorizes the identity; after that the entry no longer
/// authorizes by itself, and its authority is asked again.
pub proof fn lemma_written_answer(
    entries: Seq<DAOEntry>,
    entry: DAOEntry,
    later: u64,
    timeout: u64,
    dao_addresses: Seq<EthAddress>,
)
    requires
        (DaoView { entries, cursor: 0 }).wf(),
    ensures
        (DaoView { entries: recorded(entries, entry), cursor: 0 }).wf(),
        is_cached(recorded(entries, entry), entry.id),
        entry.on_list && is_fresh(entry.last_updated, later, timeout) ==> cache_check(
            recorded(entries, entry),
            entry.id,
            later,
            timeout,
            true,
            dao_addresses,
        ).0 == Some(true),
        !is_fresh(entry.last_updated, later, timeout) ==> cache_check(
            recorded(entries, entry),
            entry.id,
            later,
            timeout,
            true,
            dao_addresses,
        ).1.contains(entry.dao_address),
{
    let after = recorded(entries, entry);
    let at = lemma_recorded_at(entries, entry);
    lemma_pair_index_bounds(entries, entry.id, entry.dao_address);
    let found = pair_index(entries, entry.id, entry.dao_address);
    assert forall|i: int, j: int| 0 <= i < j < after.len() implies !is_pair(
        #[trigger] after[i],
        (#[trigger] after[j]).id,
        after[j].dao_address,
    ) by {
        if found >= 0 {
            assert(is_pair(entries[found], entry.id, entry.dao_address));
            if i == found {
                assert(!is_pair(entries[i], entries[j].id, entries[j].dao_address));
            } else if j == found {
                assert(!is_pair(entries[i], entries[j].id, entries[j].dao_address));
            } else {
                assert(!is_pair(entries[i], entries[j].id, entries[j].dao_address));
            }
        } else {
            if j == entries.len() {
                assert(!is_pair(entries[i], entry.id, entry.dao_address));
            } else {
                assert(!is_pair(entries[i], entries[j].id, entries[j].dao_address));
            }
        }
    }
    assert(after[at].id == entry.id);
    if !is_fresh(entry.last_updated, later, timeout) {
        let pred = |e: DAOEntry| e.id == entry.id && !is_fresh(e.last_updated, later, timeout);
        let addr = |e: DAOEntry| e.dao_address;
        assert(pred(after[at]));
        after.lemma_filter_contains(pred, at);
        let kept = after.filter(pred);
        let k = choose|k: int| 0 <= k < kept.len() && kept[k] == after[at];
        assert(kept.map_values(addr)[k] == entry.dao_address);
    }
}

/// An expired entry counts as a miss. Where every entry about an identity
/// has expired, a lookup under enforcement gives no answer, exactly as if
/// the cache held nothing about it; what differs is whom it asks again.
pub proof fn lemma_expired_entries_are_a_miss(
    entries: Seq<DAOEntry>,
    id: Identity,
    now: u64,
    timeout: u64,
    dao_addresses: Seq<EthAddress>,
)
    requires
        forall|i: int|
            0 <= i < entries.len() && (#[trigger] entries[i]).id == id ==> !is_fresh(
                entries[i].last_updated,
                now,
                timeout,
            ),
    ensures
        cache_check(entries, id, now, timeout, true, dao_addresses).0 is None,
{
}

} // verus!
