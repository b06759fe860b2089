//! What a node settles before it starts: which settings are usable as they
//! are, which have to be made anew, and which leftovers have to go.

pub mod payment_keys;
pub mod release_file;

use crate::address_text::round_trip::lemma_text_tells_addresses_apart;
use crate::clu::payment_keys::{EthKeyAction, is_eth_key_decision, key_address, plan_eth_key};
use crate::identity::EthAddress;
use crate::kernel::push_owned;
use crate::net::IpAddress;
use crate::text::text_eq;
use vstd::prelude::*;
use vstd::string::*;

verus! {

/// Why the start-up could not be planned or carried out.
#[derive(Debug)]
pub enum CluError {
    RuntimeError(String),
}

pub enum CluErrorView {
    RuntimeError(Seq<char>),
}

impl DeepView for CluError {
    type V = CluErrorView;

    open spec fn deep_view(&self) -> CluErrorView {
        match self {
            CluError::RuntimeError(m) => CluErrorView::RuntimeError(m@),
        }
    }
}

impl CluError {
    /// What the error says.
    pub fn message(&self) -> (s: String)
        ensures
            s@ == "Runtime Error: "@ + self.deep_view()->RuntimeError_0,
    {
        match self {
            CluError::RuntimeError(m) => {
                let mut s = String::from_str("Runtime Error: ");
                s.append(m.as_str());
                s
            },
        }
    }
}

/// Whether an address can serve as the node's mesh address: it is an IPv6
/// address and not the unspecified one.
pub open spec fn mesh_ip_valid(ip: IpAddress) -> bool {
    ip matches IpAddress::V6(a) && !a.unspecified()
}

/// Whether an address can serve as the node's mesh address.
pub fn validate_mesh_ip(ip: &IpAddress) -> (r: bool)
    ensures
        r == mesh_ip_valid(*ip),
{
    match ip {
        IpAddress::V4(_) => false,
        IpAddress::V6(a) => !a.is_unspecified(),
    }
}

/// Whether `bytes` are one of the three addresses that are known to be
/// junk: all zeros, the number one, and twenty times the byte `01`.
pub open spec fn is_junk_address(bytes: Seq<u8>) -> bool {
    ||| forall|i: int| 0 <= i < 20 ==> bytes[i] == 0
    ||| (forall|i: int| 0 <= i < 19 ==> bytes[i] == 0) && bytes[19] == 1
    ||| forall|i: int| 0 <= i < 20 ==> bytes[i] == 1
}

/// Performs some quick validation of the address, mostly to make sure it is
/// not junk.
pub fn validate_eth_address(address: &EthAddress) -> (r: bool)
    ensures
        r == !is_junk_address(address.bytes@),
{
    let mut head_zero = true;
    let mut all_one = true;
    let mut i: usize = 0;
    while i < 19
        invariant
            i <= 19,
            head_zero == (forall|j: int| 0 <= j < i ==> address.bytes@[j] == 0),
            all_one == (forall|j: int| 0 <= j < i ==> address.bytes@[j] == 1),
        decreases 19 - i,
    {
        if address.bytes[i] != 0 {
            head_zero = false;
        }
        if address.bytes[i] != 1 {
            all_one = false;
        }
        i += 1;
    }
    let last = address.bytes[19];
    let junk = (head_zero && (last == 0 || last == 1)) || (all_one && last == 1);
    proof {
        let b = address.bytes@;
        if head_zero && last == 0 {
            assert(forall|j: int| 0 <= j < 20 ==> b[j] == 0);
        }
        if all_one && last == 1 {
            assert(forall|j: int| 0 <= j < 20 ==> b[j] == 1);
        }
        if is_junk_address(b) && !junk {
            if forall|j: int| 0 <= j < 20 ==> b[j] == 0 {
                assert(b[19] == 0);
            }
            if forall|j: int| 0 <= j < 20 ==> b[j] == 1 {
                assert(b[19] == 1);
            }
        }
    }
    !junk
}

/// Whether `pattern` matches somewhere in `text`, as the `regex` crate reads
/// patterns; nothing where it rejects the pattern.
pub uninterp spec fn regex_match(pattern: Seq<char>, text: Seq<char>) -> Option<bool>;

/// Compiles `pattern` with `regex::Regex::new` and tests `text` with
/// `Regex::is_match`. The result depends on the two texts alone; a pattern
/// that does not compile gives nothing.
#[verifier::external_body]
fn regex_is_match(pattern: &str, text: &str) -> (r: Option<bool>)
    ensures
        r == regex_match(pattern@, text@),
{
    match regex::Regex::new(pattern) {
        Ok(re) => Some(re.is_match(text)),
        Err(_) => None,
    }
}

/// Whether an interface is a per-hop tunnel: its name is `wg` followed by
/// decimal digits and nothing else.
pub open spec fn is_hop_tunnel_name(name: Seq<char>) -> bool {
    regex_match("^wg[0-9]+$"@, name) == Some(true)
}

/// Whether an interface is a per-hop tunnel.
pub fn is_hop_tunnel(name: &str) -> (r: bool)
    ensures
        r == is_hop_tunnel_name(name@),
{
    match regex_is_match("^wg[0-9]+$", name) {
        Some(matched) => matched,
        None => false,
    }
}

/// Those of the first `n` interfaces that `hop` marks, in order.
pub open spec fn marked(interfaces: Seq<Seq<char>>, hop: Seq<bool>, n: nat) -> Seq<Seq<char>>
    decreases n,
{
    if n == 0 {
        Seq::empty()
    } else {
        let before = marked(interfaces, hop, (n - 1) as nat);
        if hop[n - 1] {
            before.push(interfaces[n - 1])
        } else {
            before
        }
    }
}

/// The interfaces to delete: those that `hop` marks, in order, and the exit
/// tunnel after them, whether it is listed or not.
pub open spec fn to_delete(interfaces: Seq<Seq<char>>, hop: Seq<bool>) -> Seq<Seq<char>> {
    marked(interfaces, hop, interfaces.len()).push("wg_exit"@)
}

/// The interfaces to delete, given for each interface whether it is a
/// per-hop tunnel.
pub fn deletions(interfaces: &Vec<String>, hop: &Vec<bool>) -> (r: Vec<String>)
    requires
        hop.len() == interfaces.len(),
    ensures
        r.deep_view() == to_delete(interfaces.deep_view(), hop@),
{
    let ghost names = interfaces.deep_view();
    let mut r: Vec<String> = Vec::new();
    let mut i: usize = 0;
    proof {
        assert(r.deep_view() =~= marked(names, hop@, 0));
    }
    while i < interfaces.len()
        invariant
            i <= interfaces.len(),
            hop.len() == interfaces.len(),
            names == interfaces.deep_view(),
            r.deep_view() == marked(names, hop@, i as nat),
        decreases interfaces.len() - i,
    {
        proof {
            assert(names[i as int] == interfaces[i as int]@);
        }
        if hop[i] {
            push_owned(&mut r, interfaces[i].clone());
        }
        i += 1;
    }
    push_owned(&mut r, String::from_str("wg_exit"));
    r
}

/// Which of `interfaces` are per-hop tunnels.
pub open spec fn hop_flags(interfaces: Seq<Seq<char>>) -> Seq<bool> {
    Seq::new(interfaces.len(), |i: int| is_hop_tunnel_name(interfaces[i]))
}

/// Called before anything is started, with the interfaces that exist: names
/// the per-hop tunnels among them, and the exit tunnel, for deletion.
pub fn cleanup(interfaces: &Vec<String>) -> (r: Vec<String>)
    ensures
        r.deep_view() == to_delete(interfaces.deep_view(), hop_flags(interfaces.deep_view())),
{
    let mut hop: Vec<bool> = Vec::new();
    let mut i: usize = 0;
    while i < interfaces.len()
        invariant
            i <= interfaces.len(),
            hop@ == hop_flags(interfaces.deep_view()).subrange(0, i as int),
        decreases interfaces.len() - i,
    {
        hop.push(is_hop_tunnel(interfaces[i].as_str()));
        proof {
            assert(interfaces.deep_view()[i as int] == interfaces[i as int]@);
            assert(hop@ =~= hop_flags(interfaces.deep_view()).subrange(0, i + 1));
        }
        i += 1;
    }
    proof {
        let all = hop_flags(interfaces.deep_view());
        assert(all.subrange(0, all.len() as int) =~= all);
    }
    deletions(interfaces, &hop)
}

/// What the settings hold when the node starts.
#[derive(Clone, Copy, Debug)]
pub struct StartupFacts {
    pub mesh_ip: Option<IpAddress>,
    pub device_known: bool,
    pub wg_public_key_known: bool,
    pub wg_private_key_known: bool,
    pub eth_address: Option<EthAddress>,
    pub eth_private_key: Option<[u8; 32]>,
    pub local_fee: u32,
    pub metric_factor: u32,
}

/// What a node does to its settings before it starts, in this order, after
/// it has deleted the leftover tunnels.
#[derive(Clone, Copy, Debug, PartialEq, Eq)]
pub struct InitPlan {
    /// The saved default route is put back first (clients only).
    pub restore_default_route: bool,
    /// A new mesh address is generated: there is none, or not a valid one.
    pub generate_mesh_ip: bool,
    /// The device name is read from the firmware release file.
    pub read_device: bool,
    /// A new tunnel key pair is generated: one half is missing.
    pub generate_wg_keys: bool,
    /// What happens to the payment keys.
    pub eth: EthKeyAction,
    /// The node gives bandwidth away for free: warn.
    pub warn_free_bandwidth: bool,
    /// The node ignores route quality: warn.
    pub warn_ignores_quality: bool,
    /// The node ignores route price: warn.
    pub warn_ignores_price: bool,
    /// Whether failing to hand the fee or the metric factor to the routing
    /// daemon ends the start-up, or is only logged.
    pub daemon_failure_fatal: bool,
}

/// The metric factor above which price no longer matters to route selection.
pub const METRIC_FACTOR_CEILING: u32 = 2000000;

/// Whether `plan` is the start-up plan of a client for `facts`.
pub open spec fn is_client_plan(plan: InitPlan, facts: StartupFacts) -> bool {
    &&& plan.restore_default_route
    &&& plan.generate_mesh_ip == !(facts.mesh_ip matches Some(ip) && mesh_ip_valid(ip))
    &&& plan.read_device == !facts.device_known
    &&& plan.generate_wg_keys == !(facts.wg_public_key_known && facts.wg_private_key_known)
    &&& is_eth_key_decision(
        plan.eth,
        facts.eth_address,
        facts.eth_private_key is Some,
        match facts.eth_private_key {
            Some(k) => key_address(k@),
            None => None,
        },
    )
    &&& plan.warn_free_bandwidth == (facts.local_fee == 0)
    &&& plan.warn_ignores_quality == (facts.metric_factor == 0)
    &&& plan.warn_ignores_price == (facts.metric_factor > 2000000)
    &&& !plan.daemon_failure_fatal
}

/// Whether `plan` is the start-up plan of an exit for `facts`: as for a
/// client, but no route is restored, no device name is read, a high metric
/// factor is not warned of, and the routing daemon must take the settings.
pub open spec fn is_exit_plan(plan: InitPlan, facts: StartupFacts) -> bool {
    &&& !plan.restore_default_route
    &&& plan.generate_mesh_ip == !(facts.mesh_ip matches Some(ip) && mesh_ip_valid(ip))
    &&& !plan.read_device
    &&& plan.generate_wg_keys == !(facts.wg_public_key_known && facts.wg_private_key_known)
    &&& is_eth_key_decision(
        plan.eth,
        facts.eth_address,
        facts.eth_private_key is Some,
        match facts.eth_private_key {
            Some(k) => key_address(k@),
            None => None,
        },
    )
    &&& plan.warn_free_bandwidth == (facts.local_fee == 0)
    &&& plan.warn_ignores_quality == (facts.metric_factor == 0)
    &&& !plan.warn_ignores_price
    &&& plan.daemon_failure_fatal
}

/// Whether a new mesh address has to be generated.
fn needs_mesh_ip(mesh_ip: &Option<IpAddress>) -> (r: bool)
    ensures
        r == !(*mesh_ip matches Some(ip) && mesh_ip_valid(ip)),
{
    match mesh_ip {
        Some(ip) => !validate_mesh_ip(ip),
        None => true,
    }
}

/// Plans the start-up of a client.
pub fn linux_init(facts: &StartupFacts) -> (plan: InitPlan)
    ensures
        is_client_plan(plan, *facts),
{
    InitPlan {
        restore_default_route: true,
        generate_mesh_ip: needs_mesh_ip(&facts.mesh_ip),
        read_device: !facts.device_known,
        generate_wg_keys: !(facts.wg_public_key_known && facts.wg_private_key_known),
        eth: plan_eth_key(facts.eth_address, facts.eth_private_key),
        warn_free_bandwidth: facts.local_fee == 0,
        warn_ignores_quality: facts.metric_factor == 0,
        warn_ignores_price: facts.metric_factor > METRIC_FACTOR_CEILING,
        daemon_failure_fatal: false,
    }
}

/// Plans the start-up of an exit.
pub fn linux_exit_init(facts: &StartupFacts) -> (plan: InitPlan)
    ensures
        is_exit_plan(plan, *facts),
{
    InitPlan {
        restore_default_route: false,
        generate_mesh_ip: needs_mesh_ip(&facts.mesh_ip),
        read_device: false,
        generate_wg_keys: !(facts.wg_public_key_known && facts.wg_private_key_known),
        eth: plan_eth_key(facts.eth_address, facts.eth_private_key),
        warn_free_bandwidth: facts.local_fee == 0,
        warn_ignores_quality: facts.metric_factor == 0,
        warn_ignores_price: false,
        daemon_failure_fatal: true,
    }
}

/// What becomes of the two places where an exit may hold its mail settings.
#[derive(Clone, Copy, Debug, PartialEq, Eq)]
pub enum MailerMigration {
    /// Nothing changes.
    Nothing,
    /// Both are set: the old one is dropped.
    DropCompat,
    /// Only the old one is set: it moves to the new place.
    Migrate,
}

/// Decides what becomes of the old mail settings of an exit.
pub fn plan_mailer_migration(verif_settings_set: bool, compat_mailer_set: bool) -> (r:
    MailerMigration)
    ensures
        r == if !compat_mailer_set {
            MailerMigration::Nothing
        } else if verif_settings_set {
            MailerMigration::DropCompat
        } else {
            MailerMigration::Migrate
        },
{
    if !compat_mailer_set {
        MailerMigration::Nothing
    } else if verif_settings_set {
        MailerMigration::DropCompat
    } else {
        MailerMigration::Migrate
    }
}

/// The failure "this platform is not provided for".
pub open spec fn unsupported_platform(platform: Seq<char>) -> CluErrorView {
    CluErrorView::RuntimeError("not implemented for platform "@ + platform)
}

/// The failure "this platform is not provided for".
fn fail_platform(platform: &str) -> (e: CluError)
    ensures
        e.deep_view() == unsupported_platform(platform@),
{
    let mut m = String::from_str("not implemented for platform ");
    m.append(platform);
    CluError::RuntimeError(m)
}

/// Plans the start-up of a client on `platform`; only `linux` is provided for.
pub fn init(platform: &str, facts: &StartupFacts) -> (r: Result<InitPlan, CluError>)
    ensures
        match r {
            Ok(plan) => platform@ == "linux"@ && is_client_plan(plan, *facts),
            Err(e) => platform@ != "linux"@ && e.deep_view() == unsupported_platform(platform@),
        },
{
    if text_eq(platform, "linux") {
        Ok(linux_init(facts))
    } else {
        Err(fail_platform(platform))
    }
}

/// Plans the start-up of an exit on `platform`; only `linux` is provided for.
pub fn exit_init(platform: &str, facts: &StartupFacts) -> (r: Result<InitPlan, CluError>)
    ensures
        match r {
            Ok(plan) => platform@ == "linux"@ && is_exit_plan(plan, *facts),
            Err(e) => platform@ != "linux"@ && e.deep_view() == unsupported_platform(platform@),
        },
{
    if text_eq(platform, "linux") {
        Ok(linux_exit_init(facts))
    } else {
        Err(fail_platform(platform))
    }
}

/// Whether a character is an ASCII letter or digit.
pub open spec fn is_alphanumeric(c: char) -> bool {
    ('a' <= c <= 'z') || ('A' <= c <= 'Z') || ('0' <= c <= '9')
}

/// Draws `len` characters from `rand::distributions::Alphanumeric` with the
/// generator of `rand::thread_rng`. Which characters come out is left to
/// chance; every one is an ASCII letter or digit, and there are `len`.
#[verifier::external_body]
fn random_alphanumeric(len: usize) -> (s: String)
    ensures
        s@.len() == len,
        forall|i: int| 0 <= i < s@.len() ==> is_alphanumeric(s@[i]),
{
    rand::Rng::sample_iter(rand::thread_rng(), rand::distributions::Alphanumeric)
        .take(len)
        .map(char::from)
        .collect()
}

/// The address that a name yields within a network, as text; nothing where
/// the network is none or too narrow.
pub uninterp spec fn generated_ip(name: Seq<char>, network: Seq<char>) -> Option<Seq<char>>;

/// Reads `network` as an `ipgen::IpNetwork` and derives the address of
/// `name` within it with `ipgen::ip`, which hashes the name into the bits
/// that the network leaves free; returns the address as `to_string` writes
/// it. The result depends on the two texts alone.
#[verifier::external_body]
fn ipgen_ip(name: &str, network: &str) -> (r: Option<String>)
    ensures
        match r {
            Some(text) => generated_ip(name@, network@) == Some(text@),
            None => generated_ip(name@, network@) is None,
        },
{
    match network.parse::<ipgen::IpNetwork>() {
        Ok(net) => match ipgen::ip(name, net) {
            Ok(ip) => Some(ip.to_string()),
            Err(_) => None,
        },
        Err(_) => None,
    }
}

/// The failure "no mesh address could be generated".
pub open spec fn no_mesh_ip() -> CluErrorView {
    CluErrorView::RuntimeError("could not generate a mesh IP address"@)
}

/// The mesh address of `name` within `network`: the address that the
/// generator yields, if it yields one that can serve as a mesh address.
pub fn generate_mesh_ip(name: &str, network: &str) -> (r: Result<IpAddress, CluError>)
    ensures
        match r {
            Ok(ip) => {
                &&& generated_ip(name@, network@) == Some(ip.text())
                &&& mesh_ip_valid(ip)
            },
            Err(e) => {
                &&& e.deep_view() == no_mesh_ip()
                &&& forall|ip: IpAddress|
                    mesh_ip_valid(ip) ==> generated_ip(name@, network@) != Some(ip.text())
            },
        },
{
    let text = match ipgen_ip(name, network) {
        Some(t) => t,
        None => {
            return Err(
                CluError::RuntimeError(String::from_str("could not generate a mesh IP address")),
            );
        },
    };
    match IpAddress::from_text(text.as_str()) {
        Some(found) => {
            proof {
                assert forall|ip: IpAddress| ip.text() == text@ implies ip == found by {
                    lemma_text_tells_addresses_apart(ip, found);
                }
            }
            if validate_mesh_ip(&found) {
                Ok(found)
            } else {
                Err(CluError::RuntimeError(String::from_str("could not generate a mesh IP address")))
            }
        },
        None => Err(
            CluError::RuntimeError(String::from_str("could not generate a mesh IP address")),
        ),
    }
}

/// Generates a new mesh address: draws a name of fifty letters and digits
/// and derives its address within `fd00::/8`. Which address comes out is
/// left to chance; it can serve as a mesh address.
pub fn linux_generate_mesh_ip() -> (r: Result<IpAddress, CluError>)
    ensures
        match r {
            Ok(ip) => mesh_ip_valid(ip),
            Err(e) => e.deep_view() == no_mesh_ip(),
        },
{
    let seed = random_alphanumeric(50);
    generate_mesh_ip(seed.as_str(), "fd00::/8")
}

} // verus!
