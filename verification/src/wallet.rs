//! The dashboard's withdrawal: which way the money can go, and what the
//! caller is told.

use crate::identity::EthAddress;
use crate::text::hex_bytes_text;
use crate::uint256::uint256_padded_hex;
use vstd::prelude::*;
use vstd::string::*;

verus! {

/// The seconds after which a withdrawal is given up.
pub const WITHDRAW_TIMEOUT_SECS: u64 = 10;

/// The gas that a plain transfer may use.
pub const TRANSFER_GAS_LIMIT: u64 = 21000;

/// The status of every answer that reports a failed withdrawal.
pub const FAILURE_STATUS: u16 = 504;

/// A chain that the node may run on, or withdraw to.
#[derive(Clone, Copy, Debug, PartialEq, Eq)]
pub enum SystemChain {
    Ethereum,
    Rinkeby,
    Xdai,
}

/// The way a withdrawal takes.
#[derive(Clone, Copy, Debug, PartialEq, Eq)]
pub enum WithdrawRoute {
    /// A transfer on the chain that the node runs on.
    EthCompatible,
    /// Across the bridge from xDai to Ethereum.
    XdaiToEth,
    /// There is no way from the one chain to the other.
    Impossible,
}

/// The name of a chain.
pub open spec fn chain_name(chain: SystemChain) -> Seq<char> {
    match chain {
        SystemChain::Ethereum => "Ethereum"@,
        SystemChain::Rinkeby => "Rinkeby"@,
        SystemChain::Xdai => "Xdai"@,
    }
}

/// The way from `system_chain` to `withdraw_chain`: a transfer where both
/// are the same, the bridge from xDai to Ethereum, and none otherwise.
pub open spec fn route(system_chain: SystemChain, withdraw_chain: SystemChain) -> WithdrawRoute {
    if system_chain == withdraw_chain {
        WithdrawRoute::EthCompatible
    } else if system_chain is Xdai && withdraw_chain is Ethereum {
        WithdrawRoute::XdaiToEth
    } else {
        WithdrawRoute::Impossible
    }
}

/// Picks the way a withdrawal takes.
pub fn withdraw(system_chain: SystemChain, withdraw_chain: SystemChain) -> (r: WithdrawRoute)
    ensures
        r == route(system_chain, withdraw_chain),
{
    match (system_chain, withdraw_chain) {
        (SystemChain::Ethereum, SystemChain::Ethereum) => WithdrawRoute::EthCompatible,
        (SystemChain::Rinkeby, SystemChain::Rinkeby) => WithdrawRoute::EthCompatible,
        (SystemChain::Xdai, SystemChain::Xdai) => WithdrawRoute::EthCompatible,
        (SystemChain::Xdai, SystemChain::Ethereum) => WithdrawRoute::XdaiToEth,
        (_, _) => WithdrawRoute::Impossible,
    }
}

/// The name of a chain.
fn name_of(chain: SystemChain) -> (r: &'static str)
    ensures
        r@ == chain_name(chain),
{
    match chain {
        SystemChain::Ethereum => "Ethereum",
        SystemChain::Rinkeby => "Rinkeby",
        SystemChain::Xdai => "Xdai",
    }
}

/// What the caller is told where there is no way between the chains.
pub fn impossible_message(system_chain: SystemChain, withdraw_chain: SystemChain) -> (r: String)
    ensures
        r@ == "System chain is "@ + chain_name(system_chain) + " but withdraw chain is "@
            + chain_name(withdraw_chain) + ", withdraw impossible!"@,
{
    let mut r = String::from_str("System chain is ");
    r.append(name_of(system_chain));
    r.append(" but withdraw chain is ");
    r.append(name_of(withdraw_chain));
    r.append(", withdraw impossible!");
    proof {
        assert(r@ =~= "System chain is "@ + chain_name(system_chain)
            + " but withdraw chain is "@ + chain_name(withdraw_chain)
            + ", withdraw impossible!"@);
    }
    r
}

/// Whether `needle` occurs in `hay`.
pub open spec fn contains_text(hay: Seq<char>, needle: Seq<char>) -> bool {
    exists|i: int|
        0 <= i && i + needle.len() <= hay.len() && #[trigger] hay.subrange(
            i,
            i + needle.len(),
        ) == needle
}

/// Whether `needle` occurs in `hay`.
pub fn text_contains(hay: &str, needle: &str) -> (r: bool)
    ensures
        r == contains_text(hay@, needle@),
{
    let n = hay.unicode_len();
    let m = needle.unicode_len();
    if m > n {
        proof {
            assert forall|i: int| 0 <= i && i + m <= n implies #[trigger] hay@.subrange(
                i,
                i + m,
            ) != needle@ by {}
        }
        return false;
    }
    let mut i: usize = 0;
    while i <= n - m
        invariant
            n == hay@.len(),
            m == needle@.len(),
            m <= n,
            i <= n - m + 1,
            forall|k: int| 0 <= k < i ==> #[trigger] hay@.subrange(k, k + m) != needle@,
        decreases n - m + 1 - i,
    {
        let mut j: usize = 0;
        while j < m && hay.get_char(i + j) == needle.get_char(j)
            invariant
                n == hay@.len(),
                m == needle@.len(),
                i + m <= n,
                j <= m,
                forall|k: int| 0 <= k < j ==> hay@[i + k] == needle@[k],
            decreases m - j,
        {
            j += 1;
        }
        if j == m {
            proof {
                assert(hay@.subrange(i as int, i + m) =~= needle@);
            }
            return true;
        }
        proof {
            assert(hay@.subrange(i as int, i + m)[j as int] != needle@[j as int]);
        }
        i += 1;
    }
    false
}

/// What becomes of a transfer, once the full node has answered.
#[derive(Debug)]
pub struct WithdrawReply {
    /// The status of the answer to the caller.
    pub status: u16,
    /// The text of the answer.
    pub body: String,
    /// Whether the node's own count of its transactions goes up by one.
    pub nonce_used: bool,
    /// Whether the count has to be fetched from the full node again.
    pub refresh_nonce: bool,
}

/// The answer to the caller of a transfer that the full node accepted under
/// the id `tx_id`.
pub fn transfer_sent(tx_id: &[u8; 32]) -> (r: WithdrawReply)
    ensures
        r.status == 200,
        r.body@ == "txid:"@ + ("0x"@ + hex_bytes_text(tx_id@)),
        r.nonce_used,
        !r.refresh_nonce,
{
    let mut body = String::from_str("txid:");
    let id = uint256_padded_hex(tx_id);
    body.append(id.as_str());
    WithdrawReply { status: 200, body, nonce_used: true, refresh_nonce: false }
}

/// What the caller is told of a transfer that the full node refused:
/// `display` is what the failure says, `debug` how it is written out.
pub open spec fn refusal(display: Seq<char>, debug: Seq<char>) -> Seq<char> {
    if contains_text(display, "nonce"@) {
        "The nonce was not updated, try again "@ + debug
    } else {
        "Full node failed to send transaction! "@ + debug
    }
}

/// The answer to the caller of a transfer that the full node refused. The
/// count of transactions is fetched again either way.
pub fn transfer_refused(display: &str, debug: &str) -> (r: WithdrawReply)
    ensures
        r.status == 504,
        r.body@ == refusal(display@, debug@),
        !r.nonce_used,
        r.refresh_nonce,
{
    let mut body = if text_contains(display, "nonce") {
        String::from_str("The nonce was not updated, try again ")
    } else {
        String::from_str("Full node failed to send transaction! ")
    };
    body.append(debug);
    WithdrawReply { status: FAILURE_STATUS, body, nonce_used: false, refresh_nonce: true }
}

/// How a transfer on the node's own chain starts.
#[derive(Clone, Copy, Debug, PartialEq, Eq)]
pub enum TransferStart {
    /// No address is configured: the caller is told so, with status 504.
    NoAddress,
    /// The transaction is to be signed and sent, with this gas limit.
    Send { from: EthAddress, gas_limit: u64 },
}

/// Withdraw for eth compatible chains: the start.
pub fn eth_compatable_withdraw(our_address: Option<EthAddress>) -> (r: TransferStart)
    ensures
        r == match our_address {
            Some(from) => TransferStart::Send { from, gas_limit: 21000 },
            None => TransferStart::NoAddress,
        },
{
    match our_address {
        Some(from) => TransferStart::Send { from, gas_limit: TRANSFER_GAS_LIMIT },
        None => TransferStart::NoAddress,
    }
}

/// What the caller is told where no address is configured.
pub fn no_address_message() -> (r: &'static str)
    ensures
        r@ == "No Address configured, withdraw impossible!"@,
{
    "No Address configured, withdraw impossible!"
}

/// Cross chain bridge withdraw from xDai to Ethereum: the answer, once the
/// bridge has taken the order or refused it with a failure written `debug`.
pub fn xdai_to_eth_withdraw(refused: Option<&str>) -> (r: WithdrawReply)
    ensures
        !r.nonce_used,
        !r.refresh_nonce,
        match refused {
            None => r.status == 200 && r.body@ == "View endpoints for progress"@,
            Some(debug) => r.status == 504 && r.body@ == debug@,
        },
{
    match refused {
        None => WithdrawReply {
            status: 200,
            body: String::from_str("View endpoints for progress"),
            nonce_used: false,
            refresh_nonce: false,
        },
        Some(debug) => WithdrawReply {
            status: FAILURE_STATUS,
            body: String::from_str(debug),
            nonce_used: false,
            refresh_nonce: false,
        },
    }
}

} // verus!
