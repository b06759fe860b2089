//! The payment key and its address: kept, completed or made anew.

use crate::clu::{is_junk_address, validate_eth_address};
use crate::identity::EthAddress;
use vstd::prelude::*;
use vstd::string::*;

verus! {

/// The address that belongs to a private key; nothing where the bytes are
/// no valid key.
pub uninterp spec fn key_address(key: Seq<u8>) -> Option<Seq<u8>>;

/// Reads `key` with `clarity::PrivateKey::from_bytes`, which validates the
/// bytes and derives the address, and returns the address of
/// `PrivateKey::to_address`. The result depends on the bytes alone.
#[verifier::external_body]
fn derive_address(key: &[u8; 32]) -> (r: Option<EthAddress>)
    ensures
        match r {
            Some(a) => key_address(key@) == Some(a.bytes@),
            None => key_address(key@) is None,
        },
{
    match clarity::PrivateKey::from_bytes(*key) {
        Ok(k) => Some(EthAddress { bytes: k.to_address().into() }),
        Err(_) => None,
    }
}

/// What to do about the payment keys.
#[derive(Clone, Copy, Debug, PartialEq, Eq)]
pub enum EthKeyAction {
    /// Address and key stay as they are.
    Keep,
    /// A new key is to be drawn, and the address derived from it.
    Generate,
    /// The key stays; this address, derived from it, is to be stored.
    Complete(EthAddress),
    /// There is a key without an address, and no address can be derived
    /// from it: the configuration has to be mended by hand.
    Unusable,
}

/// Whether `action` is what the configured address, the presence of a key
/// and the address derived from the key call for.
///
/// With both configured, a junk address, or one that the key does derive,
/// has both replaced; any other address stays. With the key alone, the
/// address is derived from it. In every other case both are made anew.
pub open spec fn is_eth_key_decision(
    action: EthKeyAction,
    address: Option<EthAddress>,
    key_present: bool,
    derived: Option<Seq<u8>>,
) -> bool {
    match (address, key_present) {
        (Some(a), true) => action == if is_junk_address(a.bytes@) || derived == Some(a.bytes@) {
            EthKeyAction::Generate
        } else {
            EthKeyAction::Keep
        },
        (None, true) => match derived {
            Some(d) => action matches EthKeyAction::Complete(x) && x.bytes@ == d,
            None => action is Unusable,
        },
        _ => action is Generate,
    }
}

/// The bytes of an address, where there is one.
pub open spec fn address_bytes(address: Option<EthAddress>) -> Option<Seq<u8>> {
    match address {
        Some(a) => Some(a.bytes@),
        None => None,
    }
}

/// Decides what to do about the payment keys, given the address that the
/// configured key derives.
pub fn decide_eth_key(address: Option<EthAddress>, key_present: bool, derived: Option<EthAddress>) -> (r:
    EthKeyAction)
    ensures
        is_eth_key_decision(r, address, key_present, address_bytes(derived)),
{
    match address {
        Some(a) => {
            if !key_present {
                return EthKeyAction::Generate;
            }
            let matches = match derived {
                Some(d) => d.same(&a),
                None => false,
            };
            proof {
                if let Some(d) = derived {
                    if d.bytes@ == a.bytes@ {
                        assert(d.bytes =~= a.bytes);
                    }
                }
            }
            if !validate_eth_address(&a) || matches {
                EthKeyAction::Generate
            } else {
                EthKeyAction::Keep
            }
        },
        None => {
            if !key_present {
                return EthKeyAction::Generate;
            }
            match derived {
                Some(d) => EthKeyAction::Complete(d),
                None => EthKeyAction::Unusable,
            }
        },
    }
}

/// Decides what to do about the payment keys.
pub fn plan_eth_key(address: Option<EthAddress>, key: Option<[u8; 32]>) -> (r: EthKeyAction)
    ensures
        is_eth_key_decision(
            r,
            address,
            key is Some,
            match key {
                Some(k) => key_address(k@),
                None => None,
            },
        ),
{
    match key {
        Some(k) => decide_eth_key(address, true, derive_address(&k)),
        None => decide_eth_key(address, false, None),
    }
}

/// Draws thirty-two bytes with `rand::random`. Nothing is known of them.
#[verifier::external_body]
fn random_key_bytes() -> (bytes: [u8; 32]) {
    rand::random::<[u8; 32]>()
}

/// A payment key and the address that belongs to it.
#[derive(Clone, Copy, Debug, PartialEq, Eq)]
pub struct EthKeys {
    pub private_key: [u8; 32],
    pub address: EthAddress,
}

/// The payment keys that `bytes` make, if they are a valid key.
pub fn eth_keys_from(bytes: [u8; 32]) -> (r: Option<EthKeys>)
    ensures
        match r {
            Some(k) => k.private_key == bytes && key_address(bytes@) == Some(k.address.bytes@),
            None => key_address(bytes@) is None,
        },
{
    match derive_address(&bytes) {
        Some(address) => Some(EthKeys { private_key: bytes, address }),
        None => None,
    }
}

/// Draws new payment keys. The draw may, with the slightest of chances, be
/// no valid key, and then there are none.
pub fn generate_eth_keys() -> (r: Option<EthKeys>)
    ensures
        exists|bytes: [u8; 32]| made_from(r, bytes),
        r matches Some(k) ==> key_address(k.private_key@) == Some(k.address.bytes@),
{
    let bytes = random_key_bytes();
    let r = eth_keys_from(bytes);
    assert(made_from(r, bytes));
    r
}

/// Whether `r` is what `bytes` make as payment keys: the bytes as the key,
/// with the address that belongs to it, or nothing where they are no valid
/// key.
pub open spec fn made_from(r: Option<EthKeys>, bytes: [u8; 32]) -> bool {
    match r {
        Some(k) => k.private_key == bytes && key_address(bytes@) == Some(k.address.bytes@),
        None => key_address(bytes@) is None,
    }
}

} // verus!
