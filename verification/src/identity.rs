//! Who a node is: its keys and addresses.

use crate::net::IpAddress;
use crate::text::{hex_bytes_text, push_hex_bytes};
use crate::text::base64::{
    base64_text,
    lemma_base64_round_trip,
    lemma_base64_sound,
    push_base64,
    read_base64,
};
use vstd::prelude::*;

verus! {

/// The public key of a tunnel endpoint.
#[derive(Clone, Copy, Debug, PartialEq, Eq, Hash)]
pub struct WgKey {
    pub bytes: [u8; 32],
}

/// A billing address.
#[derive(Clone, Copy, Debug, PartialEq, Eq, Hash)]
pub struct EthAddress {
    pub bytes: [u8; 20],
}

/// What identifies a node on the whole mesh.
#[derive(Clone, Copy, Debug, PartialEq, Eq, Hash)]
pub struct Identity {
    pub mesh_ip: IpAddress,
    pub eth_address: EthAddress,
    pub wg_public_key: WgKey,
}

/// An identity as seen from one link: where to reply, and on which port the
/// tunnel for that link listens.
#[derive(Clone, Copy, Debug, PartialEq, Eq, Hash)]
pub struct LocalIdentity {
    pub global: Identity,
    pub local_ip: IpAddress,
    pub wg_port: u16,
}

/// Whether two byte arrays hold the same bytes.
fn same_bytes<const N: usize>(a: &[u8; N], b: &[u8; N]) -> (r: bool)
    ensures
        r == (a@ == b@),
{
    let mut i: usize = 0;
    while i < N
        invariant
            i <= N,
            forall|j: int| 0 <= j < i ==> a@[j] == b@[j],
        decreases N - i,
    {
        if a[i] != b[i] {
            return false;
        }
        i += 1;
    }
    proof {
        assert(a@ =~= b@);
    }
    true
}

impl WgKey {
    pub fn new(bytes: [u8; 32]) -> (r: Self)
        ensures
            r.bytes == bytes,
    {
        WgKey { bytes }
    }

    /// The key as the tunnel tools write it: base64 of its bytes.
    pub open spec fn text(self) -> Seq<char> {
        base64_text(self.bytes@)
    }

    /// The key that `text` writes: the one whose text it is, if there is one.
    pub fn from_text(text: &str) -> (r: Option<WgKey>)
        ensures
            match r {
                Some(k) => k.text() == text@,
                None => forall|k: WgKey| k.text() != text@,
            },
    {
        let bytes = match read_base64(text) {
            Some(b) => b,
            None => {
                proof {
                    assert forall|k: WgKey| k.text() != text@ by {
                        lemma_base64_round_trip(k.bytes@);
                    }
                }
                return None;
            },
        };
        if bytes.len() != 32 {
            proof {
                assert forall|k: WgKey| k.text() != text@ by {
                    lemma_base64_round_trip(k.bytes@);
                }
            }
            return None;
        }
        let mut key = [0u8; 32];
        let mut i: usize = 0;
        while i < 32
            invariant
                i <= 32,
                bytes.len() == 32,
                forall|j: int| 0 <= j < i ==> key@[j] == bytes@[j],
            decreases 32 - i,
        {
            key[i] = bytes[i];
            i += 1;
        }
        proof {
            assert(key@ =~= bytes@);
            lemma_base64_sound(text@);
        }
        Some(WgKey { bytes: key })
    }

    /// Whether both are the same key.
    pub fn same(&self, other: &WgKey) -> (r: bool)
        ensures
            r == (*self == *other),
    {
        let r = same_bytes(&self.bytes, &other.bytes);
        proof {
            if r {
                assert(self.bytes =~= other.bytes);
            }
        }
        r
    }

    /// Appends the text of the key to `out`.
    pub fn push_text(&self, out: &mut String)
        ensures
            final(out)@ == old(out)@ + self.text(),
    {
        push_base64(out, self.bytes.as_slice());
    }

    /// The key as the tunnel tools write it.
    pub fn to_text(&self) -> (s: String)
        ensures
            s@ == self.text(),
    {
        let mut s = String::new();
        self.push_text(&mut s);
        assert(s@ =~= self.text());
        s
    }
}

impl EthAddress {
    pub fn new(bytes: [u8; 20]) -> (r: Self)
        ensures
            r.bytes == bytes,
    {
        EthAddress { bytes }
    }

    /// The address as forty lower-case hexadecimal digits.
    pub open spec fn text(self) -> Seq<char> {
        hex_bytes_text(self.bytes@)
    }

    /// Whether both are the same address.
    pub fn same(&self, other: &EthAddress) -> (r: bool)
        ensures
            r == (*self == *other),
    {
        let r = same_bytes(&self.bytes, &other.bytes);
        proof {
            if r {
                assert(self.bytes =~= other.bytes);
            }
        }
        r
    }

    /// Appends the hexadecimal text of the address to `out`.
    pub fn push_text(&self, out: &mut String)
        ensures
            final(out)@ == old(out)@ + self.text(),
    {
        push_hex_bytes(out, self.bytes.as_slice());
    }
}

impl Identity {
    pub fn new(mesh_ip: IpAddress, eth_address: EthAddress, wg_public_key: WgKey) -> (r: Self)
        ensures
            r == (Identity { mesh_ip, eth_address, wg_public_key }),
    {
        Identity { mesh_ip, eth_address, wg_public_key }
    }

    /// Whether both name the same node.
    pub fn same(&self, other: &Identity) -> (r: bool)
        ensures
            r == (*self == *other),
    {
        self.mesh_ip.same(&other.mesh_ip) && self.eth_address.same(&other.eth_address)
            && self.wg_public_key.same(&other.wg_public_key)
    }
}

} // verus!
