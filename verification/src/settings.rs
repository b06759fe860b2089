//! The settings that the control plane reads.

use crate::identity::{EthAddress, Identity, WgKey};
use crate::net::IpAddress;
use vstd::prelude::*;

verus! {

/// A signed 256-bit amount, two's complement, most significant byte first.
#[derive(Clone, Copy, Debug, PartialEq, Eq)]
pub struct Int256 {
    pub bytes: [u8; 32],
}

/// How the node is reached and how it reaches others.
#[derive(Debug, Clone)]
pub struct NetworkSettings {
    pub own_ip: IpAddress,
    pub bounty_ip: IpAddress,
    pub babel_port: u16,
    pub rita_port: u16,
    pub bounty_port: u16,
    pub wg_private_key: String,
    pub wg_private_key_path: String,
    pub wg_public_key: String,
    pub wg_start_port: u16,
    pub babel_interfaces: String,
}

/// The thresholds and the address that payments go by.
#[derive(Debug, Clone)]
pub struct PaymentSettings {
    pub pay_threshold: Int256,
    pub close_threshold: Int256,
    pub close_fraction: Int256,
    pub buffer_period: u32,
    pub eth_address: EthAddress,
}

/// What an exit told this client when it registered.
#[derive(Debug, Clone, Copy)]
pub struct ExitClientDetails {
    pub internal_ip: IpAddress,
    pub eth_address: EthAddress,
    pub wg_public_key: WgKey,
    pub wg_exit_port: u16,
}

/// Which exit a client uses, and how.
#[derive(Debug, Clone)]
pub struct ExitClientSettings {
    pub exit_ip: IpAddress,
    pub exit_registration_port: u16,
    pub wg_listen_port: u16,
    pub details: Option<ExitClientDetails>,
}

/// The settings of a client node.
#[derive(Debug, Clone)]
pub struct RitaSettings {
    pub payment: PaymentSettings,
    pub network: NetworkSettings,
    pub exit_client: ExitClientSettings,
}

/// The network settings that only an exit has.
#[derive(Debug, Clone, Copy)]
pub struct ExitNetworkSettings {
    pub wg_tunnel_port: u16,
}

/// The settings of an exit node.
#[derive(Debug, Clone)]
pub struct RitaExitSettings {
    pub payment: PaymentSettings,
    pub network: NetworkSettings,
    pub exit_network: ExitNetworkSettings,
    pub db_file: String,
}

impl RitaSettings {
    /// Who this node is: its mesh address and billing address from the
    /// settings, and the public key that belongs to its private key.
    pub fn get_identity(&self, wg_public_key: WgKey) -> (r: Identity)
        ensures
            r == (Identity {
                mesh_ip: self.network.own_ip,
                eth_address: self.payment.eth_address,
                wg_public_key,
            }),
    {
        Identity::new(self.network.own_ip, self.payment.eth_address, wg_public_key)
    }

    /// Who the exit is, once its details are known.
    pub fn get_exit_id(&self) -> (r: Option<Identity>)
        ensures
            r == match self.exit_client.details {
                Some(d) => Some(
                    Identity {
                        mesh_ip: self.exit_client.exit_ip,
                        eth_address: d.eth_address,
                        wg_public_key: d.wg_public_key,
                    },
                ),
                None => None,
            },
    {
        match self.exit_client.details {
            Some(d) => Some(Identity::new(self.exit_client.exit_ip, d.eth_address, d.wg_public_key)),
            None => None,
        }
    }
}

impl RitaExitSettings {
    /// Who this exit is: its mesh address and billing address from the
    /// settings, and the public key that belongs to its private key.
    pub fn get_identity(&self, wg_public_key: WgKey) -> (r: Identity)
        ensures
            r == (Identity {
                mesh_ip: self.network.own_ip,
                eth_address: self.payment.eth_address,
                wg_public_key,
            }),
    {
        Identity::new(self.network.own_ip, self.payment.eth_address, wg_public_key)
    }
}

} // verus!
