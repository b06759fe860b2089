//! The command lines of the exit tunnel, word by word.

use crate::exit_server_tunnel::ExitClient;
use crate::identity::WgKey;
use crate::kernel::{KernelRequest, KernelRequestView, push_owned, push_word};
use crate::net::Ipv6Address;
use crate::text::{decimal_text, push_decimal};
use vstd::prelude::*;
use vstd::string::*;

verus! {

/// `[address]:port`, the way a tunnel endpoint is written.
pub open spec fn endpoint_text(ip: Ipv6Address, port: u16) -> Seq<char> {
    "["@ + ip.text() + "]:"@ + decimal_text(port as nat)
}

/// `address/prefix-length`.
pub open spec fn subnet_text(ip: Seq<char>, netmask: u8) -> Seq<char> {
    ip + "/"@ + decimal_text(netmask as nat)
}

/// The words that configure one client as a peer: its key, its endpoint, the
/// sources it may send from, and a keepalive of five seconds.
pub open spec fn peer_stanza(c: ExitClient, netmask: u8) -> Seq<Seq<char>> {
    seq![
        "peer"@,
        c.public_key.text(),
        "endpoint"@,
        endpoint_text(c.mesh_ip, c.port),
        "allowed-ips"@,
        c.internal_ip.text() + ","@,
        subnet_text(c.internal_ipv6.text(), netmask),
        "persistent-keepalive"@,
        "5"@,
    ]
}

/// The stanzas of all clients, in order.
pub open spec fn peer_stanzas(clients: Seq<ExitClient>, netmask: u8) -> Seq<Seq<char>>
    decreases clients.len(),
{
    if clients.len() == 0 {
        Seq::empty()
    } else {
        peer_stanzas(clients.drop_last(), netmask) + peer_stanza(clients.last(), netmask)
    }
}

/// The arguments of the one `wg` command that submits the whole peer table.
pub open spec fn wg_config_args(
    clients: Seq<ExitClient>,
    netmask: u8,
    listen_port: u16,
    private_key_path: Seq<char>,
) -> Seq<Seq<char>> {
    seq![
        "set"@,
        "wg_exit"@,
        "listen-port"@,
        decimal_text(listen_port as nat),
        "private-key"@,
        private_key_path,
    ] + peer_stanzas(clients, netmask)
}

/// The arguments of the `ip` command that routes one client's subnet through
/// the client itself over the exit tunnel.
pub open spec fn route_args(c: ExitClient, netmask: u8) -> Seq<Seq<char>> {
    seq![
        "route"@,
        "add"@,
        subnet_text(c.internal_ipv6.text(), netmask),
        "via"@,
        c.internal_ipv6.text(),
        "dev"@,
        "wg_exit"@,
    ]
}

/// The arguments of the `wg` command that removes one peer.
pub open spec fn remove_args(key: WgKey) -> Seq<Seq<char>> {
    seq!["set"@, "wg_exit"@, "peer"@, key.text(), "remove"@]
}

/// The text `address/prefix-length` of an address already written in `ip`.
pub(crate) fn subnet_string(ip: &String, netmask: u8) -> (s: String)
    ensures
        s@ == subnet_text(ip@, netmask),
{
    let mut s = ip.clone();
    s.append("/");
    push_decimal(&mut s, netmask as u128);
    s
}

/// Appends the stanza of one client to `args`.
fn push_peer_stanza(args: &mut Vec<String>, c: &ExitClient, netmask: u8)
    ensures
        final(args).deep_view() == old(args).deep_view() + peer_stanza(*c, netmask),
{
    push_word(args, "peer");
    push_owned(args, c.public_key.to_text());
    push_word(args, "endpoint");
    let mut endpoint = String::from_str("[");
    c.mesh_ip.push_text(&mut endpoint);
    endpoint.append("]:");
    push_decimal(&mut endpoint, c.port as u128);
    push_owned(args, endpoint);
    push_word(args, "allowed-ips");
    let mut v4 = c.internal_ip.to_text();
    v4.append(",");
    push_owned(args, v4);
    let v6 = c.internal_ipv6.to_text();
    push_owned(args, subnet_string(&v6, netmask));
    push_word(args, "persistent-keepalive");
    push_word(args, "5");
    proof {
        assert(final(args).deep_view() =~= old(args).deep_view() + peer_stanza(*c, netmask));
    }
}

/// The arguments of the command that submits the whole peer table.
pub fn build_wg_config_args(
    clients: &Vec<ExitClient>,
    netmask: u8,
    listen_port: u16,
    private_key_path: &str,
) -> (args: Vec<String>)
    ensures
        args.deep_view() == wg_config_args(clients@, netmask, listen_port, private_key_path@),
{
    let mut args: Vec<String> = Vec::new();
    push_word(&mut args, "set");
    push_word(&mut args, "wg_exit");
    push_word(&mut args, "listen-port");
    let mut port = String::new();
    push_decimal(&mut port, listen_port as u128);
    push_owned(&mut args, port);
    push_word(&mut args, "private-key");
    push_word(&mut args, private_key_path);
    let ghost head = args.deep_view();
    proof {
        assert(head =~= seq![
            "set"@,
            "wg_exit"@,
            "listen-port"@,
            decimal_text(listen_port as nat),
            "private-key"@,
            private_key_path@,
        ]);
        assert(clients@.subrange(0, 0) =~= Seq::<ExitClient>::empty());
    }
    let mut i: usize = 0;
    while i < clients.len()
        invariant
            i <= clients.len(),
            args.deep_view() == head + peer_stanzas(clients@.subrange(0, i as int), netmask),
        decreases clients.len() - i,
    {
        push_peer_stanza(&mut args, &clients[i], netmask);
        proof {
            let next = clients@.subrange(0, i + 1);
            assert(next.drop_last() =~= clients@.subrange(0, i as int));
            assert(next.last() == clients@[i as int]);
            assert(args.deep_view() =~= head + peer_stanzas(next, netmask));
        }
        i += 1;
    }
    proof {
        assert(clients@.subrange(0, clients@.len() as int) =~= clients@);
    }
    args
}

/// The arguments of the command that routes one client's subnet.
pub fn build_route_args(c: &ExitClient, netmask: u8) -> (args: Vec<String>)
    ensures
        args.deep_view() == route_args(*c, netmask),
{
    let mut args: Vec<String> = Vec::new();
    let v6 = c.internal_ipv6.to_text();
    push_word(&mut args, "route");
    push_word(&mut args, "add");
    push_owned(&mut args, subnet_string(&v6, netmask));
    push_word(&mut args, "via");
    push_owned(&mut args, v6);
    push_word(&mut args, "dev");
    push_word(&mut args, "wg_exit");
    proof {
        assert(args.deep_view() =~= route_args(*c, netmask));
    }
    args
}

/// The arguments of the command that removes one peer.
pub fn build_remove_args(key: &WgKey) -> (args: Vec<String>)
    ensures
        args.deep_view() == remove_args(*key),
{
    let mut args: Vec<String> = Vec::new();
    push_word(&mut args, "set");
    push_word(&mut args, "wg_exit");
    push_word(&mut args, "peer");
    push_owned(&mut args, key.to_text());
    push_word(&mut args, "remove");
    proof {
        assert(args.deep_view() =~= remove_args(*key));
    }
    args
}

/// A request to run `program` with `args`.
pub open spec fn command(program: Seq<char>, args: Seq<Seq<char>>) -> KernelRequestView {
    KernelRequestView::RunCommand { program, args }
}

/// A request to run `program` with `args`.
pub(crate) fn build_command(program: &str, args: Vec<String>) -> (r: KernelRequest)
    ensures
        r.deep_view() == command(program@, args.deep_view()),
{
    KernelRequest::RunCommand { program: String::from_str(program), args }
}

} // verus!
