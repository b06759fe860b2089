//! The one-time bring-up of the exit tunnel.

use crate::exit_server_tunnel::commands::{build_command, command, subnet_string, subnet_text};
use crate::kernel::{
    fail_with,
    failed_with,
    KernelInterfaceError,
    KernelInterfaceErrorView,
    KernelReply,
    KernelReplyView,
    KernelRequest,
    KernelRequestView,
    Progress,
    ProgressView,
    push_owned,
    push_word,
    unexpected_reply,
};
use crate::net::{Ipv4Address, Ipv6Address};
use vstd::prelude::*;
use vstd::string::*;

verus! {

/// Where a one-time bring-up of the exit tunnel stands: which request is out.
#[derive(Clone, Copy, Debug, PartialEq, Eq)]
pub enum SetupStage {
    AddressV4,
    AddressV6,
    Mtu,
    Up,
    Limit,
    CreateLimit,
}

/// A one-time bring-up of the exit tunnel in flight.
#[derive(Clone, Copy, Debug)]
pub struct ExitSetup {
    pub local_ip: Ipv4Address,
    pub local_ipv6: Ipv6Address,
    pub netmask: u8,
    pub client_netmask_v6: u8,
    pub stage: SetupStage,
}

/// The arguments of the `ip` command that gives the exit tunnel an address.
pub open spec fn address_args(ip: Seq<char>, netmask: u8) -> Seq<Seq<char>> {
    seq!["address"@, "add"@, subnet_text(ip, netmask), "dev"@, "wg_exit"@]
}

/// The arguments of the `ip` command that sets the MTU of the exit tunnel
/// to 1340, below the path minimum less the encapsulation.
pub open spec fn mtu_args() -> Seq<Seq<char>> {
    seq!["link"@, "set"@, "dev"@, "wg_exit"@, "mtu"@, "1340"@]
}

/// The arguments of the `ip` command that brings the exit tunnel up.
pub open spec fn up_args() -> Seq<Seq<char>> {
    seq!["link"@, "set"@, "dev"@, "wg_exit"@, "up"@]
}

/// The outcome "the command ran but complained on its error stream".
pub open spec fn complained(about: Seq<char>, stderr: Seq<char>) -> ProgressView {
    ProgressView::Finished(Err(KernelInterfaceErrorView::RuntimeError(about + stderr)))
}

/// What a one-time bring-up does with the reply to its last request.
///
/// The two addresses, the MTU and the up-state are set in this order, and a
/// failure of any of them ends the bring-up; so does anything that the MTU or
/// the up command writes to its error stream. Then the root of the
/// traffic-shaping hierarchy is installed, but only if the kernel says that
/// it is not there.
pub open spec fn setup_step(v: ExitSetup, reply: KernelReplyView) -> (
    Option<ExitSetup>,
    ProgressView,
) {
    match v.stage {
        SetupStage::AddressV4 => match reply {
            KernelReplyView::Failed(m) => (None, failed_with(m)),
            KernelReplyView::Output(_) => (
                Some(ExitSetup { stage: SetupStage::AddressV6, ..v }),
                ProgressView::Request(
                    command("ip"@, address_args(v.local_ipv6.text(), v.client_netmask_v6)),
                ),
            ),
            _ => (None, unexpected_reply()),
        },
        SetupStage::AddressV6 => match reply {
            KernelReplyView::Failed(m) => (None, failed_with(m)),
            KernelReplyView::Output(_) => (
                Some(ExitSetup { stage: SetupStage::Mtu, ..v }),
                ProgressView::Request(command("ip"@, mtu_args())),
            ),
            _ => (None, unexpected_reply()),
        },
        SetupStage::Mtu => match reply {
            KernelReplyView::Failed(m) => (None, failed_with(m)),
            KernelReplyView::Output(o) => if o.stderr.len() > 0 {
                (None, complained("received error adding wg link: "@, o.stderr))
            } else {
                (
                    Some(ExitSetup { stage: SetupStage::Up, ..v }),
                    ProgressView::Request(command("ip"@, up_args())),
                )
            },
            _ => (None, unexpected_reply()),
        },
        SetupStage::Up => match reply {
            KernelReplyView::Failed(m) => (None, failed_with(m)),
            KernelReplyView::Output(o) => if o.stderr.len() > 0 {
                (None, complained("received error setting wg interface up: "@, o.stderr))
            } else {
                (
                    Some(ExitSetup { stage: SetupStage::Limit, ..v }),
                    ProgressView::Request(KernelRequestView::HasLimit { iface: "wg_exit"@ }),
                )
            },
            _ => (None, unexpected_reply()),
        },
        SetupStage::Limit => match reply {
            KernelReplyView::Failed(m) => (None, failed_with(m)),
            KernelReplyView::Flag(present) => if present {
                (None, ProgressView::Finished(Ok(())))
            } else {
                (
                    Some(ExitSetup { stage: SetupStage::CreateLimit, ..v }),
                    ProgressView::Request(
                        KernelRequestView::CreateRootClassfulLimit { iface: "wg_exit"@ },
                    ),
                )
            },
            _ => (None, unexpected_reply()),
        },
        SetupStage::CreateLimit => match reply {
            KernelReplyView::Failed(m) => (None, failed_with(m)),
            _ => (None, ProgressView::Finished(Ok(()))),
        },
    }
}

/// The request that gives the exit tunnel the address written in `ip`.
fn build_address_request(ip: String, netmask: u8) -> (r: KernelRequest)
    ensures
        r.deep_view() == command("ip"@, address_args(ip@, netmask)),
{
    let mut args: Vec<String> = Vec::new();
    push_word(&mut args, "address");
    push_word(&mut args, "add");
    push_owned(&mut args, subnet_string(&ip, netmask));
    push_word(&mut args, "dev");
    push_word(&mut args, "wg_exit");
    proof {
        assert(args.deep_view() =~= address_args(ip@, netmask));
    }
    build_command("ip", args)
}

/// The request that sets a property of the exit tunnel's link.
fn build_link_request(mtu: bool) -> (r: KernelRequest)
    ensures
        r.deep_view() == command("ip"@, if mtu { mtu_args() } else { up_args() }),
{
    let mut args: Vec<String> = Vec::new();
    push_word(&mut args, "link");
    push_word(&mut args, "set");
    push_word(&mut args, "dev");
    push_word(&mut args, "wg_exit");
    if mtu {
        push_word(&mut args, "mtu");
        push_word(&mut args, "1340");
    } else {
        push_word(&mut args, "up");
    }
    proof {
        assert(args.deep_view() =~= if mtu { mtu_args() } else { up_args() });
    }
    build_command("ip", args)
}

/// The outcome "the command ran but complained on its error stream".
fn complain(about: &str, stderr: &String) -> (p: Progress)
    ensures
        p.deep_view() == complained(about@, stderr@),
{
    let mut message = String::from_str(about);
    message.append(stderr.as_str());
    Progress::Finished(Err(KernelInterfaceError::RuntimeError(message)))
}

impl ExitSetup {
    /// Starts the bring-up: the IPv4 address is to be assigned.
    pub fn begin(
        local_ip: &Ipv4Address,
        local_ipv6: &Ipv6Address,
        netmask: u8,
        client_netmask_v6: u8,
    ) -> (r: (ExitSetup, KernelRequest))
        ensures
            r.0 == (ExitSetup {
                local_ip: *local_ip,
                local_ipv6: *local_ipv6,
                netmask,
                client_netmask_v6,
                stage: SetupStage::AddressV4,
            }),
            r.1.deep_view() == command("ip"@, address_args(local_ip.text(), netmask)),
    {
        (
            ExitSetup {
                local_ip: *local_ip,
                local_ipv6: *local_ipv6,
                netmask,
                client_netmask_v6,
                stage: SetupStage::AddressV4,
            },
            build_address_request(local_ip.to_text(), netmask),
        )
    }

    /// Takes the reply to the last request and says what comes next.
    pub fn advance(self, reply: &KernelReply) -> (r: (Option<ExitSetup>, Progress))
        ensures
            (r.0, r.1.deep_view()) == setup_step(self, reply.deep_view()),
    {
        if let KernelReply::Failed(m) = reply {
            return (None, fail_with(m));
        }
        match self.stage {
            SetupStage::AddressV4 => match reply {
                KernelReply::Output(_) => (
                    Some(ExitSetup { stage: SetupStage::AddressV6, ..self }),
                    Progress::Request(
                        build_address_request(self.local_ipv6.to_text(), self.client_netmask_v6),
                    ),
                ),
                _ => (None, Progress::Finished(Err(KernelInterfaceError::UnexpectedReply))),
            },
            SetupStage::AddressV6 => match reply {
                KernelReply::Output(_) => (
                    Some(ExitSetup { stage: SetupStage::Mtu, ..self }),
                    Progress::Request(build_link_request(true)),
                ),
                _ => (None, Progress::Finished(Err(KernelInterfaceError::UnexpectedReply))),
            },
            SetupStage::Mtu => match reply {
                KernelReply::Output(o) => {
                    if o.stderr.as_str().unicode_len() > 0 {
                        (None, complain("received error adding wg link: ", &o.stderr))
                    } else {
                        (
                            Some(ExitSetup { stage: SetupStage::Up, ..self }),
                            Progress::Request(build_link_request(false)),
                        )
                    }
                },
                _ => (None, Progress::Finished(Err(KernelInterfaceError::UnexpectedReply))),
            },
            SetupStage::Up => match reply {
                KernelReply::Output(o) => {
                    if o.stderr.as_str().unicode_len() > 0 {
                        (None, complain("received error setting wg interface up: ", &o.stderr))
                    } else {
                        (
                            Some(ExitSetup { stage: SetupStage::Limit, ..self }),
                            Progress::Request(
                                KernelRequest::HasLimit { iface: String::from_str("wg_exit") },
                            ),
                        )
                    }
                },
                _ => (None, Progress::Finished(Err(KernelInterfaceError::UnexpectedReply))),
            },
            SetupStage::Limit => match reply {
                KernelReply::Flag(present) => {
                    if *present {
                        (None, Progress::Finished(Ok(())))
                    } else {
                        (
                            Some(ExitSetup { stage: SetupStage::CreateLimit, ..self }),
                            Progress::Request(
                                KernelRequest::CreateRootClassfulLimit {
                                    iface: String::from_str("wg_exit"),
                                },
                            ),
                        )
                    }
                },
                _ => (None, Progress::Finished(Err(KernelInterfaceError::UnexpectedReply))),
            },
            SetupStage::CreateLimit => (None, Progress::Finished(Ok(()))),
        }
    }
}

} // verus!
