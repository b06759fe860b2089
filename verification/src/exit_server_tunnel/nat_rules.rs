//! The NAT bring-up: three firewall rules, appended in order.

use crate::kernel::{
    fail_with,
    failed_with,
    KernelReply,
    KernelReplyView,
    KernelRequest,
    KernelRequestView,
    Progress,
    ProgressView,
    push_word,
};
use vstd::prelude::*;
use vstd::string::*;

verus! {

/// The arguments of the `k`-th of the three firewall rules of the NAT
/// bring-up: masquerade what leaves by the external interface, forward from
/// the tunnel to it, and forward back what belongs to an established flow.
pub open spec fn nat_rule_args(external_interface: Seq<char>, k: int) -> Seq<Seq<char>> {
    if k == 0 {
        seq![
            "-w"@,
            "-t"@,
            "nat"@,
            "-A"@,
            "POSTROUTING"@,
            "-o"@,
            external_interface,
            "-j"@,
            "MASQUERADE"@,
        ]
    } else if k == 1 {
        seq![
            "-w"@,
            "-t"@,
            "filter"@,
            "-A"@,
            "FORWARD"@,
            "-o"@,
            external_interface,
            "-i"@,
            "wg_exit"@,
            "-j"@,
            "ACCEPT"@,
        ]
    } else {
        seq![
            "-w"@,
            "-t"@,
            "filter"@,
            "-A"@,
            "FORWARD"@,
            "-o"@,
            "wg_exit"@,
            "-i"@,
            external_interface,
            "-m"@,
            "state"@,
            "--state"@,
            "RELATED,ESTABLISHED"@,
            "-j"@,
            "ACCEPT"@,
        ]
    }
}

/// The request that installs the `k`-th firewall rule.
pub open spec fn nat_rule_request(external_interface: Seq<char>, k: int) -> KernelRequestView {
    KernelRequestView::AddIptablesRule {
        command: "iptables"@,
        args: nat_rule_args(external_interface, k),
    }
}

/// The request that installs the `k`-th firewall rule.
pub fn build_nat_rule(external_interface: &str, k: u8) -> (r: KernelRequest)
    requires
        k < 3,
    ensures
        r.deep_view() == nat_rule_request(external_interface@, k as int),
{
    let mut args: Vec<String> = Vec::new();
    push_word(&mut args, "-w");
    push_word(&mut args, "-t");
    if k == 0 {
        push_word(&mut args, "nat");
        push_word(&mut args, "-A");
        push_word(&mut args, "POSTROUTING");
        push_word(&mut args, "-o");
        push_word(&mut args, external_interface);
        push_word(&mut args, "-j");
        push_word(&mut args, "MASQUERADE");
    } else if k == 1 {
        push_word(&mut args, "filter");
        push_word(&mut args, "-A");
        push_word(&mut args, "FORWARD");
        push_word(&mut args, "-o");
        push_word(&mut args, external_interface);
        push_word(&mut args, "-i");
        push_word(&mut args, "wg_exit");
        push_word(&mut args, "-j");
        push_word(&mut args, "ACCEPT");
    } else {
        push_word(&mut args, "filter");
        push_word(&mut args, "-A");
        push_word(&mut args, "FORWARD");
        push_word(&mut args, "-o");
        push_word(&mut args, "wg_exit");
        push_word(&mut args, "-i");
        push_word(&mut args, external_interface);
        push_word(&mut args, "-m");
        push_word(&mut args, "state");
        push_word(&mut args, "--state");
        push_word(&mut args, "RELATED,ESTABLISHED");
        push_word(&mut args, "-j");
        push_word(&mut args, "ACCEPT");
    }
    proof {
        assert(args.deep_view() =~= nat_rule_args(external_interface@, k as int));
    }
    KernelRequest::AddIptablesRule { command: String::from_str("iptables"), args }
}

/// A NAT bring-up in flight.
pub struct NatSetup {
    external_interface: String,
    issued: u8,
}

/// A NAT bring-up in flight: for which interface, and how many of the three
/// rules have been requested.
pub struct NatSetupView {
    pub external_interface: Seq<char>,
    pub issued: int,
}

impl NatSetupView {
    pub open spec fn valid(self) -> bool {
        1 <= self.issued <= 3
    }
}

/// What a NAT bring-up does with the reply to its last request: a failure
/// ends it with that failure, a success brings the next rule, and the third
/// success ends it well.
pub open spec fn nat_step(v: NatSetupView, reply: KernelReplyView) -> (
    Option<NatSetupView>,
    ProgressView,
) {
    match reply {
        KernelReplyView::Failed(m) => (None, failed_with(m)),
        _ => if v.issued < 3 {
            (
                Some(NatSetupView { issued: v.issued + 1, ..v }),
                ProgressView::Request(nat_rule_request(v.external_interface, v.issued)),
            )
        } else {
            (None, ProgressView::Finished(Ok(())))
        },
    }
}

impl DeepView for NatSetup {
    type V = NatSetupView;

    closed spec fn deep_view(&self) -> NatSetupView {
        NatSetupView { external_interface: self.external_interface@, issued: self.issued as int }
    }
}

impl NatSetup {
    /// Starts the bring-up: the first rule is to be installed.
    pub fn begin(external_interface: &str) -> (r: (NatSetup, KernelRequest))
        ensures
            r.0.deep_view() == (NatSetupView {
                external_interface: external_interface@,
                issued: 1,
            }),
            r.1.deep_view() == nat_rule_request(external_interface@, 0),
    {
        (
            NatSetup { external_interface: String::from_str(external_interface), issued: 1 },
            build_nat_rule(external_interface, 0),
        )
    }

    /// Takes the reply to the last request and says what comes next.
    pub fn advance(self, reply: &KernelReply) -> (r: (Option<NatSetup>, Progress))
        requires
            self.deep_view().valid(),
        ensures
            (r.0.deep_view(), r.1.deep_view()) == nat_step(self.deep_view(), reply.deep_view()),
            r.0 matches Some(p) ==> p.deep_view().valid(),
    {
        match reply {
            KernelReply::Failed(m) => (None, fail_with(m)),
            _ => {
                if self.issued < 3 {
                    let request = build_nat_rule(self.external_interface.as_str(), self.issued);
                    (
                        Some(
                            NatSetup {
                                external_interface: self.external_interface,
                                issued: self.issued + 1,
                            },
                        ),
                        Progress::Request(request),
                    )
                } else {
                    (None, Progress::Finished(Ok(())))
                }
            },
        }
    }
}

/// A NAT bring-up whose three requests all succeed asks for exactly the
/// three rules, in order, and then ends well.
pub proof fn lemma_nat_installs_three_rules(
    external_interface: Seq<char>,
    r1: KernelReplyView,
    r2: KernelReplyView,
    r3: KernelReplyView,
)
    requires
        !(r1 is Failed),
        !(r2 is Failed),
        !(r3 is Failed),
    ensures
        ({
            let s1 = NatSetupView { external_interface, issued: 1 };
            let s2 = NatSetupView { external_interface, issued: 2 };
            let s3 = NatSetupView { external_interface, issued: 3 };
            &&& nat_step(s1, r1) == (
                Some(s2),
                ProgressView::Request(nat_rule_request(external_interface, 1)),
            )
            &&& nat_step(s2, r2) == (
                Some(s3),
                ProgressView::Request(nat_rule_request(external_interface, 2)),
            )
            &&& nat_step(s3, r3) == (None::<NatSetupView>, ProgressView::Finished(Ok(())))
        }),
{
}

} // verus!
