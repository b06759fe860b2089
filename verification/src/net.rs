//! Network addresses as plain values, and the text that the kernel tools read.

use crate::text::{decimal_text, hex_text, push_decimal, push_hex};
use vstd::prelude::*;
use vstd::string::*;

verus! {

/// An IPv4 address: four octets, most significant first.
#[derive(Clone, Copy, Debug, PartialEq, Eq, Hash)]
pub struct Ipv4Address {
    pub octets: [u8; 4],
}

/// An IPv6 address: eight 16-bit segments, most significant first.
#[derive(Clone, Copy, Debug, PartialEq, Eq, Hash)]
pub struct Ipv6Address {
    pub segments: [u16; 8],
}

/// An address of either family.
#[derive(Clone, Copy, Debug, PartialEq, Eq, Hash)]
pub enum IpAddress {
    V4(Ipv4Address),
    V6(Ipv6Address),
}

/// A hardware (link-layer) address.
#[derive(Clone, Copy, Debug, PartialEq, Eq, Hash)]
pub struct MacAddress {
    pub octets: [u8; 6],
}

/// Dotted-quad text of four octets.
pub open spec fn ipv4_text(o: Seq<u8>) -> Seq<char> {
    decimal_text(o[0] as nat) + seq!['.'] + decimal_text(o[1] as nat) + seq!['.'] + decimal_text(
        o[2] as nat,
    ) + seq!['.'] + decimal_text(o[3] as nat)
}

/// Hexadecimal groups separated by colons.
pub open spec fn groups_text(groups: Seq<u16>) -> Seq<char>
    decreases groups.len(),
{
    if groups.len() == 0 {
        Seq::empty()
    } else if groups.len() == 1 {
        hex_text(groups[0] as nat)
    } else {
        groups_text(groups.drop_last()) + seq![':'] + hex_text(groups.last() as nat)
    }
}

/// Whether the `len` segments from `start` on exist and are all zero.
pub open spec fn zero_run(segs: Seq<u16>, start: int, len: int) -> bool {
    &&& 0 <= start
    &&& 0 <= len
    &&& start + len <= segs.len()
    &&& forall|i: int| start <= i < start + len ==> segs[i] == 0
}

/// Whether `(start, len)` is the run that the compressed form elides: the
/// longest run of zero segments, and the first one of that length.
pub open spec fn is_longest_zero_run(segs: Seq<u16>, start: int, len: int) -> bool {
    &&& zero_run(segs, start, len)
    &&& forall|s: int, l: int| #[trigger] zero_run(segs, s, l) ==> l <= len
    &&& forall|s: int| #[trigger] zero_run(segs, s, len) ==> start <= s
}

/// The longest run of zero segments, as `(start, len)`.
pub open spec fn longest_zero_run(segs: Seq<u16>) -> (int, int) {
    choose|p: (int, int)| is_longest_zero_run(segs, p.0, p.1)
}

/// Whether the segments hold an IPv4 address mapped into IPv6 (`::ffff:a.b.c.d`).
pub open spec fn is_ipv4_mapped(segs: Seq<u16>) -> bool {
    segs[0] == 0 && segs[1] == 0 && segs[2] == 0 && segs[3] == 0 && segs[4] == 0 && segs[5]
        == 0xffff
}

/// The four octets held in the last two segments.
pub open spec fn embedded_octets(segs: Seq<u16>) -> Seq<u8> {
    seq![(segs[6] / 256) as u8, (segs[6] % 256) as u8, (segs[7] / 256) as u8, (segs[7] % 256) as u8]
}

/// The text of eight segments with the run `(start, len)` elided when it is longer than one.
pub open spec fn ipv6_text_eliding(segs: Seq<u16>, start: int, len: int) -> Seq<char> {
    if len > 1 {
        groups_text(segs.subrange(0, start)) + seq![':', ':'] + groups_text(
            segs.subrange(start + len, segs.len() as int),
        )
    } else {
        groups_text(segs)
    }
}

/// Canonical text of eight segments: lower-case hexadecimal groups without
/// leading zeros, the longest run of two or more zero groups written `::`
/// (the first such run if several are equally long), and a mapped IPv4
/// address written in dotted-quad form.
pub open spec fn ipv6_text(segs: Seq<u16>) -> Seq<char> {
    if is_ipv4_mapped(segs) {
        seq![':', ':', 'f', 'f', 'f', 'f', ':'] + ipv4_text(embedded_octets(segs))
    } else {
        let run = longest_zero_run(segs);
        ipv6_text_eliding(segs, run.0, run.1)
    }
}

/// Two runs that both qualify as the longest are the same run.
pub proof fn lemma_longest_zero_run_unique(segs: Seq<u16>, s1: int, l1: int, s2: int, l2: int)
    requires
        is_longest_zero_run(segs, s1, l1),
        is_longest_zero_run(segs, s2, l2),
    ensures
        s1 == s2,
        l1 == l2,
{
    assert(zero_run(segs, s1, l1));
    assert(zero_run(segs, s2, l2));
}

/// A run that qualifies as the longest is the one that `longest_zero_run` names.
pub proof fn lemma_longest_zero_run_is(segs: Seq<u16>, start: int, len: int)
    requires
        is_longest_zero_run(segs, start, len),
    ensures
        longest_zero_run(segs) == (start, len),
{
    let witness = (start, len);
    assert(is_longest_zero_run(segs, witness.0, witness.1));
    let p = longest_zero_run(segs);
    lemma_longest_zero_run_unique(segs, start, len, p.0, p.1);
}

impl Ipv4Address {
    pub fn new(a: u8, b: u8, c: u8, d: u8) -> (r: Self)
        ensures
            r.octets@ == seq![a, b, c, d],
    {
        let r = Ipv4Address { octets: [a, b, c, d] };
        assert(r.octets@ =~= seq![a, b, c, d]);
        r
    }

    /// The address in dotted-quad form.
    pub open spec fn text(self) -> Seq<char> {
        ipv4_text(self.octets@)
    }

    /// Whether both are the same address.
    pub fn same(&self, other: &Ipv4Address) -> (r: bool)
        ensures
            r == (self.octets@ == other.octets@),
    {
        let r = self.octets[0] == other.octets[0] && self.octets[1] == other.octets[1]
            && self.octets[2] == other.octets[2] && self.octets[3] == other.octets[3];
        proof {
            if r {
                assert(self.octets@ =~= other.octets@);
            }
        }
        r
    }

    /// Appends the dotted-quad form to `out`.
    pub fn push_text(&self, out: &mut String)
        ensures
            final(out)@ == old(out)@ + self.text(),
    {
        push_octets(out, self.octets[0], self.octets[1], self.octets[2], self.octets[3]);
        proof {
            assert(self.octets@ =~= seq![
                self.octets[0],
                self.octets[1],
                self.octets[2],
                self.octets[3],
            ]);
        }
    }

    /// The address in dotted-quad form.
    pub fn to_text(&self) -> (s: String)
        ensures
            s@ == self.text(),
    {
        let mut s = String::new();
        self.push_text(&mut s);
        assert(s@ =~= self.text());
        s
    }
}

/// Appends four octets in dotted-quad form to `out`.
fn push_octets(out: &mut String, a: u8, b: u8, c: u8, d: u8)
    ensures
        final(out)@ == old(out)@ + ipv4_text(seq![a, b, c, d]),
{
    proof {
        reveal_strlit(".");
    }
    push_decimal(out, a as u128);
    out.append(".");
    push_decimal(out, b as u128);
    out.append(".");
    push_decimal(out, c as u128);
    out.append(".");
    push_decimal(out, d as u128);
    proof {
        assert("."@ =~= seq!['.']);
        assert(out@ =~= old(out)@ + ipv4_text(seq![a, b, c, d]));
    }
}

/// Appends the segments `from..to` as colon-separated hexadecimal groups to `out`.
fn push_groups(out: &mut String, segments: &[u16; 8], from: usize, to: usize)
    requires
        from <= to <= 8,
    ensures
        final(out)@ == old(out)@ + groups_text(segments@.subrange(from as int, to as int)),
{
    proof {
        reveal_strlit(":");
        assert(segments@.subrange(from as int, from as int) =~= Seq::<u16>::empty());
    }
    let mut i: usize = from;
    while i < to
        invariant
            from <= i <= to <= 8,
            ":"@ == seq![':'],
            out@ == old(out)@ + groups_text(segments@.subrange(from as int, i as int)),
        decreases to - i,
    {
        if i > from {
            out.append(":");
        }
        push_hex(out, segments[i] as u64);
        proof {
            let next = segments@.subrange(from as int, i + 1);
            assert(next.drop_last() =~= segments@.subrange(from as int, i as int));
            assert(next.last() == segments@[i as int]);
            assert(out@ =~= old(out)@ + groups_text(next));
        }
        i += 1;
    }
}

impl Ipv6Address {
    pub fn new(segments: [u16; 8]) -> (r: Self)
        ensures
            r.segments == segments,
    {
        Ipv6Address { segments }
    }

    /// The address in canonical text form.
    pub open spec fn text(self) -> Seq<char> {
        ipv6_text(self.segments@)
    }

    /// Whether the address is `::`.
    pub open spec fn unspecified(self) -> bool {
        forall|i: int| 0 <= i < 8 ==> self.segments@[i] == 0
    }

    /// Whether the address lies in `fe80::/10`, the link-local unicast range.
    pub open spec fn link_local(self) -> bool {
        0xfe80 <= self.segments@[0] <= 0xfebf
    }

    /// Whether both are the same address.
    pub fn same(&self, other: &Ipv6Address) -> (r: bool)
        ensures
            r == (self.segments@ == other.segments@),
    {
        let mut i: usize = 0;
        while i < 8
            invariant
                i <= 8,
                forall|j: int| 0 <= j < i ==> self.segments@[j] == other.segments@[j],
            decreases 8 - i,
        {
            if self.segments[i] != other.segments[i] {
                return false;
            }
            i += 1;
        }
        proof {
            assert(self.segments@ =~= other.segments@);
        }
        true
    }

    /// Whether the address is `::`.
    pub fn is_unspecified(&self) -> (r: bool)
        ensures
            r == self.unspecified(),
    {
        let mut i: usize = 0;
        while i < 8
            invariant
                i <= 8,
                forall|j: int| 0 <= j < i ==> self.segments@[j] == 0,
            decreases 8 - i,
        {
            if self.segments[i] != 0 {
                return false;
            }
            i += 1;
        }
        true
    }

    /// Whether the address is scoped to one physical link.
    pub fn is_link_local(&self) -> (r: bool)
        ensures
            r == self.link_local(),
    {
        let first = self.segments[0];
        assert((first & 0xffc0 == 0xfe80) <==> (0xfe80 <= first <= 0xfebf)) by (bit_vector);
        (first & 0xffc0) == 0xfe80
    }

    /// The longest run of zero segments, the first of them if several are equally long.
    fn find_zero_run(&self) -> (r: (usize, usize))
        ensures
            is_longest_zero_run(self.segments@, r.0 as int, r.1 as int),
            r.0 + r.1 <= 8,
    {
        let ghost segs = self.segments@;
        let mut best_start: usize = 0;
        let mut best_len: usize = 0;
        let mut cur_start: usize = 0;
        let mut cur_len: usize = 0;
        let mut i: usize = 0;
        while i < 8
            invariant
                i <= 8,
                segs == self.segments@,
                segs.len() == 8,
                cur_start + cur_len == i,
                zero_run(segs, cur_start as int, cur_len as int),
                cur_start == 0 || segs[cur_start - 1] != 0,
                zero_run(segs, best_start as int, best_len as int),
                best_start + best_len <= i,
                cur_len <= best_len,
                forall|s: int, l: int| #[trigger] zero_run(segs, s, l) && s + l <= i ==> l <= best_len,
                forall|s: int| #[trigger]
                    zero_run(segs, s, best_len as int) && s + best_len <= i ==> best_start <= s,
            decreases 8 - i,
        {
            let ghost old_best_len = best_len;
            let ghost old_best_start = best_start;
            let ghost old_cur_start = cur_start;
            if self.segments[i] == 0 {
                cur_len += 1;
                if cur_len > best_len {
                    best_start = cur_start;
                    best_len = cur_len;
                }
                proof {
                    assert forall|s: int, l: int| #[trigger]
                        zero_run(segs, s, l) && s + l <= i + 1 implies l <= best_len by {
                        if s + l == i + 1 && l >= 1 {
                            if s < cur_start {
                                assert(segs[cur_start - 1] == 0);
                            }
                        }
                    }
                    assert forall|s: int| #[trigger]
                        zero_run(segs, s, best_len as int) && s + best_len <= i
                            + 1 implies best_start <= s by {
                        if best_len != old_best_len {
                            if s + best_len <= i {
                                assert(zero_run(segs, s, best_len as int));
                            }
                        }
                    }
                }
            } else {
                cur_start = i + 1;
                cur_len = 0;
                proof {
                    assert forall|s: int, l: int| #[trigger]
                        zero_run(segs, s, l) && s + l <= i + 1 implies l <= best_len by {
                        if s + l == i + 1 && l >= 1 {
                            assert(segs[i as int] == 0);
                        }
                    }
                    assert forall|s: int| #[trigger]
                        zero_run(segs, s, best_len as int) && s + best_len <= i
                            + 1 implies best_start <= s by {
                        if s + best_len == i + 1 && best_len >= 1 {
                            assert(segs[i as int] == 0);
                        }
                    }
                }
            }
            i += 1;
        }
        (best_start, best_len)
    }

    /// Appends the canonical text form to `out`.
    pub fn push_text(&self, out: &mut String)
        ensures
            final(out)@ == old(out)@ + self.text(),
    {
        let s = &self.segments;
        if s[0] == 0 && s[1] == 0 && s[2] == 0 && s[3] == 0 && s[4] == 0 && s[5] == 0xffff {
            proof {
                reveal_strlit("::ffff:");
            }
            out.append("::ffff:");
            push_octets(
                out,
                (s[6] / 256) as u8,
                (s[6] % 256) as u8,
                (s[7] / 256) as u8,
                (s[7] % 256) as u8,
            );
            proof {
                assert("::ffff:"@ =~= seq![':', ':', 'f', 'f', 'f', 'f', ':']);
                assert(embedded_octets(self.segments@) =~= seq![
                    (s[6] / 256) as u8,
                    (s[6] % 256) as u8,
                    (s[7] / 256) as u8,
                    (s[7] % 256) as u8,
                ]);
                assert(out@ =~= old(out)@ + self.text());
            }
        } else {
            let (start, len) = self.find_zero_run();
            proof {
                lemma_longest_zero_run_is(self.segments@, start as int, len as int);
                reveal_strlit("::");
                assert("::"@ =~= seq![':', ':']);
            }
            if len > 1 {
                push_groups(out, s, 0, start);
                out.append("::");
                push_groups(out, s, start + len, 8);
            } else {
                push_groups(out, s, 0, 8);
                proof {
                    assert(self.segments@.subrange(0, 8) =~= self.segments@);
                }
            }
            proof {
                assert(out@ =~= old(out)@ + self.text());
            }
        }
    }

    /// The address in canonical text form.
    pub fn to_text(&self) -> (s: String)
        ensures
            s@ == self.text(),
    {
        let mut s = String::new();
        self.push_text(&mut s);
        assert(s@ =~= self.text());
        s
    }
}

impl IpAddress {
    /// The address in the text form of its family.
    pub open spec fn text(self) -> Seq<char> {
        match self {
            IpAddress::V4(a) => a.text(),
            IpAddress::V6(a) => a.text(),
        }
    }

    /// Whether the address is a link-local IPv6 address.
    pub open spec fn link_local(self) -> bool {
        match self {
            IpAddress::V4(_) => false,
            IpAddress::V6(a) => a.link_local(),
        }
    }

    pub fn is_ipv6(&self) -> (r: bool)
        ensures
            r == (self is V6),
    {
        match self {
            IpAddress::V4(_) => false,
            IpAddress::V6(_) => true,
        }
    }

    /// Whether both are the same address.
    pub fn same(&self, other: &IpAddress) -> (r: bool)
        ensures
            r == (*self == *other),
    {
        match (self, other) {
            (IpAddress::V4(a), IpAddress::V4(b)) => {
                let r = a.same(b);
                proof {
                    if r {
                        assert(a.octets =~= b.octets);
                    }
                }
                r
            },
            (IpAddress::V6(a), IpAddress::V6(b)) => {
                let r = a.same(b);
                proof {
                    if r {
                        assert(a.segments =~= b.segments);
                    }
                }
                r
            },
            _ => false,
        }
    }

    /// Whether the address is a link-local IPv6 address.
    pub fn is_link_local(&self) -> (r: bool)
        ensures
            r == self.link_local(),
    {
        match self {
            IpAddress::V4(_) => false,
            IpAddress::V6(a) => a.is_link_local(),
        }
    }

    /// Appends the text form to `out`.
    pub fn push_text(&self, out: &mut String)
        ensures
            final(out)@ == old(out)@ + self.text(),
    {
        match self {
            IpAddress::V4(a) => a.push_text(out),
            IpAddress::V6(a) => a.push_text(out),
        }
    }

    /// The address in the text form of its family.
    pub fn to_text(&self) -> (s: String)
        ensures
            s@ == self.text(),
    {
        match self {
            IpAddress::V4(a) => a.to_text(),
            IpAddress::V6(a) => a.to_text(),
        }
    }
}

} // verus!
