//! Reading network addresses from the text that `net` writes.

pub mod round_trip;

use crate::address_text::round_trip::{lemma_ipv4_round_trip, lemma_ipv6_round_trip};
use crate::net::{IpAddress, ipv4_text, Ipv4Address, ipv6_text, Ipv6Address};
use crate::text::{chars_of, find_in, place_in, starts_with, text_starts_with};
use vstd::prelude::*;
use vstd::string::*;

verus! {

/// Where the run of digits that starts at `from` ends, looking at no more
/// than `most` characters.
pub open spec fn digits_end(text: Seq<char>, digits: Seq<char>, from: int, most: int) -> int
    decreases most,
{
    if most <= 0 || from < 0 || from >= text.len() || place_in(digits, text[from], 0) < 0 {
        from
    } else {
        digits_end(text, digits, from + 1, most - 1)
    }
}

/// The number that the digits from `from` up to `to` write, in the base
/// that has `digits` as its digits.
pub open spec fn number(text: Seq<char>, digits: Seq<char>, from: int, to: int) -> int
    decreases to - from,
{
    if from >= to {
        0
    } else {
        number(text, digits, from, to - 1) * digits.len() + place_in(digits, text[to - 1], 0)
    }
}

/// Reads a run of at most `most` digits from `from` on: where it ends, and
/// the number it writes.
fn read_digits(text: &Vec<char>, digits: &Vec<char>, from: usize, most: usize) -> (r: (
    usize,
    u32,
))
    requires
        from <= text.len(),
        most <= 4,
        digits.len() <= 16,
    ensures
        r.0 == digits_end(text@, digits@, from as int, most as int),
        r.1 == number(text@, digits@, from as int, r.0 as int),
        from <= r.0 <= from + most,
        r.0 <= text.len(),
        r.1 < 65536,
{
    let mut at = from;
    let mut value: u32 = 0;
    let mut left = most;
    let ghost base = digits@.len() as int;
    while left > 0 && at < text.len()
        invariant
            from <= at <= text.len(),
            at + left == from + most,
            most <= 4,
            base == digits@.len(),
            base <= 16,
            digits_end(text@, digits@, from as int, most as int) == digits_end(
                text@,
                digits@,
                at as int,
                left as int,
            ),
            value == number(text@, digits@, from as int, at as int),
            0 <= value,
            (at - from == 0 ==> value == 0),
            (at - from == 1 ==> value < 16),
            (at - from == 2 ==> value < 256),
            (at - from == 3 ==> value < 4096),
            value < 65536,
        decreases left,
    {
        match find_in(digits, text[at]) {
            Some(d) => {
                let size = digits.len() as u32;
                assert(value * size <= 4095 * 16) by (nonlinear_arith)
                    requires
                        0 <= value <= 4095,
                        0 <= size <= 16,
                ;
                assert(at - from == 0 ==> value * size + d < 16);
                assert(at - from == 1 ==> value * size + d < 256) by (nonlinear_arith)
                    requires
                        at - from == 1 ==> value < 16,
                        0 <= value,
                        0 <= size <= 16,
                        0 <= d < size,
                ;
                assert(at - from == 2 ==> value * size + d < 4096) by (nonlinear_arith)
                    requires
                        at - from == 2 ==> value < 256,
                        0 <= value,
                        0 <= size <= 16,
                        0 <= d < size,
                ;
                assert(value * size + d < 65536);
                value = value * size + d as u32;
                at += 1;
                left -= 1;
            },
            None => {
                return (at, value);
            },
        }
    }
    (at, value)
}

/// The four octets that `text` writes in dotted-quad form from `from` on,
/// up to its end: four runs of one to three decimal digits, none above 255,
/// with dots between them.
pub open spec fn read_quad(text: Seq<char>, from: int) -> Option<Seq<u8>> {
    let dec = "0123456789"@;
    let a = digits_end(text, dec, from, 3);
    let b = digits_end(text, dec, a + 1, 3);
    let c = digits_end(text, dec, b + 1, 3);
    let d = digits_end(text, dec, c + 1, 3);
    if from < a < text.len() && text[a] == '.' && a + 1 < b < text.len() && text[b] == '.' && b + 1
        < c < text.len() && text[c] == '.' && c + 1 < d && d == text.len() && number(
        text,
        dec,
        from,
        a,
    ) <= 255 && number(text, dec, a + 1, b) <= 255 && number(text, dec, b + 1, c) <= 255 && number(
        text,
        dec,
        c + 1,
        d,
    ) <= 255 {
        Some(
            seq![
                number(text, dec, from, a) as u8,
                number(text, dec, a + 1, b) as u8,
                number(text, dec, b + 1, c) as u8,
                number(text, dec, c + 1, d) as u8,
            ],
        )
    } else {
        None
    }
}

/// Reads one octet and the dot after it.
fn read_octet(text: &Vec<char>, dec: &Vec<char>, from: usize, last: bool) -> (r: Option<
    (usize, u8),
>)
    requires
        from <= text.len(),
        dec@ == "0123456789"@,
        dec@.len() == 10,
    ensures
        ({
            let end = digits_end(text@, dec@, from as int, 3);
            let value = number(text@, dec@, from as int, end);
            let good = from < end && value <= 255 && if last {
                end == text.len()
            } else {
                end < text.len() && text@[end] == '.'
            };
            match r {
                Some((next, octet)) => good && octet == value && next == if last {
                    end
                } else {
                    end + 1
                },
                None => !good,
            }
        }),
{
    let (end, value) = read_digits(text, dec, from, 3);
    if end == from || value > 255 {
        return None;
    }
    if last {
        if end != text.len() {
            return None;
        }
        Some((end, value as u8))
    } else {
        if end >= text.len() || text[end] != '.' {
            return None;
        }
        Some((end + 1, value as u8))
    }
}

/// Reads four octets in dotted-quad form from `from` on, up to the end.
fn read_quad_at(text: &Vec<char>, from: usize) -> (r: Option<[u8; 4]>)
    requires
        from <= text.len(),
    ensures
        match r {
            Some(o) => read_quad(text@, from as int) == Some(o@),
            None => read_quad(text@, from as int) is None,
        },
{
    let dec = chars_of("0123456789");
    proof {
        reveal_strlit("0123456789");
    }
    let (a, o0) = match read_octet(text, &dec, from, false) {
        Some(r) => r,
        None => {
            return None;
        },
    };
    let (b, o1) = match read_octet(text, &dec, a, false) {
        Some(r) => r,
        None => {
            return None;
        },
    };
    let (c, o2) = match read_octet(text, &dec, b, false) {
        Some(r) => r,
        None => {
            return None;
        },
    };
    let (_, o3) = match read_octet(text, &dec, c, true) {
        Some(r) => r,
        None => {
            return None;
        },
    };
    let o = [o0, o1, o2, o3];
    proof {
        assert(o@ =~= seq![o0, o1, o2, o3]);
    }
    Some(o)
}

/// The octets that `text` writes in dotted-quad form, if writing them
/// again gives `text`.
pub open spec fn parse_ipv4(text: Seq<char>) -> Option<Seq<u8>> {
    match read_quad(text, 0) {
        Some(o) => if ipv4_text(o) == text {
            Some(o)
        } else {
            None
        },
        None => None,
    }
}

impl Ipv4Address {
    /// The address that `text` writes: the one whose text it is, if there
    /// is one.
    pub fn from_text(text: &str) -> (r: Option<Ipv4Address>)
        ensures
            match r {
                Some(a) => a.text() == text@,
                None => forall|a: Ipv4Address| a.text() != text@,
            },
    {
        let chars = chars_of(text);
        let read = read_quad_at(&chars, 0);
        proof {
            assert forall|a: Ipv4Address| a.text() == text@ implies parse_ipv4(text@) is Some by {
                lemma_ipv4_round_trip(a.octets@);
            }
        }
        let octets = match read {
            Some(o) => o,
            None => {
                return None;
            },
        };
        let a = Ipv4Address { octets };
        let written = a.to_text();
        let same = written == String::from_str(text);
        if same {
            Some(a)
        } else {
            None
        }
    }
}

/// The groups read so far: those before the elision, those after it, and
/// whether the elision `::` was met.
pub struct Groups {
    pub left: Seq<u16>,
    pub right: Seq<u16>,
    pub elided: bool,
}

/// Reads groups of one to four hexadecimal digits from `pos` on, up to the
/// end of `text`: a colon stands between two groups, two colons once where
/// groups are elided, and nothing else is in place.
pub open spec fn scan(text: Seq<char>, pos: int, so_far: Groups) -> Option<Groups>
    decreases text.len() - pos,
{
    let hex = "0123456789abcdef"@;
    if pos < 0 {
        None
    } else if pos >= text.len() {
        Some(so_far)
    } else {
        let end = digits_end(text, hex, pos, 4);
        let group = number(text, hex, pos, end) as u16;
        let grown = if so_far.elided {
            Groups { right: so_far.right.push(group), ..so_far }
        } else {
            Groups { left: so_far.left.push(group), ..so_far }
        };
        if end <= pos {
            None
        } else if end >= text.len() {
            Some(grown)
        } else if text[end] != ':' || end + 1 >= text.len() {
            None
        } else if text[end + 1] == ':' {
            if so_far.elided {
                None
            } else {
                scan(text, end + 2, Groups { elided: true, ..grown })
            }
        } else {
            scan(text, end + 1, grown)
        }
    }
}

/// The eight segments that the groups stand for: all eight were written,
/// or the elision stands for the zeros that are missing, at least one.
pub open spec fn assemble(groups: Groups) -> Option<Seq<u16>> {
    if !groups.elided {
        if groups.left.len() == 8 {
            Some(groups.left)
        } else {
            None
        }
    } else if groups.left.len() + groups.right.len() <= 7 {
        Some(
            groups.left + Seq::new(
                (8 - groups.left.len() - groups.right.len()) as nat,
                |i: int| 0u16,
            ) + groups.right,
        )
    } else {
        None
    }
}

/// The segments that `text` stands for, read leniently: a mapped IPv4
/// address after `::ffff:`, or groups with at most one elision.
pub open spec fn read_ipv6(text: Seq<char>) -> Option<Seq<u16>> {
    if starts_with(text, "::ffff:"@) && read_quad(text, 7) is Some {
        let o = read_quad(text, 7)->Some_0;
        Some(
            seq![
                0u16,
                0u16,
                0u16,
                0u16,
                0u16,
                0xffffu16,
                (o[0] * 256 + o[1]) as u16,
                (o[2] * 256 + o[3]) as u16,
            ],
        )
    } else {
        let groups = if starts_with(text, "::"@) {
            scan(text, 2, Groups { left: Seq::empty(), right: Seq::empty(), elided: true })
        } else {
            scan(text, 0, Groups { left: Seq::empty(), right: Seq::empty(), elided: false })
        };
        match groups {
            Some(g) => assemble(g),
            None => None,
        }
    }
}

/// The segments that `text` writes in canonical form: those it stands for,
/// if writing them again gives `text`.
pub open spec fn parse_ipv6(text: Seq<char>) -> Option<Seq<u16>> {
    match read_ipv6(text) {
        Some(segments) => if segments.len() == 8 && ipv6_text(segments) == text {
            Some(segments)
        } else {
            None
        },
        None => None,
    }
}

/// Reads groups from `start` on; see `scan`.
fn scan_groups(text: &Vec<char>, start: usize, elided: bool) -> (r: Option<(Vec<u16>, Vec<u16>, bool)>)
    requires
        start <= text.len(),
    ensures
        ({
            let spec = scan(
                text@,
                start as int,
                Groups { left: Seq::empty(), right: Seq::empty(), elided },
            );
            match r {
                Some((left, right, e)) => spec == Some(Groups { left: left@, right: right@, elided: e }),
                None => spec is None,
            }
        }),
{
    let hex = chars_of("0123456789abcdef");
    proof {
        reveal_strlit("0123456789abcdef");
    }
    let mut left: Vec<u16> = Vec::new();
    let mut right: Vec<u16> = Vec::new();
    let mut seen = elided;
    let mut pos = start;
    let ghost goal = scan(
        text@,
        start as int,
        Groups { left: Seq::empty(), right: Seq::empty(), elided },
    );
    let n = text.len();
    while pos < n
        invariant
            pos <= n,
            n == text.len(),
            hex@ == "0123456789abcdef"@,
            hex@.len() == 16,
            goal == scan(
                text@,
                start as int,
                Groups { left: Seq::empty(), right: Seq::empty(), elided },
            ),
            goal == scan(text@, pos as int, Groups { left: left@, right: right@, elided: seen }),
        decreases n - pos,
    {
        let (end, value) = read_digits(text, &hex, pos, 4);
        if end == pos {
            return None;
        }
        if seen {
            right.push(value as u16);
        } else {
            left.push(value as u16);
        }
        if end >= n {
            return Some((left, right, seen));
        }
        if text[end] != ':' || end + 1 >= n {
            return None;
        }
        if text[end + 1] == ':' {
            if seen {
                return None;
            }
            seen = true;
            pos = end + 2;
        } else {
            pos = end + 1;
        }
    }
    Some((left, right, seen))
}

/// The eight segments that the groups stand for; see `assemble`.
fn assemble_groups(left: &Vec<u16>, right: &Vec<u16>, elided: bool) -> (r: Option<[u16; 8]>)
    ensures
        match r {
            Some(segments) => assemble(
                Groups { left: left@, right: right@, elided },
            ) == Some(segments@),
            None => assemble(Groups { left: left@, right: right@, elided }) is None,
        },
{
    let l = left.len();
    let m = right.len();
    if !elided {
        if l != 8 {
            return None;
        }
    } else if l > 7 || m > 7 - l {
        return None;
    }
    let mut segments = [0u16; 8];
    let mut i: usize = 0;
    while i < l
        invariant
            i <= l <= 8,
            l == left.len(),
            forall|j: int| 0 <= j < i ==> segments@[j] == left@[j],
            forall|j: int| i <= j < 8 ==> segments@[j] == 0,
        decreases l - i,
    {
        segments[i] = left[i];
        i += 1;
    }
    if !elided {
        proof {
            assert(segments@ =~= left@);
        }
        return Some(segments);
    }
    let mut k: usize = 0;
    while k < m
        invariant
            k <= m,
            l + m <= 7,
            l == left.len(),
            m == right.len(),
            forall|j: int| 0 <= j < l ==> segments@[j] == left@[j],
            forall|j: int| l <= j < 8 - m ==> segments@[j] == 0,
            forall|j: int| 0 <= j < k ==> segments@[8 - m + j] == right@[j],
        decreases m - k,
    {
        segments[8 - m + k] = right[k];
        k += 1;
    }
    proof {
        assert(segments@ =~= left@ + Seq::new((8 - l - m) as nat, |i: int| 0u16) + right@);
    }
    Some(segments)
}

/// The segments that `text` stands for, read leniently; see `read_ipv6`.
fn read_segments(text: &str, chars: &Vec<char>) -> (r: Option<[u16; 8]>)
    requires
        chars@ == text@,
    ensures
        match r {
            Some(segments) => read_ipv6(text@) == Some(segments@),
            None => read_ipv6(text@) is None,
        },
{
    proof {
        reveal_strlit("::ffff:");
        reveal_strlit("::");
    }
    if text_starts_with(text, "::ffff:") {
        if let Some(o) = read_quad_at(chars, 7) {
            let segments = [
                0u16,
                0u16,
                0u16,
                0u16,
                0u16,
                0xffffu16,
                o[0] as u16 * 256 + o[1] as u16,
                o[2] as u16 * 256 + o[3] as u16,
            ];
            proof {
                assert(segments@ =~= seq![
                    0u16,
                    0u16,
                    0u16,
                    0u16,
                    0u16,
                    0xffffu16,
                    (o@[0] * 256 + o@[1]) as u16,
                    (o@[2] * 256 + o@[3]) as u16,
                ]);
            }
            return Some(segments);
        }
    }
    let groups = if text_starts_with(text, "::") {
        scan_groups(chars, 2, true)
    } else {
        scan_groups(chars, 0, false)
    };
    match groups {
        Some((left, right, elided)) => assemble_groups(&left, &right, elided),
        None => None,
    }
}

impl Ipv6Address {
    /// The address that `text` writes in canonical form: the one whose text
    /// it is, if there is one.
    pub fn from_text(text: &str) -> (r: Option<Ipv6Address>)
        ensures
            match r {
                Some(a) => a.text() == text@,
                None => forall|a: Ipv6Address| a.text() != text@,
            },
    {
        let chars = chars_of(text);
        let read = read_segments(text, &chars);
        proof {
            assert forall|a: Ipv6Address| a.text() == text@ implies parse_ipv6(text@) is Some by {
                lemma_ipv6_round_trip(a.segments@);
            }
        }
        let segments = match read {
            Some(s) => s,
            None => {
                return None;
            },
        };
        let a = Ipv6Address { segments };
        let written = a.to_text();
        let same = written == String::from_str(text);
        if same {
            Some(a)
        } else {
            None
        }
    }
}

impl IpAddress {
    /// The address that `text` writes, of either family: the one whose text
    /// it is, if there is one.
    pub fn from_text(text: &str) -> (r: Option<IpAddress>)
        ensures
            match r {
                Some(ip) => ip.text() == text@,
                None => forall|ip: IpAddress| ip.text() != text@,
            },
    {
        match Ipv4Address::from_text(text) {
            Some(a) => Some(IpAddress::V4(a)),
            None => match Ipv6Address::from_text(text) {
                Some(a) => Some(IpAddress::V6(a)),
                None => {
                    proof {
                        assert forall|ip: IpAddress| ip.text() != text@ by {
                            match ip {
                                IpAddress::V4(a) => {},
                                IpAddress::V6(a) => {},
                            }
                        }
                    }
                    None
                },
            },
        }
    }
}

} // verus!
