//! What `net` writes, `address_text` reads back.

use crate::address_text::{
    digits_end,
    Groups,
    number,
    parse_ipv4,
    parse_ipv6,
    read_ipv6,
    read_quad,
    scan,
};
use crate::clu::init;
use crate::net::{
    embedded_octets,
    groups_text,
    IpAddress,
    ipv4_text,
    ipv6_text,
    is_ipv4_mapped,
    is_longest_zero_run,
    longest_zero_run,
    zero_run,
};
use crate::text::{decimal_text, digit_char, hex_text, place_in, starts_with};
use vstd::prelude::*;

verus! {

/// Whether `piece` lies in `text` at `at`.
pub open spec fn lies_at(text: Seq<char>, at: int, piece: Seq<char>) -> bool {
    0 <= at && at + piece.len() <= text.len() && text.subrange(at, at + piece.len()) == piece
}

/// The sixteen hexadecimal digits are apart, and each is the character of
/// its value; the first ten are the decimal digits.
pub proof fn lemma_digits()
    ensures
        "0123456789abcdef"@.len() == 16,
        "0123456789"@.len() == 10,
        forall|d: int| 0 <= d < 16 ==> "0123456789abcdef"@[d] == #[trigger] digit_char(d),
        forall|d: int| 0 <= d < 10 ==> "0123456789"@[d] == #[trigger] digit_char(d),
        forall|i: int, j: int| 0 <= i < j < 16 ==> #[trigger] digit_char(i) != #[trigger] digit_char(j),
        forall|d: int| 0 <= d < 16 ==> #[trigger] digit_char(d) != ':' && digit_char(d) != '.',
{
    reveal_strlit("0123456789abcdef");
    reveal_strlit("0123456789");
}

/// A character that stands at `v` in an alphabet, and not before, has the
/// place `v`.
proof fn lemma_place(alphabet: Seq<char>, c: char, from: int, v: int)
    requires
        0 <= from <= v < alphabet.len(),
        alphabet[v] == c,
        forall|i: int| from <= i < v ==> alphabet[i] != c,
    ensures
        place_in(alphabet, c, from) == v,
    decreases v - from,
{
    if from < v {
        lemma_place(alphabet, c, from + 1, v);
    }
}

/// A character that does not stand in an alphabet has no place in it.
proof fn lemma_no_place(alphabet: Seq<char>, c: char, from: int)
    requires
        0 <= from,
        forall|i: int| from <= i < alphabet.len() ==> alphabet[i] != c,
    ensures
        place_in(alphabet, c, from) == -1,
    decreases alphabet.len() - from,
{
    if from < alphabet.len() {
        lemma_no_place(alphabet, c, from + 1);
    }
}

/// The place of a digit among the hexadecimal digits is its value; among
/// the decimal digits too, if it is one; colon and dot have no place.
pub proof fn lemma_digit_places()
    ensures
        forall|d: int|
            0 <= d < 16 ==> place_in("0123456789abcdef"@, #[trigger] digit_char(d), 0) == d,
        forall|d: int| 0 <= d < 10 ==> place_in("0123456789"@, #[trigger] digit_char(d), 0) == d,
        place_in("0123456789abcdef"@, ':', 0) == -1,
        place_in("0123456789abcdef"@, '.', 0) == -1,
        place_in("0123456789"@, ':', 0) == -1,
        place_in("0123456789"@, '.', 0) == -1,
{
    reveal_strlit("0123456789abcdef");
    reveal_strlit("0123456789");
    let hex = "0123456789abcdef"@;
    let dec = "0123456789"@;
    assert forall|d: int| 0 <= d < 16 implies place_in(hex, #[trigger] digit_char(d), 0) == d by {
        lemma_place(hex, digit_char(d), 0, d);
    }
    assert forall|d: int| 0 <= d < 10 implies place_in(dec, #[trigger] digit_char(d), 0) == d by {
        lemma_place(dec, digit_char(d), 0, d);
    }
    lemma_no_place(hex, ':', 0);
    lemma_no_place(hex, '.', 0);
    lemma_no_place(dec, ':', 0);
    lemma_no_place(dec, '.', 0);
}

/// The digits of a number below 65536 in base sixteen: one to four, each a
/// hexadecimal digit, and together they write the number.
pub proof fn lemma_hex_text(v: nat)
    requires
        v < 65536,
    ensures
        1 <= hex_text(v).len() <= 4,
        v < 16 ==> hex_text(v).len() == 1,
        16 <= v < 256 ==> hex_text(v).len() == 2,
        256 <= v < 4096 ==> hex_text(v).len() == 3,
        4096 <= v ==> hex_text(v).len() == 4,
        forall|i: int|
            0 <= i < hex_text(v).len() ==> place_in("0123456789abcdef"@, #[trigger] hex_text(v)[i], 0)
                >= 0,
        number(hex_text(v), "0123456789abcdef"@, 0, hex_text(v).len() as int) == v,
    decreases v,
{
    lemma_digit_places();
    lemma_digits();
    let hex = "0123456789abcdef"@;
    let s = hex_text(v);
    if v < 16 {
        assert(s[0] == digit_char(v as int));
        assert(number(s, hex, 0, 0) == 0);
        assert(number(s, hex, 0, 1) == 0 * 16 + place_in(hex, s[0], 0));
    } else {
        let head = hex_text(v / 16);
        lemma_hex_text(v / 16);
        assert(s == head.push(digit_char((v % 16) as int)));
        lemma_number_prefix(s, head, hex, head.len() as int);
        assert(number(s, hex, 0, s.len() as int) == number(s, hex, 0, s.len() - 1) * 16 + place_in(
            hex,
            s[s.len() - 1],
            0,
        ));
        assert forall|i: int| 0 <= i < s.len() implies place_in(hex, #[trigger] s[i], 0) >= 0 by {
            if i < head.len() {
                assert(s[i] == head[i]);
            }
        }
    }
}

/// The digits of a number below 256 in base ten: one to three, each a
/// decimal digit, none a leading zero but for zero itself, and together
/// they write the number.
pub proof fn lemma_decimal_text(v: nat)
    requires
        v < 1000,
    ensures
        1 <= decimal_text(v).len() <= 3,
        v < 10 ==> decimal_text(v).len() == 1,
        10 <= v < 100 ==> decimal_text(v).len() == 2,
        100 <= v ==> decimal_text(v).len() == 3,
        forall|i: int|
            0 <= i < decimal_text(v).len() ==> place_in("0123456789"@, #[trigger] decimal_text(v)[i], 0)
                >= 0,
        number(decimal_text(v), "0123456789"@, 0, decimal_text(v).len() as int) == v,
    decreases v,
{
    lemma_digit_places();
    lemma_digits();
    let dec = "0123456789"@;
    let s = decimal_text(v);
    if v < 10 {
        assert(s[0] == digit_char(v as int));
        assert(number(s, dec, 0, 0) == 0);
        assert(number(s, dec, 0, 1) == 0 * 10 + place_in(dec, s[0], 0));
    } else {
        let head = decimal_text(v / 10);
        lemma_decimal_text(v / 10);
        assert(s == head.push(digit_char((v % 10) as int)));
        lemma_number_prefix(s, head, dec, head.len() as int);
        assert(number(s, dec, 0, s.len() as int) == number(s, dec, 0, s.len() - 1) * 10 + place_in(
            dec,
            s[s.len() - 1],
            0,
        ));
        assert forall|i: int| 0 <= i < s.len() implies place_in(dec, #[trigger] s[i], 0) >= 0 by {
            if i < head.len() {
                assert(s[i] == head[i]);
            }
        }
    }
}

/// The number that the first `to` characters write does not depend on what
/// follows them.
proof fn lemma_number_prefix(long: Seq<char>, short: Seq<char>, digits: Seq<char>, to: int)
    requires
        0 <= to <= short.len() <= long.len(),
        forall|i: int| 0 <= i < short.len() ==> long[i] == short[i],
    ensures
        number(long, digits, 0, to) == number(short, digits, 0, to),
    decreases to,
{
    if to > 0 {
        lemma_number_prefix(long, short, digits, to - 1);
    }
}

/// The number that a piece writes is the number that the text writes where
/// the piece lies.
pub proof fn lemma_number_at(text: Seq<char>, at: int, piece: Seq<char>, digits: Seq<char>, to: int)
    requires
        lies_at(text, at, piece),
        0 <= to <= piece.len(),
    ensures
        number(text, digits, at, at + to) == number(piece, digits, 0, to),
    decreases to,
{
    if to > 0 {
        lemma_number_at(text, at, piece, digits, to - 1);
        assert(text.subrange(at, at + piece.len())[to - 1] == text[at + to - 1]);
    }
}

/// A run of digits ends where the digits end, or where no more are looked at.
pub proof fn lemma_digits_end(text: Seq<char>, digits: Seq<char>, from: int, count: int, most: int)
    requires
        0 <= from,
        0 <= count <= most,
        from + count <= text.len(),
        forall|i: int| from <= i < from + count ==> place_in(digits, #[trigger] text[i], 0) >= 0,
        count == most || from + count == text.len() || place_in(digits, text[from + count], 0) < 0,
    ensures
        digits_end(text, digits, from, most) == from + count,
    decreases count,
{
    if count > 0 {
        lemma_digits_end(text, digits, from + 1, count - 1, most - 1);
    }
}

/// An octet that lies in a text in decimal, before a dot or at the end, is
/// read there as it was written.
proof fn lemma_octet_at(text: Seq<char>, at: int, v: u8, last: bool)
    requires
        lies_at(text, at, decimal_text(v as nat)),
        if last {
            at + decimal_text(v as nat).len() == text.len()
        } else {
            at + decimal_text(v as nat).len() < text.len() && text[at + decimal_text(
                v as nat,
            ).len()] == '.'
        },
    ensures
        digits_end(text, "0123456789"@, at, 3) == at + decimal_text(v as nat).len(),
        number(text, "0123456789"@, at, at + decimal_text(v as nat).len()) == v,
        decimal_text(v as nat).len() >= 1,
{
    let dec = "0123456789"@;
    let piece = decimal_text(v as nat);
    lemma_decimal_text(v as nat);
    lemma_digit_places();
    lemma_number_at(text, at, piece, dec, piece.len() as int);
    assert forall|i: int| at <= i < at + piece.len() implies place_in(dec, #[trigger] text[i], 0)
        >= 0 by {
        assert(text.subrange(at, at + piece.len())[i - at] == text[i]);
    }
    lemma_digits_end(text, dec, at, piece.len() as int, 3);
}

/// Four octets that lie at the end of a text in dotted-quad form are read
/// there as they were written.
pub proof fn lemma_quad_at(text: Seq<char>, from: int, o: Seq<u8>)
    requires
        o.len() == 4,
        lies_at(text, from, ipv4_text(o)),
        from + ipv4_text(o).len() == text.len(),
    ensures
        read_quad(text, from) == Some(o),
{
    let d0 = decimal_text(o[0] as nat);
    let d1 = decimal_text(o[1] as nat);
    let d2 = decimal_text(o[2] as nat);
    let d3 = decimal_text(o[3] as nat);
    let quad = ipv4_text(o);
    let a = from + d0.len();
    let b = a + 1 + d1.len();
    let c = b + 1 + d2.len();
    let d = c + 1 + d3.len();
    assert(quad =~= d0 + seq!['.'] + d1 + seq!['.'] + d2 + seq!['.'] + d3);
    assert(quad.len() == d0.len() + d1.len() + d2.len() + d3.len() + 3);
    assert forall|i: int| 0 <= i < quad.len() implies text[from + i] == quad[i] by {
        assert(text.subrange(from, from + quad.len())[i] == text[from + i]);
    }
    let q1 = d0 + seq!['.'];
    let q2 = q1 + d1;
    let q3 = q2 + seq!['.'];
    let q4 = q3 + d2;
    let q5 = q4 + seq!['.'];
    assert(quad == q5 + d3);
    assert forall|i: int| 0 <= i < d1.len() implies quad[d0.len() + 1 + i] == d1[i] by {
        assert(q2[q1.len() + i] == d1[i]);
        assert(q3[q1.len() + i] == q2[q1.len() + i]);
        assert(q4[q1.len() + i] == q3[q1.len() + i]);
        assert(q5[q1.len() + i] == q4[q1.len() + i]);
    }
    assert forall|i: int| 0 <= i < d2.len() implies quad[q3.len() + i] == d2[i] by {
        assert(q4[q3.len() + i] == d2[i]);
        assert(q5[q3.len() + i] == q4[q3.len() + i]);
    }
    assert forall|i: int| 0 <= i < d3.len() implies quad[q5.len() + i] == d3[i] by {}
    assert(text.subrange(from, a) =~= d0);
    assert(text.subrange(a + 1, b) =~= d1) by {
        assert forall|i: int| 0 <= i < d1.len() implies text.subrange(a + 1, b)[i] == d1[i] by {
            assert(text[from + (d0.len() + 1 + i)] == quad[d0.len() + 1 + i]);
        }
    }
    assert(text.subrange(b + 1, c) =~= d2) by {
        assert forall|i: int| 0 <= i < d2.len() implies text.subrange(b + 1, c)[i] == d2[i] by {
            assert(text[from + (q3.len() + i)] == quad[q3.len() + i]);
        }
    }
    assert(text.subrange(c + 1, d) =~= d3) by {
        assert forall|i: int| 0 <= i < d3.len() implies text.subrange(c + 1, d)[i] == d3[i] by {
            assert(text[from + (q5.len() + i)] == quad[q5.len() + i]);
        }
    }
    assert(text[a] == quad[a - from]);
    assert(text[b] == quad[b - from]);
    assert(text[c] == quad[c - from]);
    lemma_octet_at(text, from, o[0], false);
    lemma_octet_at(text, a + 1, o[1], false);
    lemma_octet_at(text, b + 1, o[2], false);
    lemma_octet_at(text, c + 1, o[3], true);
    assert(read_quad(text, from)->Some_0 =~= o);
}

/// Round trip. An IPv4 address that was written is read back as it was.
pub proof fn lemma_ipv4_round_trip(o: Seq<u8>)
    requires
        o.len() == 4,
    ensures
        parse_ipv4(ipv4_text(o)) == Some(o),
{
    let text = ipv4_text(o);
    assert(text.subrange(0, text.len() as int) =~= text);
    lemma_quad_at(text, 0, o);
}

/// Groups written one after the other are the first group, a colon, and
/// the others.
proof fn lemma_groups_first(groups: Seq<u16>)
    requires
        groups.len() >= 2,
    ensures
        groups_text(groups) == hex_text(groups[0] as nat) + seq![':'] + groups_text(
            groups.drop_first(),
        ),
    decreases groups.len(),
{
    let init = groups.drop_last();
    let rest = groups.drop_first();
    if groups.len() == 2 {
        assert(init.len() == 1 && init[0] == groups[0]);
        assert(rest.len() == 1 && rest[0] == groups[1]);
        assert(groups_text(groups) =~= hex_text(groups[0] as nat) + seq![':'] + groups_text(rest));
    } else {
        lemma_groups_first(init);
        assert(init.drop_first() =~= rest.drop_last());
        assert(init[0] == groups[0]);
        assert(rest.last() == groups.last());
        let middle = groups_text(rest.drop_last());
        let last = hex_text(groups.last() as nat);
        assert(groups_text(groups) == groups_text(init) + seq![':'] + last);
        assert(groups_text(init) == hex_text(groups[0] as nat) + seq![':'] + middle);
        assert(groups_text(rest) == middle + seq![':'] + last);
        assert(groups_text(groups) =~= hex_text(groups[0] as nat) + seq![':'] + groups_text(rest));
    }
}

/// What written groups are made of: hexadecimal digits and colons, and a
/// digit comes first.
proof fn lemma_groups_chars(groups: Seq<u16>)
    requires
        groups.len() >= 1,
    ensures
        groups_text(groups).len() >= 1,
        place_in("0123456789abcdef"@, groups_text(groups)[0], 0) >= 0,
        forall|i: int|
            0 <= i < groups_text(groups).len() ==> {
                ||| (#[trigger] groups_text(groups)[i]) == ':'
                ||| place_in("0123456789abcdef"@, groups_text(groups)[i], 0) >= 0
            },
    decreases groups.len(),
{
    lemma_hex_text(groups[0] as nat);
    if groups.len() >= 2 {
        lemma_groups_first(groups);
        lemma_groups_chars(groups.drop_first());
        let head = hex_text(groups[0] as nat) + seq![':'];
        let tail = groups_text(groups.drop_first());
        let all = groups_text(groups);
        assert(all == head + tail);
        assert forall|i: int| 0 <= i < all.len() implies {
            ||| (#[trigger] all[i]) == ':'
            ||| place_in("0123456789abcdef"@, all[i], 0) >= 0
        } by {
            if i < head.len() {
                if i < head.len() - 1 {
                    assert(all[i] == hex_text(groups[0] as nat)[i]);
                } else {
                    assert(all[i] == ':');
                }
            } else {
                assert(all[i] == tail[i - head.len()]);
            }
        }
        assert(all[0] == hex_text(groups[0] as nat)[0]);
    }
}

/// The groups read so far, with `more` added on the side that is being read.
pub open spec fn grown_by(so_far: Groups, more: Seq<u16>) -> Groups {
    if so_far.elided {
        Groups { right: so_far.right + more, ..so_far }
    } else {
        Groups { left: so_far.left + more, ..so_far }
    }
}

/// Groups that lie in a text, up to its end or up to an elision, are read
/// there as they were written.
proof fn lemma_scan(text: Seq<char>, pos: int, groups: Seq<u16>, so_far: Groups)
    requires
        groups.len() >= 1,
        lies_at(text, pos, groups_text(groups)),
        ({
            let end = pos + groups_text(groups).len();
            ||| end == text.len()
            ||| end + 2 <= text.len() && text[end] == ':' && text[end + 1] == ':' && !so_far.elided
        }),
    ensures
        ({
            let end = pos + groups_text(groups).len();
            scan(text, pos, so_far) == if end == text.len() {
                Some(grown_by(so_far, groups))
            } else {
                scan(text, end + 2, Groups { elided: true, ..grown_by(so_far, groups) })
            }
        }),
    decreases groups.len(),
{
    let hex = "0123456789abcdef"@;
    let all = groups_text(groups);
    let end = pos + all.len();
    let first = hex_text(groups[0] as nat);
    lemma_hex_text(groups[0] as nat);
    lemma_digit_places();
    assert forall|i: int| 0 <= i < all.len() implies text[pos + i] == all[i] by {
        assert(text.subrange(pos, pos + all.len())[i] == text[pos + i]);
    }
    let one = seq![groups[0]];
    let grown = grown_by(so_far, one);
    if groups.len() == 1 {
        assert(all == first);
        lemma_number_at(text, pos, first, hex, first.len() as int);
        assert forall|i: int| pos <= i < pos + first.len() implies place_in(hex, #[trigger] text[i], 0)
            >= 0 by {
            assert(text[pos + (i - pos)] == first[i - pos]);
        }
        lemma_digits_end(text, hex, pos, first.len() as int, 4);
        assert(groups =~= one);
        assert(grown.left =~= grown_by(so_far, groups).left);
        assert(grown.right =~= grown_by(so_far, groups).right);
        if so_far.elided {
            assert(so_far.right.push(groups[0]) =~= so_far.right + one);
        } else {
            assert(so_far.left.push(groups[0]) =~= so_far.left + one);
        }
    } else {
        lemma_groups_first(groups);
        let rest = groups.drop_first();
        let tail = groups_text(rest);
        lemma_groups_chars(rest);
        assert(all == first + seq![':'] + tail);
        assert(text.subrange(pos, pos + first.len()) =~= first) by {
            assert forall|i: int| 0 <= i < first.len() implies text[pos + i] == first[i] by {
                assert(all[i] == first[i]);
            }
        }
        lemma_number_at(text, pos, first, hex, first.len() as int);
        assert forall|i: int| pos <= i < pos + first.len() implies place_in(hex, #[trigger] text[i], 0)
            >= 0 by {
            assert(text[pos + (i - pos)] == all[i - pos]);
            assert(all[i - pos] == first[i - pos]);
        }
        let sep = pos + first.len();
        assert(text[sep] == ':') by {
            assert(all[first.len() as int] == ':');
        }
        lemma_digits_end(text, hex, pos, first.len() as int, 4);
        assert(text[sep + 1] == tail[0]) by {
            assert(all[first.len() as int + 1] == tail[0]);
        }
        assert(text.subrange(sep + 1, sep + 1 + tail.len()) =~= tail) by {
            assert forall|i: int| 0 <= i < tail.len() implies text[sep + 1 + i] == tail[i] by {
                assert(all[first.len() + 1 + i] == tail[i]);
            }
        }
        if so_far.elided {
            assert(so_far.right.push(groups[0]) =~= so_far.right + one);
        } else {
            assert(so_far.left.push(groups[0]) =~= so_far.left + one);
        }
        lemma_scan(text, sep + 1, rest, grown);
        assert(one + rest =~= groups);
        assert(grown_by(grown, rest).left =~= grown_by(so_far, groups).left);
        assert(grown_by(grown, rest).right =~= grown_by(so_far, groups).right);
    }
}

/// Walks the segments from `i` on and finds the longest run of zeros, given
/// the longest among the runs that end before `i` and the run that ends at `i`.
proof fn lemma_zero_run_from(
    segs: Seq<u16>,
    i: int,
    best_start: int,
    best_len: int,
    cur_start: int,
    cur_len: int,
) -> (r: (int, int))
    requires
        0 <= i <= segs.len(),
        cur_start + cur_len == i,
        zero_run(segs, cur_start, cur_len),
        cur_start == 0 || segs[cur_start - 1] != 0,
        zero_run(segs, best_start, best_len),
        best_start + best_len <= i,
        cur_len <= best_len,
        forall|s: int, l: int| #[trigger] zero_run(segs, s, l) && s + l <= i ==> l <= best_len,
        forall|s: int| #[trigger] zero_run(segs, s, best_len) && s + best_len <= i ==> best_start <= s,
    ensures
        is_longest_zero_run(segs, r.0, r.1),
    decreases segs.len() - i,
{
    if i == segs.len() {
        (best_start, best_len)
    } else if segs[i] == 0 {
        let grown = cur_len + 1;
        let (next_start, next_len) = if grown > best_len {
            (cur_start, grown)
        } else {
            (best_start, best_len)
        };
        assert forall|s: int, l: int| #[trigger]
            zero_run(segs, s, l) && s + l <= i + 1 implies l <= next_len by {
            if s + l == i + 1 && l >= 1 {
                if s < cur_start {
                    assert(segs[cur_start - 1] == 0);
                }
            }
        }
        assert forall|s: int| #[trigger]
            zero_run(segs, s, next_len) && s + next_len <= i + 1 implies next_start <= s by {
            if next_len != best_len {
                if s + next_len <= i {
                    assert(zero_run(segs, s, next_len));
                }
            }
        }
        lemma_zero_run_from(segs, i + 1, next_start, next_len, cur_start, grown)
    } else {
        assert forall|s: int, l: int| #[trigger]
            zero_run(segs, s, l) && s + l <= i + 1 implies l <= best_len by {
            if s + l == i + 1 && l >= 1 {
                assert(segs[i] == 0);
            }
        }
        assert forall|s: int| #[trigger]
            zero_run(segs, s, best_len) && s + best_len <= i + 1 implies best_start <= s by {
            if s + best_len == i + 1 && best_len >= 1 {
                assert(segs[i] == 0);
            }
        }
        lemma_zero_run_from(segs, i + 1, best_start, best_len, i + 1, 0)
    }
}

/// Every address has its longest run of zeros, and `longest_zero_run` names it.
pub proof fn lemma_longest_zero_run(segs: Seq<u16>)
    ensures
        is_longest_zero_run(segs, longest_zero_run(segs).0, longest_zero_run(segs).1),
{
    let found = lemma_zero_run_from(segs, 0, 0, 0, 0, 0);
    assert(is_longest_zero_run(segs, found.0, found.1));
}

/// A text that starts with a hexadecimal digit starts with no colon.
proof fn lemma_starts_with_digit(text: Seq<char>)
    requires
        text.len() >= 1,
        place_in("0123456789abcdef"@, text[0], 0) >= 0,
    ensures
        !starts_with(text, "::"@),
        !starts_with(text, "::ffff:"@),
{
    reveal_strlit("::ffff:");
    reveal_strlit("::");
    lemma_digit_places();
    if text.len() >= 2 {
        assert(text.subrange(0, 2)[0] == text[0]);
    }
    if text.len() >= 7 {
        assert(text.subrange(0, 7)[0] == text[0]);
    }
}

/// A mapped address is read back as it was written.
proof fn lemma_mapped_round_trip(segs: Seq<u16>)
    requires
        segs.len() == 8,
        is_ipv4_mapped(segs),
    ensures
        read_ipv6(ipv6_text(segs)) == Some(segs),
{
    reveal_strlit("::ffff:");
    let text = ipv6_text(segs);
    let o = embedded_octets(segs);
    let quad = ipv4_text(o);
    let ql = quad.len() as int;
    assert(text == seq![':', ':', 'f', 'f', 'f', 'f', ':'] + quad);
    assert(text.subrange(0, 7) =~= "::ffff:"@);
    assert(text.subrange(7, 7 + ql) =~= quad);
    lemma_quad_at(text, 7, o);
    assert(read_ipv6(text)->Some_0 =~= segs);
}

/// An address without a run to elide is read back as it was written.
proof fn lemma_plain_round_trip(segs: Seq<u16>)
    requires
        segs.len() == 8,
    ensures
        read_ipv6(groups_text(segs)) == Some(segs),
{
    let text = groups_text(segs);
    let none = Groups { left: Seq::empty(), right: Seq::empty(), elided: false };
    lemma_groups_chars(segs);
    lemma_starts_with_digit(text);
    assert(text.subrange(0, text.len() as int) =~= text);
    lemma_scan(text, 0, segs, none);
    assert(grown_by(none, segs).left =~= segs);
    assert(read_ipv6(text)->Some_0 =~= segs);
}

/// A text made of written groups and colons holds no dot, and so no
/// dotted quad, wherever one looks for it.
proof fn lemma_no_quad(text: Seq<char>, left: Seq<u16>, right: Seq<u16>, from: int)
    requires
        text == groups_text(left) + seq![':', ':'] + groups_text(right) || (right.len() == 0
            && left.len() > 0 && text == groups_text(left)),
    ensures
        read_quad(text, from) is None,
{
    lemma_digit_places();
    let l = groups_text(left);
    let r = groups_text(right);
    let ll = l.len() as int;
    if left.len() > 0 {
        lemma_groups_chars(left);
    } else {
        assert(l =~= Seq::<char>::empty());
    }
    if right.len() > 0 {
        lemma_groups_chars(right);
    } else {
        assert(r =~= Seq::<char>::empty());
    }
    assert forall|i: int| 0 <= i < text.len() implies text[i] != '.' by {
        if i < ll {
            assert(text[i] == l[i]);
        } else if i >= ll + 2 {
            assert(text[i] == r[i - ll - 2]);
        }
    }
}

/// The groups before and after an elision are read as they were written.
proof fn lemma_elided_scan(text: Seq<char>, left: Seq<u16>, right: Seq<u16>)
    requires
        text == groups_text(left) + seq![':', ':'] + groups_text(right),
    ensures
        !(starts_with(text, "::ffff:"@) && read_quad(text, 7) is Some),
        starts_with(text, "::"@) <==> left.len() == 0,
        (if left.len() == 0 {
            scan(text, 2, Groups { left: Seq::empty(), right: Seq::empty(), elided: true })
        } else {
            scan(text, 0, Groups { left: Seq::empty(), right: Seq::empty(), elided: false })
        }) == Some(Groups { left, right, elided: true }),
{
    reveal_strlit("::");
    lemma_no_quad(text, left, right, 7);
    let none = Groups { left: Seq::empty(), right: Seq::empty(), elided: false };
    let gap = Groups { left: Seq::empty(), right: Seq::empty(), elided: true };
    let l = groups_text(left);
    let r = groups_text(right);
    let ll = l.len() as int;
    let rl = r.len() as int;
    if left.len() == 0 {
        assert(l =~= Seq::<char>::empty());
        assert(text.subrange(0, 2) =~= "::"@);
        assert(left =~= Seq::<u16>::empty());
        if right.len() == 0 {
            assert(r =~= Seq::<char>::empty());
            assert(text.len() == 2);
            assert(scan(text, 2, gap) == Some(gap));
            assert(right =~= Seq::<u16>::empty());
        } else {
            assert(text.subrange(2, 2 + rl) =~= r);
            lemma_scan(text, 2, right, gap);
            assert(grown_by(gap, right).right =~= right);
        }
    } else {
        lemma_groups_chars(left);
        assert(text[0] == l[0]);
        lemma_starts_with_digit(text);
        assert(text.subrange(0, ll) =~= l);
        assert(text[ll] == ':' && text[ll + 1] == ':');
        lemma_scan(text, 0, left, none);
        let half = Groups { elided: true, ..grown_by(none, left) };
        assert(half.left =~= left);
        if right.len() == 0 {
            assert(r =~= Seq::<char>::empty());
            assert(text.len() == ll + 2);
            assert(scan(text, ll + 2, half) == Some(half));
            assert(right =~= Seq::<u16>::empty());
        } else {
            assert(text.subrange(ll + 2, ll + 2 + rl) =~= r);
            lemma_scan(text, ll + 2, right, half);
            assert(grown_by(half, right).right =~= right);
            assert(grown_by(half, right).left =~= left);
        }
    }
}

/// Round trip. An IPv6 address that was written is read back as it was.
pub proof fn lemma_ipv6_round_trip(segs: Seq<u16>)
    requires
        segs.len() == 8,
    ensures
        read_ipv6(ipv6_text(segs)) == Some(segs),
        parse_ipv6(ipv6_text(segs)) == Some(segs),
{
    let text = ipv6_text(segs);
    if is_ipv4_mapped(segs) {
        lemma_mapped_round_trip(segs);
    } else {
        lemma_longest_zero_run(segs);
        let (start, len) = longest_zero_run(segs);
        if len > 1 {
            let left = segs.subrange(0, start);
            let right = segs.subrange(start + len, 8);
            lemma_elided_scan(text, left, right);
            let filled = left + Seq::new((8 - left.len() - right.len()) as nat, |i: int| 0u16)
                + right;
            assert(filled =~= segs) by {
                assert forall|i: int| 0 <= i < 8 implies filled[i] == segs[i] by {
                    if start <= i < start + len {
                        assert(segs[i] == 0);
                    }
                }
            }
        } else {
            lemma_plain_round_trip(segs);
        }
    }
}

/// The text of an IPv6 address is the text of no IPv4 address: read as a
/// dotted quad, it is none.
pub proof fn lemma_ipv6_text_is_no_quad(segs: Seq<u16>)
    requires
        segs.len() == 8,
    ensures
        read_quad(ipv6_text(segs), 0) is None,
        parse_ipv4(ipv6_text(segs)) is None,
{
    let text = ipv6_text(segs);
    lemma_digit_places();
    if is_ipv4_mapped(segs) {
        assert(text[0] == ':');
        assert(digits_end(text, "0123456789"@, 0, 3) == 0);
    } else {
        lemma_longest_zero_run(segs);
        let (start, len) = longest_zero_run(segs);
        if len > 1 {
            lemma_no_quad(text, segs.subrange(0, start), segs.subrange(start + len, 8), 0);
        } else {
            lemma_no_quad(text, segs, Seq::empty(), 0);
        }
    }
}

/// One text, one address. Two IPv6 addresses with the same text are the
/// same address, and so are two IPv4 addresses; and no text is that of an
/// address of each family.
pub proof fn lemma_text_tells_addresses_apart(a: IpAddress, b: IpAddress)
    requires
        a.text() == b.text(),
    ensures
        a == b,
{
    match (a, b) {
        (IpAddress::V4(x), IpAddress::V4(y)) => {
            lemma_ipv4_round_trip(x.octets@);
            lemma_ipv4_round_trip(y.octets@);
            assert(x.octets@ == y.octets@);
            assert(x.octets =~= y.octets);
        },
        (IpAddress::V6(x), IpAddress::V6(y)) => {
            lemma_ipv6_round_trip(x.segments@);
            lemma_ipv6_round_trip(y.segments@);
            assert(x.segments@ == y.segments@);
            assert(x.segments =~= y.segments);
        },
        (IpAddress::V4(x), IpAddress::V6(y)) => {
            lemma_ipv4_round_trip(x.octets@);
            lemma_ipv6_text_is_no_quad(y.segments@);
        },
        (IpAddress::V6(x), IpAddress::V4(y)) => {
            lemma_ipv4_round_trip(y.octets@);
            lemma_ipv6_text_is_no_quad(x.segments@);
        },
    }
}

} // verus!
