//! Standard base64 with padding, written and read.

use crate::text::chars_of;
use vstd::prelude::*;
use vstd::string::*;

verus! {

/// The sixty-four characters of the standard base64 alphabet, in order of value.
pub open spec fn base64_alphabet() -> Seq<char> {
    "ABCDEFGHIJKLMNOPQRSTUVWXYZabcdefghijklmnopqrstuvwxyz0123456789+/"@
}

/// The character that writes the six-bit value `v` in base64.
pub open spec fn base64_char(v: int) -> char {
    base64_alphabet()[v]
}

/// The base64 characters of one group of up to three bytes; a missing byte
/// counts as zero here, and the caller replaces what it does not have by `=`.
pub open spec fn base64_group(b0: int, b1: int, b2: int) -> Seq<char> {
    seq![
        base64_char(b0 / 4),
        base64_char((b0 % 4) * 16 + b1 / 16),
        base64_char((b1 % 16) * 4 + b2 / 64),
        base64_char(b2 % 64),
    ]
}

/// `bytes` in standard base64 with `=` padding.
pub open spec fn base64_text(bytes: Seq<u8>) -> Seq<char>
    decreases bytes.len(),
{
    if bytes.len() == 0 {
        Seq::empty()
    } else if bytes.len() == 1 {
        base64_group(bytes[0] as int, 0, 0).subrange(0, 2) + seq!['=', '=']
    } else if bytes.len() == 2 {
        base64_group(bytes[0] as int, bytes[1] as int, 0).subrange(0, 3) + seq!['=']
    } else {
        base64_group(bytes[0] as int, bytes[1] as int, bytes[2] as int) + base64_text(
            bytes.skip(3),
        )
    }
}

/// Appends the base64 character of the six-bit value `v` to `out`.
fn push_base64_char(out: &mut String, v: u8)
    requires
        v < 64,
    ensures
        final(out)@ == old(out)@.push(base64_char(v as int)),
{
    let alphabet = "ABCDEFGHIJKLMNOPQRSTUVWXYZabcdefghijklmnopqrstuvwxyz0123456789+/";
    proof {
        reveal_strlit("ABCDEFGHIJKLMNOPQRSTUVWXYZabcdefghijklmnopqrstuvwxyz0123456789+/");
    }
    let one = alphabet.substring_char(v as usize, v as usize + 1);
    out.append(one);
    proof {
        assert(one@ =~= seq![base64_char(v as int)]);
        assert(final(out)@ =~= old(out)@.push(base64_char(v as int)));
    }
}

/// Appends `bytes` in standard base64, padded, to `out`.
pub fn push_base64(out: &mut String, bytes: &[u8])
    ensures
        final(out)@ == old(out)@ + base64_text(bytes@),
{
    let n = bytes.len();
    let mut i: usize = 0;
    proof {
        reveal_strlit("=");
        assert(bytes@.skip(0) =~= bytes@);
    }
    while n - i >= 3
        invariant
            i <= n,
            n == bytes@.len(),
            out@ + base64_text(bytes@.skip(i as int)) == old(out)@ + base64_text(bytes@),
        decreases n - i,
    {
        let b0 = bytes[i];
        let b1 = bytes[i + 1];
        let b2 = bytes[i + 2];
        let ghost before = out@;
        let ghost rest = bytes@.skip(i as int);
        push_base64_char(out, b0 / 4);
        push_base64_char(out, (b0 % 4) * 16 + b1 / 16);
        push_base64_char(out, (b1 % 16) * 4 + b2 / 64);
        push_base64_char(out, b2 % 64);
        proof {
            assert(rest.skip(3) =~= bytes@.skip(i + 3));
            let group = base64_group(rest[0] as int, rest[1] as int, rest[2] as int);
            assert(out@ =~= before + group);
            assert(base64_text(rest) == group + base64_text(rest.skip(3)));
            assert(out@ + base64_text(bytes@.skip(i + 3)) =~= before + base64_text(rest));
        }
        i += 3;
    }
    let ghost before = out@;
    let ghost rest = bytes@.skip(i as int);
    if n - i == 1 {
        let b0 = bytes[i];
        push_base64_char(out, b0 / 4);
        push_base64_char(out, (b0 % 4) * 16);
        out.append("=");
        out.append("=");
        proof {
            assert("="@ =~= seq!['=']);
            assert(out@ =~= before + base64_text(rest));
        }
    } else if n - i == 2 {
        let b0 = bytes[i];
        let b1 = bytes[i + 1];
        push_base64_char(out, b0 / 4);
        push_base64_char(out, (b0 % 4) * 16 + b1 / 16);
        push_base64_char(out, (b1 % 16) * 4);
        out.append("=");
        proof {
            assert("="@ =~= seq!['=']);
            assert(out@ =~= before + base64_text(rest));
        }
    } else {
        proof {
            assert(out@ =~= before + base64_text(rest));
        }
    }
}

/// The six-bit value that `c` writes in base64: its place in the alphabet
/// at or after `from`, or -1 if it has none there.
pub open spec fn base64_value_from(c: char, from: int) -> int
    decreases 64 - from,
{
    if from < 0 || from >= 64 {
        -1
    } else if base64_char(from) == c {
        from
    } else {
        base64_value_from(c, from + 1)
    }
}

/// The six-bit value that `c` writes in base64, or -1 if it writes none.
pub open spec fn base64_value(c: char) -> int {
    base64_value_from(c, 0)
}

/// The bytes that one group of four base64 characters writes: three, or
/// fewer where the group ends in padding, or nothing where it is no group.
pub open spec fn base64_group_bytes(c0: char, c1: char, c2: char, c3: char) -> Option<Seq<u8>> {
    let s0 = base64_value(c0);
    let s1 = base64_value(c1);
    let s2 = base64_value(c2);
    let s3 = base64_value(c3);
    if s0 < 0 || s1 < 0 {
        None
    } else if c2 == '=' && c3 == '=' {
        if s1 % 16 == 0 {
            Some(seq![(s0 * 4 + s1 / 16) as u8])
        } else {
            None
        }
    } else if s2 < 0 {
        None
    } else if c3 == '=' {
        if s2 % 4 == 0 {
            Some(seq![(s0 * 4 + s1 / 16) as u8, ((s1 % 16) * 16 + s2 / 4) as u8])
        } else {
            None
        }
    } else if s3 < 0 {
        None
    } else {
        Some(
            seq![
                (s0 * 4 + s1 / 16) as u8,
                ((s1 % 16) * 16 + s2 / 4) as u8,
                ((s2 % 4) * 64 + s3) as u8,
            ],
        )
    }
}

/// The bytes that `text` writes in standard base64 with padding, or nothing
/// where it is no such text.
pub open spec fn base64_bytes(text: Seq<char>) -> Option<Seq<u8>>
    decreases text.len(),
{
    if text.len() == 0 {
        Some(Seq::empty())
    } else if text.len() < 4 {
        None
    } else {
        match base64_group_bytes(text[0], text[1], text[2], text[3]) {
            None => None,
            Some(group) => if text.len() == 4 {
                Some(group)
            } else if group.len() != 3 {
                None
            } else {
                match base64_bytes(text.skip(4)) {
                    Some(rest) => Some(group + rest),
                    None => None,
                }
            },
        }
    }
}

/// The six-bit value that `c` writes in base64, if it writes one.
fn read_base64_char(alphabet: &Vec<char>, c: char) -> (r: Option<u8>)
    requires
        alphabet@ == base64_alphabet(),
    ensures
        match r {
            Some(v) => v < 64 && v == base64_value(c),
            None => base64_value(c) == -1,
        },
{
    proof {
        reveal_strlit("ABCDEFGHIJKLMNOPQRSTUVWXYZabcdefghijklmnopqrstuvwxyz0123456789+/");
    }
    let mut v: u8 = 0;
    while v < 64
        invariant
            v <= 64,
            alphabet@ == base64_alphabet(),
            alphabet@.len() == 64,
            base64_value(c) == base64_value_from(c, v as int),
        decreases 64 - v,
    {
        if alphabet[v as usize] == c {
            return Some(v);
        }
        v += 1;
    }
    None
}

/// The bytes that one group of four base64 characters writes.
fn read_base64_group(alphabet: &Vec<char>, c0: char, c1: char, c2: char, c3: char) -> (r: Option<
    Vec<u8>,
>)
    requires
        alphabet@ == base64_alphabet(),
    ensures
        match r {
            Some(bytes) => base64_group_bytes(c0, c1, c2, c3) == Some(bytes@),
            None => base64_group_bytes(c0, c1, c2, c3) is None,
        },
{
    let s0 = match read_base64_char(alphabet, c0) {
        Some(v) => v,
        None => {
            return None;
        },
    };
    let s1 = match read_base64_char(alphabet, c1) {
        Some(v) => v,
        None => {
            return None;
        },
    };
    let mut bytes: Vec<u8> = Vec::new();
    bytes.push(s0 * 4 + s1 / 16);
    if c2 == '=' && c3 == '=' {
        if s1 % 16 != 0 {
            return None;
        }
        proof {
            assert(bytes@ =~= seq![(s0 * 4 + s1 / 16) as u8]);
        }
        return Some(bytes);
    }
    let s2 = match read_base64_char(alphabet, c2) {
        Some(v) => v,
        None => {
            return None;
        },
    };
    bytes.push((s1 % 16) * 16 + s2 / 4);
    if c3 == '=' {
        if s2 % 4 != 0 {
            return None;
        }
        proof {
            assert(bytes@ =~= seq![(s0 * 4 + s1 / 16) as u8, ((s1 % 16) * 16 + s2 / 4) as u8]);
        }
        return Some(bytes);
    }
    let s3 = match read_base64_char(alphabet, c3) {
        Some(v) => v,
        None => {
            return None;
        },
    };
    bytes.push((s2 % 4) * 64 + s3);
    proof {
        assert(bytes@ =~= seq![
            (s0 * 4 + s1 / 16) as u8,
            ((s1 % 16) * 16 + s2 / 4) as u8,
            ((s2 % 4) * 64 + s3) as u8,
        ]);
    }
    Some(bytes)
}

/// Reads standard base64 with padding.
pub fn read_base64(text: &str) -> (r: Option<Vec<u8>>)
    ensures
        match r {
            Some(bytes) => base64_bytes(text@) == Some(bytes@),
            None => base64_bytes(text@) is None,
        },
{
    let alphabet = chars_of("ABCDEFGHIJKLMNOPQRSTUVWXYZabcdefghijklmnopqrstuvwxyz0123456789+/");
    let chars = chars_of(text);
    let n = chars.len();
    let mut out: Vec<u8> = Vec::new();
    let mut i: usize = 0;
    proof {
        assert(chars@.skip(0) =~= chars@);
        assert(out@ + Seq::<u8>::empty() =~= Seq::<u8>::empty());
    }
    while i < n
        invariant
            i <= n,
            n == chars.len(),
            chars@ == text@,
            alphabet@ == base64_alphabet(),
            base64_bytes(text@) == match base64_bytes(chars@.skip(i as int)) {
                Some(rest) => Some(out@ + rest),
                None => None,
            },
        decreases n - i,
    {
        let ghost rest = chars@.skip(i as int);
        if n - i < 4 {
            return None;
        }
        proof {
            assert(rest[0] == chars@[i as int]);
            assert(rest[1] == chars@[i + 1]);
            assert(rest[2] == chars@[i + 2]);
            assert(rest[3] == chars@[i + 3]);
            assert(rest.skip(4) =~= chars@.skip(i + 4));
        }
        let mut group = match read_base64_group(
            &alphabet,
            chars[i],
            chars[i + 1],
            chars[i + 2],
            chars[i + 3],
        ) {
            Some(g) => g,
            None => {
                return None;
            },
        };
        let ghost before = out@;
        let ghost added = group@;
        if n - i > 4 && group.len() != 3 {
            return None;
        }
        out.append(&mut group);
        proof {
            assert(out@ =~= before + added);
            if n - i == 4 {
                assert(chars@.skip(i + 4) =~= Seq::<char>::empty());
                assert(out@ + Seq::<u8>::empty() =~= out@);
            } else {
                assert forall|tail: Seq<u8>| #[trigger] (before + (added + tail)) == out@ + tail by {
                    assert(before + (added + tail) =~= out@ + tail);
                }
            }
        }
        i += 4;
    }
    proof {
        assert(out@ + Seq::<u8>::empty() =~= out@);
    }
    Some(out)
}

/// No character stands for two values, and the padding stands for none.
pub proof fn lemma_base64_alphabet_distinct()
    ensures
        base64_alphabet().len() == 64,
        forall|i: int, j: int|
            0 <= i < j < 64 ==> #[trigger] base64_char(i) != #[trigger] base64_char(j),
        forall|i: int| 0 <= i < 64 ==> #[trigger] base64_char(i) != '=',
{
    reveal_strlit("ABCDEFGHIJKLMNOPQRSTUVWXYZabcdefghijklmnopqrstuvwxyz0123456789+/");
}

/// Reading the character of a value gives the value back.
pub proof fn lemma_base64_value_of_char(v: int)
    requires
        0 <= v < 64,
    ensures
        base64_value(base64_char(v)) == v,
{
    lemma_base64_alphabet_distinct();
    lemma_base64_value_from(base64_char(v), 0, v);
}

/// A character found at `v`, and not before, has the value `v`.
proof fn lemma_base64_value_from(c: char, from: int, v: int)
    requires
        0 <= from <= v < 64,
        base64_char(v) == c,
        forall|i: int| from <= i < v ==> base64_char(i) != c,
    ensures
        base64_value_from(c, from) == v,
    decreases v - from,
{
    if from < v {
        lemma_base64_value_from(c, from + 1, v);
    }
}

/// A value that was read is that of its character.
pub proof fn lemma_base64_char_of_value(c: char)
    ensures
        -1 <= base64_value(c) < 64,
        base64_value(c) >= 0 ==> base64_char(base64_value(c)) == c,
{
    lemma_base64_char_from(c, 0);
}

proof fn lemma_base64_char_from(c: char, from: int)
    requires
        0 <= from <= 64,
    ensures
        -1 <= base64_value_from(c, from) < 64,
        base64_value_from(c, from) >= 0 ==> base64_char(base64_value_from(c, from)) == c,
    decreases 64 - from,
{
    if from < 64 && base64_char(from) != c {
        lemma_base64_char_from(c, from + 1);
    }
}

/// The bytes of a full group are read back from its characters.
proof fn lemma_base64_group_round_trip(b0: u8, b1: u8, b2: u8)
    ensures
        ({
            let g = base64_group(b0 as int, b1 as int, b2 as int);
            &&& base64_group_bytes(g[0], g[1], g[2], g[3]) == Some(seq![b0, b1, b2])
            &&& b2 == 0 ==> base64_group_bytes(g[0], g[1], g[2], '=') == Some(seq![b0, b1])
            &&& b1 == 0 && b2 == 0 ==> base64_group_bytes(g[0], g[1], '=', '=') == Some(seq![b0])
        }),
{
    lemma_base64_alphabet_distinct();
    let s0 = b0 as int / 4;
    let s1 = (b0 as int % 4) * 16 + b1 as int / 16;
    let s2 = (b1 as int % 16) * 4 + b2 as int / 64;
    let s3 = b2 as int % 64;
    lemma_base64_value_of_char(s0);
    lemma_base64_value_of_char(s1);
    lemma_base64_value_of_char(s2);
    lemma_base64_value_of_char(s3);
    assert((s0 * 4 + s1 / 16) as u8 == b0);
    assert(((s1 % 16) * 16 + s2 / 4) as u8 == b1);
    assert(((s2 % 4) * 64 + s3) as u8 == b2);
    let g = base64_group(b0 as int, b1 as int, b2 as int);
    assert(base64_group_bytes(g[0], g[1], g[2], g[3]).unwrap() =~= seq![b0, b1, b2]);
    if b2 == 0 {
        assert(base64_group_bytes(g[0], g[1], g[2], '=').unwrap() =~= seq![b0, b1]);
    }
    if b1 == 0 && b2 == 0 {
        assert(base64_group_bytes(g[0], g[1], '=', '=').unwrap() =~= seq![b0]);
    }
}

/// Round trip. What was written in base64 is read back as it was.
pub proof fn lemma_base64_round_trip(bytes: Seq<u8>)
    ensures
        base64_bytes(base64_text(bytes)) == Some(bytes),
    decreases bytes.len(),
{
    let text = base64_text(bytes);
    if bytes.len() == 0 {
        assert(bytes =~= Seq::<u8>::empty());
    } else if bytes.len() == 1 {
        lemma_base64_group_round_trip(bytes[0], 0, 0);
        assert(text.len() == 4);
        assert(bytes =~= seq![bytes[0]]);
    } else if bytes.len() == 2 {
        lemma_base64_group_round_trip(bytes[0], bytes[1], 0);
        assert(text.len() == 4);
        assert(bytes =~= seq![bytes[0], bytes[1]]);
    } else {
        lemma_base64_group_round_trip(bytes[0], bytes[1], bytes[2]);
        lemma_base64_round_trip(bytes.skip(3));
        let group = base64_group(bytes[0] as int, bytes[1] as int, bytes[2] as int);
        let rest = base64_text(bytes.skip(3));
        assert(text == group + rest);
        assert(text.skip(4) =~= rest);
        assert(seq![bytes[0], bytes[1], bytes[2]] + bytes.skip(3) =~= bytes);
        if bytes.len() == 3 {
            assert(bytes.skip(3) =~= Seq::<u8>::empty());
            assert(text.len() == 4);
            assert(bytes =~= seq![bytes[0], bytes[1], bytes[2]]);
        } else {
            assert(rest.len() > 0) by {
                let tail = bytes.skip(3);
                assert(tail.len() > 0);
            }
        }
    }
}

/// Soundness. What is read from a text is what the text writes: written
/// again, it is that text.
pub proof fn lemma_base64_sound(text: Seq<char>)
    requires
        base64_bytes(text) is Some,
    ensures
        base64_text(base64_bytes(text)->Some_0) == text,
    decreases text.len(),
{
    if text.len() == 0 {
        assert(base64_text(Seq::<u8>::empty()) =~= text);
    } else {
        let c0 = text[0];
        let c1 = text[1];
        let c2 = text[2];
        let c3 = text[3];
        let group = base64_group_bytes(c0, c1, c2, c3)->Some_0;
        let s0 = base64_value(c0);
        let s1 = base64_value(c1);
        let s2 = base64_value(c2);
        let s3 = base64_value(c3);
        lemma_base64_char_of_value(c0);
        lemma_base64_char_of_value(c1);
        lemma_base64_char_of_value(c2);
        lemma_base64_char_of_value(c3);
        lemma_base64_alphabet_distinct();
        if c2 == '=' && c3 == '=' {
            let b0 = (s0 * 4 + s1 / 16) as u8;
            assert(group =~= seq![b0]);
            assert(b0 as int / 4 == s0 && (b0 as int % 4) * 16 == s1);
            assert(base64_text(seq![b0]) =~= text);
        } else if c3 == '=' {
            let b0 = (s0 * 4 + s1 / 16) as u8;
            let b1 = ((s1 % 16) * 16 + s2 / 4) as u8;
            assert(group =~= seq![b0, b1]);
            assert(b0 as int / 4 == s0 && (b0 as int % 4) * 16 + b1 as int / 16 == s1);
            assert((b1 as int % 16) * 4 == s2);
            assert(base64_text(seq![b0, b1]) =~= text);
        } else {
            let b0 = (s0 * 4 + s1 / 16) as u8;
            let b1 = ((s1 % 16) * 16 + s2 / 4) as u8;
            let b2 = ((s2 % 4) * 64 + s3) as u8;
            assert(group =~= seq![b0, b1, b2]);
            assert(b0 as int / 4 == s0 && (b0 as int % 4) * 16 + b1 as int / 16 == s1);
            assert((b1 as int % 16) * 4 + b2 as int / 64 == s2 && b2 as int % 64 == s3);
            let written = base64_group(b0 as int, b1 as int, b2 as int);
            assert(written =~= text.subrange(0, 4));
            if text.len() == 4 {
                assert(group.skip(3) =~= Seq::<u8>::empty());
                assert(base64_text(group.skip(3)) =~= Seq::<char>::empty());
                assert(group[0] == b0 && group[1] == b1 && group[2] == b2);
                assert(text =~= text.subrange(0, 4));
                assert(base64_text(group) =~= written + Seq::<char>::empty());
            } else {
                lemma_base64_sound(text.skip(4));
                let rest = base64_bytes(text.skip(4))->Some_0;
                let all = group + rest;
                assert(all.skip(3) =~= rest);
                assert(all[0] == b0 && all[1] == b1 && all[2] == b2);
                assert(text =~= text.subrange(0, 4) + text.skip(4));
            }
        }
    }
}

} // verus!
