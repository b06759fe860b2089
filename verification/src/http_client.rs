//! The discovery exchange: what is sent to a candidate peer.

use crate::address_text::number;
use crate::identity::LocalIdentity;
use crate::net::IpAddress;
use crate::text::{chars_of, decimal_text, place_in, push_decimal};
use vstd::prelude::*;
use vstd::string::*;

verus! {

/// The well-known port on which peers answer discovery requests.
pub const HELLO_PORT: u16 = 4876;

/// The seconds after which a discovery exchange is given up.
pub const HELLO_TIMEOUT_SECS: u64 = 10;

/// Where a discovery request goes: an address, a port, and for a link-local
/// address the index of the device that reaches it.
#[derive(Clone, Copy, Debug, PartialEq, Eq)]
pub struct PeerSocket {
    pub ip: IpAddress,
    pub port: u16,
    pub scope_id: u32,
}

/// One discovery request: who asks, and whom.
#[derive(Clone, Copy, Debug, PartialEq, Eq)]
pub struct Hello {
    pub my_id: LocalIdentity,
    pub to: PeerSocket,
}

/// Why a discovery exchange came to nothing on the HTTP level.
#[derive(Clone, Copy, Debug, PartialEq, Eq)]
pub enum HTTPClientError {
    /// The answer is not an HTTP response.
    HTTPParseError,
}

impl HTTPClientError {
    /// What the error says.
    pub fn message(&self) -> (s: String)
        ensures
            s@ == "HTTP Parse Error"@,
    {
        String::from_str("HTTP Parse Error")
    }
}

impl PeerSocket {
    /// The socket as text: `a.b.c.d:port` for IPv4, `[address]:port` for
    /// IPv6, with `%scope` after the address where the scope is not zero.
    pub open spec fn text(self) -> Seq<char> {
        match self.ip {
            IpAddress::V4(a) => a.text() + ":"@ + decimal_text(self.port as nat),
            IpAddress::V6(a) => if self.scope_id == 0 {
                "["@ + a.text() + "]:"@ + decimal_text(self.port as nat)
            } else {
                "["@ + a.text() + "%"@ + decimal_text(self.scope_id as nat) + "]:"@
                    + decimal_text(self.port as nat)
            },
        }
    }

    /// Appends the text of the socket to `out`.
    pub fn push_text(&self, out: &mut String)
        ensures
            final(out)@ == old(out)@ + self.text(),
    {
        match &self.ip {
            IpAddress::V4(a) => {
                a.push_text(out);
                out.append(":");
            },
            IpAddress::V6(a) => {
                out.append("[");
                a.push_text(out);
                if self.scope_id != 0 {
                    out.append("%");
                    push_decimal(out, self.scope_id as u128);
                }
                out.append("]:");
            },
        }
        push_decimal(out, self.port as u128);
        proof {
            assert(final(out)@ =~= old(out)@ + self.text());
        }
    }
}

/// The request that carries `my_id`, already written as JSON, to `to`: an
/// HTTP/1.0 POST to `/hello` whose stated length is that of the JSON in
/// bytes and one more, for the line feed that precedes it.
pub open spec fn hello_request(to: PeerSocket, my_id: Seq<char>, my_id_bytes: nat) -> Seq<char> {
    "POST /hello HTTP/1.0\r\nHost: "@ + to.text() + "\r\nContent-Type:application/json\r\nContent-Length: "@
        + decimal_text(my_id_bytes + 1) + "\r\n\r\n\n"@ + my_id + "\r\n"@
}

/// The worker that performs one discovery exchange at a time.
pub struct HTTPSyncExecutor;

impl HTTPSyncExecutor {
    /// The bytes to send for `msg`, whose sender is written as JSON in `my_id`.
    pub fn request(&self, msg: &Hello, my_id: &str) -> (r: String)
        ensures
            r@ == hello_request(msg.to, my_id@, my_id.len() as nat),
    {
        let mut r = String::from_str("POST /hello HTTP/1.0\r\nHost: ");
        msg.to.push_text(&mut r);
        r.append("\r\nContent-Type:application/json\r\nContent-Length: ");
        push_decimal(&mut r, my_id.len() as u128 + 1);
        r.append("\r\n\r\n\n");
        r.append(my_id);
        r.append("\r\n");
        proof {
            assert(r@ =~= hello_request(msg.to, my_id@, my_id.len() as nat));
        }
        r
    }
}

/// The first place at or after `from` where `pattern` lies in `text`
/// without passing `to`, or `to` if there is none.
pub open spec fn find_text(text: Seq<char>, pattern: Seq<char>, from: int, to: int) -> int
    decreases to - from,
{
    if from >= to || from + pattern.len() > to {
        to
    } else if text.subrange(from, from + pattern.len()) == pattern {
        from
    } else {
        find_text(text, pattern, from + 1, to)
    }
}

/// Whether the header lines from `from` up to `stop` can be read: each has
/// a name and a value with a colon and a space between them, and none
/// announces a body in chunks.
pub open spec fn headers_readable(text: Seq<char>, from: int, stop: int) -> bool
    decreases stop - from,
{
    if from >= stop {
        true
    } else {
        let end = find_text(text, "\r\n"@, from, stop);
        &&& find_text(text, ": "@, from, end) < end
        &&& text.subrange(from, end) != "Transfer-Encoding: chunked"@
        &&& (from <= end && end + 2 <= stop ==> headers_readable(text, end + 2, stop))
    }
}

/// Where the head of a response ends: at the first empty line.
pub open spec fn head_end(text: Seq<char>) -> int {
    find_text(text, "\r\n\r\n"@, 0, text.len() as int)
}

/// Whether `text` has the frame of an HTTP response with a plain body: a
/// head that ends in an empty line, a first line of at least three words,
/// and header lines that can be read.
pub open spec fn is_framed(text: Seq<char>) -> bool {
    let stop = head_end(text);
    let first = find_text(text, "\r\n"@, 0, stop + 2);
    let space = find_text(text, " "@, 0, first);
    &&& stop < text.len()
    &&& space < first
    &&& find_text(text, " "@, space + 1, first) < first
    &&& headers_readable(text, first + 2, stop)
}

/// What `find_text` points at.
pub proof fn lemma_find_text(text: Seq<char>, pattern: Seq<char>, from: int, to: int)
    requires
        from <= to,
        pattern.len() > 0,
    ensures
        from <= find_text(text, pattern, from, to) <= to,
        find_text(text, pattern, from, to) < to ==> find_text(text, pattern, from, to)
            + pattern.len() <= to && text.subrange(
            find_text(text, pattern, from, to),
            find_text(text, pattern, from, to) + pattern.len(),
        ) == pattern,
    decreases to - from,
{
    if from + pattern.len() <= to && text.subrange(from, from + pattern.len()) != pattern {
        lemma_find_text(text, pattern, from + 1, to);
    }
}

/// The first place at or after `from` where `pattern` lies in `text`
/// without passing `to`.
fn seek_text(text: &Vec<char>, pattern: &Vec<char>, from: usize, to: usize) -> (at: usize)
    requires
        from <= to <= text.len(),
    ensures
        at == find_text(text@, pattern@, from as int, to as int),
        from <= at <= to,
{
    let m = pattern.len();
    let mut i = from;
    while to - i >= m
        invariant
            from <= i <= to <= text.len(),
            m == pattern.len(),
            find_text(text@, pattern@, from as int, to as int) == find_text(
                text@,
                pattern@,
                i as int,
                to as int,
            ),
        decreases to - i,
    {
        let mut j: usize = 0;
        while j < m && text[i + j] == pattern[j]
            invariant
                i + m <= to <= text.len(),
                m == pattern.len(),
                j <= m,
                forall|k: int| 0 <= k < j ==> text@[i + k] == pattern@[k],
            decreases m - j,
        {
            j += 1;
        }
        if j == m {
            proof {
                assert(text@.subrange(i as int, i + m) =~= pattern@);
            }
            return i;
        }
        proof {
            assert(text@.subrange(i as int, i + m)[j as int] != pattern@[j as int]);
        }
        i += 1;
    }
    to
}

/// Whether the characters from `from` up to `to` are those of `other`.
fn same_stretch(text: &Vec<char>, from: usize, to: usize, other: &Vec<char>) -> (r: bool)
    requires
        from <= to <= text.len(),
    ensures
        r == (text@.subrange(from as int, to as int) == other@),
{
    if to - from != other.len() {
        return false;
    }
    let mut k: usize = 0;
    while k < other.len()
        invariant
            from <= to <= text.len(),
            to - from == other.len(),
            k <= other.len(),
            forall|j: int| 0 <= j < k ==> text@[from + j] == other@[j],
        decreases other.len() - k,
    {
        if text[from + k] != other[k] {
            proof {
                assert(text@.subrange(from as int, to as int)[k as int] != other@[k as int]);
            }
            return false;
        }
        k += 1;
    }
    proof {
        assert(text@.subrange(from as int, to as int) =~= other@);
    }
    true
}

/// Whether `text` has the frame of an HTTP response with a plain body.
pub fn check_framed(text: &Vec<char>) -> (r: bool)
    ensures
        r == is_framed(text@),
{
    let line_break = chars_of("\r\n");
    let empty_line = chars_of("\r\n\r\n");
    let space_mark = chars_of(" ");
    let colon = chars_of(": ");
    let chunked = chars_of("Transfer-Encoding: chunked");
    proof {
        reveal_strlit("\r\n");
        reveal_strlit("\r\n\r\n");
    }
    let n = text.len();
    let stop = seek_text(text, &empty_line, 0, n);
    if stop >= n {
        return false;
    }
    proof {
        lemma_find_text(text@, empty_line@, 0, n as int);
        assert(text@.subrange(stop as int, stop + 2) =~= line_break@) by {
            assert(text@.subrange(stop as int, stop + 2) =~= text@.subrange(
                stop as int,
                stop + 4,
            ).subrange(0, 2));
            assert(line_break@ =~= empty_line@.subrange(0, 2));
        }
        lemma_first_at_most(text@, line_break@, 0, stop + 2, stop as int);
    }
    let first = seek_text(text, &line_break, 0, stop + 2);
    let space = seek_text(text, &space_mark, 0, first);
    if space >= first {
        return false;
    }
    if seek_text(text, &space_mark, space + 1, first) >= first {
        return false;
    }
    let mut from = first + 2;
    while from < stop
        invariant
            stop < n,
            n == text.len(),
            from <= stop + 2,
            line_break@ == "\r\n"@,
            line_break@.len() == 2,
            colon@ == ": "@,
            chunked@ == "Transfer-Encoding: chunked"@,
            is_framed(text@) == headers_readable(text@, from as int, stop as int),
        decreases stop + 2 - from,
    {
        let end = seek_text(text, &line_break, from, stop);
        if seek_text(text, &colon, from, end) >= end {
            return false;
        }
        if same_stretch(text, from, end, &chunked) {
            return false;
        }
        if end >= stop {
            return true;
        }
        proof {
            lemma_find_text(text@, line_break@, from as int, stop as int);
        }
        from = end + 2;
    }
    true
}

/// A place where the pattern lies is not before the first such place.
proof fn lemma_first_at_most(text: Seq<char>, pattern: Seq<char>, from: int, to: int, at: int)
    requires
        from <= at,
        pattern.len() > 0,
        at + pattern.len() <= to,
        text.subrange(at, at + pattern.len()) == pattern,
    ensures
        find_text(text, pattern, from, to) <= at,
    decreases at - from,
{
    if from < at && text.subrange(from, from + pattern.len()) != pattern {
        lemma_first_at_most(text, pattern, from + 1, to, at);
    }
}

/// The status of a framed response: the second word of its first line.
pub open spec fn status_word(text: Seq<char>) -> Seq<char> {
    let first = find_text(text, "\r\n"@, 0, head_end(text) + 2);
    let space = find_text(text, " "@, 0, first);
    text.subrange(space + 1, find_text(text, " "@, space + 1, first))
}

/// Whether `word` writes a status: decimal digits, with or without a plus
/// sign before them, of a number that a machine word holds.
pub open spec fn is_status(word: Seq<char>) -> bool {
    let from: int = if word.len() > 0 && word[0] == '+' {
        1
    } else {
        0
    };
    &&& from < word.len()
    &&& forall|i: int| from <= i < word.len() ==> place_in("0123456789"@, #[trigger] word[i], 0) >= 0
    &&& number(word, "0123456789"@, from, word.len() as int) <= usize::MAX
}

/// Whether a framed response is accepted as an HTTP response: whether its
/// status can be read.
pub open spec fn response_accepted(text: Seq<char>) -> bool {
    is_status(status_word(text))
}

/// Reads `text` with `minihttpse::Response::new` and returns the body as
/// `Response::text` gives it. On a framed response the parser finds the
/// empty line, three words on the first line and a colon in every header
/// line, and it leaves a body that is not chunked as it is. It reads the
/// second word of the first line with `usize::from_str`, which takes decimal
/// digits after an optional plus sign and fails on a number too large; so
/// it rejects the response for its status or returns what follows the empty
/// line.
#[verifier::external_body]
fn parse_response(text: &str) -> (r: Option<String>)
    requires
        is_framed(text@),
    ensures
        match r {
            Some(body) => response_accepted(text@) && body@ == text@.skip(head_end(text@) + 4),
            None => !response_accepted(text@),
        },
{
    match minihttpse::Response::new(text.as_bytes().to_vec()) {
        Ok(response) => Some(response.text()),
        Err(_) => None,
    }
}

/// The body of the response `resp`, which is where the peer wrote who it
/// is; anything that is no framed and accepted response is a parse error.
pub fn response_text(resp: &str) -> (r: Result<String, HTTPClientError>)
    ensures
        match r {
            Ok(body) => is_framed(resp@) && response_accepted(resp@) && body@ == resp@.skip(
                head_end(resp@) + 4,
            ),
            Err(e) => !(is_framed(resp@) && response_accepted(resp@)),
        },
{
    let chars = chars_of(resp);
    if !check_framed(&chars) {
        return Err(HTTPClientError::HTTPParseError);
    }
    match parse_response(resp) {
        Some(body) => Ok(body),
        None => Err(HTTPClientError::HTTPParseError),
    }
}

} // verus!
