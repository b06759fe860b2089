//! The firmware release file, and the device name it holds.

use crate::clu::{CluError, CluErrorView, marked};
use crate::text::chars_of;
use vstd::prelude::*;
use vstd::string::*;

verus! {

/// The first place at or after `from` and before `to` where `text` holds
/// `c`, or `to` if there is none.
pub open spec fn find_char(text: Seq<char>, c: char, from: int, to: int) -> int
    decreases to - from,
{
    if from >= to {
        to
    } else if text[from] == c {
        from
    } else {
        find_char(text, c, from + 1, to)
    }
}

/// Where `find_char` points: between `from` and `to`, at the first `c`.
pub proof fn lemma_find_char(text: Seq<char>, c: char, from: int, to: int)
    requires
        from <= to,
    ensures
        from <= find_char(text, c, from, to) <= to,
        find_char(text, c, from, to) < to ==> text[find_char(text, c, from, to)] == c,
        forall|i: int| from <= i < find_char(text, c, from, to) ==> text[i] != c,
    decreases to - from,
{
    if from < to && text[from] != c {
        lemma_find_char(text, c, from + 1, to);
    }
}

/// Where the line that starts at `from` ends: before its line feed, and
/// before the carriage return that precedes the line feed, if one does.
pub open spec fn line_stop(text: Seq<char>, from: int) -> int {
    let feed = find_char(text, '\n', from, text.len() as int);
    if feed < text.len() && from < feed && text[feed - 1] == '\r' {
        feed - 1
    } else {
        feed
    }
}

/// What the release file says of the device.
pub enum DeviceEntry {
    /// No line starts with `device:`.
    Absent,
    /// The first such line names this device after its first space.
    Named(Seq<char>),
    /// The first such line has no space, and so no name.
    Unnamed(Seq<char>),
}

/// What the lines of `text` from `from` on say of the device: the first line
/// that starts with `device:` decides, and its second word, counting words
/// between single spaces, is the name.
pub open spec fn device_entry(text: Seq<char>, from: int) -> DeviceEntry
    decreases text.len() - from,
{
    if from < 0 || from >= text.len() {
        DeviceEntry::Absent
    } else {
        let stop = line_stop(text, from);
        let feed = find_char(text, '\n', from, text.len() as int);
        if from + 7 <= stop && text.subrange(from, from + 7) == "device:"@ {
            let space = find_char(text, ' ', from, stop);
            if space < stop {
                DeviceEntry::Named(
                    text.subrange(space + 1, find_char(text, ' ', space + 1, stop)),
                )
            } else {
                DeviceEntry::Unnamed(text.subrange(from, stop))
            }
        } else if from <= feed < text.len() {
            device_entry(text, feed + 1)
        } else {
            DeviceEntry::Absent
        }
    }
}

/// `text` between double quotes, with the escapes of a string literal.
pub uninterp spec fn quoted(text: Seq<char>) -> Seq<char>;

/// Writes `text` with `{:?}`, the way `std` writes a `str` for debugging.
#[verifier::external_body]
fn debug_quote(text: &str) -> (r: String)
    ensures
        r@ == quoted(text@),
{
    format!("{:?}", text)
}

/// The first place at or after `from` and before `to` where `text` holds `c`.
fn seek(text: &Vec<char>, c: char, from: usize, to: usize) -> (at: usize)
    requires
        from <= to <= text.len(),
    ensures
        at == find_char(text@, c, from as int, to as int),
        from <= at <= to,
{
    let mut i = from;
    while i < to && text[i] != c
        invariant
            from <= i <= to <= text.len(),
            find_char(text@, c, from as int, to as int) == find_char(text@, c, i as int, to as int),
        decreases to - i,
    {
        i += 1;
    }
    i
}

/// Reads the device name from the contents of the firmware release file.
pub fn device_from_release(contents: &str) -> (r: Result<Option<String>, CluError>)
    ensures
        match device_entry(contents@, 0) {
            DeviceEntry::Absent => r matches Ok(None),
            DeviceEntry::Named(name) => r matches Ok(Some(d)) && d@ == name,
            DeviceEntry::Unnamed(line) => r matches Err(e) && e.deep_view()
                == CluErrorView::RuntimeError(
                "Could not obtain device name from line "@ + quoted(line),
            ),
        },
{
    let text = chars_of(contents);
    let marker = chars_of("device:");
    proof {
        reveal_strlit("device:");
    }
    let n = text.len();
    let mut from: usize = 0;
    while from < n
        invariant
            n == text.len(),
            text@ == contents@,
            marker@ == "device:"@,
            marker@.len() == 7,
            device_entry(contents@, 0) == device_entry(contents@, from as int),
        decreases n - from,
    {
        let feed = seek(&text, '\n', from, n);
        let stop = if feed < n && from < feed && text[feed - 1] == '\r' {
            feed - 1
        } else {
            feed
        };
        let mut marked = stop - from >= 7;
        if marked {
            let mut k: usize = 0;
            while k < 7
                invariant
                    k <= 7,
                    from + 7 <= stop <= n,
                    n == text.len(),
                    marker@.len() == 7,
                    marked == (forall|j: int| 0 <= j < k ==> text@[from + j] == marker@[j]),
                decreases 7 - k,
            {
                if text[from + k] != marker[k] {
                    marked = false;
                }
                k += 1;
            }
            proof {
                if marked {
                    assert(text@.subrange(from as int, from + 7) =~= marker@);
                } else {
                    let j = choose|j: int| 0 <= j < 7 && text@[from + j] != marker@[j];
                    assert(text@.subrange(from as int, from + 7)[j] != marker@[j]);
                }
            }
        }
        if marked {
            let space = seek(&text, ' ', from, stop);
            if space < stop {
                let end = seek(&text, ' ', space + 1, stop);
                let name = contents.substring_char(space + 1, end);
                return Ok(Some(String::from_str(name)));
            } else {
                let line = contents.substring_char(from, stop);
                let mut message = String::from_str("Could not obtain device name from line ");
                let written = debug_quote(line);
                message.append(written.as_str());
                return Err(CluError::RuntimeError(message));
            }
        }
        if feed == n {
            return Ok(None);
        }
        from = feed + 1;
    }
    proof {
        assert(device_entry(contents@, from as int) is Absent);
    }
    Ok(None)
}

} // verus!
