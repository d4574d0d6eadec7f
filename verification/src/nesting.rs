//! How deeply a JSON text nests.
//!
//! Decoding an event descends once for every object that lies inside
//! another, so a text is measured before it is handed to the decoder, and
//! one that nests deeper than [`MAX_NESTING`] is never decoded.

use vstd::prelude::*;
use vstd::string::StrSliceExecFns;

verus! {

broadcast use vstd::string::group_string_axioms;

/// The deepest nesting that is still decoded. Events of the chat service
/// stay far below it.
pub const MAX_NESTING: usize = 64;

/// Where a reader stands in a JSON text.
pub struct Scan {
    /// Objects and arrays that are open.
    pub depth: nat,
    /// The most that were open at once so far.
    pub deepest: nat,
    /// Whether the reader is inside a string.
    pub in_string: bool,
    /// Whether the last character was a backslash that escapes the next.
    pub escaped: bool,
}

/// Where a reader stands before the first character.
pub open spec fn scan_start() -> Scan {
    Scan { depth: 0, deepest: 0, in_string: false, escaped: false }
}

/// Where a reader stands after one more character. Inside a string nothing
/// opens or closes: a backslash escapes the character after it, and a quote
/// that is not escaped ends the string. Outside, a quote begins a string, a
/// brace or bracket opens or closes a level, and a closing one with nothing
/// open is passed over.
pub open spec fn scan_char(before: Scan, c: char) -> Scan {
    if before.in_string {
        if before.escaped {
            Scan { escaped: false, ..before }
        } else if c == '\\' {
            Scan { escaped: true, ..before }
        } else if c == '"' {
            Scan { in_string: false, ..before }
        } else {
            before
        }
    } else if c == '"' {
        Scan { in_string: true, ..before }
    } else if c == '{' || c == '[' {
        Scan {
            depth: before.depth + 1,
            deepest: if before.depth + 1 > before.deepest {
                before.depth + 1
            } else {
                before.deepest
            },
            ..before
        }
    } else if c == '}' || c == ']' {
        Scan {
            depth: if before.depth > 0 {
                (before.depth - 1) as nat
            } else {
                0
            },
            ..before
        }
    } else {
        before
    }
}

/// Where a reader stands at the end of a text.
pub open spec fn scan(text: Seq<char>) -> Scan
    decreases text.len(),
{
    if text.len() == 0 {
        scan_start()
    } else {
        scan_char(scan(text.drop_last()), text.last())
    }
}

/// The nesting of a text: the most objects and arrays that are open at once
/// anywhere in it, braces and brackets inside strings left aside.
pub open spec fn nesting(text: Seq<char>) -> nat {
    scan(text).deepest
}

/// No more levels are open than characters have been read.
proof fn lemma_scan_bounded(text: Seq<char>)
    ensures
        scan(text).depth <= scan(text).deepest <= text.len(),
    decreases text.len(),
{
    if text.len() > 0 {
        lemma_scan_bounded(text.drop_last());
    }
}

/// Whether a JSON text nests no deeper than [`MAX_NESTING`].
pub fn within_nesting(json: &str) -> (ok: bool)
    ensures
        ok == (nesting(json@) <= MAX_NESTING),
{
    let total = json.unicode_len();
    let mut seen: usize = 0;
    let mut depth: usize = 0;
    let mut deepest: usize = 0;
    let mut in_string = false;
    let mut escaped = false;
    assert(json@.take(0) =~= Seq::<char>::empty());
    for c in chars: json.chars()
        invariant
            chars.seq() == json@,
            total == json@.len(),
            seen == chars.index(),
            seen <= total,
            scan(json@.take(seen as int)) == (Scan {
                depth: depth as nat,
                deepest: deepest as nat,
                in_string,
                escaped,
            }),
    {
        proof {
            lemma_scan_bounded(json@.take(seen as int));
            assert(json@.take(seen + 1).drop_last() =~= json@.take(seen as int));
        }
        if in_string {
            if escaped {
                escaped = false;
            } else if c == '\\' {
                escaped = true;
            } else if c == '"' {
                in_string = false;
            }
        } else if c == '"' {
            in_string = true;
        } else if c == '{' || c == '[' {
            depth = depth + 1;
            if depth > deepest {
                deepest = depth;
            }
        } else if c == '}' || c == ']' {
            if depth > 0 {
                depth = depth - 1;
            }
        }
        seen = seen + 1;
    }
    assert(json@.take(seen as int) =~= json@);
    deepest <= MAX_NESTING
}

} // verus!
