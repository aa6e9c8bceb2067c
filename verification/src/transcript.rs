//! Helpers for reading stored assistant messages back into the chat view.

use vstd::prelude::*;
use vstd::string::StringSliceAdditionalSpecFns;

verus! {

/// Scan of a JSON-ish byte string from position `i` with bracket `depth`,
/// inside a string literal or not, right after a backslash or not: the
/// position just past the bracket that closes the outermost one, if any.
pub open spec fn json_scan(b: Seq<u8>, i: int, depth: int, in_str: bool, esc: bool) -> Option<int>
    decreases b.len() - i,
{
    if i < 0 || i >= b.len() {
        None
    } else if esc {
        json_scan(b, i + 1, depth, in_str, false)
    } else if in_str {
        if b[i] == 92u8 {
            json_scan(b, i + 1, depth, true, true)
        } else if b[i] == 34u8 {
            json_scan(b, i + 1, depth, false, false)
        } else {
            json_scan(b, i + 1, depth, true, false)
        }
    } else if b[i] == 34u8 {
        json_scan(b, i + 1, depth, true, false)
    } else if b[i] == 91u8 || b[i] == 123u8 {
        json_scan(b, i + 1, depth + 1, false, false)
    } else if b[i] == 93u8 || b[i] == 125u8 {
        if depth - 1 == 0 {
            Some(i + 1)
        } else {
            json_scan(b, i + 1, depth - 1, false, false)
        }
    } else {
        json_scan(b, i + 1, depth, false, false)
    }
}

/// Byte length of the balanced JSON array that `b` starts with, if any.
pub open spec fn balanced_json_end(b: Seq<u8>) -> Option<int> {
    if b.len() > 0 && b[0] == 91u8 {
        json_scan(b, 0, 0, false, false)
    } else {
        None
    }
}

/// Find the byte length of a balanced JSON array starting at `s[0] == '['`.
/// String literals and their escapes are tracked so brackets inside string
/// values do not end the scan. `None` when `s` does not start with `[` or
/// never closes it.
pub fn find_balanced_json_end(s: &str) -> (r: Option<usize>)
    ensures
        match r {
            Some(n) => balanced_json_end(s.spec_bytes()) == Some(n as int),
            None => balanced_json_end(s.spec_bytes()) is None,
        },
{
    let bytes = s.as_bytes();
    let n = bytes.len();
    if n == 0 || bytes[0] != 91u8 {
        return None;
    }
    let mut depth: usize = 0;
    let mut in_string = false;
    let mut escape = false;
    let mut idx: usize = 0;
    while idx < n
        invariant
            n == bytes@.len(),
            bytes@ == s.spec_bytes(),
            idx <= n,
            depth <= idx,
            balanced_json_end(bytes@) == json_scan(bytes@, idx as int, depth as int, in_string, escape),
            idx > 0 ==> depth >= 1,
            idx == 0 ==> depth == 0 && !in_string && !escape,
            bytes@[0] == 91u8,
        decreases n - idx,
    {
        let b = bytes[idx];
        if escape {
            escape = false;
        } else if in_string {
            if b == 92u8 {
                escape = true;
            } else if b == 34u8 {
                in_string = false;
            }
        } else if b == 34u8 {
            in_string = true;
        } else if b == 91u8 || b == 123u8 {
            depth += 1;
        } else if b == 93u8 || b == 125u8 {
            if depth == 1 {
                return Some(idx + 1);
            }
            depth -= 1;
        }
        idx += 1;
    }
    None
}

/// A balanced array found by the scan ends inside the text, on a closing
/// bracket or brace.
pub proof fn law_json_scan_end(b: Seq<u8>, i: int, depth: int, in_str: bool, esc: bool)
    requires
        0 <= i,
        json_scan(b, i, depth, in_str, esc) is Some,
    ensures
        ({
            let e = json_scan(b, i, depth, in_str, esc)->0;
            &&& i < e <= b.len()
            &&& b[e - 1] == 93u8 || b[e - 1] == 125u8
        }),
    decreases b.len() - i,
{
    if 0 <= i < b.len() {
        if esc {
            law_json_scan_end(b, i + 1, depth, in_str, false);
        } else if in_str {
            if b[i] == 92u8 {
                law_json_scan_end(b, i + 1, depth, true, true);
            } else if b[i] == 34u8 {
                law_json_scan_end(b, i + 1, depth, false, false);
            } else {
                law_json_scan_end(b, i + 1, depth, true, false);
            }
        } else if b[i] == 34u8 {
            law_json_scan_end(b, i + 1, depth, true, false);
        } else if b[i] == 91u8 || b[i] == 123u8 {
            law_json_scan_end(b, i + 1, depth + 1, false, false);
        } else if b[i] == 93u8 || b[i] == 125u8 {
            if depth - 1 != 0 {
                law_json_scan_end(b, i + 1, depth - 1, false, false);
            }
        } else {
            law_json_scan_end(b, i + 1, depth, false, false);
        }
    }
}

} // verus!
