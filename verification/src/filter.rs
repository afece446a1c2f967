//! CAN acceptance filters, parsed from their textual form
//! `<id>:<mask>[:!]`. Each number is decimal, or hexadecimal after a
//! leading `0x`; a trailing `!` inverts the filter.

use vstd::prelude::*;
use vstd::string::{StringExecFns, StringSliceAdditionalSpecFns};

use crate::candump::{dec_value, hex_value, is_digit, is_hex_digit};

verus! {

/// One CAN acceptance filter.
#[derive(Clone, Copy, PartialEq, Eq, Structural, Debug)]
pub struct CanFilter {
    pub inverted: bool,
    pub id: u32,
    pub mask: u32,
}

pub open spec fn is_ws(b: u8) -> bool {
    b == 0x20 || (0x09 <= b <= 0x0D)
}

/// First index at or after `from` that is not ASCII whitespace.
pub open spec fn ws_start(s: Seq<u8>, from: int) -> int
    decreases s.len() - from,
{
    if from < 0 || from >= s.len() {
        from
    } else if is_ws(s[from]) {
        ws_start(s, from + 1)
    } else {
        from
    }
}

/// Last index at or before `upto` such that everything from it on is
/// ASCII whitespace.
pub open spec fn ws_end(s: Seq<u8>, upto: int) -> int
    decreases upto,
{
    if upto <= 0 || upto > s.len() {
        upto
    } else if is_ws(s[upto - 1]) {
        ws_end(s, upto - 1)
    } else {
        upto
    }
}

/// First index of a colon at or after `from`, or `to` when none.
pub open spec fn find_colon(s: Seq<u8>, from: int, to: int) -> int
    decreases to - from,
{
    if from < 0 || from >= to || to > s.len() {
        to
    } else if s[from] == 0x3A {
        from
    } else {
        find_colon(s, from + 1, to)
    }
}

/// The number of bytes of repeated `0x` prefixes at `from`.
pub open spec fn strip_0x(s: Seq<u8>, from: int, to: int) -> int
    decreases to - from,
{
    if from < 0 || from + 2 > to || to > s.len() {
        from
    } else if s[from] == 0x30 && s[from + 1] == 0x78 {
        strip_0x(s, from + 2, to)
    } else {
        from
    }
}

/// The index after an optional leading `+`.
pub open spec fn plus_start(s: Seq<u8>, from: int, to: int) -> int {
    if from < to && s[from] == 0x2B {
        from + 1
    } else {
        from
    }
}

/// A decimal `u32`: an optional `+`, then at least one digit, value in
/// range.
pub open spec fn spec_dec_u32(s: Seq<u8>, from: int, to: int) -> Option<u32> {
    let st = plus_start(s, from, to);
    if st >= to {
        None
    } else if exists|i: int| st <= i < to && !is_digit(#[trigger] s[i]) {
        None
    } else if dec_value(s, st, to) > u32::MAX {
        None
    } else {
        Some(dec_value(s, st, to) as u32)
    }
}

/// A hexadecimal `u32` after stripping repeated `0x` prefixes: an
/// optional `+`, then at least one hexadecimal digit, value in range.
pub open spec fn spec_hex_u32(s: Seq<u8>, from: int, to: int) -> Option<u32> {
    let f2 = strip_0x(s, from, to);
    let st = plus_start(s, f2, to);
    if st >= to {
        None
    } else if exists|i: int| st <= i < to && !is_hex_digit(#[trigger] s[i]) {
        None
    } else if hex_value(s, st, to) > u32::MAX {
        None
    } else {
        Some(hex_value(s, st, to) as u32)
    }
}

/// A filter number: decimal first, hexadecimal as the fallback.
pub open spec fn spec_num_u32(s: Seq<u8>, from: int, to: int) -> Option<u32> {
    match spec_dec_u32(s, from, to) {
        Some(v) => Some(v),
        None => spec_hex_u32(s, from, to),
    }
}

/// The filter grammar over the trimmed input: two or three
/// colon-separated tokens; the third, when present, must be `!` and
/// inverts the filter.
pub open spec fn spec_parse_filter(s: Seq<u8>) -> Option<CanFilter> {
    let ts = ws_start(s, 0);
    let te = ws_end(s, s.len() as int);
    let c1 = find_colon(s, ts, te);
    if c1 == te {
        None
    } else {
        let c2 = find_colon(s, c1 + 1, te);
        if c2 == te {
            match (spec_num_u32(s, ts, c1), spec_num_u32(s, c1 + 1, te)) {
                (Some(id), Some(mask)) => Some(CanFilter { inverted: false, id, mask }),
                _ => None,
            }
        } else {
            let c3 = find_colon(s, c2 + 1, te);
            if c3 != te {
                None
            } else if !(c2 + 2 == te && s[c2 + 1] == 0x21) {
                None
            } else {
                match (spec_num_u32(s, ts, c1), spec_num_u32(s, c1 + 1, c2)) {
                    (Some(id), Some(mask)) => Some(CanFilter { inverted: true, id, mask }),
                    _ => None,
                }
            }
        }
    }
}

/// The error message for an input the grammar refuses.
pub open spec fn spec_filter_error(s: Seq<char>) -> Seq<char> {
    "Invalid CAN filter '"@ + s + "'. Expected format is '<id>:<mask>[:!]'."@
}

fn exec_ws_start(s: &[u8], from: usize) -> (r: usize)
    requires
        from <= s.len(),
    ensures
        r == ws_start(s@, from as int),
        from <= r <= s.len(),
{
    let mut i = from;
    while i < s.len() && (s[i] == 0x20 || (0x09 <= s[i] && s[i] <= 0x0D))
        invariant
            from <= i <= s.len(),
            ws_start(s@, from as int) == ws_start(s@, i as int),
        decreases s.len() - i,
    {
        i = i + 1;
    }
    i
}

fn exec_ws_end(s: &[u8], upto: usize) -> (r: usize)
    requires
        upto <= s.len(),
    ensures
        r == ws_end(s@, upto as int),
        r <= upto,
{
    let mut i = upto;
    while i > 0 && (s[i - 1] == 0x20 || (0x09 <= s[i - 1] && s[i - 1] <= 0x0D))
        invariant
            i <= upto <= s.len(),
            ws_end(s@, upto as int) == ws_end(s@, i as int),
        decreases i,
    {
        i = i - 1;
    }
    i
}

fn exec_find_colon(s: &[u8], from: usize, to: usize) -> (r: usize)
    requires
        from <= to <= s.len(),
    ensures
        r == find_colon(s@, from as int, to as int),
        from <= r <= to,
{
    let mut i = from;
    while i < to && s[i] != 0x3A
        invariant
            from <= i <= to <= s.len(),
            find_colon(s@, from as int, to as int) == find_colon(s@, i as int, to as int),
        decreases to - i,
    {
        i = i + 1;
    }
    i
}

fn exec_strip_0x(s: &[u8], from: usize, to: usize) -> (r: usize)
    requires
        from <= to <= s.len(),
    ensures
        r == strip_0x(s@, from as int, to as int),
        from <= r <= to,
{
    let mut i = from;
    while to - i >= 2 && s[i] == 0x30 && s[i + 1] == 0x78
        invariant
            from <= i <= to <= s.len(),
            strip_0x(s@, from as int, to as int) == strip_0x(s@, i as int, to as int),
        decreases to - i,
    {
        i = i + 2;
    }
    i
}

fn exec_dec_u32(s: &[u8], from: usize, to: usize) -> (r: Option<u32>)
    requires
        from <= to <= s.len(),
    ensures
        r == spec_dec_u32(s@, from as int, to as int),
{
    let st = if from < to && s[from] == 0x2B {
        from + 1
    } else {
        from
    };
    if st >= to {
        return None;
    }
    let mut acc: u64 = 0;
    let mut i = st;
    while i < to
        invariant
            st <= i <= to <= s.len(),
            st as int == plus_start(s@, from as int, to as int),
            st < to,
            forall|k: int| st <= k < i ==> is_digit(#[trigger] s@[k]),
            acc as int == dec_value(s@, st as int, i as int),
            acc <= 0xFFFF_FFFF,
        decreases to - i,
    {
        let b = s[i];
        if !(0x30 <= b && b <= 0x39) {
            proof {
                assert(exists|k: int| st <= k < to && !is_digit(#[trigger] s@[k])) by {
                    assert(st as int <= i as int);
                    assert((i as int) < to as int);
                    assert(!is_digit(s@[i as int]));
                }
            }
            return None;
        }
        let d = (b - 0x30) as u64;
        let ghost prev = acc as int;
        acc = acc * 10 + d;
        if acc > 0xFFFF_FFFF {
            proof {
                assert(dec_value(s@, st as int, i + 1) == prev * 10 + (s@[i as int] - 0x30));
                if exists|k: int| st <= k < to && !is_digit(#[trigger] s@[k]) {
                } else {
                    assert(forall|k: int| st <= k < to ==> is_digit(#[trigger] s@[k]));
                    crate::candump::lemma_dec_value_mono(s@, st as int, i + 1, to as int);
                    assert(dec_value(s@, st as int, to as int) > u32::MAX);
                }
            }
            return None;
        }
        i = i + 1;
    }
    Some(acc as u32)
}

fn exec_hex_u32(s: &[u8], from: usize, to: usize) -> (r: Option<u32>)
    requires
        from <= to <= s.len(),
    ensures
        r == spec_hex_u32(s@, from as int, to as int),
{
    let f2 = exec_strip_0x(s, from, to);
    let st = if f2 < to && s[f2] == 0x2B {
        f2 + 1
    } else {
        f2
    };
    if st >= to {
        return None;
    }
    let mut acc: u64 = 0;
    let mut i = st;
    while i < to
        invariant
            st <= i <= to <= s.len(),
            st as int == plus_start(s@, strip_0x(s@, from as int, to as int), to as int),
            st < to,
            forall|k: int| st <= k < i ==> is_hex_digit(#[trigger] s@[k]),
            acc as int == hex_value(s@, st as int, i as int),
            acc <= 0xFFFF_FFFF,
        decreases to - i,
    {
        let b = s[i];
        let d: u64 = if 0x30 <= b && b <= 0x39 {
            (b - 0x30) as u64
        } else if 0x41 <= b && b <= 0x46 {
            (b - 0x37) as u64
        } else if 0x61 <= b && b <= 0x66 {
            (b - 0x57) as u64
        } else {
            proof {
                assert(exists|k: int| st <= k < to && !is_hex_digit(#[trigger] s@[k])) by {
                    assert(st as int <= i as int);
                    assert((i as int) < to as int);
                    assert(!is_hex_digit(s@[i as int]));
                }
            }
            return None;
        };
        let ghost prev = acc as int;
        acc = acc * 16 + d;
        if acc > 0xFFFF_FFFF {
            proof {
                assert(hex_value(s@, st as int, i + 1) == prev * 16 + crate::candump::hex_digit_value(
                    s@[i as int],
                ));
                if exists|k: int| st <= k < to && !is_hex_digit(#[trigger] s@[k]) {
                } else {
                    assert(forall|k: int| st <= k < to ==> is_hex_digit(#[trigger] s@[k]));
                    crate::candump::lemma_hex_value_mono(s@, st as int, i + 1, to as int);
                    assert(hex_value(s@, st as int, to as int) > u32::MAX);
                }
            }
            return None;
        }
        i = i + 1;
    }
    Some(acc as u32)
}

fn exec_num_u32(s: &[u8], from: usize, to: usize) -> (r: Option<u32>)
    requires
        from <= to <= s.len(),
    ensures
        r == spec_num_u32(s@, from as int, to as int),
{
    match exec_dec_u32(s, from, to) {
        Some(v) => Some(v),
        None => exec_hex_u32(s, from, to),
    }
}

impl CanFilter {
    /// Parses a filter from `<id>:<mask>[:!]`, each number decimal or
    /// `0x`-prefixed hexadecimal; any other shape is the given error.
    pub fn from_str(s: &str) -> (r: Result<CanFilter, String>)
        ensures
            match r {
                Ok(f) => spec_parse_filter(s.spec_bytes()) == Some(f),
                Err(e) => spec_parse_filter(s.spec_bytes()) is None && e@ == spec_filter_error(
                    s@,
                ),
            },
    {
        let b = s.as_bytes();
        match Self::parse_bytes(b) {
            Some(f) => Ok(f),
            None => {
                let mut e = "Invalid CAN filter '".to_owned();
                e.append(s);
                e.append("'. Expected format is '<id>:<mask>[:!]'.");
                Err(e)
            },
        }
    }

    fn parse_bytes(s: &[u8]) -> (r: Option<CanFilter>)
        ensures
            r == spec_parse_filter(s@),
    {
        let ts = exec_ws_start(s, 0);
        let te = exec_ws_end(s, s.len());
        if te < ts {
            proof {
                assert(find_colon(s@, ts as int, te as int) == te as int);
            }
            return None;
        }
        let c1 = exec_find_colon(s, ts, te);
        if c1 == te {
            return None;
        }
        let c2 = exec_find_colon(s, c1 + 1, te);
        if c2 == te {
            let id = match exec_num_u32(s, ts, c1) {
                Some(v) => v,
                None => {
                    return None;
                },
            };
            let mask = match exec_num_u32(s, c1 + 1, te) {
                Some(v) => v,
                None => {
                    return None;
                },
            };
            Some(CanFilter { inverted: false, id, mask })
        } else {
            let c3 = exec_find_colon(s, c2 + 1, te);
            if c3 != te {
                return None;
            }
            if !(te - c2 == 2 && s[c2 + 1] == 0x21) {
                return None;
            }
            let id = match exec_num_u32(s, ts, c1) {
                Some(v) => v,
                None => {
                    return None;
                },
            };
            let mask = match exec_num_u32(s, c1 + 1, c2) {
                Some(v) => v,
                None => {
                    return None;
                },
            };
            Some(CanFilter { inverted: true, id, mask })
        }
    }
}

} // verus!
