//! Parser for the textual, line-oriented candump log format.
//!
//! One line holds a parenthesised timestamp, an interface token, and one
//! frame: `(1717689368.527737) vcan0 18A#F47E`. Every parser returns the
//! number of input bytes it consumed together with the parsed value; the
//! bytes after that point are left for the caller, which may ignore them.

use vstd::prelude::*;

use crate::frame::{FrameView, Id, RawFrame, Timestamp};

verus! {

/// Lines that do not begin with this byte are not log entries.
pub const SOF: u8 = 0x28;

pub open spec fn is_digit(b: u8) -> bool {
    0x30 <= b <= 0x39
}

pub open spec fn is_hex_digit(b: u8) -> bool {
    is_digit(b) || (0x41 <= b <= 0x46) || (0x61 <= b <= 0x66)
}

pub open spec fn is_alphanumeric(b: u8) -> bool {
    is_digit(b) || (0x41 <= b <= 0x5A) || (0x61 <= b <= 0x7A)
}

pub open spec fn is_space(b: u8) -> bool {
    b == 0x20 || b == 0x09
}

/// Numeric value of one hexadecimal digit.
pub open spec fn hex_digit_value(b: u8) -> u8
    recommends
        is_hex_digit(b),
{
    if is_digit(b) {
        (b - 0x30) as u8
    } else if 0x41 <= b <= 0x46 {
        (b - 0x37) as u8
    } else {
        (b - 0x57) as u8
    }
}

/// First index at or after `from` that does not hold a decimal digit.
pub open spec fn digits_end(s: Seq<u8>, from: int) -> int
    decreases s.len() - from,
{
    if from < 0 || from >= s.len() {
        from
    } else if is_digit(s[from]) {
        digits_end(s, from + 1)
    } else {
        from
    }
}

/// First index at or after `from` that does not hold an ASCII
/// alphanumeric byte.
pub open spec fn alphanumeric_end(s: Seq<u8>, from: int) -> int
    decreases s.len() - from,
{
    if from < 0 || from >= s.len() {
        from
    } else if is_alphanumeric(s[from]) {
        alphanumeric_end(s, from + 1)
    } else {
        from
    }
}

/// First index at or after `from` that does not hold a space or tab.
pub open spec fn spaces_end(s: Seq<u8>, from: int) -> int
    decreases s.len() - from,
{
    if from < 0 || from >= s.len() {
        from
    } else if is_space(s[from]) {
        spaces_end(s, from + 1)
    } else {
        from
    }
}

/// Value of the decimal digits `s[from..to]`, most significant first.
pub open spec fn dec_value(s: Seq<u8>, from: int, to: int) -> int
    decreases to - from,
{
    if to <= from {
        0
    } else {
        dec_value(s, from, to - 1) * 10 + (s[to - 1] - 0x30)
    }
}

/// Value of the digits `s[from..to]` read in base 16, most significant
/// first.
pub open spec fn hex_value(s: Seq<u8>, from: int, to: int) -> int
    decreases to - from,
{
    if to <= from {
        0
    } else {
        hex_value(s, from, to - 1) * 16 + hex_digit_value(s[to - 1])
    }
}

pub proof fn lemma_dec_value_nonneg(s: Seq<u8>, from: int, to: int)
    requires
        forall|i: int| from <= i < to ==> is_digit(#[trigger] s[i]),
    ensures
        dec_value(s, from, to) >= 0,
    decreases to - from,
{
    if to > from {
        lemma_dec_value_nonneg(s, from, to - 1);
    }
}

/// A longer digit run never has a smaller value.
pub proof fn lemma_dec_value_mono(s: Seq<u8>, from: int, mid: int, to: int)
    requires
        from <= mid <= to,
        forall|i: int| from <= i < to ==> is_digit(#[trigger] s[i]),
    ensures
        dec_value(s, from, to) >= dec_value(s, from, mid),
    decreases to - mid,
{
    if mid < to {
        lemma_dec_value_mono(s, from, mid, to - 1);
        lemma_dec_value_nonneg(s, from, to - 1);
    }
}

pub proof fn lemma_hex_value_nonneg(s: Seq<u8>, from: int, to: int)
    requires
        forall|i: int| from <= i < to ==> is_hex_digit(#[trigger] s[i]),
    ensures
        hex_value(s, from, to) >= 0,
    decreases to - from,
{
    if to > from {
        lemma_hex_value_nonneg(s, from, to - 1);
    }
}

pub proof fn lemma_hex_value_mono(s: Seq<u8>, from: int, mid: int, to: int)
    requires
        from <= mid <= to,
        forall|i: int| from <= i < to ==> is_hex_digit(#[trigger] s[i]),
    ensures
        hex_value(s, from, to) >= hex_value(s, from, mid),
    decreases to - mid,
{
    if mid < to {
        lemma_hex_value_mono(s, from, mid, to - 1);
        lemma_hex_value_nonneg(s, from, to - 1);
    }
}

/// An `n`-digit hexadecimal run is bounded by `16^n`; stated for the two
/// widths the identifier parser needs.
pub proof fn lemma_hex_value_bound(s: Seq<u8>, from: int, to: int, bound: int)
    requires
        from <= to,
        forall|i: int| from <= i < to ==> is_hex_digit(#[trigger] s[i]),
        bound >= 1,
        bound >= pow16(to - from),
    ensures
        hex_value(s, from, to) < bound,
    decreases to - from,
{
    if to > from {
        lemma_pow16_pos(to - 1 - from);
        lemma_hex_value_bound(s, from, to - 1, pow16(to - 1 - from));
        assert(hex_digit_value(s[to - 1]) <= 15);
    }
}

pub proof fn lemma_pow16_pos(n: int)
    ensures
        pow16(n) >= 1,
    decreases n,
{
    if n > 0 {
        lemma_pow16_pos(n - 1);
    }
}

pub open spec fn pow16(n: int) -> int
    decreases n,
{
    if n <= 0 {
        1
    } else {
        16 * pow16(n - 1)
    }
}

/// The timestamp production: `(` seconds-digits `.` nanoseconds-digits `)`,
/// both runs non-empty decimal numbers that must fit in an `i64`.
pub open spec fn spec_timestamp(s: Seq<u8>) -> Option<(int, Timestamp)> {
    if s.len() == 0 || s[0] != 0x28 {
        None
    } else {
        let d1e = digits_end(s, 1);
        if d1e == 1 {
            None
        } else if dec_value(s, 1, d1e) > i64::MAX {
            None
        } else if d1e == s.len() || s[d1e] != 0x2E {
            None
        } else {
            let d2s = d1e + 1;
            let d2e = digits_end(s, d2s);
            if d2e == d2s {
                None
            } else if dec_value(s, d2s, d2e) > i64::MAX {
                None
            } else if d2e == s.len() || s[d2e] != 0x29 {
                None
            } else {
                Some(
                    (
                        d2e + 1,
                        Timestamp {
                            seconds: dec_value(s, 1, d1e) as i64,
                            nanoseconds: dec_value(s, d2s, d2e) as i64,
                        },
                    ),
                )
            }
        }
    }
}

/// `n` hexadecimal digits at `pos` followed by the `#` delimiter.
pub open spec fn hex_run(s: Seq<u8>, pos: int, n: int) -> bool {
    &&& pos >= 0
    &&& pos + n + 1 <= s.len()
    &&& forall|i: int| pos <= i < pos + n ==> is_hex_digit(#[trigger] s[i])
    &&& s[pos + n] == 0x23
}

/// The CAN identifier production. The digit count alone disambiguates:
/// 8 hex digits give a 29-bit extended identifier, 5 give a wide
/// identifier folded into the extended representation, 3 give an 11-bit
/// standard identifier. A value out of range for the identifier kind
/// falls through to the narrower alternatives and then fails.
pub open spec fn spec_can_id(s: Seq<u8>, pos: int) -> Option<(int, Id)> {
    if hex_run(s, pos, 8) && hex_value(s, pos, pos + 8) <= 0x1FFF_FFFF {
        Some((pos + 9, Id::Extended(hex_value(s, pos, pos + 8) as u32)))
    } else if hex_run(s, pos, 5) {
        Some((pos + 6, Id::Extended(hex_value(s, pos, pos + 5) as u32)))
    } else if hex_run(s, pos, 3) && hex_value(s, pos, pos + 3) <= 0x7FF {
        Some((pos + 4, Id::Standard(hex_value(s, pos, pos + 3) as u16)))
    } else {
        None
    }
}

/// The payload production: a greedy run of 2-hex-digit byte tokens, each
/// optionally followed by one cosmetic `.` separator. Never fails; an
/// empty payload is valid.
pub open spec fn spec_hex_data(s: Seq<u8>, pos: int) -> (int, Seq<u8>)
    decreases s.len() - pos,
{
    if pos < 0 || pos + 2 > s.len() || !is_hex_digit(s[pos]) || !is_hex_digit(s[pos + 1]) {
        (pos, Seq::empty())
    } else {
        let byte = (hex_digit_value(s[pos]) * 16 + hex_digit_value(s[pos + 1])) as u8;
        let next: int = if pos + 2 < s.len() && s[pos + 2] == 0x2E {
            pos + 3
        } else {
            pos + 2
        };
        let rest = spec_hex_data(s, next);
        (rest.0, seq![byte] + rest.1)
    }
}

/// Valid CAN FD payload lengths above the classic 8 bytes; a payload is
/// padded with zero bytes up to the next one.
pub open spec fn next_valid_fd_len(n: int) -> int {
    if n <= 8 {
        n
    } else if n <= 12 {
        12
    } else if n <= 16 {
        16
    } else if n <= 20 {
        20
    } else if n <= 24 {
        24
    } else if n <= 32 {
        32
    } else if n <= 48 {
        48
    } else {
        64
    }
}

/// The data-length code that stands for a valid FD payload length.
pub open spec fn fd_dlc_code(n: int) -> int {
    if n <= 8 {
        n
    } else if n == 12 {
        9
    } else if n == 16 {
        10
    } else if n == 20 {
        11
    } else if n == 24 {
        12
    } else if n == 32 {
        13
    } else if n == 48 {
        14
    } else {
        15
    }
}

/// The remote frame production: identifier, `R` or `r`, then at most
/// one optional hexadecimal data-length-code digit, defaulting to 0
/// when absent. A code above 8 fails the production.
pub open spec fn spec_can_remote_frame(s: Seq<u8>, pos: int) -> Option<(int, FrameView)> {
    match spec_can_id(s, pos) {
        None => None,
        Some((p, id)) => {
            if p == s.len() || (s[p] != 0x52 && s[p] != 0x72) {
                None
            } else {
                let p2 = p + 1;
                let has_digit = p2 < s.len() && is_hex_digit(s[p2]);
                let dlc_end: int = if has_digit {
                    p2 + 1
                } else {
                    p2
                };
                let dlc: int = if has_digit {
                    hex_digit_value(s[p2]) as int
                } else {
                    0
                };
                if dlc > 8 {
                    None
                } else {
                    Some(
                        (
                            dlc_end,
                            FrameView {
                                id,
                                remote: true,
                                error: false,
                                fd: false,
                                brs: false,
                                esi: false,
                                dlc,
                                data: Seq::empty(),
                            },
                        ),
                    )
                }
            }
        },
    }
}

/// The FD frame production: identifier, a second `#`, one hex digit of
/// flag bits (bit 0 bit-rate-switch, bit 1 error-state-indicator), then
/// the payload, which is padded to the next valid FD length.
pub open spec fn spec_can_fd_frame(s: Seq<u8>, pos: int) -> Option<(int, FrameView)> {
    match spec_can_id(s, pos) {
        None => None,
        Some((p, id)) => {
            if p + 2 > s.len() || s[p] != 0x23 || !is_hex_digit(s[p + 1]) {
                None
            } else {
                let flags = hex_digit_value(s[p + 1]);
                let rest = spec_hex_data(s, p + 2);
                if rest.1.len() > 64 {
                    None
                } else {
                    let padded = next_valid_fd_len(rest.1.len() as int);
                    Some(
                        (
                            rest.0,
                            FrameView {
                                id,
                                remote: false,
                                error: false,
                                fd: true,
                                brs: flags & 1 == 1,
                                esi: flags & 2 == 2,
                                dlc: fd_dlc_code(padded),
                                data: rest.1 + Seq::new(
                                    (padded - rest.1.len()) as nat,
                                    |i: int| 0u8,
                                ),
                            },
                        ),
                    )
                }
            }
        },
    }
}

/// The classic data frame production: identifier then payload, at most 8
/// bytes.
pub open spec fn spec_can_data_frame(s: Seq<u8>, pos: int) -> Option<(int, FrameView)> {
    match spec_can_id(s, pos) {
        None => None,
        Some((p, id)) => {
            let rest = spec_hex_data(s, p);
            if rest.1.len() > 8 {
                None
            } else {
                Some(
                    (
                        rest.0,
                        FrameView {
                            id,
                            remote: false,
                            error: false,
                            fd: false,
                            brs: false,
                            esi: false,
                            dlc: rest.1.len() as int,
                            data: rest.1,
                        },
                    ),
                )
            }
        },
    }
}

/// Frame-kind precedence: remote frame, then FD frame, then classic data
/// frame; the first production to match wins.
pub open spec fn spec_can_any_frame(s: Seq<u8>, pos: int) -> Option<(int, FrameView)> {
    if spec_can_remote_frame(s, pos) is Some {
        spec_can_remote_frame(s, pos)
    } else if spec_can_fd_frame(s, pos) is Some {
        spec_can_fd_frame(s, pos)
    } else {
        spec_can_data_frame(s, pos)
    }
}

/// One whole log line: timestamp, spaces, one alphanumeric interface
/// token, spaces, one frame. The interface is returned as the byte range
/// it occupies.
pub open spec fn spec_parse(s: Seq<u8>) -> Option<(int, Timestamp, Seq<u8>, FrameView)> {
    match spec_timestamp(s) {
        None => None,
        Some((p0, ts)) => {
            let ifs = spaces_end(s, p0);
            let ife = alphanumeric_end(s, ifs);
            if ife == ifs {
                None
            } else {
                let fs = spaces_end(s, ife);
                match spec_can_any_frame(s, fs) {
                    None => None,
                    Some((p1, f)) => Some((p1, ts, s.subrange(ifs, ife), f)),
                }
            }
        },
    }
}

fn is_digit_byte(b: u8) -> (r: bool)
    ensures
        r == is_digit(b),
{
    0x30 <= b && b <= 0x39
}

fn is_hex_byte(b: u8) -> (r: bool)
    ensures
        r == is_hex_digit(b),
{
    (0x30 <= b && b <= 0x39) || (0x41 <= b && b <= 0x46) || (0x61 <= b && b <= 0x66)
}

fn hex_byte_value(b: u8) -> (r: u8)
    requires
        is_hex_digit(b),
    ensures
        r == hex_digit_value(b),
        r <= 15,
{
    if 0x30 <= b && b <= 0x39 {
        b - 0x30
    } else if 0x41 <= b && b <= 0x46 {
        b - 0x37
    } else {
        b - 0x57
    }
}

fn digits_run(s: &[u8], pos: usize) -> (r: usize)
    requires
        pos <= s.len(),
    ensures
        r == digits_end(s@, pos as int),
        pos <= r <= s.len(),
        forall|i: int| pos <= i < r ==> is_digit(#[trigger] s@[i]),
{
    let mut i = pos;
    while i < s.len() && 0x30 <= s[i] && s[i] <= 0x39
        invariant
            pos <= i <= s.len(),
            digits_end(s@, pos as int) == digits_end(s@, i as int),
            forall|j: int| pos <= j < i ==> is_digit(#[trigger] s@[j]),
        decreases s.len() - i,
    {
        i = i + 1;
    }
    i
}

fn alphanumeric_run(s: &[u8], pos: usize) -> (r: usize)
    requires
        pos <= s.len(),
    ensures
        r == alphanumeric_end(s@, pos as int),
        pos <= r <= s.len(),
{
    let mut i = pos;
    while i < s.len() && ((0x30 <= s[i] && s[i] <= 0x39) || (0x41 <= s[i] && s[i] <= 0x5A) || (
    0x61 <= s[i] && s[i] <= 0x7A))
        invariant
            pos <= i <= s.len(),
            alphanumeric_end(s@, pos as int) == alphanumeric_end(s@, i as int),
        decreases s.len() - i,
    {
        i = i + 1;
    }
    i
}

fn spaces_run(s: &[u8], pos: usize) -> (r: usize)
    requires
        pos <= s.len(),
    ensures
        r == spaces_end(s@, pos as int),
        pos <= r <= s.len(),
{
    let mut i = pos;
    while i < s.len() && (s[i] == 0x20 || s[i] == 0x09)
        invariant
            pos <= i <= s.len(),
            spaces_end(s@, pos as int) == spaces_end(s@, i as int),
        decreases s.len() - i,
    {
        i = i + 1;
    }
    i
}

fn parse_dec_i64(s: &[u8], from: usize, to: usize) -> (r: Option<i64>)
    requires
        from <= to <= s.len(),
        forall|i: int| from <= i < to ==> is_digit(#[trigger] s@[i]),
    ensures
        match r {
            Some(v) => v as int == dec_value(s@, from as int, to as int) && dec_value(
                s@,
                from as int,
                to as int,
            ) <= i64::MAX,
            None => dec_value(s@, from as int, to as int) > i64::MAX,
        },
{
    let mut acc: i64 = 0;
    let mut i = from;
    while i < to
        invariant
            from <= i <= to <= s.len(),
            forall|k: int| from <= k < to ==> is_digit(#[trigger] s@[k]),
            acc >= 0,
            acc as int == dec_value(s@, from as int, i as int),
        decreases to - i,
    {
        assert(is_digit(s@[i as int]));
        let d = s[i] - 0x30;
        let stepped = match acc.checked_mul(10) {
            Some(a) => a.checked_add(d as i64),
            None => None,
        };
        match stepped {
            Some(v) => {
                acc = v;
            },
            None => {
                proof {
                    assert(dec_value(s@, from as int, i + 1) == acc * 10 + d);
                    lemma_dec_value_mono(s@, from as int, i + 1, to as int);
                }
                return None;
            },
        }
        i = i + 1;
    }
    Some(acc)
}

/// Reads `n` hexadecimal digits followed by `#`, for `n` at most 8.
fn take_hex_run(s: &[u8], pos: usize, n: usize) -> (r: Option<u32>)
    requires
        pos <= s.len(),
        1 <= n <= 8,
    ensures
        match r {
            Some(v) => hex_run(s@, pos as int, n as int) && v as int == hex_value(
                s@,
                pos as int,
                pos as int + n,
            ),
            None => !hex_run(s@, pos as int, n as int),
        },
{
    if s.len() - pos <= n {
        return None;
    }
    if s[pos + n] != 0x23 {
        return None;
    }
    let mut acc: u64 = 0;
    let mut i = pos;
    while i < pos + n
        invariant
            pos <= i <= pos + n,
            pos + n < s.len(),
            n <= 8,
            forall|k: int| pos <= k < i ==> is_hex_digit(#[trigger] s@[k]),
            acc as int == hex_value(s@, pos as int, i as int),
            acc < pow16((i - pos) as int),
        decreases pos + n - i,
    {
        let b = s[i];
        if !is_hex_byte(b) {
            return None;
        }
        let d = hex_byte_value(b);
        proof {
            assert(pow16((i - pos) + 1) == 16 * pow16((i - pos) as int));
            lemma_pow16_pos((i - pos) as int);
            lemma_pow16_values();
            lemma_pow16_bounded((i - pos) + 1, 8);
        }
        acc = acc * 16 + (d as u64);
        i = i + 1;
    }
    proof {
        lemma_pow16_values();
        lemma_pow16_bounded(n as int, 8);
    }
    Some(acc as u32)
}

proof fn lemma_pow16_values()
    ensures
        pow16(3) == 0x1000,
        pow16(5) == 0x10_0000,
        pow16(8) == 0x1_0000_0000,
{
    assert(pow16(0) == 1);
    assert(pow16(1) == 16);
    assert(pow16(2) == 0x100);
    assert(pow16(3) == 0x1000);
    assert(pow16(4) == 0x1_0000);
    assert(pow16(5) == 0x10_0000);
    assert(pow16(6) == 0x100_0000);
    assert(pow16(7) == 0x1000_0000);
    assert(pow16(8) == 0x1_0000_0000);
}

proof fn lemma_pow16_bounded(n: int, m: int)
    requires
        n <= m,
    ensures
        pow16(n) <= pow16(m),
    decreases m,
{
    if n < m && m > 0 {
        lemma_pow16_bounded(n, m - 1);
        lemma_pow16_pos(m - 1);
    }
}

/// Parses the timestamp production at the start of the input; returns the
/// number of bytes consumed.
pub fn timestamp(s: &[u8]) -> (r: Option<(usize, Timestamp)>)
    ensures
        match r {
            Some((n, ts)) => spec_timestamp(s@) == Some((n as int, ts)) && n <= s.len(),
            None => spec_timestamp(s@) is None,
        },
{
    if s.len() == 0 || s[0] != 0x28 {
        return None;
    }
    let d1e = digits_run(s, 1);
    if d1e == 1 {
        return None;
    }
    proof {
        lemma_dec_value_nonneg(s@, 1, d1e as int);
    }
    let secs = match parse_dec_i64(s, 1, d1e) {
        Some(v) => v,
        None => {
            return None;
        },
    };
    if d1e == s.len() || s[d1e] != 0x2E {
        return None;
    }
    let d2s = d1e + 1;
    let d2e = digits_run(s, d2s);
    if d2e == d2s {
        return None;
    }
    proof {
        lemma_dec_value_nonneg(s@, d2s as int, d2e as int);
    }
    let nanos = match parse_dec_i64(s, d2s, d2e) {
        Some(v) => v,
        None => {
            return None;
        },
    };
    if d2e == s.len() || s[d2e] != 0x29 {
        return None;
    }
    Some((d2e + 1, Timestamp { seconds: secs, nanoseconds: nanos }))
}

/// Parses one alphanumeric interface token at `pos`, returning the end
/// position and the token's bytes.
pub fn interface(s: &[u8], pos: usize) -> (r: Option<(usize, Vec<u8>)>)
    requires
        pos <= s.len(),
    ensures
        match r {
            Some((e, name)) => {
                &&& e == alphanumeric_end(s@, pos as int)
                &&& e != pos
                &&& pos <= e <= s.len()
                &&& name@ == s@.subrange(pos as int, e as int)
            },
            None => alphanumeric_end(s@, pos as int) == pos,
        },
{
    let e = alphanumeric_run(s, pos);
    if e == pos {
        return None;
    }
    let mut name: Vec<u8> = Vec::new();
    let mut i = pos;
    while i < e
        invariant
            pos <= i <= e <= s.len(),
            name@ == s@.subrange(pos as int, i as int),
        decreases e - i,
    {
        name.push(s[i]);
        proof {
            assert(s@.subrange(pos as int, i + 1) =~= s@.subrange(pos as int, i as int).push(
                s@[i as int],
            ));
        }
        i = i + 1;
    }
    Some((e, name))
}

/// Parses the CAN identifier production at `pos`.
pub fn can_id(s: &[u8], pos: usize) -> (r: Option<(usize, Id)>)
    requires
        pos <= s.len(),
    ensures
        match r {
            Some((p, id)) => spec_can_id(s@, pos as int) == Some((p as int, id)) && p <= s.len()
                && id.wf(),
            None => spec_can_id(s@, pos as int) is None,
        },
{
    if let Some(v) = take_hex_run(s, pos, 8) {
        if v <= 0x1FFF_FFFF {
            return Some((pos + 9, Id::Extended(v)));
        }
    }
    if let Some(v) = take_hex_run(s, pos, 5) {
        proof {
            lemma_hex_value_nonneg(s@, pos as int, pos + 5);
            lemma_pow16_values();
            lemma_hex_value_bound(s@, pos as int, pos + 5, pow16(5));
        }
        return Some((pos + 6, Id::Extended(v)));
    }
    if let Some(v) = take_hex_run(s, pos, 3) {
        if v <= 0x7FF {
            return Some((pos + 4, Id::Standard(v as u16)));
        }
    }
    None
}

/// Parses the payload production at `pos`; never fails.
pub fn hex_data(s: &[u8], pos: usize) -> (r: (usize, Vec<u8>))
    requires
        pos <= s.len(),
    ensures
        r.0 as int == spec_hex_data(s@, pos as int).0,
        r.1@ == spec_hex_data(s@, pos as int).1,
        pos <= r.0 <= s.len(),
{
    let mut p = pos;
    let mut out: Vec<u8> = Vec::new();
    while s.len() - p >= 2 && is_hex_byte(s[p]) && is_hex_byte(s[p + 1])
        invariant
            pos <= p <= s.len(),
            spec_hex_data(s@, pos as int).0 == spec_hex_data(s@, p as int).0,
            spec_hex_data(s@, pos as int).1 == out@ + spec_hex_data(s@, p as int).1,
        decreases s.len() - p,
    {
        let ghost old_p = p as int;
        let ghost old_out = out@;
        let b = hex_byte_value(s[p]) * 16 + hex_byte_value(s[p + 1]);
        out.push(b);
        if s.len() - p >= 3 && s[p + 2] == 0x2E {
            p = p + 3;
        } else {
            p = p + 2;
        }
        proof {
            let sp = spec_hex_data(s@, old_p);
            assert(sp.0 == spec_hex_data(s@, p as int).0);
            assert(sp.1 == seq![b] + spec_hex_data(s@, p as int).1);
            assert(old_out + sp.1 =~= out@ + spec_hex_data(s@, p as int).1);
        }
    }
    proof {
        assert(spec_hex_data(s@, p as int) == (p as int, Seq::<u8>::empty()));
        assert(out@ + Seq::<u8>::empty() =~= out@);
    }
    (p, out)
}


fn next_fd_len(n: usize) -> (r: usize)
    requires
        n <= 64,
    ensures
        r as int == next_valid_fd_len(n as int),
        n <= r <= 64,
{
    if n <= 8 {
        n
    } else if n <= 12 {
        12
    } else if n <= 16 {
        16
    } else if n <= 20 {
        20
    } else if n <= 24 {
        24
    } else if n <= 32 {
        32
    } else if n <= 48 {
        48
    } else {
        64
    }
}

fn fd_code(n: usize) -> (r: usize)
    requires
        n <= 64,
    ensures
        r as int == fd_dlc_code(n as int),
        r <= 15,
{
    if n <= 8 {
        n
    } else if n == 12 {
        9
    } else if n == 16 {
        10
    } else if n == 20 {
        11
    } else if n == 24 {
        12
    } else if n == 32 {
        13
    } else if n == 48 {
        14
    } else {
        15
    }
}

/// Parses one hexadecimal digit of FD flag bits: bit 0 is
/// bit-rate-switch, bit 1 is error-state-indicator; other bits are
/// ignored.
pub fn fd_flags(b: u8) -> (r: Option<(bool, bool)>)
    ensures
        match r {
            Some((brs, esi)) => is_hex_digit(b) && brs == (hex_digit_value(b) & 1 == 1) && esi == (
            hex_digit_value(b) & 2 == 2),
            None => !is_hex_digit(b),
        },
{
    if is_hex_byte(b) {
        let v = hex_byte_value(b);
        Some((v & 1 == 1, v & 2 == 2))
    } else {
        None
    }
}

/// Parses the remote frame production at `pos`.
pub fn can_remote_frame(s: &[u8], pos: usize) -> (r: Option<(usize, RawFrame)>)
    requires
        pos <= s.len(),
    ensures
        match r {
            Some((p, f)) => spec_can_remote_frame(s@, pos as int) == Some((p as int, f@)) && p
                <= s.len() && f@.wf(),
            None => spec_can_remote_frame(s@, pos as int) is None,
        },
{
    let (p, id) = match can_id(s, pos) {
        Some(x) => x,
        None => {
            return None;
        },
    };
    if p == s.len() {
        return None;
    }
    let c = s[p];
    if c != 0x52 && c != 0x72 {
        return None;
    }
    let p2 = p + 1;
    let mut dlc: usize = 0;
    let mut p3 = p2;
    if p2 < s.len() && is_hex_byte(s[p2]) {
        dlc = hex_byte_value(s[p2]) as usize;
        p3 = p2 + 1;
    }
    if dlc > 8 {
        return None;
    }
    Some(
        (
            p3,
            RawFrame {
                id,
                remote: true,
                error: false,
                fd: false,
                brs: false,
                esi: false,
                dlc,
                data: Vec::new(),
            },
        ),
    )
}

/// Parses the FD frame production at `pos`.
pub fn can_fd_frame(s: &[u8], pos: usize) -> (r: Option<(usize, RawFrame)>)
    requires
        pos <= s.len(),
    ensures
        match r {
            Some((p, f)) => spec_can_fd_frame(s@, pos as int) == Some((p as int, f@)) && p
                <= s.len() && f@.wf(),
            None => spec_can_fd_frame(s@, pos as int) is None,
        },
{
    let (p, id) = match can_id(s, pos) {
        Some(x) => x,
        None => {
            return None;
        },
    };
    if s.len() - p < 2 {
        return None;
    }
    if s[p] != 0x23 {
        return None;
    }
    let (brs, esi) = match fd_flags(s[p + 1]) {
        Some(x) => x,
        None => {
            return None;
        },
    };
    let (p2, bytes) = hex_data(s, p + 2);
    if bytes.len() > 64 {
        return None;
    }
    let padded = next_fd_len(bytes.len());
    let code = fd_code(padded);
    let ghost unpadded = bytes@;
    let mut data = bytes;
    while data.len() < padded
        invariant
            unpadded.len() <= data.len() <= padded <= 64,
            data@ == unpadded + Seq::new((data.len() - unpadded.len()) as nat, |i: int| 0u8),
        decreases padded - data.len(),
    {
        data.push(0);
        proof {
            assert(data@ =~= unpadded + Seq::new(
                (data.len() - unpadded.len()) as nat,
                |i: int| 0u8,
            ));
        }
    }
    Some(
        (
            p2,
            RawFrame {
                id,
                remote: false,
                error: false,
                fd: true,
                brs,
                esi,
                dlc: code,
                data,
            },
        ),
    )
}

/// Parses the classic data frame production at `pos`.
pub fn can_data_frame(s: &[u8], pos: usize) -> (r: Option<(usize, RawFrame)>)
    requires
        pos <= s.len(),
    ensures
        match r {
            Some((p, f)) => spec_can_data_frame(s@, pos as int) == Some((p as int, f@)) && p
                <= s.len() && f@.wf(),
            None => spec_can_data_frame(s@, pos as int) is None,
        },
{
    let (p, id) = match can_id(s, pos) {
        Some(x) => x,
        None => {
            return None;
        },
    };
    let (p2, bytes) = hex_data(s, p);
    if bytes.len() > 8 {
        return None;
    }
    let dlc = bytes.len();
    Some(
        (
            p2,
            RawFrame {
                id,
                remote: false,
                error: false,
                fd: false,
                brs: false,
                esi: false,
                dlc,
                data: bytes,
            },
        ),
    )
}

/// Parses one frame at `pos`, trying the remote, FD and classic data
/// productions in that order.
pub fn can_any_frame(s: &[u8], pos: usize) -> (r: Option<(usize, RawFrame)>)
    requires
        pos <= s.len(),
    ensures
        match r {
            Some((p, f)) => spec_can_any_frame(s@, pos as int) == Some((p as int, f@)) && p
                <= s.len() && f@.wf(),
            None => spec_can_any_frame(s@, pos as int) is None,
        },
{
    if let Some(x) = can_remote_frame(s, pos) {
        return Some(x);
    }
    if let Some(x) = can_fd_frame(s, pos) {
        return Some(x);
    }
    can_data_frame(s, pos)
}

/// Parses one whole log line: timestamp, interface name and frame.
/// Returns the number of bytes consumed; trailing bytes are ignored, as
/// the log format ends an entry at the first byte it cannot use.
pub fn parse(s: &[u8]) -> (r: Option<(usize, Timestamp, Vec<u8>, RawFrame)>)
    ensures
        match r {
            Some((n, ts, iface, f)) => spec_parse(s@) == Some((n as int, ts, iface@, f@)) && n
                <= s.len() && f@.wf(),
            None => spec_parse(s@) is None,
        },
{
    let (p0, ts) = match timestamp(s) {
        Some(x) => x,
        None => {
            return None;
        },
    };
    let ifs = spaces_run(s, p0);
    let (ife, iface) = match interface(s, ifs) {
        Some(x) => x,
        None => {
            return None;
        },
    };
    let fs = spaces_run(s, ife);
    match can_any_frame(s, fs) {
        Some((p1, f)) => Some((p1, ts, iface, f)),
        None => None,
    }
}


/// For every identifier token of exactly 3 hexadecimal digits whose
/// value fits in 11 bits, the identifier parser yields a standard
/// identifier with that value.
pub proof fn lemma_can_id_standard(s: Seq<u8>, pos: int)
    requires
        hex_run(s, pos, 3),
        hex_value(s, pos, pos + 3) <= 0x7FF,
    ensures
        spec_can_id(s, pos) == Some(
            (pos + 4, Id::Standard(hex_value(s, pos, pos + 3) as u16)),
        ),
{
    assert(!is_hex_digit(0x23));
    assert(!hex_run(s, pos, 8)) by {
        if hex_run(s, pos, 8) {
            assert(is_hex_digit(s[pos + 3]));
        }
    }
    assert(!hex_run(s, pos, 5)) by {
        if hex_run(s, pos, 5) {
            assert(is_hex_digit(s[pos + 3]));
        }
    }
}

/// For every identifier token of exactly 8 hexadecimal digits whose
/// value fits in 29 bits, the identifier parser yields an extended
/// identifier with that value.
pub proof fn lemma_can_id_extended(s: Seq<u8>, pos: int)
    requires
        hex_run(s, pos, 8),
        hex_value(s, pos, pos + 8) <= 0x1FFF_FFFF,
    ensures
        spec_can_id(s, pos) == Some(
            (pos + 9, Id::Extended(hex_value(s, pos, pos + 8) as u32)),
        ),
{
}

} // verus!
