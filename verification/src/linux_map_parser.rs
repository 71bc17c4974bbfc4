//! Parsing the text form of a process memory map: each line starts with a
//! `start-end` pair of hexadecimal addresses, and the rest of the line is
//! ignored. Lines that do not fit that shape are skipped.

use vstd::prelude::*;
use vstd::string::StringSliceAdditionalSpecFns;

use crate::map_parser_utilities::MemoryMapEntry;

verus! {

/// The ASCII whitespace bytes that separate the fields of a map line.
pub open spec fn spec_is_ws(b: u8) -> bool {
    b == 0x20 || b == 0x09 || b == 0x0A || b == 0x0C || b == 0x0D
}

/// ASCII hexadecimal digits, upper or lower case.
pub open spec fn spec_is_hex_digit(b: u8) -> bool {
    (0x30 <= b <= 0x39) || (0x41 <= b <= 0x46) || (0x61 <= b <= 0x66)
}

/// The numeric value of one hexadecimal digit.
pub open spec fn spec_hex_digit_val(b: u8) -> int {
    if 0x30 <= b <= 0x39 {
        b - 0x30
    } else if 0x41 <= b <= 0x46 {
        b - 0x41 + 10
    } else {
        b - 0x61 + 10
    }
}

/// The value of a big-endian string of hexadecimal digits.
pub open spec fn spec_hex_value(s: Seq<u8>) -> int
    decreases s.len(),
{
    if s.len() == 0 {
        0
    } else {
        spec_hex_value(s.drop_last()) * 16 + spec_hex_digit_val(s.last())
    }
}

/// Every byte of the sequence is a hexadecimal digit.
pub open spec fn spec_all_hex(s: Seq<u8>) -> bool {
    forall|k: int| 0 <= k < s.len() ==> spec_is_hex_digit(s[k])
}

/// A number token may carry one leading plus sign; the body is what remains.
pub open spec fn spec_hex_body(s: Seq<u8>) -> Seq<u8> {
    if s.len() > 0 && s[0] == 0x2B {
        s.skip(1)
    } else {
        s
    }
}

/// Whether a token is a valid hexadecimal number that fits the machine word:
/// a non-empty digit string (after an optional plus sign) whose value is in
/// range.
pub open spec fn spec_hex_parses(s: Seq<u8>) -> bool {
    &&& spec_hex_body(s).len() > 0
    &&& spec_all_hex(spec_hex_body(s))
    &&& spec_hex_value(spec_hex_body(s)) <= usize::MAX
}

/// First index at or after `i` holding a non-whitespace byte, or the length.
pub open spec fn spec_scan_non_ws(s: Seq<u8>, i: int) -> int
    decreases s.len() - i,
{
    if i < 0 || i >= s.len() {
        s.len() as int
    } else if !spec_is_ws(s[i]) {
        i
    } else {
        spec_scan_non_ws(s, i + 1)
    }
}

/// First index at or after `i` holding a whitespace byte, or the length.
pub open spec fn spec_scan_ws(s: Seq<u8>, i: int) -> int
    decreases s.len() - i,
{
    if i < 0 || i >= s.len() {
        s.len() as int
    } else if spec_is_ws(s[i]) {
        i
    } else {
        spec_scan_ws(s, i + 1)
    }
}

/// First index in `[i, end)` holding a dash, or `end`.
pub open spec fn spec_scan_dash(s: Seq<u8>, i: int, end: int) -> int
    decreases end - i,
{
    if i < 0 || i >= end || i >= s.len() {
        end
    } else if s[i] == 0x2D {
        i
    } else {
        spec_scan_dash(s, i + 1, end)
    }
}

/// What parsing one line yields. The first whitespace-separated token must be
/// two valid hexadecimal numbers joined by exactly one dash; anything else is
/// no entry.
pub open spec fn spec_parse_entry(s: Seq<u8>) -> Option<MemoryMapEntry> {
    let t0 = spec_scan_non_ws(s, 0);
    let t1 = spec_scan_ws(s, t0);
    let d = spec_scan_dash(s, t0, t1);
    if t0 == t1 {
        None
    } else if d == t1 {
        None
    } else if spec_scan_dash(s, d + 1, t1) < t1 {
        None
    } else {
        let left = s.subrange(t0, d);
        let right = s.subrange(d + 1, t1);
        if spec_hex_parses(left) && spec_hex_parses(right) {
            Some(
                MemoryMapEntry {
                    start_address: spec_hex_value(spec_hex_body(left)) as usize,
                    end_address: spec_hex_value(spec_hex_body(right)) as usize,
                },
            )
        } else {
            None
        }
    }
}

/// All entries of the lines that parse, in order.
pub open spec fn spec_parse_lines(lines: Seq<&str>) -> Seq<MemoryMapEntry>
    decreases lines.len(),
{
    if lines.len() == 0 {
        Seq::empty()
    } else {
        let head = match spec_parse_entry(lines[0].spec_bytes()) {
            Some(e) => seq![e],
            None => Seq::empty(),
        };
        head + spec_parse_lines(lines.skip(1))
    }
}

/// The value of a string of digits only grows as digits are appended.
proof fn lemma_hex_value_nonneg(s: Seq<u8>)
    requires
        spec_all_hex(s),
    ensures
        spec_hex_value(s) >= 0,
    decreases s.len(),
{
    if s.len() > 0 {
        assert(spec_all_hex(s.drop_last()));
        lemma_hex_value_nonneg(s.drop_last());
        assert(spec_hex_value(s.drop_last()) * 16 >= 0) by (nonlinear_arith)
            requires
                spec_hex_value(s.drop_last()) >= 0,
        ;
    }
}

/// A prefix of a digit string never has a larger value than the whole.
proof fn lemma_hex_prefix_le(s: Seq<u8>, k: int)
    requires
        spec_all_hex(s),
        0 <= k <= s.len(),
    ensures
        spec_hex_value(s.take(k)) <= spec_hex_value(s),
    decreases s.len() - k,
{
    if k < s.len() {
        lemma_hex_prefix_le(s, k + 1);
        let t = s.take(k + 1);
        assert(t.drop_last() =~= s.take(k));
        assert(spec_all_hex(t.drop_last()));
        lemma_hex_value_nonneg(t.drop_last());
        assert(spec_hex_value(s.take(k)) * 16 >= spec_hex_value(s.take(k))) by (nonlinear_arith)
            requires
                spec_hex_value(s.take(k)) >= 0,
        ;
    } else {
        assert(s.take(k) =~= s);
    }
}

/// Parses the digits of `bytes` in `[start, end)` as one hexadecimal number
/// token, yielding its value exactly when the token is well formed and fits
/// the machine word.
fn parse_hex_token(bytes: &[u8], start: usize, end: usize) -> (r: Option<usize>)
    requires
        start <= end <= bytes@.len(),
    ensures
        spec_hex_parses(bytes@.subrange(start as int, end as int)) ==> r == Some(
            spec_hex_value(spec_hex_body(bytes@.subrange(start as int, end as int))) as usize,
        ),
        !spec_hex_parses(bytes@.subrange(start as int, end as int)) ==> r is None,
{
    let ghost sub = bytes@.subrange(start as int, end as int);

    if start == end {
        return None;
    }

    let mut digits_start: usize = start;
    if bytes[start] == 0x2B {
        digits_start = start + 1;
        if digits_start == end {
            proof {
                assert(spec_hex_body(sub) =~= sub.skip(1));
            }
            return None;
        }
    }

    proof {
        assert(spec_hex_body(sub) =~= bytes@.subrange(digits_start as int, end as int));
    }
    let ghost body = bytes@.subrange(digits_start as int, end as int);

    let mut acc: usize = 0;
    let mut i: usize = digits_start;

    while i < end
        invariant
            digits_start <= i <= end <= bytes@.len(),
            digits_start < end,
            body == bytes@.subrange(digits_start as int, end as int),
            body == spec_hex_body(bytes@.subrange(start as int, end as int)),
            spec_all_hex(bytes@.subrange(digits_start as int, i as int)),
            acc == spec_hex_value(bytes@.subrange(digits_start as int, i as int)),
        decreases end - i,
    {
        let b = bytes[i];
        let v: usize;
        if 0x30 <= b && b <= 0x39 {
            v = (b - 0x30) as usize;
        } else if 0x41 <= b && b <= 0x46 {
            v = (b - 0x41 + 10) as usize;
        } else if 0x61 <= b && b <= 0x66 {
            v = (b - 0x61 + 10) as usize;
        } else {
            proof {
                assert(body[i - digits_start] == bytes@[i as int]);
                assert(!spec_is_hex_digit(body[i - digits_start]));
                assert(!spec_all_hex(body));
            }
            return None;
        }

        proof {
            let pre = bytes@.subrange(digits_start as int, i as int);
            let cur = bytes@.subrange(digits_start as int, i as int + 1);
            assert(cur.drop_last() =~= pre);
            assert(cur.last() == bytes@[i as int]);
            assert(spec_all_hex(cur));
            assert(spec_hex_value(cur) == acc * 16 + spec_hex_digit_val(cur.last()));
        }

        let next = match acc.checked_mul(16) {
            Some(shifted) => shifted.checked_add(v),
            None => None,
        };
        match next {
            Some(next_acc) => {
                acc = next_acc;
            },
            None => {
                proof {
                    let cur = bytes@.subrange(digits_start as int, i as int + 1);
                    assert(spec_hex_digit_val(cur.last()) == v);
                    assert(acc * 16 + v > usize::MAX);
                    assert(spec_hex_value(cur) > usize::MAX);
                    assert(cur =~= body.take(i - digits_start + 1));
                    if spec_all_hex(body) {
                        lemma_hex_prefix_le(body, i - digits_start + 1);
                    }
                }
                return None;
            },
        }
        i = i + 1;
    }

    proof {
        assert(bytes@.subrange(digits_start as int, end as int) =~= body);
    }
    Some(acc)
}

/// Parses a line from a process memory map listing and returns the region it
/// describes, if the line is well formed.
pub fn parse_memory_map_entry(line: &str) -> (r: Option<MemoryMapEntry>)
    ensures
        r == spec_parse_entry(line.spec_bytes()),
{
    let bytes = line.as_bytes();
    let n = bytes.len();
    let ghost s = line.spec_bytes();

    // First token: skip leading whitespace, then run to the next whitespace.
    let mut t0: usize = 0;
    while t0 < n && is_ws(bytes[t0])
        invariant
            t0 <= n == s.len(),
            bytes@ == s,
            spec_scan_non_ws(s, 0) == spec_scan_non_ws(s, t0 as int),
        decreases n - t0,
    {
        t0 = t0 + 1;
    }
    assert(t0 == spec_scan_non_ws(s, 0));

    let mut t1: usize = t0;
    while t1 < n && !is_ws(bytes[t1])
        invariant
            t0 <= t1 <= n == s.len(),
            bytes@ == s,
            spec_scan_ws(s, t0 as int) == spec_scan_ws(s, t1 as int),
        decreases n - t1,
    {
        t1 = t1 + 1;
    }
    assert(t1 == spec_scan_ws(s, t0 as int));

    if t0 == t1 {
        return None;
    }

    // The token must hold exactly one dash.
    let mut d: usize = t0;
    while d < t1 && bytes[d] != 0x2D
        invariant
            t0 <= d <= t1 <= n == s.len(),
            bytes@ == s,
            spec_scan_dash(s, t0 as int, t1 as int) == spec_scan_dash(s, d as int, t1 as int),
        decreases t1 - d,
    {
        d = d + 1;
    }
    assert(d == spec_scan_dash(s, t0 as int, t1 as int));

    if d == t1 {
        return None;
    }

    let mut d2: usize = d + 1;
    while d2 < t1 && bytes[d2] != 0x2D
        invariant
            d < d2 <= t1 <= n == s.len(),
            bytes@ == s,
            spec_scan_dash(s, d as int + 1, t1 as int) == spec_scan_dash(s, d2 as int, t1 as int),
        decreases t1 - d2,
    {
        d2 = d2 + 1;
    }
    assert(d2 == spec_scan_dash(s, d as int + 1, t1 as int));

    if d2 < t1 {
        return None;
    }

    let start_address = parse_hex_token(bytes, t0, d);
    let end_address = parse_hex_token(bytes, d + 1, t1);

    match (start_address, end_address) {
        (Some(start), Some(end)) => Some(MemoryMapEntry::new(start, end)),
        _ => None,
    }
}

/// Whether the byte is ASCII whitespace, as the map format counts it.
fn is_ws(b: u8) -> (r: bool)
    ensures
        r == spec_is_ws(b),
{
    b == 0x20 || b == 0x09 || b == 0x0A || b == 0x0C || b == 0x0D
}

/// Parses the lines of a process memory map listing and returns the regions
/// of every line that is well formed, in order.
pub fn parse_memory_map_from_lines<'a>(lines: Vec<&'a str>) -> (r: Vec<MemoryMapEntry>)
    ensures
        r@ == spec_parse_lines(lines@),
{
    let mut entries: Vec<MemoryMapEntry> = Vec::new();
    let mut i: usize = 0;

    proof {
        assert(lines@.skip(0) =~= lines@);
        assert(Seq::<MemoryMapEntry>::empty() + spec_parse_lines(lines@) =~= spec_parse_lines(
            lines@,
        ));
    }

    while i < lines.len()
        invariant
            i <= lines.len(),
            spec_parse_lines(lines@) == entries@ + spec_parse_lines(lines@.skip(i as int)),
        decreases lines.len() - i,
    {
        proof {
            assert(lines@.skip(i as int)[0] == lines@[i as int]);
            assert(lines@.skip(i as int).skip(1) =~= lines@.skip(i as int + 1));
        }
        let ghost pre = entries@;
        let ghost rest = spec_parse_lines(lines@.skip(i as int + 1));
        match parse_memory_map_entry(lines[i]) {
            Some(entry) => {
                entries.push(entry);
                proof {
                    assert(entries@ =~= pre + seq![entry]);
                    assert((pre + seq![entry]) + rest =~= pre + (seq![entry] + rest));
                }
            },
            None => {
                proof {
                    assert(pre + (Seq::<MemoryMapEntry>::empty() + rest) =~= pre + rest);
                }
            },
        }
        i = i + 1;
    }

    proof {
        assert(lines@.skip(lines@.len() as int) =~= Seq::<&str>::empty());
        assert(entries@ + Seq::<MemoryMapEntry>::empty() =~= entries@);
    }
    entries
}

} // verus!
