//! The decisions at the heart of locator discovery: what a process does
//! with the named shared object once it has opened it, and how the owner of
//! a stale object is read back out of its name.

use vstd::prelude::*;
use vstd::string::StringSliceAdditionalSpecFns;

verus! {

/// What the finder does with the shared object it opened.
#[derive(PartialEq, Eq, Structural, Clone, Copy, Debug)]
pub enum LocatorDiscovery {
    /// The object pre-existed: its creator recorded the chain's head address
    /// inside it. That address is authoritative; the local mapping is only a
    /// window onto it and can be dropped.
    AdoptRecorded { head_address: usize },
    /// The object is fresh: it becomes the first locator header, and the
    /// mapping is kept for process lifetime.
    InitializeMapping,
}

/// Decides between adopting a pre-existing locator and initializing a fresh
/// one: a pre-existing object carries the creator's head address, a fresh
/// object is laid out as the first header by the process that made it.
pub fn resolve_locator_discovery(already_existed: bool, recorded_head_address: usize) -> (r:
    LocatorDiscovery)
    ensures
        r == (if already_existed {
            LocatorDiscovery::AdoptRecorded { head_address: recorded_head_address }
        } else {
            LocatorDiscovery::InitializeMapping
        }),
{
    if already_existed {
        LocatorDiscovery::AdoptRecorded { head_address: recorded_head_address }
    } else {
        LocatorDiscovery::InitializeMapping
    }
}

/// An ASCII decimal digit.
pub open spec fn spec_is_dec_digit(b: u8) -> bool {
    0x30 <= b <= 0x39
}

/// The numeric value of one decimal digit.
pub open spec fn spec_dec_digit_val(b: u8) -> int {
    b - 0x30
}

/// The value of a big-endian string of decimal digits.
pub open spec fn spec_dec_value(s: Seq<u8>) -> int
    decreases s.len(),
{
    if s.len() == 0 {
        0
    } else {
        spec_dec_value(s.drop_last()) * 10 + spec_dec_digit_val(s.last())
    }
}

/// Every byte of the sequence is a decimal digit.
pub open spec fn spec_all_dec_digits(s: Seq<u8>) -> bool {
    forall|k: int| 0 <= k < s.len() ==> spec_is_dec_digit(s[k])
}

/// What extracting the owner's process id from a shared-object file name
/// yields: the name must be the locator prefix followed by at least one
/// decimal digit, and the digits' value must fit a signed 32-bit id.
pub open spec fn spec_parse_locator_pid(s: Seq<u8>) -> Option<i32> {
    let p = "Reloaded.Memory.Buffers.MemoryBuffer, PID ".spec_bytes();
    if s.len() <= p.len() {
        None
    } else if s.take(p.len() as int) != p {
        None
    } else {
        let digits = s.skip(p.len() as int);
        if spec_all_dec_digits(digits) && spec_dec_value(digits) <= i32::MAX {
            Some(spec_dec_value(digits) as i32)
        } else {
            None
        }
    }
}

/// A digit string's value is never negative.
proof fn lemma_dec_value_nonneg(s: Seq<u8>)
    requires
        spec_all_dec_digits(s),
    ensures
        spec_dec_value(s) >= 0,
    decreases s.len(),
{
    if s.len() > 0 {
        assert(spec_all_dec_digits(s.drop_last()));
        lemma_dec_value_nonneg(s.drop_last());
        assert(spec_dec_value(s.drop_last()) * 10 >= 0) by (nonlinear_arith)
            requires
                spec_dec_value(s.drop_last()) >= 0,
        ;
    }
}

/// A prefix of a digit string never has a larger value than the whole.
proof fn lemma_dec_prefix_le(s: Seq<u8>, k: int)
    requires
        spec_all_dec_digits(s),
        0 <= k <= s.len(),
    ensures
        spec_dec_value(s.take(k)) <= spec_dec_value(s),
    decreases s.len() - k,
{
    if k < s.len() {
        lemma_dec_prefix_le(s, k + 1);
        let t = s.take(k + 1);
        assert(t.drop_last() =~= s.take(k));
        assert(spec_all_dec_digits(t.drop_last()));
        lemma_dec_value_nonneg(t.drop_last());
        assert(spec_dec_value(s.take(k)) * 10 >= spec_dec_value(s.take(k))) by (nonlinear_arith)
            requires
                spec_dec_value(s.take(k)) >= 0,
        ;
    } else {
        assert(s.take(k) =~= s);
    }
}

/// Extracts the owner process id from a shared-object file name: the
/// locator prefix followed by the id in decimal. Names of any other shape,
/// and ids too large for a signed 32-bit word, yield nothing.
#[verifier::loop_isolation(false)]
pub fn parse_locator_pid(file_name: &str) -> (r: Option<i32>)
    ensures
        r == spec_parse_locator_pid(file_name.spec_bytes()),
{
    let prefix: &str = "Reloaded.Memory.Buffers.MemoryBuffer, PID ";
    let prefix_bytes: &[u8] = prefix.as_bytes();
    let bytes: &[u8] = file_name.as_bytes();
    let ghost s = file_name.spec_bytes();
    let ghost p = prefix.spec_bytes();

    let prefix_len: usize = prefix_bytes.len();
    let n: usize = bytes.len();

    if n <= prefix_len {
        return None;
    }

    let mut i: usize = 0;
    while i < prefix_len
        invariant
            i <= prefix_len,
            forall|m: int| 0 <= m < i ==> s[m] == p[m],
        decreases prefix_len - i,
    {
        if bytes[i] != prefix_bytes[i] {
            proof {
                assert(s.take(p.len() as int)[i as int] != p[i as int]);
            }
            return None;
        }
        i = i + 1;
    }
    proof {
        assert(s.take(p.len() as int) =~= p);
    }

    let ghost digits = s.skip(p.len() as int);
    let mut acc: u32 = 0;
    let mut j: usize = prefix_len;

    while j < n
        invariant
            prefix_len <= j <= n == s.len(),
            digits == s.skip(prefix_len as int),
            spec_all_dec_digits(s.subrange(prefix_len as int, j as int)),
            acc == spec_dec_value(s.subrange(prefix_len as int, j as int)),
        decreases n - j,
    {
        let b = bytes[j];
        if b < 0x30 || b > 0x39 {
            proof {
                assert(digits[j - prefix_len] == s[j as int]);
                assert(!spec_is_dec_digit(digits[j - prefix_len]));
                assert(!spec_all_dec_digits(digits));
            }
            return None;
        }
        let v: u32 = (b - 0x30) as u32;

        proof {
            let pre = s.subrange(prefix_len as int, j as int);
            let cur = s.subrange(prefix_len as int, j as int + 1);
            assert(cur.drop_last() =~= pre);
            assert(cur.last() == s[j as int]);
            assert(spec_all_dec_digits(cur));
            assert(spec_dec_value(cur) == acc * 10 + spec_dec_digit_val(cur.last()));
        }

        let next = match acc.checked_mul(10) {
            Some(shifted) => shifted.checked_add(v),
            None => None,
        };
        match next {
            Some(next_acc) => {
                acc = next_acc;
            },
            None => {
                proof {
                    let cur = s.subrange(prefix_len as int, j as int + 1);
                    assert(spec_dec_digit_val(cur.last()) == v);
                    assert(acc * 10 + v > u32::MAX);
                    assert(spec_dec_value(cur) > u32::MAX);
                    assert(cur =~= digits.take(j - prefix_len + 1));
                    if spec_all_dec_digits(digits) {
                        lemma_dec_prefix_le(digits, j - prefix_len + 1);
                    }
                }
                return None;
            },
        }
        j = j + 1;
    }

    proof {
        assert(s.subrange(prefix_len as int, n as int) =~= digits);
    }
    if acc > i32::MAX as u32 {
        return None;
    }
    Some(acc as i32)
}

} // verus!
