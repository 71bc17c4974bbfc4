//! The platform-neutral identifier under which one process's locator is
//! shared: a fixed prefix followed by the owner's process id in decimal.

use vstd::prelude::*;
use vstd::string::StringExecFns;

verus! {

/// The character for one decimal digit.
pub open spec fn spec_digit_char(d: int) -> char {
    if d == 0 {
        '0'
    } else if d == 1 {
        '1'
    } else if d == 2 {
        '2'
    } else if d == 3 {
        '3'
    } else if d == 4 {
        '4'
    } else if d == 5 {
        '5'
    } else if d == 6 {
        '6'
    } else if d == 7 {
        '7'
    } else if d == 8 {
        '8'
    } else {
        '9'
    }
}

/// The decimal digits of `n`, most significant first, without leading zeros
/// (zero itself is the single digit `0`).
pub open spec fn spec_decimal(n: nat) -> Seq<char>
    decreases n,
{
    if n < 10 {
        seq![spec_digit_char(n as int)]
    } else {
        spec_decimal(n / 10) + seq![spec_digit_char((n % 10) as int)]
    }
}

/// Relies on itoa (Buffer::format): formats an unsigned integer as its
/// decimal digits, most significant first, no sign and no leading zeros.
#[verifier::external_body]
fn format_u32(value: u32) -> (r: String)
    ensures
        r@ == spec_decimal(value as nat),
{
    let mut buffer = itoa::Buffer::new();
    buffer.format(value).to_string()
}

/// The name of the named shared-memory object holding the first locator
/// header of the process with the given id.
pub fn locator_file_name(process_id: u32) -> (r: String)
    ensures
        r@ == "/Reloaded.Memory.Buffers.MemoryBuffer, PID "@ + spec_decimal(process_id as nat),
{
    let mut name: String = String::from_str("/Reloaded.Memory.Buffers.MemoryBuffer, PID ");
    let digits: String = format_u32(process_id);
    name.append(digits.as_str());
    name
}

} // verus!
