//! The kinds of video sources a capture adapter can open. The adapter
//! itself does I/O and lives outside this crate; only its vocabulary and
//! the device-address decision live here.

use vstd::prelude::*;
use vstd::string::StrSliceExecFns;

verus! {

/// Where a stream comes from.
#[derive(Copy, Clone, Debug, PartialEq, Eq, Structural)]
pub enum StreamSource {
    VideoFile,
    WebCamera,
    RtspStream,
}

/// The number a digit string denotes.
pub open spec fn spec_digits_value(s: Seq<char>) -> int
    decreases s.len(),
{
    if s.len() == 0 {
        0
    } else {
        spec_digits_value(s.drop_last()) * 10 + (s.last() as int - '0' as int)
    }
}

/// Whether an address names a webcam device index: one to nine decimal
/// digits, which always fit a 32-bit signed index.
pub open spec fn spec_device_index(s: Seq<char>) -> Option<i32> {
    if 1 <= s.len() <= 9 && (forall|i: int| 0 <= i < s.len() ==> '0' <= #[trigger] s[i] <= '9') {
        Some(spec_digits_value(s) as i32)
    } else {
        None
    }
}

/// The non-negative powers of ten.
pub open spec fn spec_pow10(k: int) -> int
    decreases k,
{
    if k <= 0 {
        1
    } else {
        10 * spec_pow10(k - 1)
    }
}

/// Parses a webcam address into a device index: the decimal value of a
/// string of one to nine digits, or nothing for any other address.
pub fn parse_device_index(address: &str) -> (r: Option<i32>)
    ensures
        r == spec_device_index(address@),
{
    let n = address.unicode_len();
    if n == 0 || n > 9 {
        return None;
    }
    let mut value: u32 = 0;
    let mut i: usize = 0;
    while i < n
        invariant
            n == address@.len(),
            1 <= n <= 9,
            i <= n,
            forall|j: int| 0 <= j < i ==> '0' <= #[trigger] address@[j] <= '9',
            value == spec_digits_value(address@.take(i as int)),
            value < spec_pow10(i as int),
        decreases n - i,
    {
        let ch = address.get_char(i);
        if !(ch >= '0' && ch <= '9') {
            return None;
        }
        proof {
            let prefix = address@.take(i + 1);
            assert(prefix.drop_last() =~= address@.take(i as int));
            assert(prefix.last() == address@[i as int]);
            lemma_pow10_mono(i as int, 8);
            assert(spec_pow10(8) == 100000000) by {
                reveal_with_fuel(spec_pow10, 10);
            }
            assert(value * 10 + 9 < spec_pow10(i as int) * 10) by (nonlinear_arith)
                requires value < spec_pow10(i as int), value >= 0;
        }
        value = value * 10 + (ch as u32 - '0' as u32);
        i = i + 1;
    }
    proof {
        assert(address@.take(n as int) =~= address@);
        lemma_pow10_mono(n as int, 9);
        assert(spec_pow10(9) == 1000000000) by {
            reveal_with_fuel(spec_pow10, 11);
        }
    }
    Some(value as i32)
}

/// Powers of ten grow with the exponent.
proof fn lemma_pow10_mono(a: int, b: int)
    requires
        0 <= a <= b,
    ensures
        spec_pow10(a) <= spec_pow10(b),
        spec_pow10(a) >= 1,
    decreases b,
{
    if a < b {
        lemma_pow10_mono(a, b - 1);
        assert(10 * spec_pow10(b - 1) >= spec_pow10(b - 1)) by (nonlinear_arith)
            requires spec_pow10(b - 1) >= 0;
    } else if a == 0 {
    } else {
        lemma_pow10_mono(a - 1, a - 1);
        assert(10 * spec_pow10(a - 1) >= 1) by (nonlinear_arith)
            requires spec_pow10(a - 1) >= 1;
    }
}

} // verus!
