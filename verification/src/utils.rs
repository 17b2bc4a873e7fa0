//! Hex decoding of the imported index buffers.
//!
//! The asset files spell an index buffer as one long hex string; every
//! eight digits give one 32-bit index.

use vstd::prelude::*;
use vstd::string::{StringSliceAdditionalSpecFns, StrSliceExecFns};

verus! {

/// ASCII whitespace, as it occurs in the asset files.
pub open spec fn is_ws_byte(b: u8) -> bool {
    b == 32 || b == 9 || b == 10 || b == 13 || b == 11 || b == 12
}

/// An ASCII hex digit.
pub open spec fn is_hex_byte(b: u8) -> bool {
    (48 <= b <= 57) || (97 <= b <= 102) || (65 <= b <= 70)
}

/// Value of one hex digit.
pub open spec fn hex_val_s(b: u8) -> int {
    if 48 <= b <= 57 {
        b - 48
    } else if 97 <= b <= 102 {
        b - 87
    } else if 65 <= b <= 70 {
        b - 55
    } else {
        0
    }
}

/// The input with its whitespace removed.
pub open spec fn strip_ws_s(s: Seq<u8>) -> Seq<u8>
    decreases s.len(),
{
    if s.len() == 0 {
        Seq::empty()
    } else {
        let rest = strip_ws_s(s.drop_last());
        if is_ws_byte(s.last()) {
            rest
        } else {
            rest.push(s.last())
        }
    }
}

/// The number a run of hex digits denotes, most significant digit first.
pub open spec fn hex_seq_val_s(s: Seq<u8>) -> int
    decreases s.len(),
{
    if s.len() == 0 {
        0
    } else {
        hex_seq_val_s(s.drop_last()) * 16 + hex_val_s(s.last())
    }
}

/// A run of `n` hex digits denotes less than `16^n`; in particular eight
/// digits fit a `u32`.
pub proof fn lemma_hex_seq_val_bound(s: Seq<u8>, bound: int)
    requires
        vstd::arithmetic::power::pow(16, s.len() as nat) <= bound,
    ensures
        0 <= hex_seq_val_s(s) < bound,
    decreases s.len(),
{
    vstd::arithmetic::power::lemma_pow_positive(16, s.len() as nat);
    if s.len() == 0 {
    } else {
        let p = vstd::arithmetic::power::pow(16, (s.len() - 1) as nat);
        assert(vstd::arithmetic::power::pow(16, s.len() as nat) == 16 * p) by {
            reveal_with_fuel(vstd::arithmetic::power::pow, 2);
        }
        lemma_hex_seq_val_bound(s.drop_last(), p);
        assert(hex_seq_val_s(s.drop_last()) <= p - 1);
        assert(hex_seq_val_s(s.drop_last()) * 16 <= (p - 1) * 16) by (nonlinear_arith)
            requires
                hex_seq_val_s(s.drop_last()) <= p - 1,
        ;
        assert(0 <= hex_val_s(s.last()) <= 15);
        assert(hex_seq_val_s(s.drop_last()) * 16 >= 0) by (nonlinear_arith)
            requires
                hex_seq_val_s(s.drop_last()) >= 0,
        ;
    }
}

/// Value of one hex digit byte.
fn hex_val(b: u8) -> (r: u8)
    ensures
        r as int == hex_val_s(b),
{
    if 48 <= b && b <= 57 {
        b - 48
    } else if 97 <= b && b <= 102 {
        b - 87
    } else if 65 <= b && b <= 70 {
        b - 55
    } else {
        0
    }
}

/// Decode an imported index buffer: strip whitespace, then read every
/// full run of eight hex digits as one index, most significant digit
/// first; a trailing partial run is dropped. The input must hold nothing
/// but hex digits and whitespace.
pub fn parse_unity_index_buffer(hex_string: &str) -> (r: Vec<u32>)
    requires
        forall|i: int|
            0 <= i < hex_string.spec_bytes().len() ==> is_hex_byte(
                #[trigger] hex_string.spec_bytes()[i],
            ) || is_ws_byte(hex_string.spec_bytes()[i]),
    ensures
        ({
            let digits = strip_ws_s(hex_string.spec_bytes());
            &&& r@.len() == digits.len() / 8
            &&& forall|k: int|
                0 <= k < r@.len() ==> (#[trigger] r@[k]) as int == hex_seq_val_s(
                    digits.subrange(8 * k, 8 * k + 8),
                )
        }),
{
    let bytes: Vec<u8> = hex_string.as_bytes_vec();
    let n = bytes.len();
    let mut digits: Vec<u8> = Vec::new();
    let mut i: usize = 0;
    while i < n
        invariant
            n == bytes@.len(),
            i <= n,
            digits@ == strip_ws_s(bytes@.take(i as int)),
        decreases n - i,
    {
        let b = bytes[i];
        proof {
            assert(bytes@.take(i + 1).drop_last() =~= bytes@.take(i as int));
            assert(bytes@.take(i + 1).last() == bytes@[i as int]);
        }
        if !(b == 32 || b == 9 || b == 10 || b == 13 || b == 11 || b == 12) {
            digits.push(b);
        }
        i = i + 1;
    }
    proof {
        assert(bytes@.take(n as int) =~= bytes@);
    }
    let m = digits.len();
    let count = m / 8;
    let mut r: Vec<u32> = Vec::new();
    let mut c: usize = 0;
    while c < count
        invariant
            digits@ == strip_ws_s(bytes@),
            m == digits@.len(),
            count == m / 8,
            c <= count,
            r@.len() == c as int,
            forall|k: int|
                0 <= k < c ==> (#[trigger] r@[k]) as int == hex_seq_val_s(
                    digits@.subrange(8 * k, 8 * k + 8),
                ),
        decreases count - c,
    {
        let mut v: u32 = 0;
        let mut j: usize = 0;
        while j < 8
            invariant
                digits@ == strip_ws_s(bytes@),
                m == digits@.len(),
                count == m / 8,
                c < count,
                j <= 8,
                v as int == hex_seq_val_s(digits@.subrange(8 * c, 8 * c + j)),
            decreases 8 - j,
        {
            let d = hex_val(digits[8 * c + j]);
            proof {
                let chunk = digits@.subrange(8 * c, 8 * c + j + 1);
                assert(chunk.drop_last() =~= digits@.subrange(8 * c, 8 * c + j));
                assert(chunk.last() == digits@[8 * c + j]);
                let prev = digits@.subrange(8 * c, 8 * c + j);
                assert(vstd::arithmetic::power::pow(16, 7) == 0x1000_0000) by {
                    reveal_with_fuel(vstd::arithmetic::power::pow, 8);
                }
                vstd::arithmetic::power::lemma_pow_increases(16, prev.len() as nat, 7);
                lemma_hex_seq_val_bound(prev, 0x1000_0000);
            }
            v = v * 16 + (d as u32);
            j = j + 1;
        }
        r.push(v);
        c = c + 1;
    }
    r
}

} // verus!
