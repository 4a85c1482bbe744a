//! How a firmware image is cut into fragments.

use crate::single::{
    ceiling, law_small_integers_are_exact, law_small_quotients_are_exact, quotient_ceiling,
    round_to_single, saturate, single_of_int, single_quotient_ceiling, SIGNIFICAND_END,
};
use vstd::prelude::*;

verus! {

/// The configured fragment size as an unsigned number of bytes.
///
/// A negative size stands for the number that has the same bits in two's complement.
pub open spec fn size_in_bytes(fragment_size: i16) -> usize {
    if fragment_size >= 0 {
        fragment_size as usize
    } else {
        (fragment_size + usize::MAX + 1) as usize
    }
}

/// The number of fragments that hold `len` bytes, `size` bytes each.
///
/// This is the single-precision quotient, rounded up.
pub open spec fn fragment_count(len: nat, size: nat) -> usize {
    saturate(single_quotient_ceiling(single_of_int(len), single_of_int(size)))
}

/// The number of bytes that fill `len` bytes up to a multiple of `size`.
pub open spec fn padding_len(len: nat, size: nat) -> nat {
    ((size - len % size) as nat) % size
}

/// The number of redundant fragments for `count` fragments: `percentage` percent of them,
/// computed in single precision and rounded up.  A negative percentage gives none.
pub open spec fn redundancy_count(count: nat, percentage: int) -> usize {
    if percentage <= 0 {
        0
    } else {
        saturate(
            single_quotient_ceiling(
                single_of_int(single_of_int(count) * percentage as nat),
                100,
            ),
        )
    }
}

/// `data`, followed by zeros up to a multiple of `size`.
pub open spec fn padded(data: Seq<u8>, size: nat) -> Seq<u8> {
    data + Seq::new(padding_len(data.len(), size), |i: int| 0u8)
}

/// Converts the configured fragment size to an unsigned number of bytes.
pub fn fragment_size_in_bytes(fragment_size: i16) -> (size: usize)
    ensures
        size == size_in_bytes(fragment_size),
{
    let size: usize = #[verifier::truncate]
    (fragment_size as usize);
    assert(fragment_size >= 0 ==> size == fragment_size) by (bit_vector)
        requires
            size == fragment_size as usize,
    ;
    assert(fragment_size < 0 ==> size - fragment_size == if usize::BITS == 64 {
        0x1_0000_0000_0000_0000int
    } else {
        0x1_0000_0000int
    }) by (bit_vector)
        requires
            size == fragment_size as usize,
    ;
    size
}

/// Narrows to `usize`, with the largest `usize` for numbers that do not fit.
fn saturating_usize(n: u128) -> (narrow: usize)
    ensures
        narrow == saturate(n as nat),
{
    if n <= usize::MAX as u128 {
        n as usize
    } else {
        usize::MAX
    }
}

/// The number of fragments of an image of `len` bytes.
pub fn fragments(len: usize, size: usize) -> (count: usize)
    requires
        size > 0,
    ensures
        count == fragment_count(len as nat, size as nat),
{
    let dividend: u128 = round_to_single(len as u128);
    let divisor: u128 = round_to_single(size as u128);
    saturating_usize(quotient_ceiling(dividend, divisor))
}

/// The number of zero bytes that follow an image of `len` bytes.
pub fn padding(len: usize, size: usize) -> (count: usize)
    requires
        size > 0,
    ensures
        count == padding_len(len as nat, size as nat),
        count < size,
{
    (size - (len % size)) % size
}

/// The number of redundant fragments that follow the `count` fragments of an image.
pub fn redundancy(count: usize, percentage: i16) -> (redundant: usize)
    ensures
        redundant == redundancy_count(count as nat, percentage as int),
{
    if percentage <= 0 {
        0
    } else {
        let rounded: u128 = round_to_single(count as u128);
        assert(rounded * percentage <= rounded * 0x7fff) by (nonlinear_arith)
            requires
                0 <= percentage <= 0x7fff,
        ;
        assert(rounded * percentage >= 0) by (nonlinear_arith)
            requires
                0 <= percentage,
        ;
        let product: u128 = round_to_single(rounded * (percentage as u128));
        saturating_usize(quotient_ceiling(product, 100))
    }
}

/// `image`, followed by zeros up to a multiple of `size`.
pub fn pad(image: &[u8], size: usize) -> (data: Vec<u8>)
    requires
        size > 0,
    ensures
        data@ == padded(image@, size as nat),
{
    let count: usize = padding(image.len(), size);
    let mut data: Vec<u8> = Vec::new();
    data.extend_from_slice(image);
    let zeros: Vec<u8> = vec![0; count];
    data.extend_from_slice(zeros.as_slice());
    assert(data@ =~= padded(image@, size as nat));
    data
}

/// Padding brings an image to a multiple of the fragment size, and to the next one only.
pub proof fn law_padding_fills_the_last_fragment(len: nat, size: nat)
    requires
        size > 0,
    ensures
        (len + padding_len(len, size)) % size == 0,
        padding_len(len, size) < size,
        len + padding_len(len, size) == ceiling(len, size) * size,
{
    let rest = len % size;
    let full = len / size;
    assert(full * size + rest == len) by (nonlinear_arith)
        requires
            rest == len % size,
            full == len / size,
            size > 0,
    ;
    if rest == 0 {
        assert(padding_len(len, size) == 0) by {
            assert(size % size == 0) by (nonlinear_arith)
                requires
                    size > 0,
            ;
        }
        assert(ceiling(len, size) == full) by (nonlinear_arith)
            requires
                full * size == len,
                size > 0,
                ceiling(len, size) == (len + size - 1) as nat / size,
        ;
        assert((full * size) % size == 0) by (nonlinear_arith)
            requires
                size > 0,
        ;
    } else {
        assert(padding_len(len, size) == size - rest) by {
            assert(((size - rest) as nat) % size == size - rest) by (nonlinear_arith)
                requires
                    0 < rest < size,
            ;
        }
        assert(ceiling(len, size) == full + 1) by (nonlinear_arith)
            requires
                full * size + rest == len,
                0 < rest < size,
                ceiling(len, size) == (len + size - 1) as nat / size,
        ;
        assert((full + 1) * size == full * size + size) by (nonlinear_arith);
        assert(((full + 1) as nat * size) % size == 0) by (nonlinear_arith)
            requires
                size > 0,
        ;
    }
}

/// The fragments of an image below 16 MiB hold the image and its padding, and nothing else.
pub proof fn law_fragments_hold_the_padded_image(len: nat, size: nat)
    requires
        len < SIGNIFICAND_END,
        0 < size < SIGNIFICAND_END,
    ensures
        fragment_count(len, size) == ceiling(len, size),
        fragment_count(len, size) * size == len + padding_len(len, size),
{
    law_small_integers_are_exact(len);
    law_small_integers_are_exact(size);
    law_small_quotients_are_exact(len, size);
    law_padding_fills_the_last_fragment(len, size);
    assert(ceiling(len, size) <= len) by (nonlinear_arith)
        requires
            size > 0,
            ceiling(len, size) == (len + size - 1) as nat / size,
    ;
}

/// As long as the numbers stay below 2^24, the redundancy is the exact share of the fragments,
/// rounded up.
pub proof fn law_redundancy_is_the_rounded_up_share(count: nat, percentage: nat)
    requires
        count < SIGNIFICAND_END,
        count * percentage < SIGNIFICAND_END,
    ensures
        redundancy_count(count, percentage as int) == ceiling(count * percentage, 100),
{
    if percentage == 0 {
        assert(count * percentage == 0) by (nonlinear_arith)
            requires
                percentage == 0,
        ;
    } else {
        law_small_integers_are_exact(count);
        law_small_integers_are_exact(count * percentage);
        law_small_quotients_are_exact(count * percentage, 100);
    }
}

}
