//! Rounding a size up to whole blocks.
use vstd::prelude::*;

verus! {

/// The number of blocks of `block_size` that it takes to hold `size`:
/// the quotient, rounded up.
pub open spec fn blocks_for(size: int, block_size: int) -> int {
    if size % block_size == 0 {
        size / block_size
    } else {
        size / block_size + 1
    }
}

/// `blocks_for` is the least number of blocks whose total size reaches `size`.
pub proof fn lemma_blocks_for_is_ceiling(size: int, block_size: int)
    requires
        0 <= size,
        0 < block_size,
    ensures
        0 <= blocks_for(size, block_size) <= size,
        blocks_for(size, block_size) * block_size >= size,
        (blocks_for(size, block_size) - 1) * block_size < size || size == 0,
{
    let q = size / block_size;
    let r = size % block_size;
    assert(size == q * block_size + r && 0 <= r < block_size) by (nonlinear_arith)
        requires
            q == size / block_size,
            r == size % block_size,
            0 < block_size,
    ;
    assert(0 <= q <= size) by (nonlinear_arith)
        requires
            size == q * block_size + r,
            0 <= r < block_size,
            0 <= size,
            0 < block_size,
    ;
    assert((q + 1) * block_size == q * block_size + block_size) by (nonlinear_arith);
    assert((q - 1) * block_size == q * block_size - block_size) by (nonlinear_arith);
    if r != 0 {
        assert(q + 1 <= size) by (nonlinear_arith)
            requires
                size == q * block_size + r,
                0 < r < block_size,
                0 <= q,
        ;
    }
}

/// The product of two 32-bit numbers fits 64 bits, and the product of two
/// 64-bit numbers fits 128 bits.
pub proof fn lemma_product_fits(a: int, b: int)
    requires
        0 <= a,
        0 <= b,
    ensures
        0 <= a * b,
        a <= u32::MAX && b <= u32::MAX ==> a * b <= u64::MAX,
        a <= u64::MAX && b <= u64::MAX ==> a * b <= u128::MAX,
{
    assert(0 <= a * b) by (nonlinear_arith)
        requires
            0 <= a,
            0 <= b,
    ;
    if a <= u32::MAX && b <= u32::MAX {
        assert(a * b <= 0xffff_ffff * 0xffff_ffff) by (nonlinear_arith)
            requires
                0 <= a <= 0xffff_ffff,
                0 <= b <= 0xffff_ffff,
        ;
    }
    if a <= u64::MAX && b <= u64::MAX {
        assert(a * b <= 0xffff_ffff_ffff_ffff * 0xffff_ffff_ffff_ffff) by (nonlinear_arith)
            requires
                0 <= a <= 0xffff_ffff_ffff_ffff,
                0 <= b <= 0xffff_ffff_ffff_ffff,
        ;
    }
}

/// Unsigned integers that can be counted in blocks.
pub trait Aligned: Sized {
    /// The mathematical value of the integer.
    spec fn value(self) -> int;

    /// Return the (appropriately aligned) number of blocks
    /// representing this size.
    fn get_blocks(size: Self, block_size: Self) -> (blocks: Self)
        requires
            block_size.value() != 0,
        ensures
            blocks.value() == blocks_for(size.value(), block_size.value()),
    ;
}

impl Aligned for u32 {
    open spec fn value(self) -> int {
        self as int
    }

    fn get_blocks(size: u32, block_size: u32) -> (blocks: u32) {
        let blocks: u32 = size / block_size;
        if size % block_size == 0 {
            blocks
        } else {
            proof {
                lemma_blocks_for_is_ceiling(size as int, block_size as int);
            }
            blocks + 1
        }
    }
}

impl Aligned for u64 {
    open spec fn value(self) -> int {
        self as int
    }

    fn get_blocks(size: u64, block_size: u64) -> (blocks: u64) {
        let blocks: u64 = size / block_size;
        if size % block_size == 0 {
            blocks
        } else {
            proof {
                lemma_blocks_for_is_ceiling(size as int, block_size as int);
            }
            blocks + 1
        }
    }
}

} // verus!
