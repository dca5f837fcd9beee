use vstd::prelude::*;

verus! {

/// The number of equal blocks a pool is cut into for a random draw.
pub const BLOCKS: u128 = 255;

/// The least block index a draw may land on.
pub const MIN_BLOCK: u8 = 1;

/// The greatest block index a draw may land on.
pub const MAX_BLOCK: u8 = 253;

/// The entropy bytes summed with wraparound into one byte.
pub open spec fn fold_seed(seed: Seq<u8>) -> u8
    decreases seed.len(),
{
    if seed.len() == 0 {
        0
    } else {
        ((fold_seed(seed.drop_last()) + seed.last()) % 256) as u8
    }
}

/// A block index held inside `[MIN_BLOCK, MAX_BLOCK]`.
pub open spec fn clamp_block(b: u8) -> u8 {
    if b < MIN_BLOCK {
        MIN_BLOCK
    } else if b > MAX_BLOCK {
        MAX_BLOCK
    } else {
        b
    }
}

/// The random payout drawn from a pool holding `remaining` with the given entropy.
pub open spec fn random_share(remaining: u128, seed: Seq<u8>) -> int {
    (remaining / BLOCKS) as int * clamp_block(fold_seed(seed)) as int
}

/// The even payout from a pool holding `remaining` with `slots_left` claims to go.
pub open spec fn even_share(remaining: u128, slots_left: u128) -> int {
    remaining as int / slots_left as int
}

/// Sums the entropy bytes with wraparound into one byte.
pub fn fold_entropy(seed: &Vec<u8>) -> (r: u8)
    ensures
        r == fold_seed(seed@),
{
    let mut acc: u8 = 0;
    let mut i: usize = 0;
    while i < seed.len()
        invariant
            i <= seed@.len(),
            acc == fold_seed(seed@.subrange(0, i as int)),
        decreases seed@.len() - i,
    {
        assert(seed@.subrange(0, i + 1).drop_last() =~= seed@.subrange(0, i as int));
        acc = ((acc as u16 + seed[i] as u16) % 256) as u8;
        i = i + 1;
    }
    assert(seed@.subrange(0, i as int) =~= seed@);
    acc
}

/// Draws a payout from a pool holding `total_amount`: the pool is cut into
/// `BLOCKS` equal blocks and the folded entropy, held inside
/// `[MIN_BLOCK, MAX_BLOCK]`, says how many blocks are paid.
pub fn random_amount(total_amount: u128, seed: &Vec<u8>) -> (r: u128)
    ensures
        r == random_share(total_amount, seed@),
        total_amount / BLOCKS <= r <= MAX_BLOCK * (total_amount / BLOCKS),
        r <= total_amount,
{
    let block_length = total_amount / BLOCKS;
    let mut block_index = fold_entropy(seed);
    if block_index < MIN_BLOCK {
        block_index = MIN_BLOCK;
    } else if block_index > MAX_BLOCK {
        block_index = MAX_BLOCK;
    }
    assert(block_length * block_index <= block_length * 253) by (nonlinear_arith)
        requires
            block_index <= 253,
    ;
    assert(block_length * 1 <= block_length * block_index) by (nonlinear_arith)
        requires
            block_index >= 1,
    ;
    assert(block_length * 255 <= total_amount) by (nonlinear_arith)
        requires
            block_length == total_amount / 255,
    ;
    block_length * (block_index as u128)
}

/// Splits a pool holding `remaining` evenly over the `slots_left` claims to go.
pub fn even_amount(remaining: u128, slots_left: u128) -> (r: u128)
    requires
        slots_left > 0,
    ensures
        r == even_share(remaining, slots_left),
        r <= remaining,
{
    remaining / slots_left
}

} // verus!
