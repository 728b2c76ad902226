//! Aggregated sizes: sums that saturate instead of wrapping.

use vstd::prelude::*;

verus! {

/// The exact sum of `sizes`.
pub open spec fn sum_of(sizes: Seq<u64>) -> nat
    decreases sizes.len(),
{
    if sizes.len() == 0 {
        0
    } else {
        sum_of(sizes.drop_last()) + sizes.last() as nat
    }
}

/// `n`, capped at the largest `u64`.
pub open spec fn saturated(n: nat) -> u64 {
    if n <= u64::MAX {
        n as u64
    } else {
        u64::MAX
    }
}

/// The total size of a directory from the sizes of the regular files beneath
/// it: their sum, or the largest `u64` where the sum exceeds it. A file that
/// could not be read is simply absent and so counts as zero.
pub fn dir_size(file_sizes: &Vec<u64>) -> (total: u64)
    ensures
        total == saturated(sum_of(file_sizes@)),
{
    let mut total: u64 = 0;
    let mut i: usize = 0;
    proof {
        assert(file_sizes@.take(0) =~= Seq::<u64>::empty());
    }
    while i < file_sizes.len()
        invariant
            i <= file_sizes.len(),
            total == saturated(sum_of(file_sizes@.take(i as int))),
        decreases file_sizes.len() - i,
    {
        proof {
            assert(file_sizes@.take(i + 1).drop_last() =~= file_sizes@.take(i as int));
        }
        let size = file_sizes[i];
        total = if size > u64::MAX - total {
            u64::MAX
        } else {
            total + size
        };
        i += 1;
    }
    proof {
        assert(file_sizes@.take(i as int) =~= file_sizes@);
    }
    total
}

/// The space in use on a volume: what is not available of the total, and
/// zero where more is reported available than the volume holds.
pub open spec fn space_in_use(total: u64, available: u64) -> u64 {
    if available <= total {
        (total - available) as u64
    } else {
        0
    }
}

/// Computes the space in use on a volume.
pub fn used_space(total: u64, available: u64) -> (used: u64)
    ensures
        used == space_in_use(total, available),
{
    if available <= total {
        total - available
    } else {
        0
    }
}

} // verus!
