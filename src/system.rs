use vstd::prelude::*;

verus! {

/// The sum of the sizes in `sizes`.
pub open spec fn total_of(sizes: Seq<u64>) -> int
    decreases sizes.len(),
{
    if sizes.len() == 0 {
        0
    } else {
        total_of(sizes.drop_last()) + sizes.last()
    }
}

/// Whole GiB in a memory size given in bytes, rounded down.
pub fn ram_gib(total_bytes: u64) -> (r: u64)
    ensures
        r == total_bytes as int / 1_073_741_824,
{
    total_bytes / 1024 / 1024 / 1024
}

/// Whole GB (10^9 bytes) in the summed capacity of all disks, rounded down;
/// `u64::MAX` where that does not fit.
pub fn storage_gb(disk_bytes: &Vec<u64>) -> (r: u64)
    ensures
        total_of(disk_bytes@) / 1_000_000_000 <= u64::MAX ==> r == total_of(disk_bytes@)
            / 1_000_000_000,
        total_of(disk_bytes@) / 1_000_000_000 > u64::MAX ==> r == u64::MAX,
{
    let mut sum: u128 = 0;
    let mut i: usize = 0;
    while i < disk_bytes.len()
        invariant
            i <= disk_bytes.len(),
            sum == total_of(disk_bytes@.subrange(0, i as int)),
            sum <= i * (u64::MAX as int),
        decreases disk_bytes.len() - i,
    {
        proof {
            let head = disk_bytes@.subrange(0, i as int + 1);
            assert(head.drop_last() =~= disk_bytes@.subrange(0, i as int));
            assert((i + 1) * (u64::MAX as int) == i * (u64::MAX as int) + u64::MAX) by (nonlinear_arith);
            assert(i * (u64::MAX as int) < u64::MAX as int * u64::MAX as int) by (nonlinear_arith)
                requires i < u64::MAX;
        }
        sum = sum + disk_bytes[i] as u128;
        i += 1;
    }
    proof {
        assert(disk_bytes@.subrange(0, i as int) =~= disk_bytes@);
    }
    let gb = sum / 1_000_000_000;
    if gb > u64::MAX as u128 {
        u64::MAX
    } else {
        gb as u64
    }
}

} // verus!
