//! Pieces of the MAR entry builder that do not touch the disk.
use vstd::prelude::*;

use crate::util::disk_size::DiskSize;

verus! {

/// Estimated size of the manifest and the directory of a MAR entry.
pub const MAR_ENTRY_OVERHEAD_SIZE_ESTIMATE: u64 = 4096;

/// Marks a builder whose metadata is not set yet.
pub struct NoMetadata;

/// Sum of the sizes that are known.
pub open spec fn known_sizes_sum(sizes: Seq<Option<u64>>) -> nat
    decreases sizes.len(),
{
    if sizes.len() == 0 {
        0
    } else {
        known_sizes_sum(sizes.drop_last()) + match sizes.last() {
            Some(n) => n as nat,
            None => 0,
        }
    }
}

/// The estimated size of an entry with attachments of the given sizes (the
/// size of an attachment that cannot be read is unknown): the attachments
/// plus the overhead of the manifest and directory, and one inode per
/// attachment plus one.
pub fn estimated_entry_size(attachment_sizes: &Vec<Option<u64>>) -> (r: DiskSize)
    requires
        known_sizes_sum(attachment_sizes@) + MAR_ENTRY_OVERHEAD_SIZE_ESTIMATE <= u64::MAX,
        attachment_sizes@.len() < u64::MAX,
    ensures
        r.bytes == known_sizes_sum(attachment_sizes@) + MAR_ENTRY_OVERHEAD_SIZE_ESTIMATE,
        r.inodes == attachment_sizes@.len() + 1,
{
    let ghost s = attachment_sizes@;
    let mut total: u64 = 0;
    let mut i: usize = 0;
    while i < attachment_sizes.len()
        invariant
            0 <= i <= s.len(),
            s == attachment_sizes@,
            total == known_sizes_sum(s.take(i as int)),
            known_sizes_sum(s) + MAR_ENTRY_OVERHEAD_SIZE_ESTIMATE <= u64::MAX,
        decreases s.len() - i,
    {
        proof {
            assert(s.take(i + 1).drop_last() =~= s.take(i as int));
            lemma_known_sizes_prefix(s, i + 1);
        }
        match attachment_sizes[i] {
            Some(n) => {
                total = total + n;
            },
            None => {},
        }
        i = i + 1;
    }
    assert(s.take(s.len() as int) =~= s);
    DiskSize {
        bytes: total + MAR_ENTRY_OVERHEAD_SIZE_ESTIMATE,
        inodes: attachment_sizes.len() as u64 + 1,
    }
}

proof fn lemma_known_sizes_prefix(s: Seq<Option<u64>>, n: int)
    requires
        0 <= n <= s.len(),
    ensures
        known_sizes_sum(s.take(n)) <= known_sizes_sum(s),
    decreases s.len() - n,
{
    if n < s.len() {
        lemma_known_sizes_prefix(s, n + 1);
        assert(s.take(n + 1).drop_last() =~= s.take(n));
    } else {
        assert(s.take(n) =~= s);
    }
}

} // verus!
