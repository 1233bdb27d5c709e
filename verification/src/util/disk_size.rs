//! Disk usage measured in bytes and in inodes.
use vstd::prelude::*;

verus! {

/// Disk space in bytes and inodes. Every operation acts on the two
/// components independently.
#[derive(Clone, Copy, Debug, PartialEq, Eq, Structural)]
pub struct DiskSize {
    pub bytes: u64,
    pub inodes: u64,
}

/// `a - b`, or 0 when `b > a`.
pub open spec fn sat_sub(a: u64, b: u64) -> u64 {
    if a >= b {
        (a - b) as u64
    } else {
        0
    }
}

impl DiskSize {
    /// No bytes and no inodes.
    pub fn zero() -> (r: DiskSize)
        ensures
            r == (DiskSize { bytes: 0, inodes: 0 }),
    {
        DiskSize { bytes: 0, inodes: 0 }
    }

    /// A capacity in bytes that puts no limit on inodes.
    pub fn new_capacity(bytes: u64) -> (r: DiskSize)
        ensures
            r == (DiskSize { bytes, inodes: u64::MAX }),
    {
        DiskSize { bytes, inodes: u64::MAX }
    }

    pub open spec fn spec_exceeds(self, other: DiskSize) -> bool {
        self.bytes >= other.bytes && self.inodes >= other.inodes
    }

    /// Whether this size reaches `other` in bytes and in inodes alike.
    pub fn exceeds(&self, other: &DiskSize) -> (r: bool)
        ensures
            r == self.spec_exceeds(*other),
    {
        self.bytes >= other.bytes && self.inodes >= other.inodes
    }

    pub open spec fn spec_saturating_sub(self, other: DiskSize) -> DiskSize {
        DiskSize { bytes: sat_sub(self.bytes, other.bytes), inodes: sat_sub(self.inodes, other.inodes) }
    }

    pub fn saturating_sub(self, other: DiskSize) -> (r: DiskSize)
        ensures
            r == self.spec_saturating_sub(other),
    {
        DiskSize {
            bytes: self.bytes.saturating_sub(other.bytes),
            inodes: self.inodes.saturating_sub(other.inodes),
        }
    }

    pub open spec fn spec_min(a: DiskSize, b: DiskSize) -> DiskSize {
        DiskSize {
            bytes: if a.bytes <= b.bytes { a.bytes } else { b.bytes },
            inodes: if a.inodes <= b.inodes { a.inodes } else { b.inodes },
        }
    }

    pub open spec fn spec_max(a: DiskSize, b: DiskSize) -> DiskSize {
        DiskSize {
            bytes: if a.bytes >= b.bytes { a.bytes } else { b.bytes },
            inodes: if a.inodes >= b.inodes { a.inodes } else { b.inodes },
        }
    }

    /// The smaller of the two, component by component.
    pub fn min(a: DiskSize, b: DiskSize) -> (r: DiskSize)
        ensures
            r == DiskSize::spec_min(a, b),
    {
        DiskSize {
            bytes: if a.bytes <= b.bytes { a.bytes } else { b.bytes },
            inodes: if a.inodes <= b.inodes { a.inodes } else { b.inodes },
        }
    }

    /// The larger of the two, component by component.
    pub fn max(a: DiskSize, b: DiskSize) -> (r: DiskSize)
        ensures
            r == DiskSize::spec_max(a, b),
    {
        DiskSize {
            bytes: if a.bytes >= b.bytes { a.bytes } else { b.bytes },
            inodes: if a.inodes >= b.inodes { a.inodes } else { b.inodes },
        }
    }

    pub open spec fn fits_sum(self, other: DiskSize) -> bool {
        self.bytes + other.bytes <= u64::MAX && self.inodes + other.inodes <= u64::MAX
    }

    /// The sum of the two sizes.
    pub fn plus(self, other: DiskSize) -> (r: DiskSize)
        requires
            self.fits_sum(other),
        ensures
            r.bytes == self.bytes + other.bytes,
            r.inodes == self.inodes + other.inodes,
    {
        DiskSize { bytes: self.bytes + other.bytes, inodes: self.inodes + other.inodes }
    }
}

} // verus!
