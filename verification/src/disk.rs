//! Disk-level constants: the logical block (sector) size that determines
//! every offset computation.

use vstd::prelude::*;

verus! {

/// Logical block sizes supported by the library.
#[derive(Debug, Clone, Copy, PartialEq, Eq, Structural)]
pub enum LogicalBlockSize {
    /// 512-byte sectors, the traditional size.
    Lb512,
    /// 4096-byte sectors, common on modern large drives.
    Lb4096,
}

impl LogicalBlockSize {
    /// The sector size in bytes, as a mathematical value.
    pub open spec fn spec_bytes(self) -> u64 {
        match self {
            LogicalBlockSize::Lb512 => 512,
            LogicalBlockSize::Lb4096 => 4096,
        }
    }

    /// The sector size in bytes.
    pub fn bytes(self) -> (r: u64)
        ensures
            r == self.spec_bytes(),
    {
        match self {
            LogicalBlockSize::Lb512 => 512,
            LogicalBlockSize::Lb4096 => 4096,
        }
    }
}

} // verus!
