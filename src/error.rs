use vstd::prelude::*;

verus! {

/// Why a stage could not decide or plan its work.
#[derive(Debug, Clone, PartialEq, Eq)]
pub enum StageError {
    /// The declared disk path is not among the devices the kernel reports.
    DeviceNotFound { disk: String },
    /// No device under the disk has a kernel name ending with the declared
    /// partition name, or the matching device has no device path.
    PartitionNotFound { partition: String, disk: String },
}

} // verus!
