use vstd::prelude::*;

verus! {

/// Firmware interface of the target machine.
#[derive(Debug, Clone, Copy, PartialEq, Eq)]
pub enum Firmware {
    BIOS,
    UEFI,
}

/// A whole disk: its device path, partition-table kind and ordered partitions.
#[derive(Debug, Clone, PartialEq, Eq)]
pub struct Disk {
    pub path: String,
    pub table: String,
    pub partitions: Vec<Partition>,
}

/// A declared partition. `size_mb` is the target size in megabytes (1024 per
/// gigabyte); `None` consumes the remaining space.
#[derive(Debug, Clone, PartialEq, Eq)]
pub struct Partition {
    pub name: String,
    pub size_mb: Option<u64>,
    pub fs: Option<String>,
    pub flags: Option<Vec<String>>,
    pub luks: Option<bool>,
}

/// The optional LVM section: one volume group and its logical volumes.
#[derive(Debug, Clone, PartialEq, Eq)]
pub struct Lvm {
    pub vg: String,
    pub volumes: Vec<LogicalVolume>,
}

/// A declared logical volume; `size_mb: None` takes all free space left.
#[derive(Debug, Clone, PartialEq, Eq)]
pub struct LogicalVolume {
    pub name: String,
    pub size_mb: Option<u64>,
    pub fs: String,
}

#[derive(Debug, Clone, PartialEq, Eq)]
pub struct Bootloader {
    pub type_: String,
    pub theme: Option<String>,
}

#[derive(Debug, Clone, PartialEq, Eq)]
pub struct Kernel {
    pub name: String,
    pub initramfs_hooks: Vec<String>,
    pub parameters: Option<Vec<String>>,
    pub firmware: bool,
}

/// The whole declared system, loaded once per run and never changed after.
#[derive(Debug, Clone, PartialEq, Eq)]
pub struct Config {
    /// Where the configuration was read from.
    pub system_config: String,
    pub firmware: Firmware,
    pub disks: Vec<Disk>,
    pub lvm: Option<Lvm>,
    pub bootloader: Bootloader,
    pub kernel: Kernel,
    pub packages: Vec<String>,
}

impl Partition {
    /// Whether the partition is declared to carry a LUKS container.
    pub open spec fn spec_is_luks(&self) -> bool {
        self.luks == Some(true)
    }

    /// Whether the partition is declared to carry a LUKS container.
    pub fn is_luks(&self) -> (r: bool)
        ensures
            r == self.spec_is_luks(),
    {
        match self.luks {
            Some(b) => b,
            None => false,
        }
    }
}

} // verus!
