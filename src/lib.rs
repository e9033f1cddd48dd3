//! Declarative storage provisioning: compares a declared disk layout with the
//! block-device tree the kernel reports, decides whether work is needed, and
//! plans the privileged commands that converge the machine.
pub mod command;
pub mod config;
pub mod text;
pub mod error;
pub mod lsblk;
pub mod partition;
pub mod crypto;
pub mod targets;
pub mod lvm;
pub mod orchestrator;
pub mod filesystem;
pub mod stage;
