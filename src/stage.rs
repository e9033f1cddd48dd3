use vstd::prelude::*;
use crate::command::{commands_view, CommandRunner, CommandView, strings_view};
use crate::config::Config;
use crate::crypto::{crypto_plan, crypto_verdict, CryptoManager};
use crate::error::StageError;
use crate::filesystem::{format_plan, fs_stage_verdict, fs_targets, FileSystemManager};
use crate::lsblk::LsblkOutput;
use crate::lvm::{group_listed, lvm_plan, lvm_verdict, LvmManager};
use crate::partition::{partition_plan, partition_verdict, PartitionManager};

verus! {

/// One provisioning stage, in the fixed order partitioning, encryption, LVM,
/// filesystems.
pub enum Stage {
    Partition(PartitionManager),
    Crypto(CryptoManager),
    Lvm(LvmManager),
    FileSystem(FileSystemManager),
}

/// What was observed of the machine for one stage call, fresh each time.
pub struct Observed {
    /// The device tree under each declared disk.
    pub devices: LsblkOutput,
    /// The output of the volume-group query, when it was run.
    pub volume_groups: String,
    /// The output of the logical-volume query, when it was run.
    pub logical_volumes: String,
    /// The output of the filesystem probe of each formatting target, in order.
    pub probes: Vec<String>,
}

/// What a stage's verification returns on an observation.
pub open spec fn stage_verdict(stage: Stage, cfg: Config, obs: Observed) -> Result<bool, StageError> {
    match stage {
        Stage::Partition(_) => partition_verdict(cfg.disks@, obs.devices.blockdevices@),
        Stage::Crypto(_) => crypto_verdict(cfg.disks@, obs.devices.blockdevices@),
        Stage::Lvm(_) => Ok(lvm_verdict(cfg.lvm, obs.volume_groups@, obs.logical_volumes@)),
        Stage::FileSystem(_) => fs_stage_verdict(cfg, obs.devices.blockdevices@, strings_view(obs.probes@)),
    }
}

/// The commands a stage's application runs on an observation.
pub open spec fn stage_plan(stage: Stage, cfg: Config, obs: Observed) -> Result<Seq<CommandView>, StageError> {
    match stage {
        Stage::Partition(_) => Ok(partition_plan(cfg.disks@)),
        Stage::Crypto(_) => crypto_plan(cfg.disks@, obs.devices.blockdevices@),
        Stage::Lvm(_) => lvm_plan(cfg, obs.devices.blockdevices@),
        Stage::FileSystem(_) => match fs_targets(cfg, obs.devices.blockdevices@) {
            Err(e) => Err(e),
            Ok(t) => Ok(format_plan(t, strings_view(obs.probes@), t.len() as int)),
        },
    }
}

impl Stage {
    /// Whether the device trees of the declared disks are to be observed.
    pub fn wants_devices(&self, cfg: &Config, for_apply: bool) -> (r: bool)
        ensures
            r == needs_devices(*self, *cfg, for_apply),
    {
        match self {
            Stage::Partition(_) => !for_apply,
            Stage::Crypto(_) => true,
            Stage::Lvm(_) => for_apply && cfg.lvm.is_some(),
            Stage::FileSystem(_) => true,
        }
    }

    /// Whether the group listing is to be observed.
    pub fn wants_group_listing(&self, cfg: &Config, for_apply: bool) -> (r: bool)
        ensures
            r == needs_group_listing(*self, *cfg, for_apply),
    {
        match self {
            Stage::Lvm(_) => !for_apply && cfg.lvm.is_some(),
            _ => false,
        }
    }

    /// Whether the volume listing is to be observed, given the group listing.
    pub fn wants_volume_listing(&self, cfg: &Config, for_apply: bool, vgs: &str) -> (r: bool)
        ensures
            r == needs_volume_listing(*self, *cfg, for_apply, vgs@),
    {
        if !self.wants_group_listing(cfg, for_apply) {
            return false;
        }
        match &cfg.lvm {
            Some(l) => LvmManager::group_exists(l.vg.as_str(), vgs),
            None => false,
        }
    }

    /// Whether each formatting target is to be probed.
    pub fn wants_probes(&self) -> (r: bool)
        ensures
            r == needs_probes(*self),
    {
        match self {
            Stage::FileSystem(_) => true,
            _ => false,
        }
    }

    /// The usual stages, in their order.
    pub fn all() -> (r: Vec<Stage>)
        ensures
            r@.len() == 4,
            r@[0] is Partition,
            r@[1] is Crypto,
            r@[2] is Lvm,
            r@[3] is FileSystem,
    {
        let mut r: Vec<Stage> = Vec::new();
        r.push(Stage::Partition(PartitionManager));
        r.push(Stage::Crypto(CryptoManager));
        r.push(Stage::Lvm(LvmManager));
        r.push(Stage::FileSystem(FileSystemManager));
        r
    }

}

/// The stage needs the device trees of the declared disks: to verify, all
/// but the LVM stage; to apply, all but the partition stage, and the LVM stage
/// only with an LVM section.
pub open spec fn needs_devices(stage: Stage, cfg: Config, for_apply: bool) -> bool {
    match stage {
        Stage::Partition(_) => !for_apply,
        Stage::Crypto(_) => true,
        Stage::Lvm(_) => for_apply && cfg.lvm is Some,
        Stage::FileSystem(_) => true,
    }
}

/// The stage needs the group listing: only the LVM stage's verification,
/// with an LVM section.
pub open spec fn needs_group_listing(stage: Stage, cfg: Config, for_apply: bool) -> bool {
    stage is Lvm && !for_apply && cfg.lvm is Some
}

/// The stage needs the volume listing: only the LVM stage's verification,
/// once the group listing shows the declared group.
pub open spec fn needs_volume_listing(stage: Stage, cfg: Config, for_apply: bool, vgs: Seq<char>) -> bool {
    &&& needs_group_listing(stage, cfg, for_apply)
    &&& group_listed(vgs, cfg.lvm->Some_0.vg@)
}

/// The stage needs a filesystem probe of each of its targets.
pub open spec fn needs_probes(stage: Stage) -> bool {
    stage is FileSystem
}

/// The verdict of the LVM stage reads the volume listing only when it was
/// asked for; no other stage reads the listings.
pub proof fn lemma_volume_listing_unread(stage: Stage, cfg: Config, obs: Observed, lvs: String)
    requires
        !needs_volume_listing(stage, cfg, false, obs.volume_groups@),
    ensures
        stage_verdict(stage, cfg, obs) == stage_verdict(stage, cfg, Observed { logical_volumes: lvs, ..obs }),
{
}

/// The two-phase capability every stage offers: a read-only check of whether
/// work is needed, and the commands that converge the machine.
pub trait Configurable {
    /// What `verify` returns on an observation.
    spec fn verdict(&self, cfg: Config, obs: Observed) -> Result<bool, StageError>;

    /// What `apply` plans on an observation.
    spec fn plan(&self, cfg: Config, obs: Observed) -> Result<Seq<CommandView>, StageError>;

    /// Whether the stage has work to do; never changes the machine.
    fn verify(&self, cfg: &Config, obs: &Observed) -> (r: Result<bool, StageError>)
        ensures
            r == self.verdict(*cfg, *obs),
    ;

    /// The commands that converge the stage, to be run in order.
    fn apply(&self, cfg: &Config, obs: &Observed) -> (r: Result<Vec<CommandRunner>, StageError>)
        ensures
            match r {
                Ok(v) => self.plan(*cfg, *obs) == Ok::<Seq<CommandView>, StageError>(commands_view(v@)),
                Err(e) => self.plan(*cfg, *obs) == Err::<Seq<CommandView>, StageError>(e),
            },
    ;
}

impl Configurable for PartitionManager {
    open spec fn verdict(&self, cfg: Config, obs: Observed) -> Result<bool, StageError> {
        stage_verdict(Stage::Partition(PartitionManager), cfg, obs)
    }

    open spec fn plan(&self, cfg: Config, obs: Observed) -> Result<Seq<CommandView>, StageError> {
        stage_plan(Stage::Partition(PartitionManager), cfg, obs)
    }

    fn verify(&self, cfg: &Config, obs: &Observed) -> (r: Result<bool, StageError>) {
        PartitionManager::verify(self, cfg, &obs.devices)
    }

    fn apply(&self, cfg: &Config, obs: &Observed) -> (r: Result<Vec<CommandRunner>, StageError>) {
        Ok(PartitionManager::apply(self, cfg))
    }
}

impl Configurable for CryptoManager {
    open spec fn verdict(&self, cfg: Config, obs: Observed) -> Result<bool, StageError> {
        stage_verdict(Stage::Crypto(CryptoManager), cfg, obs)
    }

    open spec fn plan(&self, cfg: Config, obs: Observed) -> Result<Seq<CommandView>, StageError> {
        stage_plan(Stage::Crypto(CryptoManager), cfg, obs)
    }

    fn verify(&self, cfg: &Config, obs: &Observed) -> (r: Result<bool, StageError>) {
        CryptoManager::verify(self, cfg, &obs.devices)
    }

    fn apply(&self, cfg: &Config, obs: &Observed) -> (r: Result<Vec<CommandRunner>, StageError>) {
        CryptoManager::apply(self, cfg, &obs.devices)
    }
}

impl Configurable for LvmManager {
    open spec fn verdict(&self, cfg: Config, obs: Observed) -> Result<bool, StageError> {
        stage_verdict(Stage::Lvm(LvmManager), cfg, obs)
    }

    open spec fn plan(&self, cfg: Config, obs: Observed) -> Result<Seq<CommandView>, StageError> {
        stage_plan(Stage::Lvm(LvmManager), cfg, obs)
    }

    fn verify(&self, cfg: &Config, obs: &Observed) -> (r: Result<bool, StageError>) {
        Ok(LvmManager::verify(self, cfg, obs.volume_groups.as_str(), obs.logical_volumes.as_str()))
    }

    fn apply(&self, cfg: &Config, obs: &Observed) -> (r: Result<Vec<CommandRunner>, StageError>) {
        LvmManager::apply(self, cfg, &obs.devices)
    }
}

impl Configurable for FileSystemManager {
    open spec fn verdict(&self, cfg: Config, obs: Observed) -> Result<bool, StageError> {
        stage_verdict(Stage::FileSystem(FileSystemManager), cfg, obs)
    }

    open spec fn plan(&self, cfg: Config, obs: Observed) -> Result<Seq<CommandView>, StageError> {
        stage_plan(Stage::FileSystem(FileSystemManager), cfg, obs)
    }

    fn verify(&self, cfg: &Config, obs: &Observed) -> (r: Result<bool, StageError>) {
        self.verify_observed(cfg, &obs.devices, &obs.probes)
    }

    fn apply(&self, cfg: &Config, obs: &Observed) -> (r: Result<Vec<CommandRunner>, StageError>) {
        let t = self.targets(cfg, &obs.devices)?;
        Ok(FileSystemManager::apply(self, &t, &obs.probes))
    }
}

impl Configurable for Stage {
    open spec fn verdict(&self, cfg: Config, obs: Observed) -> Result<bool, StageError> {
        stage_verdict(*self, cfg, obs)
    }

    open spec fn plan(&self, cfg: Config, obs: Observed) -> Result<Seq<CommandView>, StageError> {
        stage_plan(*self, cfg, obs)
    }

    fn verify(&self, cfg: &Config, obs: &Observed) -> (r: Result<bool, StageError>) {
        match self {
            Stage::Partition(m) => Configurable::verify(m, cfg, obs),
            Stage::Crypto(m) => Configurable::verify(m, cfg, obs),
            Stage::Lvm(m) => Configurable::verify(m, cfg, obs),
            Stage::FileSystem(m) => Configurable::verify(m, cfg, obs),
        }
    }

    fn apply(&self, cfg: &Config, obs: &Observed) -> (r: Result<Vec<CommandRunner>, StageError>) {
        match self {
            Stage::Partition(m) => Configurable::apply(m, cfg, obs),
            Stage::Crypto(m) => Configurable::apply(m, cfg, obs),
            Stage::Lvm(m) => Configurable::apply(m, cfg, obs),
            Stage::FileSystem(m) => Configurable::apply(m, cfg, obs),
        }
    }
}

} // verus!
