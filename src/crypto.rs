use vstd::prelude::*;
use crate::command::{commands_view, elevated, CommandRunner, CommandView};
use crate::config::{Config, Disk, Partition};
use crate::error::StageError;
use crate::lsblk::{
    find_disk, find_partition, first_index, is_mapped, kname_ends_with, path_is, BlockDevice,
    LsblkOutput,
};
use crate::targets::{partition_missing, partition_targets, resolve_targets, targets_view, TargetKind};

verus! {

/// Layers LUKS encryption on the partitions declared encrypted.
pub struct CryptoManager;

/// Checking the partitions of one disk in order: `None` when every encrypted
/// one is already mapped, else the outcome of the first that is not.
pub open spec fn crypto_disk_verdict(
    parts: Seq<Partition>,
    disk: String,
    children: Seq<BlockDevice>,
) -> Option<Result<bool, StageError>>
    decreases parts.len(),
{
    if parts.len() == 0 {
        None
    } else {
        let p = parts[0];
        if !p.spec_is_luks() {
            crypto_disk_verdict(parts.drop_first(), disk, children)
        } else {
            match first_index(children, kname_ends_with(p.name@)) {
                None => Some(Err(partition_missing(p, disk))),
                Some(j) => if is_mapped(children[j]) {
                    crypto_disk_verdict(parts.drop_first(), disk, children)
                } else {
                    Some(Ok(true))
                },
            }
        }
    }
}

/// The outcome of checking `disks` in order against the observed root devices.
pub open spec fn crypto_verdict(disks: Seq<Disk>, roots: Seq<BlockDevice>) -> Result<bool, StageError>
    decreases disks.len(),
{
    if disks.len() == 0 {
        Ok(false)
    } else {
        let d = disks[0];
        match first_index(roots, path_is(d.path@)) {
            None => Err(StageError::DeviceNotFound { disk: d.path }),
            Some(j) => match crypto_disk_verdict(d.partitions@, d.path, roots[j].children@) {
                Some(r) => r,
                None => crypto_verdict(disks.drop_first(), roots),
            },
        }
    }
}

/// `cryptsetup luksFormat <dev> --type luks2` then `cryptsetup luksOpen <dev> <name>`.
pub open spec fn luks_commands(dev: Seq<char>, name: Seq<char>) -> Seq<CommandView> {
    seq![
        elevated("cryptsetup"@, seq!["luksFormat"@, dev, "--type"@, "luks2"@]),
        elevated("cryptsetup"@, seq!["luksOpen"@, dev, name]),
    ]
}

/// The LUKS commands for each target, in order.
pub open spec fn luks_plan(t: Seq<(Seq<char>, Seq<char>)>) -> Seq<CommandView>
    decreases t.len(),
{
    if t.len() == 0 {
        Seq::empty()
    } else {
        luks_plan(t.drop_last()) + luks_commands(t.last().0, t.last().1)
    }
}

/// The commands of the encryption stage, or the first error.
pub open spec fn crypto_plan(disks: Seq<Disk>, roots: Seq<BlockDevice>) -> Result<Seq<CommandView>, StageError> {
    match partition_targets(TargetKind::Encryption, disks, roots) {
        Ok(t) => Ok(luks_plan(t)),
        Err(e) => Err(e),
    }
}

impl CryptoManager {
    /// Whether some partition declared encrypted is not yet a mapped device.
    pub fn verify(&self, cfg: &Config, state: &LsblkOutput) -> (r: Result<bool, StageError>)
        ensures
            r == crypto_verdict(cfg.disks@, state.blockdevices@),
    {
        let disks = &cfg.disks;
        let roots = &state.blockdevices;
        let mut i: usize = 0;
        assert(disks@.subrange(0, disks@.len() as int) =~= disks@);
        while i < disks.len()
            invariant
                disks == &cfg.disks,
                roots == &state.blockdevices,
                i <= disks.len(),
                crypto_verdict(disks@, roots@) == crypto_verdict(
                    disks@.subrange(i as int, disks@.len() as int),
                    roots@,
                ),
            decreases disks.len() - i,
        {
            let disk = &disks[i];
            let ghost rest = disks@.subrange(i as int, disks@.len() as int);
            assert(rest[0] == disk);
            assert(rest.drop_first() =~= disks@.subrange(i + 1, disks@.len() as int));
            let j = match find_disk(roots, disk.path.as_str()) {
                None => {
                    return Err(StageError::DeviceNotFound { disk: disk.path.clone() });
                },
                Some(j) => j,
            };
            let children = &roots[j].children;
            let parts = &disk.partitions;
            let mut k: usize = 0;
            assert(parts@.subrange(0, parts@.len() as int) =~= parts@);
            while k < parts.len()
                invariant
                    disks == &cfg.disks,
                    roots == &state.blockdevices,
                    i < disks.len(),
                    disk == &disks@[i as int],
                    j < roots.len(),
                    first_index(roots@, path_is(disk.path@)) == Some(j as int),
                    crypto_verdict(disks@, roots@) == crypto_verdict(
                        disks@.subrange(i as int, disks@.len() as int),
                        roots@,
                    ),
                    parts == &disk.partitions,
                    children == &roots@[j as int].children,
                    k <= parts.len(),
                    crypto_disk_verdict(parts@, disk.path, children@) == crypto_disk_verdict(
                        parts@.subrange(k as int, parts@.len() as int),
                        disk.path,
                        children@,
                    ),
                decreases parts.len() - k,
            {
                let part = &parts[k];
                let ghost prest = parts@.subrange(k as int, parts@.len() as int);
                assert(prest[0] == part);
                assert(prest.drop_first() =~= parts@.subrange(k + 1, parts@.len() as int));
                if part.is_luks() {
                    match find_partition(children, part.name.as_str()) {
                        None => {
                            return Err(
                                StageError::PartitionNotFound {
                                    partition: part.name.clone(),
                                    disk: disk.path.clone(),
                                },
                            );
                        },
                        Some(c) => {
                            if !children[c].is_mapped() {
                                return Ok(true);
                            }
                        },
                    }
                }
                k = k + 1;
            }
            assert(parts@.subrange(k as int, parts@.len() as int).len() == 0);
            i = i + 1;
        }
        assert(disks@.subrange(i as int, disks@.len() as int).len() == 0);
        Ok(false)
    }
}


impl CryptoManager {
    /// The commands that format and open a LUKS container on each partition
    /// declared encrypted, disk by disk and in declaration order; the mapped
    /// device is named after the partition. Fails, before any command, on the
    /// first disk or partition that is not reported.
    pub fn apply(&self, cfg: &Config, state: &LsblkOutput) -> (r: Result<Vec<CommandRunner>, StageError>)
        ensures
            match r {
                Ok(v) => crypto_plan(cfg.disks@, state.blockdevices@) == Ok::<Seq<CommandView>, StageError>(commands_view(v@)),
                Err(e) => crypto_plan(cfg.disks@, state.blockdevices@) == Err::<Seq<CommandView>, StageError>(e),
            },
    {
        let targets = resolve_targets(TargetKind::Encryption, cfg, state)?;
        let mut r: Vec<CommandRunner> = Vec::new();
        let mut i: usize = 0;
        assert(commands_view(r@) =~= luks_plan(targets_view(targets@).subrange(0, 0)));
        while i < targets.len()
            invariant
                i <= targets.len(),
                commands_view(r@) == luks_plan(targets_view(targets@).subrange(0, i as int)),
            decreases targets.len() - i,
        {
            let dev = targets[i].0.as_str();
            let name = targets[i].1.as_str();
            let format = CommandRunner::new("cryptsetup").arg("luksFormat").arg(dev).arg("--type").arg(
                "luks2",
            ).sudo();
            let open = CommandRunner::new("cryptsetup").arg("luksOpen").arg(dev).arg(name).sudo();
            assert(format@.args =~= seq!["luksFormat"@, dev@, "--type"@, "luks2"@]);
            assert(open@.args =~= seq!["luksOpen"@, dev@, name@]);
            let ghost prev = r@;
            r.push(format);
            r.push(open);
            let ghost tv = targets_view(targets@);
            assert(tv.subrange(0, i + 1).drop_last() =~= tv.subrange(0, i as int));
            assert(commands_view(r@) =~= commands_view(prev) + luks_commands(dev@, name@));
            i = i + 1;
        }
        assert(targets_view(targets@).subrange(0, i as int) =~= targets_view(targets@));
        Ok(r)
    }
}

} // verus!
