use vstd::prelude::*;
use crate::command::{commands_view, elevated, CommandRunner, CommandView, RunMode, strings_view};
use crate::config::{Config, LogicalVolume, Lvm};
use crate::error::StageError;
use crate::lsblk::{BlockDevice, LsblkOutput};
use crate::targets::{partition_targets, resolve_targets, targets_view, TargetKind};
use crate::text::{chars_of, same_chars, same_text, trim, trimmed};

verus! {

/// Puts the declared filesystem on each partition and logical volume.
pub struct FileSystemManager;

/// The device of each declared logical volume, `/dev/<group>/<volume>`, with
/// its filesystem kind.
pub open spec fn volume_targets(lvm: Option<Lvm>) -> Seq<(Seq<char>, Seq<char>)> {
    match lvm {
        None => Seq::empty(),
        Some(l) => l.volumes@.map_values(|v: LogicalVolume| ("/dev/"@ + l.vg@ + "/"@ + v.name@, v.fs@)),
    }
}

/// Every device to format with its kind: the partitions first, disk by disk,
/// then the logical volumes; or the first disk or partition not reported.
pub open spec fn fs_targets(cfg: Config, roots: Seq<BlockDevice>) -> Result<Seq<(Seq<char>, Seq<char>)>, StageError> {
    match partition_targets(TargetKind::Filesystem, cfg.disks@, roots) {
        Err(e) => Err(e),
        Ok(t) => Ok(t + volume_targets(cfg.lvm)),
    }
}

/// The kind a probe reports for a declared kind: the FAT variants all read
/// as `vfat`.
pub open spec fn probe_kind(fs: Seq<char>) -> Seq<char> {
    if fs == "fat32"@ || fs == "fat16"@ {
        "vfat"@
    } else {
        fs
    }
}

/// A probe's output, trimmed, names the wanted kind.
pub open spec fn formatted(probe: Seq<char>, fs: Seq<char>) -> bool {
    trim(probe) == probe_kind(fs)
}

/// Target `i` already carries its filesystem, by the probe of the same position.
pub open spec fn target_done(t: Seq<(Seq<char>, Seq<char>)>, probed: Seq<Seq<char>>, i: int) -> bool {
    i < probed.len() && formatted(probed[i], t[i].1)
}

/// Some target does not carry its filesystem yet.
pub open spec fn fs_verdict(t: Seq<(Seq<char>, Seq<char>)>, probed: Seq<Seq<char>>) -> bool {
    exists|i: int| 0 <= i < t.len() && !#[trigger] target_done(t, probed, i)
}

/// `mkfs -t <fs> <dev>`; a FAT kind is made with `mkfs -t vfat -F <bits>`.
pub open spec fn mkfs_command(dev: Seq<char>, fs: Seq<char>) -> CommandView {
    if fs == "fat32"@ {
        elevated("mkfs"@, seq!["-t"@, "vfat"@, "-F"@, "32"@, dev])
    } else if fs == "fat16"@ {
        elevated("mkfs"@, seq!["-t"@, "vfat"@, "-F"@, "16"@, dev])
    } else {
        elevated("mkfs"@, seq!["-t"@, fs, dev])
    }
}

/// The filesystem stage's verdict on an observation: a declared partition
/// with no device yet is work to do, a missing disk fails, and otherwise
/// some target not yet carrying its kind is work to do.
pub open spec fn fs_stage_verdict(cfg: Config, roots: Seq<BlockDevice>, probed: Seq<Seq<char>>) -> Result<bool, StageError> {
    match fs_targets(cfg, roots) {
        Err(StageError::PartitionNotFound { .. }) => Ok(true),
        Err(e) => Err(e),
        Ok(t) => Ok(fs_verdict(t, probed)),
    }
}

/// The commands for the first `n` targets: each one not yet formatted as
/// declared is formatted.
pub open spec fn format_plan(t: Seq<(Seq<char>, Seq<char>)>, probed: Seq<Seq<char>>, n: int) -> Seq<CommandView>
    decreases n,
{
    if n <= 0 {
        Seq::empty()
    } else if target_done(t, probed, n - 1) {
        format_plan(t, probed, n - 1)
    } else {
        format_plan(t, probed, n - 1).push(mkfs_command(t[n - 1].0, t[n - 1].1))
    }
}

/// Applying the filesystem stage where its verification found nothing to do
/// runs no command: every target that already carries its kind is left alone.
pub proof fn lemma_converged_apply_is_empty(t: Seq<(Seq<char>, Seq<char>)>, probed: Seq<Seq<char>>, n: int)
    requires
        0 <= n <= t.len(),
        !fs_verdict(t, probed),
    ensures
        format_plan(t, probed, n) == Seq::<CommandView>::empty(),
    decreases n,
{
    if n > 0 {
        assert(target_done(t, probed, n - 1));
        lemma_converged_apply_is_empty(t, probed, n - 1);
    }
}

impl FileSystemManager {
    /// The devices to format with their kinds.
    pub fn targets(&self, cfg: &Config, state: &LsblkOutput) -> (r: Result<Vec<(String, String)>, StageError>)
        ensures
            match r {
                Ok(v) => fs_targets(*cfg, state.blockdevices@) == Ok::<Seq<(Seq<char>, Seq<char>)>, StageError>(targets_view(v@)),
                Err(e) => fs_targets(*cfg, state.blockdevices@) == Err::<Seq<(Seq<char>, Seq<char>)>, StageError>(e),
            },
    {
        let mut r = resolve_targets(TargetKind::Filesystem, cfg, state)?;
        let ghost head = targets_view(r@);
        match &cfg.lvm {
            None => {
                assert(targets_view(r@) =~= head + volume_targets(cfg.lvm));
            },
            Some(l) => {
                let mut k: usize = 0;
                while k < l.volumes.len()
                    invariant
                        k <= l.volumes.len(),
                        targets_view(r@) == head + l.volumes@.subrange(0, k as int).map_values(
                            |v: LogicalVolume| ("/dev/"@ + l.vg@ + "/"@ + v.name@, v.fs@),
                        ),
                    decreases l.volumes.len() - k,
                {
                    let v = &l.volumes[k];
                    let mut dev = String::from_str("/dev/");
                    dev.append(l.vg.as_str());
                    dev.append("/");
                    dev.append(v.name.as_str());
                    let ghost prev = r@;
                    r.push((dev, v.fs.clone()));
                    assert(targets_view(r@) =~= targets_view(prev).push(("/dev/"@ + l.vg@ + "/"@ + v.name@, v.fs@)));
                    assert(l.volumes@.subrange(0, k + 1).map_values(
                        |v: LogicalVolume| ("/dev/"@ + l.vg@ + "/"@ + v.name@, v.fs@),
                    ) =~= l.volumes@.subrange(0, k as int).map_values(
                        |v: LogicalVolume| ("/dev/"@ + l.vg@ + "/"@ + v.name@, v.fs@),
                    ).push(("/dev/"@ + l.vg@ + "/"@ + v.name@, v.fs@)));
                    k = k + 1;
                }
                assert(l.volumes@.subrange(0, k as int) =~= l.volumes@);
            },
        }
        Ok(r)
    }

    /// `blkid -p -o value -s TYPE <dev>`, elevated: the filesystem kind read
    /// from the device's superblock.
    pub fn probe_query(dev: &str) -> (r: CommandRunner)
        ensures
            r@ == (CommandView {
                mode: RunMode::Capture,
                ..elevated("blkid"@, seq!["-p"@, "-o"@, "value"@, "-s"@, "TYPE"@, dev@])
            }),
    {
        let r = CommandRunner::new("blkid").arg("-p").arg("-o").arg("value").arg("-s").arg("TYPE").arg(
            dev,
        ).sudo().capture();
        assert(r@.args =~= seq!["-p"@, "-o"@, "value"@, "-s"@, "TYPE"@, dev@]);
        r
    }

    /// The stage's verdict from the observed devices and the probe of each
    /// target, in order.
    pub fn verify_observed(&self, cfg: &Config, state: &LsblkOutput, probed: &Vec<String>) -> (r: Result<bool, StageError>)
        ensures
            r == fs_stage_verdict(*cfg, state.blockdevices@, strings_view(probed@)),
    {
        match self.targets(cfg, state) {
            Err(StageError::PartitionNotFound { .. }) => Ok(true),
            Err(e) => Err(e),
            Ok(t) => Ok(self.verify(&t, probed)),
        }
    }

    fn done(targets: &Vec<(String, String)>, probed: &Vec<String>, i: usize) -> (r: bool)
        requires
            i < targets.len(),
        ensures
            r == target_done(targets_view(targets@), strings_view(probed@), i as int),
    {
        if i < probed.len() {
            let t = trimmed(&chars_of(probed[i].as_str()));
            let fs = targets[i].1.as_str();
            if same_text(fs, "fat32") || same_text(fs, "fat16") {
                same_chars(&t, "vfat")
            } else {
                same_chars(&t, fs)
            }
        } else {
            false
        }
    }

    /// Whether some target does not carry its declared filesystem, given the
    /// output of the probe of each target, in the same order.
    pub fn verify(&self, targets: &Vec<(String, String)>, probed: &Vec<String>) -> (r: bool)
        ensures
            r == fs_verdict(targets_view(targets@), strings_view(probed@)),
    {
        let mut i: usize = 0;
        while i < targets.len()
            invariant
                i <= targets.len(),
                forall|k: int| 0 <= k < i ==> #[trigger] target_done(targets_view(targets@), strings_view(probed@), k),
            decreases targets.len() - i,
        {
            if !FileSystemManager::done(targets, probed, i) {
                return true;
            }
            i = i + 1;
        }
        false
    }

    /// The commands that format each target not yet carrying its declared
    /// filesystem, in order.
    pub fn apply(&self, targets: &Vec<(String, String)>, probed: &Vec<String>) -> (r: Vec<CommandRunner>)
        ensures
            commands_view(r@) == format_plan(targets_view(targets@), strings_view(probed@), targets@.len() as int),
    {
        let mut r: Vec<CommandRunner> = Vec::new();
        let mut i: usize = 0;
        assert(commands_view(r@) =~= Seq::<CommandView>::empty());
        while i < targets.len()
            invariant
                i <= targets.len(),
                commands_view(r@) == format_plan(targets_view(targets@), strings_view(probed@), i as int),
            decreases targets.len() - i,
        {
            if !FileSystemManager::done(targets, probed, i) {
                let fs = targets[i].1.as_str();
                let dev = targets[i].0.as_str();
                let c = if same_text(fs, "fat32") {
                    CommandRunner::new("mkfs").arg("-t").arg("vfat").arg("-F").arg("32").arg(dev).sudo()
                } else if same_text(fs, "fat16") {
                    CommandRunner::new("mkfs").arg("-t").arg("vfat").arg("-F").arg("16").arg(dev).sudo()
                } else {
                    CommandRunner::new("mkfs").arg("-t").arg(fs).arg(dev).sudo()
                };
                assert(c@.args =~= mkfs_command(dev@, fs@).args);
                let ghost prev = r@;
                r.push(c);
                assert(commands_view(r@) =~= commands_view(prev).push(c@));
            }
            i = i + 1;
        }
        r
    }
}

} // verus!
