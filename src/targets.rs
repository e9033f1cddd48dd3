use vstd::prelude::*;
use crate::config::{Config, Disk, Partition};
use crate::error::StageError;
use crate::lsblk::{
    find_disk, find_partition, first_index, kname_ends_with, path_is, BlockDevice, LsblkOutput,
};

verus! {

/// Which declared partitions a stage acts on.
#[derive(Debug, Clone, Copy, PartialEq, Eq, Structural)]
pub enum TargetKind {
    /// Partitions declared encrypted: their device and their name.
    Encryption,
    /// Partitions with a declared filesystem: their device and the kind.
    Filesystem,
}

/// The error for a declared partition with no usable device under its disk.
pub open spec fn partition_missing(p: Partition, disk: String) -> StageError {
    StageError::PartitionNotFound { partition: p.name, disk }
}

/// The device to act on, and what with, for one declared partition: for
/// encryption, the device of each partition declared encrypted with the
/// partition's name; for formatting, the device of each partition with a
/// declared filesystem (the mapped device of an encrypted one) with that kind.
pub open spec fn target_of(kind: TargetKind, p: Partition, disk: String, children: Seq<BlockDevice>) -> Result<Seq<(Seq<char>, Seq<char>)>, StageError> {
    match kind {
        TargetKind::Encryption => if !p.spec_is_luks() {
            Ok(Seq::empty())
        } else {
            match first_index(children, kname_ends_with(p.name@)) {
                None => Err(partition_missing(p, disk)),
                Some(j) => match children[j].path {
                    None => Err(partition_missing(p, disk)),
                    Some(dev) => Ok(seq![(dev@, p.name@)]),
                },
            }
        },
        TargetKind::Filesystem => match p.fs {
            None => Ok(Seq::empty()),
            Some(fs) => if p.spec_is_luks() {
                Ok(seq![("/dev/mapper/"@ + p.name@, fs@)])
            } else {
                match first_index(children, kname_ends_with(p.name@)) {
                    None => Err(partition_missing(p, disk)),
                    Some(j) => match children[j].path {
                        None => Err(partition_missing(p, disk)),
                        Some(dev) => Ok(seq![(dev@, fs@)]),
                    },
                }
            },
        },
    }
}

/// The targets among the partitions of one disk, or the first error.
pub open spec fn disk_targets(kind: TargetKind, parts: Seq<Partition>, disk: String, children: Seq<BlockDevice>) -> Result<Seq<(Seq<char>, Seq<char>)>, StageError>
    decreases parts.len(),
{
    if parts.len() == 0 {
        Ok(Seq::empty())
    } else {
        match disk_targets(kind, parts.drop_last(), disk, children) {
            Err(e) => Err(e),
            Ok(before) => match target_of(kind, parts.last(), disk, children) {
                Err(e) => Err(e),
                Ok(more) => Ok(before + more),
            },
        }
    }
}

/// The targets of `kind` among the declared partitions, disk by disk in
/// declaration order, or the first disk or partition that is not reported.
pub open spec fn partition_targets(kind: TargetKind, disks: Seq<Disk>, roots: Seq<BlockDevice>) -> Result<Seq<(Seq<char>, Seq<char>)>, StageError>
    decreases disks.len(),
{
    if disks.len() == 0 {
        Ok(Seq::empty())
    } else {
        match partition_targets(kind, disks.drop_last(), roots) {
            Err(e) => Err(e),
            Ok(before) => {
                let d = disks.last();
                match first_index(roots, path_is(d.path@)) {
                    None => Err(StageError::DeviceNotFound { disk: d.path }),
                    Some(j) => match disk_targets(kind, d.partitions@, d.path, roots[j].children@) {
                        Err(e) => Err(e),
                        Ok(more) => Ok(before + more),
                    },
                }
            },
        }
    }
}

/// Once a prefix of the disks fails, the whole plan fails the same way.
proof fn lemma_partition_targets_err(kind: TargetKind, disks: Seq<Disk>, roots: Seq<BlockDevice>, m: int)
    requires
        0 <= m <= disks.len(),
        partition_targets(kind, disks.subrange(0, m), roots) is Err,
    ensures
        partition_targets(kind, disks, roots) == partition_targets(kind, disks.subrange(0, m), roots),
    decreases disks.len() - m,
{
    if m < disks.len() {
        assert(disks.subrange(0, m + 1).drop_last() =~= disks.subrange(0, m));
        lemma_partition_targets_err(kind, disks, roots, m + 1);
    } else {
        assert(disks.subrange(0, m) =~= disks);
    }
}

/// Once a prefix of the partitions fails, the disk's plan fails the same way.
proof fn lemma_disk_targets_err(kind: TargetKind, parts: Seq<Partition>, disk: String, children: Seq<BlockDevice>, m: int)
    requires
        0 <= m <= parts.len(),
        disk_targets(kind, parts.subrange(0, m), disk, children) is Err,
    ensures
        disk_targets(kind, parts, disk, children) == disk_targets(kind, parts.subrange(0, m), disk, children),
    decreases parts.len() - m,
{
    if m < parts.len() {
        assert(parts.subrange(0, m + 1).drop_last() =~= parts.subrange(0, m));
        lemma_disk_targets_err(kind, parts, disk, children, m + 1);
    } else {
        assert(parts.subrange(0, m) =~= parts);
    }
}

/// The device path and name of each target.
pub open spec fn targets_view(v: Seq<(String, String)>) -> Seq<(Seq<char>, Seq<char>)> {
    v.map_values(|t: (String, String)| (t.0@, t.1@))
}

fn find_target(kind: TargetKind, part: &Partition, disk: &String, children: &Vec<BlockDevice>) -> (r: Result<Vec<(String, String)>, StageError>)
    ensures
        match r {
            Ok(v) => target_of(kind, *part, *disk, children@) == Ok::<Seq<(Seq<char>, Seq<char>)>, StageError>(targets_view(v@)),
            Err(e) => target_of(kind, *part, *disk, children@) == Err::<Seq<(Seq<char>, Seq<char>)>, StageError>(e),
        },
{
    let mut r: Vec<(String, String)> = Vec::new();
    let want = match kind {
        TargetKind::Encryption => part.is_luks(),
        TargetKind::Filesystem => part.fs.is_some(),
    };
    if !want {
        assert(targets_view(r@) =~= Seq::<(Seq<char>, Seq<char>)>::empty());
        return Ok(r);
    }
    if kind == TargetKind::Filesystem && part.is_luks() {
        let mut dev = String::from_str("/dev/mapper/");
        dev.append(part.name.as_str());
        match &part.fs {
            Some(fs) => {
                r.push((dev, fs.clone()));
                assert(targets_view(r@) =~= seq![("/dev/mapper/"@ + part.name@, fs@)]);
            },
            None => {},
        }
        return Ok(r);
    }
    let missing = StageError::PartitionNotFound { partition: part.name.clone(), disk: disk.clone() };
    let c = match find_partition(children, part.name.as_str()) {
        None => {
            return Err(missing);
        },
        Some(c) => c,
    };
    match &children[c].path {
        None => Err(missing),
        Some(dev) => {
            let what = match &part.fs {
                Some(fs) if kind == TargetKind::Filesystem => fs.clone(),
                _ => part.name.clone(),
            };
            r.push((dev.clone(), what));
            proof {
                match kind {
                    TargetKind::Encryption => {
                        assert(targets_view(r@) =~= seq![(dev@, part.name@)]);
                    },
                    TargetKind::Filesystem => {
                        assert(targets_view(r@) =~= seq![(dev@, part.fs->Some_0@)]);
                    },
                }
            }
            Ok(r)
        },
    }
}

/// The targets of `kind` among the declared partitions.
pub fn resolve_targets(kind: TargetKind, cfg: &Config, state: &LsblkOutput) -> (r: Result<Vec<(String, String)>, StageError>)
    ensures
        match r {
            Ok(v) => partition_targets(kind, cfg.disks@, state.blockdevices@) == Ok::<Seq<(Seq<char>, Seq<char>)>, StageError>(targets_view(v@)),
            Err(e) => partition_targets(kind, cfg.disks@, state.blockdevices@) == Err::<Seq<(Seq<char>, Seq<char>)>, StageError>(e),
        },
{
    let disks = &cfg.disks;
    let roots = &state.blockdevices;
    let mut r: Vec<(String, String)> = Vec::new();
    let mut i: usize = 0;
    assert(targets_view(r@) =~= Seq::<(Seq<char>, Seq<char>)>::empty());
    while i < disks.len()
        invariant
            disks == &cfg.disks,
            roots == &state.blockdevices,
            i <= disks.len(),
            partition_targets(kind, disks@.subrange(0, i as int), roots@) == Ok::<Seq<(Seq<char>, Seq<char>)>, StageError>(targets_view(r@)),
        decreases disks.len() - i,
    {
        let disk = &disks[i];
        assert(disks@.subrange(0, i + 1).drop_last() =~= disks@.subrange(0, i as int));
        let j = match find_disk(roots, disk.path.as_str()) {
            None => {
                proof {
                    lemma_partition_targets_err(kind, disks@, roots@, i + 1);
                }
                return Err(StageError::DeviceNotFound { disk: disk.path.clone() });
            },
            Some(j) => j,
        };
        let children = &roots[j].children;
        let parts = &disk.partitions;
        let ghost before = targets_view(r@);
        let mut k: usize = 0;
        assert(before + Seq::<(Seq<char>, Seq<char>)>::empty() =~= before);
        while k < parts.len()
            invariant
                disks == &cfg.disks,
                roots == &state.blockdevices,
                i < disks.len(),
                disk == &disks@[i as int],
                j < roots.len(),
                first_index(roots@, path_is(disk.path@)) == Some(j as int),
                partition_targets(kind, disks@.subrange(0, i as int), roots@) == Ok::<Seq<(Seq<char>, Seq<char>)>, StageError>(before),
                parts == &disk.partitions,
                children == &roots@[j as int].children,
                k <= parts.len(),
                disk_targets(kind, parts@.subrange(0, k as int), disk.path, children@) matches Ok(done) && targets_view(r@) == before + done,
            decreases parts.len() - k,
        {
            assert(parts@.subrange(0, k + 1).drop_last() =~= parts@.subrange(0, k as int));
            assert(parts@.subrange(0, k + 1).last() == parts@[k as int]);
            let mut more = match find_target(kind, &parts[k], &disk.path, children) {
                Err(e) => {
                    proof {
                        lemma_disk_targets_err(kind, parts@, disk.path, children@, k + 1);
                        assert(disks@.subrange(0, i + 1).last() == disks@[i as int]);
                        assert(disks@.subrange(0, i + 1).drop_last() =~= disks@.subrange(0, i as int));
                        assert(partition_targets(kind, disks@.subrange(0, i + 1), roots@) == Err::<Seq<(Seq<char>, Seq<char>)>, StageError>(e));
                        lemma_partition_targets_err(kind, disks@, roots@, i + 1);
                    }
                    return Err(e);
                },
                Ok(v) => v,
            };
            let ghost mid = r@;
            let ghost added = more@;
            r.append(&mut more);
            assert(targets_view(r@) =~= targets_view(mid) + targets_view(added));
            k = k + 1;
        }
        assert(parts@.subrange(0, k as int) =~= parts@);
        assert(disks@.subrange(0, i + 1).drop_last() =~= disks@.subrange(0, i as int));
        proof {
            let done = disk_targets(kind, parts@, disk.path, children@)->Ok_0;
            assert(targets_view(r@) =~= before + done);
        }
        i = i + 1;
    }
    assert(disks@.subrange(0, i as int) =~= disks@);
    Ok(r)
}

} // verus!
