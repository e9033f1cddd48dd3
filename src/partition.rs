use vstd::prelude::*;
use crate::command::{commands_view, elevated, CommandRunner, CommandView};
use crate::config::{Config, Disk, Partition};
use crate::error::StageError;
use crate::lsblk::{
    find_disk, find_partition, first_index, lemma_first_exists, kname_ends_with, path_is,
    BlockDevice, LsblkOutput,
};
use crate::text::{decimal, decimal_seq, is_suffix};

verus! {

/// Writes partition tables and creates the declared partitions.
pub struct PartitionManager;

/// A declared partition is in place among `devices`: some device's kernel name ends
/// with its name, and when encryption is declared the first such device
/// already has a device stacked on it.
pub open spec fn partition_in_place(p: Partition, devices: Seq<BlockDevice>) -> bool {
    match first_index(devices, kname_ends_with(p.name@)) {
        Some(j) => p.spec_is_luks() ==> devices[j].children@.len() > 0,
        None => false,
    }
}

/// Every declared partition is in place among `devices`.
pub open spec fn partitions_in_place(parts: Seq<Partition>, devices: Seq<BlockDevice>) -> bool {
    forall|i: int| 0 <= i < parts.len() ==> partition_in_place(#[trigger] parts[i], devices)
}

/// The outcome of checking `disks` in order against the observed root devices:
/// the first disk that is not reported fails, the first disk with a partition
/// out of place asks for work, and otherwise nothing is needed.
pub open spec fn partition_verdict(disks: Seq<Disk>, roots: Seq<BlockDevice>) -> Result<bool, StageError>
    decreases disks.len(),
{
    if disks.len() == 0 {
        Ok(false)
    } else {
        let d = disks[0];
        match first_index(roots, path_is(d.path@)) {
            None => Err(StageError::DeviceNotFound { disk: d.path }),
            Some(j) => if !partitions_in_place(d.partitions@, roots[j].children@) {
                Ok(true)
            } else {
                partition_verdict(disks.drop_first(), roots)
            },
        }
    }
}

/// The filesystem kind given to the partition table entry.
pub open spec fn table_fs(p: Partition) -> Seq<char> {
    match p.fs {
        Some(fs) => fs@,
        None => "ext4"@,
    }
}

/// `parted <disk> mklabel <table>`.
pub open spec fn label_command(d: Disk) -> CommandView {
    elevated("parted"@, seq![d.path@, "mklabel"@, d.table@])
}

/// `parted <disk> mkpart primary <fs> [0% <size>MB]`.
pub open spec fn mkpart_command(path: Seq<char>, p: Partition) -> CommandView {
    let base = seq![path, "mkpart"@, "primary"@, table_fs(p)];
    match p.size_mb {
        Some(mb) => elevated("parted"@, base + seq!["0%"@, decimal_seq(mb as nat) + "MB"@]),
        None => elevated("parted"@, base),
    }
}

/// `parted <disk> set <slot> <flag>` for each flag, in order.
pub open spec fn flag_commands(path: Seq<char>, slot: nat, flags: Seq<String>) -> Seq<CommandView> {
    flags.map_values(|f: String| elevated("parted"@, seq![path, "set"@, decimal_seq(slot), f@]))
}

/// The commands for the partition at 0-based position `index`.
pub open spec fn partition_commands(path: Seq<char>, index: nat, p: Partition) -> Seq<CommandView> {
    seq![mkpart_command(path, p)] + match p.flags {
        Some(flags) => flag_commands(path, index + 1, flags@),
        None => Seq::empty(),
    }
}

/// The commands for the first `parts.len()` partitions of a disk.
pub open spec fn partitions_plan(path: Seq<char>, parts: Seq<Partition>) -> Seq<CommandView>
    decreases parts.len(),
{
    if parts.len() == 0 {
        Seq::empty()
    } else {
        partitions_plan(path, parts.drop_last()) + partition_commands(
            path,
            (parts.len() - 1) as nat,
            parts.last(),
        )
    }
}

/// The commands for one disk: a new table, then its partitions in order.
pub open spec fn disk_plan(d: Disk) -> Seq<CommandView> {
    seq![label_command(d)] + partitions_plan(d.path@, d.partitions@)
}

/// The commands for all disks, in order.
pub open spec fn partition_plan(disks: Seq<Disk>) -> Seq<CommandView>
    decreases disks.len(),
{
    if disks.len() == 0 {
        Seq::empty()
    } else {
        partition_plan(disks.drop_last()) + disk_plan(disks.last())
    }
}

/// When the device of every declared disk is reported and each declared
/// partition, none of them encrypted, has a device under it whose kernel name ends
/// with the partition's name, the partition stage asks for no work.
pub proof fn lemma_all_present_no_work(disks: Seq<Disk>, roots: Seq<BlockDevice>)
    requires
        forall|i: int| 0 <= i < disks.len() ==> (#[trigger] first_index(roots, path_is(disks[i].path@)) matches Some(j)
            && forall|q: int| 0 <= q < disks[i].partitions@.len() ==> {
                &&& !(#[trigger] disks[i].partitions@[q]).spec_is_luks()
                &&& exists|c: int| 0 <= c < roots[j].children@.len()
                    && is_suffix(roots[j].children@[c].kname@, disks[i].partitions@[q].name@)
            }),
    ensures
        partition_verdict(disks, roots) == Ok::<bool, StageError>(false),
    decreases disks.len(),
{
    if disks.len() > 0 {
        let d = disks[0];
        assert(first_index(roots, path_is(disks[0].path@)) is Some);
        let j = first_index(roots, path_is(d.path@))->Some_0;
        let children = roots[j].children@;
        assert forall|q: int| 0 <= q < d.partitions@.len() implies partition_in_place(
            #[trigger] d.partitions@[q],
            children,
        ) by {
            let p = d.partitions@[q];
            let c = choose|c: int| 0 <= c < children.len() && is_suffix(children[c].kname@, p.name@);
            assert(kname_ends_with(p.name@)(children[c]));
            lemma_first_exists(children, kname_ends_with(p.name@), c);
        }
        let rest = disks.drop_first();
        assert forall|i: int| 0 <= i < rest.len() implies (#[trigger] first_index(roots, path_is(rest[i].path@)) matches Some(j)
            && forall|q: int| 0 <= q < rest[i].partitions@.len() ==> {
                &&& !(#[trigger] rest[i].partitions@[q]).spec_is_luks()
                &&& exists|c: int| 0 <= c < roots[j].children@.len()
                    && is_suffix(roots[j].children@[c].kname@, rest[i].partitions@[q].name@)
            }) by {
            assert(rest[i] == disks[i + 1]);
            assert(first_index(roots, path_is(disks[i + 1].path@)) is Some);
        }
        lemma_all_present_no_work(rest, roots);
    }
}

impl PartitionManager {
    /// Whether every declared partition is in place among the actual devices.
    pub fn compare_partitions(expected: &Vec<Partition>, actual: &Vec<BlockDevice>) -> (r: bool)
        ensures
            r == partitions_in_place(expected@, actual@),
    {
        let mut i: usize = 0;
        while i < expected.len()
            invariant
                i <= expected.len(),
                forall|k: int| 0 <= k < i ==> partition_in_place(#[trigger] expected@[k], actual@),
            decreases expected.len() - i,
        {
            let part = &expected[i];
            match find_partition(actual, part.name.as_str()) {
                Some(j) => {
                    if part.is_luks() && actual[j].children.len() == 0 {
                        assert(!partition_in_place(expected@[i as int], actual@));
                        return false;
                    }
                },
                None => {
                    assert(!partition_in_place(expected@[i as int], actual@));
                    return false;
                },
            }
            i = i + 1;
        }
        true
    }

    /// Whether any declared partition is missing or lacks its encryption
    /// layer; fails on the first declared disk that is not reported.
    pub fn verify(&self, cfg: &Config, state: &LsblkOutput) -> (r: Result<bool, StageError>)
        ensures
            r == partition_verdict(cfg.disks@, state.blockdevices@),
    {
        let disks = &cfg.disks;
        let roots = &state.blockdevices;
        let mut i: usize = 0;
        assert(disks@.subrange(0, disks@.len() as int) =~= disks@);
        while i < disks.len()
            invariant
                disks == &cfg.disks,
                roots == &state.blockdevices,
                i <= disks.len(),
                partition_verdict(disks@, roots@) == partition_verdict(
                    disks@.subrange(i as int, disks@.len() as int),
                    roots@,
                ),
            decreases disks.len() - i,
        {
            let disk = &disks[i];
            let ghost rest = disks@.subrange(i as int, disks@.len() as int);
            assert(rest[0] == disk);
            assert(rest.drop_first() =~= disks@.subrange(i + 1, disks@.len() as int));
            match find_disk(roots, disk.path.as_str()) {
                None => {
                    assert(first_index(roots@, path_is(disk.path@)) is None);
                    return Err(StageError::DeviceNotFound { disk: disk.path.clone() });
                },
                Some(j) => {
                    assert(first_index(roots@, path_is(disk.path@)) == Some(j as int));
                    if !PartitionManager::compare_partitions(&disk.partitions, &roots[j].children) {
                        return Ok(true);
                    }
                },
            }
            i = i + 1;
        }
        assert(disks@.subrange(i as int, disks@.len() as int).len() == 0);
        Ok(false)
    }

    /// The commands for one partition at 0-based position `index`.
    fn partition_commands(path: &String, index: usize, part: &Partition) -> (r: Vec<CommandRunner>)
        requires
            index < usize::MAX,
        ensures
            commands_view(r@) == partition_commands(path@, index as nat, *part),
    {
        let mut cmd = CommandRunner::new("parted").arg(path.as_str()).arg("mkpart").arg(
            "primary",
        );
        match &part.fs {
            Some(fs) => {
                cmd = cmd.arg(fs.as_str());
            },
            None => {
                cmd = cmd.arg("ext4");
            },
        }
        cmd = cmd.sudo();
        match part.size_mb {
            Some(mb) => {
                let mut end = decimal(mb);
                end.append("MB");
                cmd = cmd.arg("0%").arg(end.as_str());
            },
            None => {},
        }
        assert(cmd@.args =~= mkpart_command(path@, *part).args);
        let mut r: Vec<CommandRunner> = Vec::new();
        r.push(cmd);
        assert(commands_view(r@) =~= seq![mkpart_command(path@, *part)]);
        match &part.flags {
            Some(flags) => {
                let slot = decimal((index + 1) as u64);
                let mut k: usize = 0;
                while k < flags.len()
                    invariant
                        k <= flags.len(),
                        slot@ == decimal_seq(index as nat + 1),
                        commands_view(r@) == seq![mkpart_command(path@, *part)] + flag_commands(
                            path@,
                            index as nat + 1,
                            flags@.subrange(0, k as int),
                        ),
                    decreases flags.len() - k,
                {
                    let c = CommandRunner::new("parted").arg(path.as_str()).arg("set").arg(
                        slot.as_str(),
                    ).arg(flags[k].as_str()).sudo();
                    let ghost prev = r@;
                    r.push(c);
                    assert(c@.args =~= seq![path@, "set"@, decimal_seq(index as nat + 1), flags@[k as int]@]);
                    assert(commands_view(r@) =~= commands_view(prev).push(c@));
                    assert(flag_commands(path@, index as nat + 1, flags@.subrange(0, k + 1))
                        =~= flag_commands(path@, index as nat + 1, flags@.subrange(0, k as int)).push(c@));
                    k = k + 1;
                }
                assert(flags@.subrange(0, k as int) =~= flags@);
            },
            None => {
                assert(commands_view(r@) =~= partition_commands(path@, index as nat, *part));
            },
        }
        r
    }

    /// The commands that rewrite each disk's partition table and create its
    /// declared partitions in order, each with its flags on its 1-based slot.
    /// They are run in order, elevated; the first failure stops the run.
    pub fn apply(&self, cfg: &Config) -> (r: Vec<CommandRunner>)
        ensures
            commands_view(r@) == partition_plan(cfg.disks@),
    {
        let disks = &cfg.disks;
        let mut r: Vec<CommandRunner> = Vec::new();
        let mut i: usize = 0;
        while i < disks.len()
            invariant
                disks == &cfg.disks,
                i <= disks.len(),
                commands_view(r@) == partition_plan(disks@.subrange(0, i as int)),
            decreases disks.len() - i,
        {
            let disk = &disks[i];
            let label = CommandRunner::new("parted").arg(disk.path.as_str()).arg("mklabel").arg(
                disk.table.as_str(),
            ).sudo();
            assert(label@.args =~= label_command(*disk).args);
            let ghost before = r@;
            r.push(label);
            assert(commands_view(r@) =~= commands_view(before) + seq![label_command(*disk)]);
            let parts = &disk.partitions;
            let mut k: usize = 0;
            while k < parts.len()
                invariant
                    k <= parts.len(),
                    disk == &disks@[i as int],
                    parts == &disk.partitions,
                    commands_view(r@) == commands_view(before) + seq![label_command(*disk)]
                        + partitions_plan(disk.path@, parts@.subrange(0, k as int)),
                decreases parts.len() - k,
            {
                let mut more = PartitionManager::partition_commands(&disk.path, k, &parts[k]);
                let ghost mid = r@;
                let ghost added = more@;
                r.append(&mut more);
                assert(commands_view(r@) =~= commands_view(mid) + commands_view(added));
                assert(parts@.subrange(0, k + 1).drop_last() =~= parts@.subrange(0, k as int));
                assert(commands_view(r@) =~= commands_view(before) + seq![label_command(*disk)]
                    + partitions_plan(disk.path@, parts@.subrange(0, k + 1)));
                k = k + 1;
            }
            assert(parts@.subrange(0, k as int) =~= parts@);
            assert(disks@.subrange(0, i + 1).drop_last() =~= disks@.subrange(0, i as int));
            assert(commands_view(r@) =~= partition_plan(disks@.subrange(0, i + 1)));
            i = i + 1;
        }
        assert(disks@.subrange(0, i as int) =~= disks@);
        r
    }
}

} // verus!
