use vstd::prelude::*;
use crate::command::{captured, commands_view, elevated, CommandRunner, CommandView, strings_view};
use crate::config::{Config, LogicalVolume, Lvm};
use crate::targets::{partition_targets, resolve_targets, targets_view, TargetKind};
use crate::error::StageError;
use crate::lsblk::{BlockDevice, LsblkOutput};
use crate::text::{
    chars_of, decimal, decimal_seq, lines, pieces_view, same_chars, split_lines, split_words,
    trim, trimmed, words,
};

verus! {

/// Creates the declared volume group and logical volumes.
pub struct LvmManager;

/// Some line of the `vgs` listing, trimmed, is the group's name.
pub open spec fn group_listed(vgs: Seq<char>, vg: Seq<char>) -> bool {
    exists|k: int| 0 <= k < lines(vgs).len() && #[trigger] trim(lines(vgs)[k]) == vg
}

/// A line of the `lvs` listing names the volume `name` in the group `vg`:
/// its first word is the volume, its second the group.
pub open spec fn line_names(line: Seq<char>, vg: Seq<char>, name: Seq<char>) -> bool {
    words(line).len() >= 2 && words(line)[1] == vg && words(line)[0] == name
}

/// Some line of the `lvs` listing names the volume `name` in the group `vg`.
pub open spec fn volume_listed(lvs: Seq<char>, vg: Seq<char>, name: Seq<char>) -> bool {
    exists|k: int| 0 <= k < lines(lvs).len() && #[trigger] line_names(lines(lvs)[k], vg, name)
}

/// Whether LVM work is needed: never without an LVM section; with one, when
/// the group is not listed, or when a declared volume is not listed in it.
pub open spec fn lvm_verdict(lvm: Option<Lvm>, vgs: Seq<char>, lvs: Seq<char>) -> bool {
    match lvm {
        None => false,
        Some(l) => !group_listed(vgs, l.vg@) || exists|i: int|
            0 <= i < l.volumes@.len() && !volume_listed(lvs, l.vg@, #[trigger] l.volumes@[i].name@),
    }
}

/// `pvcreate -y <pv>`.
pub open spec fn pvcreate_command(pv: Seq<char>) -> CommandView {
    elevated("pvcreate"@, seq!["-y"@, pv])
}

/// `lvcreate -n <name> -L <size>m <vg>`, or `-l 100%FREE` without a size.
pub open spec fn lvcreate_command(vg: Seq<char>, v: LogicalVolume) -> CommandView {
    match v.size_mb {
        Some(mb) => elevated("lvcreate"@, seq!["-n"@, v.name@, "-L"@, decimal_seq(mb as nat) + "m"@, vg]),
        None => elevated("lvcreate"@, seq!["-n"@, v.name@, "-l"@, "100%FREE"@, vg]),
    }
}

/// The LVM commands over the physical volumes `pvs`: each is initialised, the
/// group is created from all of them, then each volume in order.
pub open spec fn lvm_commands(l: Lvm, pvs: Seq<Seq<char>>) -> Seq<CommandView> {
    pvs.map_values(|pv: Seq<char>| pvcreate_command(pv))
        + seq![elevated("vgcreate"@, seq![l.vg@] + pvs)]
        + l.volumes@.map_values(|v: LogicalVolume| lvcreate_command(l.vg@, v))
}

/// The commands of the LVM stage, or the first error: nothing without an
/// LVM section; otherwise the device of every partition declared encrypted
/// is taken as a physical volume.
pub open spec fn lvm_plan(cfg: Config, roots: Seq<BlockDevice>) -> Result<Seq<CommandView>, StageError> {
    match cfg.lvm {
        None => Ok(Seq::empty()),
        Some(l) => match partition_targets(TargetKind::Encryption, cfg.disks@, roots) {
            Err(e) => Err(e),
            Ok(t) => Ok(lvm_commands(l, t.map_values(|p: (Seq<char>, Seq<char>)| p.0))),
        },
    }
}

/// Without an LVM section the LVM stage asks for no work, whatever the
/// listings say, and plans no command, whatever the devices are.
pub proof fn lemma_no_section_no_work(cfg: Config, roots: Seq<BlockDevice>, vgs: Seq<char>, lvs: Seq<char>)
    requires
        cfg.lvm is None,
    ensures
        !lvm_verdict(cfg.lvm, vgs, lvs),
        lvm_plan(cfg, roots) == Ok::<Seq<CommandView>, StageError>(Seq::empty()),
{
}

impl LvmManager {
    /// Whether the listings of groups and volumes are needed to decide.
    pub fn wants_listing(&self, cfg: &Config) -> (r: bool)
        ensures
            r == cfg.lvm is Some,
    {
        cfg.lvm.is_some()
    }

    /// `vgs --noheadings -o vg_name`: the existing groups, one per line.
    pub fn group_query() -> (r: CommandRunner)
        ensures
            r@ == captured("vgs"@, seq!["--noheadings"@, "-o"@, "vg_name"@]),
    {
        let r = CommandRunner::new("vgs").arg("--noheadings").arg("-o").arg("vg_name").capture();
        assert(r@.args =~= seq!["--noheadings"@, "-o"@, "vg_name"@]);
        r
    }

    /// `lvs --noheadings -o lv_name,vg_name`: each volume and its group.
    pub fn volume_query() -> (r: CommandRunner)
        ensures
            r@ == captured("lvs"@, seq!["--noheadings"@, "-o"@, "lv_name,vg_name"@]),
    {
        let r = CommandRunner::new("lvs").arg("--noheadings").arg("-o").arg("lv_name,vg_name").capture();
        assert(r@.args =~= seq!["--noheadings"@, "-o"@, "lv_name,vg_name"@]);
        r
    }

    /// Whether the group `vg` appears in the output of the group query.
    pub fn group_exists(vg: &str, vgs: &str) -> (r: bool)
        ensures
            r == group_listed(vgs@, vg@),
    {
        let group_lines = split_lines(&chars_of(vgs));
        let mut found = false;
        let mut k: usize = 0;
        while k < group_lines.len()
            invariant
                k <= group_lines.len(),
                pieces_view(group_lines@) == lines(vgs@),
                found == exists|m: int| 0 <= m < k && #[trigger] trim(lines(vgs@)[m]) == vg@,
            decreases group_lines.len() - k,
        {
            let t = trimmed(&group_lines[k]);
            assert(group_lines@[k as int]@ == lines(vgs@)[k as int]);
            if same_chars(&t, vg) {
                found = true;
            }
            k = k + 1;
        }
        found
    }

    /// Whether the declared group or one of its volumes is missing, from the
    /// output of the group and volume queries.
    pub fn verify(&self, cfg: &Config, vgs: &str, lvs: &str) -> (r: bool)
        ensures
            r == lvm_verdict(cfg.lvm, vgs@, lvs@),
    {
        let l = match &cfg.lvm {
            None => {
                return false;
            },
            Some(l) => l,
        };
        let found = LvmManager::group_exists(l.vg.as_str(), vgs);
        if !found {
            return true;
        }
        assert(group_listed(vgs@, l.vg@));
        let volume_lines = split_lines(&chars_of(lvs));
        let mut split: Vec<Vec<Vec<char>>> = Vec::new();
        let mut k: usize = 0;
        while k < volume_lines.len()
            invariant
                k <= volume_lines.len(),
                pieces_view(volume_lines@) == lines(lvs@),
                split.len() == k,
                forall|m: int| 0 <= m < k ==> pieces_view(#[trigger] split@[m]@) == words(lines(lvs@)[m]),
            decreases volume_lines.len() - k,
        {
            assert(volume_lines@[k as int]@ == lines(lvs@)[k as int]);
            split.push(split_words(&volume_lines[k]));
            k = k + 1;
        }
        let mut i: usize = 0;
        while i < l.volumes.len()
            invariant
                cfg.lvm == Some(*l),
                group_listed(vgs@, l.vg@),
                i <= l.volumes.len(),
                split.len() == lines(lvs@).len(),
                forall|m: int| 0 <= m < split.len() ==> pieces_view(#[trigger] split@[m]@) == words(lines(lvs@)[m]),
                forall|m: int| 0 <= m < i ==> volume_listed(lvs@, l.vg@, #[trigger] l.volumes@[m].name@),
            decreases l.volumes.len() - i,
        {
            let name = l.volumes[i].name.as_str();
            let mut listed = false;
            let mut k: usize = 0;
            while k < split.len()
                invariant
                    k <= split.len(),
                    split.len() == lines(lvs@).len(),
                    forall|m: int| 0 <= m < split.len() ==> pieces_view(#[trigger] split@[m]@) == words(lines(lvs@)[m]),
                    listed == exists|m: int| 0 <= m < k && #[trigger] line_names(lines(lvs@)[m], l.vg@, name@),
                decreases split.len() - k,
            {
                let ws = &split[k];
                assert(pieces_view(ws@) == words(lines(lvs@)[k as int]));
                assert(pieces_view(ws@).len() == ws@.len());
                let hit = ws.len() >= 2 && same_chars(&ws[1], l.vg.as_str()) && same_chars(&ws[0], name);
                proof {
                    let line = lines(lvs@)[k as int];
                    if ws.len() >= 2 {
                        assert(ws@[1]@ == words(line)[1]);
                        assert(ws@[0]@ == words(line)[0]);
                    }
                    assert(hit == line_names(line, l.vg@, name@));
                }
                if hit {
                    listed = true;
                }
                k = k + 1;
            }
            if !listed {
                assert(!volume_listed(lvs@, l.vg@, l.volumes@[i as int].name@));
                return true;
            }
            i = i + 1;
        }
        false
    }

    /// The commands that initialise each physical volume, create the group
    /// from all of them and create each declared volume in order; nothing
    /// without an LVM section. The physical volumes are the devices of the
    /// partitions declared encrypted.
    pub fn apply(&self, cfg: &Config, state: &LsblkOutput) -> (r: Result<Vec<CommandRunner>, StageError>)
        ensures
            match r {
                Ok(v) => lvm_plan(*cfg, state.blockdevices@) == Ok::<Seq<CommandView>, StageError>(commands_view(v@)),
                Err(e) => lvm_plan(*cfg, state.blockdevices@) == Err::<Seq<CommandView>, StageError>(e),
            },
    {
        let l = match &cfg.lvm {
            None => {
                let r: Vec<CommandRunner> = Vec::new();
                assert(commands_view(r@) =~= Seq::<CommandView>::empty());
                return Ok(r);
            },
            Some(l) => l,
        };
        let targets = resolve_targets(TargetKind::Encryption, cfg, state)?;
        let ghost t = targets_view(targets@);
        let ghost pvs = t.map_values(|p: (Seq<char>, Seq<char>)| p.0);
        let mut paths: Vec<String> = Vec::new();
        let mut r: Vec<CommandRunner> = Vec::new();
        let mut i: usize = 0;
        while i < targets.len()
            invariant
                i <= targets.len(),
                t == targets_view(targets@),
                pvs == t.map_values(|p: (Seq<char>, Seq<char>)| p.0),
                strings_view(paths@) == pvs.subrange(0, i as int),
                commands_view(r@) == pvs.subrange(0, i as int).map_values(|pv: Seq<char>| pvcreate_command(pv)),
            decreases targets.len() - i,
        {
            let pv = &targets[i].0;
            let c = CommandRunner::new("pvcreate").arg("-y").arg(pv.as_str()).sudo();
            assert(c@.args =~= seq!["-y"@, pv@]);
            let ghost prev = r@;
            let ghost prev_paths = paths@;
            r.push(c);
            paths.push(pv.clone());
            assert(strings_view(paths@) =~= strings_view(prev_paths).push(pv@));
            assert(pvs.subrange(0, i + 1) =~= pvs.subrange(0, i as int).push(pv@));
            assert(commands_view(r@) =~= commands_view(prev).push(pvcreate_command(pv@)));
            assert(pvs.subrange(0, i + 1).map_values(|pv: Seq<char>| pvcreate_command(pv))
                =~= pvs.subrange(0, i as int).map_values(|pv: Seq<char>| pvcreate_command(pv)).push(pvcreate_command(pv@)));
            i = i + 1;
        }
        assert(pvs.subrange(0, i as int) =~= pvs);
        let group = CommandRunner::new("vgcreate").arg(l.vg.as_str()).args(&paths).sudo();
        assert(group@.args =~= seq![l.vg@] + pvs);
        let ghost before = r@;
        r.push(group);
        assert(commands_view(r@) =~= commands_view(before).push(group@));
        let ghost head = commands_view(r@);
        let vols = &l.volumes;
        let mut k: usize = 0;
        while k < vols.len()
            invariant
                k <= vols.len(),
                commands_view(r@) == head + vols@.subrange(0, k as int).map_values(|v: LogicalVolume| lvcreate_command(l.vg@, v)),
            decreases vols.len() - k,
        {
            let v = &vols[k];
            let c = match v.size_mb {
                Some(mb) => {
                    let mut size = decimal(mb);
                    size.append("m");
                    let c = CommandRunner::new("lvcreate").arg("-n").arg(v.name.as_str()).arg("-L").arg(
                        size.as_str(),
                    ).arg(l.vg.as_str()).sudo();
                    assert(c@.args =~= lvcreate_command(l.vg@, *v).args);
                    c
                },
                None => {
                    let c = CommandRunner::new("lvcreate").arg("-n").arg(v.name.as_str()).arg("-l").arg(
                        "100%FREE",
                    ).arg(l.vg.as_str()).sudo();
                    assert(c@.args =~= lvcreate_command(l.vg@, *v).args);
                    c
                },
            };
            let ghost prev = r@;
            r.push(c);
            assert(commands_view(r@) =~= commands_view(prev).push(lvcreate_command(l.vg@, *v)));
            assert(vols@.subrange(0, k + 1).map_values(|v: LogicalVolume| lvcreate_command(l.vg@, v))
                =~= vols@.subrange(0, k as int).map_values(|v: LogicalVolume| lvcreate_command(l.vg@, v)).push(lvcreate_command(l.vg@, *v)));
            k = k + 1;
        }
        assert(vols@.subrange(0, k as int) =~= vols@);
        assert(commands_view(r@) =~= lvm_commands(*l, pvs));
        Ok(r)
    }
}

} // verus!
