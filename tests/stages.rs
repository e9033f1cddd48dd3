use provision::command::{CommandRunner, RunMode};
use provision::config::{Bootloader, Config, Disk, Firmware, Kernel, LogicalVolume, Lvm, Partition};
use provision::crypto::CryptoManager;
use provision::error::StageError;
use provision::filesystem::FileSystemManager;
use provision::lsblk::{find_partition, BlockDevice, Lsblk, LsblkOutput};
use provision::lvm::LvmManager;
use provision::orchestrator::{Action, Event, Phase, Pipeline};
use provision::partition::PartitionManager;
use provision::stage::{Configurable, Observed, Stage};
use provision::text::decimal;

fn s(x: &str) -> String {
    x.to_string()
}

fn part(name: &str, size_mb: Option<u64>, fs: Option<&str>, flags: Option<Vec<&str>>, luks: Option<bool>) -> Partition {
    Partition {
        name: s(name),
        size_mb,
        fs: fs.map(s),
        flags: flags.map(|f| f.into_iter().map(s).collect()),
        luks,
    }
}

fn config(disks: Vec<Disk>, lvm: Option<Lvm>) -> Config {
    Config {
        system_config: s("config/configuration.ron"),
        firmware: Firmware::UEFI,
        disks,
        lvm,
        bootloader: Bootloader { type_: s("grub"), theme: None },
        kernel: Kernel { name: s("linux"), initramfs_hooks: vec![], parameters: None, firmware: true },
        packages: vec![],
    }
}

fn dev(name: &str, kname: &str, path: Option<&str>, children: Vec<BlockDevice>) -> BlockDevice {
    BlockDevice { name: s(name), kname: s(kname), path: path.map(s), mountpoints: vec![], children }
}

fn argvs(cmds: &[CommandRunner]) -> Vec<Vec<String>> {
    cmds.iter().map(|c| c.argv()).collect()
}

fn words(x: &[&str]) -> Vec<String> {
    x.iter().map(|w| s(w)).collect()
}

#[test]
fn suffix_matching_of_partition_names() {
    let children = vec![dev("sda1", "sda1", Some("/dev/sda1"), vec![]), dev("sda2", "sda2", Some("/dev/sda2"), vec![])];
    assert_eq!(find_partition(&children, "2"), Some(1));
    assert_eq!(find_partition(&children, "sda2"), Some(1));
    assert_eq!(find_partition(&children, "root"), None);
    assert_eq!(find_partition(&children, "xsda2"), None);
    assert!(children[0].matches_partition("a1"));
    assert!(!children[0].matches_partition("sda"));
}

#[test]
fn scenario_fresh_disk_needs_partitioning() {
    let cfg = config(
        vec![Disk {
            path: s("/dev/sda"),
            table: s("gpt"),
            partitions: vec![
                part("1", Some(1024), Some("fat32"), Some(vec!["esp"]), None),
                part("2", None, None, None, None),
            ],
        }],
        None,
    );
    let state = LsblkOutput { blockdevices: vec![dev("sda", "sda", Some("/dev/sda"), vec![])] };
    assert_eq!(PartitionManager.verify(&cfg, &state), Ok(true));
    let cmds = PartitionManager.apply(&cfg);
    assert_eq!(
        argvs(&cmds),
        vec![
            words(&["sudo", "parted", "/dev/sda", "mklabel", "gpt"]),
            words(&["sudo", "parted", "/dev/sda", "mkpart", "primary", "fat32", "0%", "1024MB"]),
            words(&["sudo", "parted", "/dev/sda", "set", "1", "esp"]),
            words(&["sudo", "parted", "/dev/sda", "mkpart", "primary", "ext4"]),
        ]
    );
    assert!(cmds.iter().all(|c| c.is_sudo() && c.mode() == RunMode::Stream));
}

#[test]
fn partitions_present_need_nothing() {
    let cfg = config(
        vec![Disk {
            path: s("/dev/nvme0n1"),
            table: s("gpt"),
            partitions: vec![part("p1", Some(512), None, None, Some(false)), part("p2", None, None, None, None)],
        }],
        None,
    );
    let state = LsblkOutput {
        blockdevices: vec![dev(
            "nvme0n1",
            "nvme0n1",
            Some("/dev/nvme0n1"),
            vec![
                dev("nvme0n1p1", "nvme0n1p1", Some("/dev/nvme0n1p1"), vec![]),
                dev("nvme0n1p2", "nvme0n1p2", Some("/dev/nvme0n1p2"), vec![]),
            ],
        )],
    };
    assert_eq!(PartitionManager.verify(&cfg, &state), Ok(false));
    assert!(PartitionManager::compare_partitions(&cfg.disks[0].partitions, &state.blockdevices[0].children));
}

#[test]
fn encrypted_partition_without_mapping_needs_partitioning() {
    let parts = vec![part("2", None, None, None, Some(true))];
    let bare = vec![dev("sda2", "sda2", Some("/dev/sda2"), vec![])];
    assert!(!PartitionManager::compare_partitions(&parts, &bare));
    let mapped = vec![dev("sda2", "sda2", Some("/dev/sda2"), vec![dev("cryptlvm", "dm-0", Some("/dev/mapper/cryptlvm"), vec![])])];
    assert!(PartitionManager::compare_partitions(&parts, &mapped));
}

#[test]
fn missing_disk_is_reported() {
    let cfg = config(vec![Disk { path: s("/dev/vdb"), table: s("gpt"), partitions: vec![] }], None);
    let state = LsblkOutput { blockdevices: vec![dev("sda", "sda", Some("/dev/sda"), vec![])] };
    assert_eq!(PartitionManager.verify(&cfg, &state), Err(StageError::DeviceNotFound { disk: s("/dev/vdb") }));
    assert_eq!(CryptoManager.verify(&cfg, &state), Err(StageError::DeviceNotFound { disk: s("/dev/vdb") }));
}

fn crypt_config() -> Config {
    config(
        vec![Disk {
            path: s("/dev/sda"),
            table: s("gpt"),
            partitions: vec![part("1", Some(1024), Some("fat32"), Some(vec!["boot"]), None), part("2", None, None, None, Some(true))],
        }],
        Some(Lvm {
            vg: s("vg0"),
            volumes: vec![
                LogicalVolume { name: s("root"), size_mb: Some(20480), fs: s("ext4") },
                LogicalVolume { name: s("home"), size_mb: None, fs: s("xfs") },
            ],
        }),
    )
}

fn crypt_state(mapped: bool) -> LsblkOutput {
    let kname = if mapped { "dm-2" } else { "sda2" };
    LsblkOutput {
        blockdevices: vec![dev(
            "sda",
            "sda",
            Some("/dev/sda"),
            vec![dev("sda1", "sda1", Some("/dev/sda1"), vec![]), dev("sda2", kname, Some("/dev/sda2"), vec![])],
        )],
    }
}

#[test]
fn scenario_unencrypted_partition_gets_luks() {
    let cfg = crypt_config();
    let state = crypt_state(false);
    assert_eq!(CryptoManager.verify(&cfg, &state), Ok(true));
    let cmds = CryptoManager.apply(&cfg, &state).unwrap();
    assert_eq!(
        argvs(&cmds),
        vec![
            words(&["sudo", "cryptsetup", "luksFormat", "/dev/sda2", "--type", "luks2"]),
            words(&["sudo", "cryptsetup", "luksOpen", "/dev/sda2", "2"]),
        ]
    );
}

#[test]
fn mapped_partition_needs_no_luks() {
    assert_eq!(CryptoManager.verify(&crypt_config(), &crypt_state(true)), Ok(false));
}

#[test]
fn missing_encrypted_partition_is_reported() {
    let cfg = config(
        vec![Disk { path: s("/dev/sda"), table: s("gpt"), partitions: vec![part("secret", None, None, None, Some(true))] }],
        None,
    );
    let state = crypt_state(false);
    let err = StageError::PartitionNotFound { partition: s("secret"), disk: s("/dev/sda") };
    assert_eq!(CryptoManager.verify(&cfg, &state), Err(err.clone()));
    assert_eq!(CryptoManager.apply(&cfg, &state), Err(err));
}

#[test]
fn scenario_existing_volume_group_needs_nothing() {
    let cfg = crypt_config();
    let vgs = "  vg0\n";
    let lvs = "  home vg0 -wi-a----- 200.00g\n  root vg0 -wi-a----- 20.00g\n  swap other -wi-a----- 8.00g\n";
    assert!(LvmManager.wants_listing(&cfg));
    assert!(!LvmManager.verify(&cfg, vgs, lvs));
}

#[test]
fn missing_group_or_volume_needs_lvm() {
    let cfg = crypt_config();
    assert!(LvmManager.verify(&cfg, "  vg1\n", "  root vg0\n  home vg0\n"));
    assert!(LvmManager.verify(&cfg, "vg0\n", "  root vg0\n  home other\n"));
    assert!(LvmManager.verify(&cfg, "", ""));
}

#[test]
fn no_lvm_section_is_a_no_op() {
    let cfg = config(vec![], None);
    assert!(!LvmManager.wants_listing(&cfg));
    assert!(!LvmManager.verify(&cfg, "", ""));
    assert!(!LvmManager.verify(&cfg, "  vg0\n", "  root vg0\n"));
    let state = LsblkOutput { blockdevices: vec![] };
    assert_eq!(LvmManager.apply(&cfg, &state).map(|v| v.len()), Ok(0));
}

#[test]
fn lvm_apply_creates_group_and_volumes() {
    let cfg = crypt_config();
    let cmds = LvmManager.apply(&cfg, &crypt_state(true)).unwrap();
    assert_eq!(
        argvs(&cmds),
        vec![
            words(&["sudo", "pvcreate", "-y", "/dev/sda2"]),
            words(&["sudo", "vgcreate", "vg0", "/dev/sda2"]),
            words(&["sudo", "lvcreate", "-n", "root", "-L", "20480m", "vg0"]),
            words(&["sudo", "lvcreate", "-n", "home", "-l", "100%FREE", "vg0"]),
        ]
    );
}

#[test]
fn queries_are_captured_and_unelevated() {
    let q = Lsblk::query("/dev/sda");
    assert_eq!(q.argv(), words(&["lsblk", "/dev/sda", "-o", "NAME,KNAME,PATH,MOUNTPOINTS", "-n", "-J"]));
    assert_eq!(q.mode(), RunMode::Capture);
    assert!(!q.is_sudo());
    assert_eq!(LvmManager::group_query().argv(), words(&["vgs", "--noheadings", "-o", "vg_name"]));
    assert_eq!(LvmManager::volume_query().argv(), words(&["lvs", "--noheadings", "-o", "lv_name,vg_name"]));
    let p = FileSystemManager::probe_query("/dev/sda1");
    assert_eq!(p.argv(), words(&["sudo", "blkid", "-p", "-o", "value", "-s", "TYPE", "/dev/sda1"]));
    assert_eq!(p.mode(), RunMode::Capture);
}

#[test]
fn command_builder_keeps_everything() {
    let c = CommandRunner::new("parted").arg("/dev/sda").arg("print").args(&words(&["-s", "-m"]));
    assert_eq!(c.program(), "parted");
    assert_eq!(c.arguments(), &words(&["/dev/sda", "print", "-s", "-m"]));
    assert!(!c.is_sudo());
    assert_eq!(c.mode(), RunMode::Stream);
    let c = c.sudo().capture();
    assert_eq!(c.argv(), words(&["sudo", "parted", "/dev/sda", "print", "-s", "-m"]));
    assert_eq!(c.mode(), RunMode::Capture);
}

#[test]
fn decimal_writing() {
    assert_eq!(decimal(0), "0");
    assert_eq!(decimal(7), "7");
    assert_eq!(decimal(1024), "1024");
    assert_eq!(decimal(18446744073709551615), "18446744073709551615");
}

#[test]
fn filesystems_are_formatted_once() {
    let cfg = crypt_config();
    let targets = FileSystemManager.targets(&cfg, &crypt_state(true)).unwrap();
    assert_eq!(
        targets,
        vec![(s("/dev/sda1"), s("fat32")), (s("/dev/vg0/root"), s("ext4")), (s("/dev/vg0/home"), s("xfs"))]
    );
    let probed = vec![s("ext2\n"), s("ext4\n"), s("")];
    assert!(FileSystemManager.verify(&targets, &probed));
    let cmds = FileSystemManager.apply(&targets, &probed);
    assert_eq!(
        argvs(&cmds),
        vec![
            words(&["sudo", "mkfs", "-t", "vfat", "-F", "32", "/dev/sda1"]),
            words(&["sudo", "mkfs", "-t", "xfs", "/dev/vg0/home"]),
        ]
    );
    let done = vec![s("vfat\n"), s(" ext4 "), s("xfs")];
    assert!(!FileSystemManager.verify(&targets, &done));
    assert!(FileSystemManager.apply(&targets, &done).is_empty());
}

#[test]
fn scenario_failed_verification_aborts_before_apply() {
    let cfg = config(vec![Disk { path: s("/dev/nvme1n1"), table: s("gpt"), partitions: vec![] }], None);
    let obs = Observed {
        devices: LsblkOutput { blockdevices: vec![dev("sda", "sda", Some("/dev/sda"), vec![])] },
        volume_groups: String::new(),
        logical_volumes: String::new(),
        probes: vec![],
    };
    let stages = vec![Stage::Lvm(LvmManager), Stage::Partition(PartitionManager), Stage::Crypto(CryptoManager)];
    let mut run = Pipeline::new(stages.len());
    let mut actions = vec![];
    let mut error = None;
    loop {
        let a = run.next_action();
        actions.push(a);
        match a {
            Action::Verify(i) => match stages[i].verify(&cfg, &obs) {
                Ok(b) => run.step(Event::Verified(b)),
                Err(e) => {
                    error = Some(e);
                    run.step(Event::Failed);
                }
            },
            Action::Apply(_) => run.step(Event::Applied),
            Action::Done | Action::Abort => break,
        }
    }
    assert_eq!(actions, vec![Action::Verify(0), Action::Verify(1), Action::Abort]);
    assert_eq!(run.phase_now(), Phase::Aborted);
    assert_eq!(error, Some(StageError::DeviceNotFound { disk: s("/dev/nvme1n1") }));
}

#[test]
fn only_stages_needing_work_are_applied() {
    let mut run = Pipeline::new(3);
    let mut actions = vec![];
    let verdicts = [false, true, false];
    loop {
        let a = run.next_action();
        actions.push(a);
        match a {
            Action::Verify(i) => run.step(Event::Verified(verdicts[i])),
            Action::Apply(_) => run.step(Event::Applied),
            Action::Done | Action::Abort => break,
        }
    }
    assert_eq!(
        actions,
        vec![Action::Verify(0), Action::Verify(1), Action::Verify(2), Action::Apply(1), Action::Done]
    );
    assert_eq!(Pipeline::new(0).next_action(), Action::Done);
}

#[test]
fn failed_apply_stops_the_run() {
    let mut run = Pipeline::new(2);
    run.step(Event::Verified(true));
    run.step(Event::Verified(true));
    assert_eq!(run.next_action(), Action::Apply(0));
    run.step(Event::Failed);
    assert_eq!(run.next_action(), Action::Abort);
    run.step(Event::Applied);
    assert_eq!(run.next_action(), Action::Abort);
}

#[test]
fn stage_list_is_in_dependency_order() {
    let all = Stage::all();
    assert!(matches!(all[0], Stage::Partition(_)));
    assert!(matches!(all[1], Stage::Crypto(_)));
    assert!(matches!(all[2], Stage::Lvm(_)));
    assert!(matches!(all[3], Stage::FileSystem(_)));
}

#[test]
fn stages_dispatch_to_their_manager() {
    let cfg = crypt_config();
    let obs = Observed {
        devices: crypt_state(false),
        volume_groups: String::from("  vg0\n"),
        logical_volumes: String::from("  root vg0\n  home vg0\n"),
        probes: vec![],
    };
    assert_eq!(Stage::Crypto(CryptoManager).verify(&cfg, &obs), Ok(true));
    assert_eq!(Stage::Lvm(LvmManager).verify(&cfg, &obs), Ok(false));
    assert_eq!(Stage::FileSystem(FileSystemManager).verify(&cfg, &obs), Ok(true));
    assert_eq!(Stage::Partition(PartitionManager).apply(&cfg, &obs).map(|v| v.len()), Ok(4));
    assert_eq!(Stage::Crypto(CryptoManager).apply(&cfg, &obs).map(|v| v.len()), Ok(2));
    assert_eq!(Stage::FileSystem(FileSystemManager).apply(&cfg, &obs).map(|v| v.len()), Ok(3));
}

#[test]
fn fresh_disk_needs_filesystems() {
    let cfg = config(
        vec![Disk { path: s("/dev/sda"), table: s("gpt"), partitions: vec![part("1", None, Some("ext4"), None, None)] }],
        None,
    );
    let fresh = LsblkOutput { blockdevices: vec![dev("sda", "sda", Some("/dev/sda"), vec![])] };
    assert_eq!(FileSystemManager.verify_observed(&cfg, &fresh, &vec![]), Ok(true));
    let gone = LsblkOutput { blockdevices: vec![] };
    assert_eq!(
        FileSystemManager.verify_observed(&cfg, &gone, &vec![]),
        Err(StageError::DeviceNotFound { disk: s("/dev/sda") })
    );
    let made = LsblkOutput { blockdevices: vec![dev("sda", "sda", Some("/dev/sda"), vec![dev("sda1", "sda1", Some("/dev/sda1"), vec![])])] };
    assert_eq!(FileSystemManager.verify_observed(&cfg, &made, &vec![s("ext4\n")]), Ok(false));
    assert_eq!(FileSystemManager.verify_observed(&cfg, &made, &vec![s("")]), Ok(true));
}

#[test]
fn stages_ask_only_for_what_they_read() {
    let cfg = crypt_config();
    let lvm = Stage::Lvm(LvmManager);
    assert!(!lvm.wants_devices(&cfg, false));
    assert!(lvm.wants_devices(&cfg, true));
    assert!(lvm.wants_group_listing(&cfg, false));
    assert!(!lvm.wants_group_listing(&cfg, true));
    assert!(lvm.wants_volume_listing(&cfg, false, "  vg0\n"));
    assert!(!lvm.wants_volume_listing(&cfg, false, "  vg1\n"));
    let bare = config(vec![], None);
    assert!(!lvm.wants_group_listing(&bare, false));
    assert!(!lvm.wants_devices(&bare, true));
    let parts = Stage::Partition(PartitionManager);
    assert!(parts.wants_devices(&cfg, false));
    assert!(!parts.wants_devices(&cfg, true));
    assert!(!parts.wants_group_listing(&cfg, false));
    assert!(!parts.wants_probes());
    assert!(Stage::FileSystem(FileSystemManager).wants_probes());
    assert!(Stage::Crypto(CryptoManager).wants_devices(&cfg, true));
    assert!(LvmManager::group_exists("vg0", "  vg1\n  vg0 \n"));
    assert!(!LvmManager::group_exists("vg0", "  vg00\n"));
}
