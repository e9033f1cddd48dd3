use vstd::prelude::*;
use crate::command::{captured, CommandRunner};
use crate::text::{ends_with, is_prefix, is_suffix, starts_with};

verus! {

/// The query that reports a device tree: the `lsblk` command.
pub struct Lsblk;

/// The root devices of one or more device-tree queries.
#[derive(Debug, PartialEq, Eq)]
pub struct LsblkOutput {
    pub blockdevices: Vec<BlockDevice>,
}

/// One observed block device and the devices stacked on it.
#[derive(Debug, PartialEq, Eq)]
pub struct BlockDevice {
    /// Display name, e.g. "nvme0n1p2".
    pub name: String,
    /// Kernel name, e.g. "nvme0n1p2" or "dm-0".
    pub kname: String,
    /// Full device path, e.g. "/dev/nvme0n1p2".
    pub path: Option<String>,
    pub mountpoints: Vec<Option<String>>,
    pub children: Vec<BlockDevice>,
}

/// `j` is the first position of `s` whose element satisfies `p`.
pub open spec fn is_first<T>(s: Seq<T>, p: spec_fn(T) -> bool, j: int) -> bool {
    &&& 0 <= j < s.len()
    &&& p(s[j])
    &&& forall|k: int| 0 <= k < j ==> !p(#[trigger] s[k])
}

/// The first position of `s` whose element satisfies `p`, if any.
pub open spec fn first_index<T>(s: Seq<T>, p: spec_fn(T) -> bool) -> Option<int> {
    if exists|j: int| is_first(s, p, j) {
        Some(choose|j: int| is_first(s, p, j))
    } else {
        None
    }
}

/// The first position is unique.
pub proof fn lemma_first_index<T>(s: Seq<T>, p: spec_fn(T) -> bool, j: int)
    requires
        is_first(s, p, j),
    ensures
        first_index(s, p) == Some(j),
{
    let c = choose|j: int| is_first(s, p, j);
    assert(is_first(s, p, c));
    if c < j {
        assert(!p(s[c]));
    } else if j < c {
        assert(!p(s[j]));
    }
}

/// With no element satisfying `p` there is no first position.
pub proof fn lemma_first_index_none<T>(s: Seq<T>, p: spec_fn(T) -> bool)
    requires
        forall|k: int| 0 <= k < s.len() ==> !p(#[trigger] s[k]),
    ensures
        first_index(s, p) is None,
{
    if exists|j: int| is_first(s, p, j) {
        let c = choose|j: int| is_first(s, p, j);
        assert(p(s[c]));
    }
}

/// When some element satisfies `p`, a first one exists.
pub proof fn lemma_first_exists<T>(s: Seq<T>, p: spec_fn(T) -> bool, k: int)
    requires
        0 <= k < s.len(),
        p(s[k]),
    ensures
        first_index(s, p) is Some,
    decreases k,
{
    if exists|m: int| 0 <= m < k && p(#[trigger] s[m]) {
        let m = choose|m: int| 0 <= m < k && p(#[trigger] s[m]);
        lemma_first_exists(s, p, m);
    } else {
        lemma_first_index(s, p, k);
    }
}

/// `d` reports exactly the device path `path`.
pub open spec fn has_path(d: BlockDevice, path: Seq<char>) -> bool {
    match d.path {
        Some(p) => p@ == path,
        None => false,
    }
}

/// The devices whose path is `path`.
pub open spec fn path_is(path: Seq<char>) -> spec_fn(BlockDevice) -> bool {
    |d: BlockDevice| has_path(d, path)
}

/// The devices whose kernel name ends with `name`: how a declared partition
/// is matched.
pub open spec fn kname_ends_with(name: Seq<char>) -> spec_fn(BlockDevice) -> bool {
    |d: BlockDevice| is_suffix(d.kname@, name)
}

/// A kernel name of a device-mapper device.
pub open spec fn is_mapped(d: BlockDevice) -> bool {
    is_prefix(d.kname@, "dm-"@)
}

/// An optional position, as an integer.
pub open spec fn as_int(r: Option<usize>) -> Option<int> {
    match r {
        Some(j) => Some(j as int),
        None => None,
    }
}

impl Lsblk {
    /// The command that reports the device tree under `path` as JSON, with
    /// the columns NAME, KNAME, PATH and MOUNTPOINTS and no headings.
    pub fn query(path: &str) -> (r: CommandRunner)
        ensures
            r@ == captured(
                "lsblk"@,
                seq![path@, "-o"@, "NAME,KNAME,PATH,MOUNTPOINTS"@, "-n"@, "-J"@],
            ),
    {
        let r = CommandRunner::new("lsblk").arg(path).arg("-o").arg("NAME,KNAME,PATH,MOUNTPOINTS").arg(
            "-n",
        ).arg("-J").capture();
        assert(r@.args =~= seq![path@, "-o"@, "NAME,KNAME,PATH,MOUNTPOINTS"@, "-n"@, "-J"@]);
        r
    }
}

impl BlockDevice {
    /// Whether the device reports exactly the path `path`.
    pub fn has_path(&self, path: &str) -> (r: bool)
        ensures
            r == has_path(*self, path@),
    {
        match &self.path {
            Some(p) => {
                let a = p.as_str();
                let n = a.unicode_len();
                if n != path.unicode_len() {
                    return false;
                }
                let r = starts_with(a, path);
                proof {
                    if r {
                        assert(p@ =~= path@);
                    }
                    if p@ == path@ {
                        assert(p@.subrange(0, path@.len() as int) =~= p@);
                    }
                }
                r
            },
            None => false,
        }
    }

    /// Whether the kernel name ends with the declared partition name.
    pub fn matches_partition(&self, name: &str) -> (r: bool)
        ensures
            r == kname_ends_with(name@)(*self),
    {
        ends_with(self.kname.as_str(), name)
    }

    /// Whether the kernel name marks a device-mapper device.
    pub fn is_mapped(&self) -> (r: bool)
        ensures
            r == is_mapped(*self),
    {
        starts_with(self.kname.as_str(), "dm-")
    }
}

/// The first root device whose path is `path`.
pub fn find_disk(devices: &Vec<BlockDevice>, path: &str) -> (r: Option<usize>)
    ensures
        as_int(r) == first_index(devices@, path_is(path@)),
{
    let mut i: usize = 0;
    while i < devices.len()
        invariant
            i <= devices.len(),
            forall|k: int| 0 <= k < i ==> !path_is(path@)(#[trigger] devices@[k]),
        decreases devices.len() - i,
    {
        if devices[i].has_path(path) {
            proof {
                lemma_first_index(devices@, path_is(path@), i as int);
            }
            return Some(i);
        }
        i = i + 1;
    }
    proof {
        lemma_first_index_none(devices@, path_is(path@));
    }
    None
}

/// The first device whose kernel name ends with `name`.
pub fn find_partition(devices: &Vec<BlockDevice>, name: &str) -> (r: Option<usize>)
    ensures
        as_int(r) == first_index(devices@, kname_ends_with(name@)),
{
    let mut i: usize = 0;
    while i < devices.len()
        invariant
            i <= devices.len(),
            forall|k: int| 0 <= k < i ==> !kname_ends_with(name@)(#[trigger] devices@[k]),
        decreases devices.len() - i,
    {
        if devices[i].matches_partition(name) {
            proof {
                lemma_first_index(devices@, kname_ends_with(name@), i as int);
            }
            return Some(i);
        }
        i = i + 1;
    }
    proof {
        lemma_first_index_none(devices@, kname_ends_with(name@));
    }
    None
}

} // verus!
