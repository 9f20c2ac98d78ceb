//! The volumes of the machine, each with its role, and the choice of the
//! place that output goes to.

use vstd::prelude::*;
use crate::text::{
    dashed, dashed_string, followed_by, join_path, joined, occurs_in, str_contains, str_equal,
};

verus! {

/// The name under which the program runs; output names begin with it.
pub const APP_NAME: &'static str = "colek";

/// The mount point of the root volume.
pub const ROOT_DIR: &'static str = "/";

/// Whether a mount point is that of an ordinary data volume: one that
/// names neither `efi` nor `boot`.
pub open spec fn generic_partition(part: Seq<char>) -> bool {
    !(occurs_in("efi"@, part) || occurs_in("boot"@, part))
}

/// Whether a mount point is that of an ordinary data volume.
pub fn is_generic_partition(part: &str) -> (yes: bool)
    ensures
        yes == generic_partition(part@),
{
    !(str_contains(part, "efi") || str_contains(part, "boot"))
}

/// What the system reports of a mounted disk.
#[derive(Debug)]
pub struct Disk {
    /// The device's name, where it is valid UTF-8.
    pub name: Option<String>,
    /// The mount point, where it is valid UTF-8.
    pub mount_point: Option<String>,
    /// The mount point, for display and for walking.
    pub path: String,
    /// Whether the disk can be removed.
    pub removable: bool,
}

/// The role of a volume.
#[derive(Debug, Clone, Copy, PartialEq, Eq, PartialOrd, Ord, Structural)]
pub enum DriveType {
    Root,
    Generic,
    Removable,
    Boot,
}

impl DriveType {
    /// The role of a disk, given whether it can be removed and where it is
    /// mounted.
    pub open spec fn of(removable: bool, mount_point: Option<Seq<char>>) -> DriveType {
        if removable {
            DriveType::Removable
        } else if mount_point == Some(ROOT_DIR@) {
            DriveType::Root
        } else if mount_point is Some && generic_partition(mount_point->0) {
            DriveType::Generic
        } else {
            DriveType::Boot
        }
    }

    /// The role of `disk`.
    pub fn from_sysinfo_disk(disk: &Disk) -> (tp: DriveType)
        ensures
            tp == DriveType::of(
                disk.removable,
                match disk.mount_point {
                    Some(p) => Some(p@),
                    None => None,
                },
            ),
    {
        if disk.removable {
            DriveType::Removable
        } else {
            match &disk.mount_point {
                Some(p) => {
                    if str_equal(p.as_str(), ROOT_DIR) {
                        DriveType::Root
                    } else if is_generic_partition(p.as_str()) {
                        DriveType::Generic
                    } else {
                        DriveType::Boot
                    }
                },
                None => DriveType::Boot,
            }
        }
    }
}

/// A volume: its role, its device name and where it is mounted.
#[derive(Debug, PartialEq)]
pub struct DiskPartition {
    pub tp: DriveType,
    pub name: String,
    pub path: String,
}

impl Clone for DiskPartition {
    fn clone(&self) -> (copy: DiskPartition)
        ensures
            copy == *self,
    {
        DiskPartition { tp: self.tp, name: self.name.clone(), path: self.path.clone() }
    }
}

impl DiskPartition {
    /// The volume that `part` is: its role, its name, or the empty name
    /// where the device has none in UTF-8, and its mount point.
    pub fn from_sysinfo(part: &Disk) -> (volume: DiskPartition)
        ensures
            volume.tp == DriveType::of(
                part.removable,
                match part.mount_point {
                    Some(p) => Some(p@),
                    None => None,
                },
            ),
            volume.name@ == match part.name {
                Some(n) => n@,
                None => Seq::<char>::empty(),
            },
            volume.path == part.path,
    {
        let tp = DriveType::from_sysinfo_disk(part);
        let name = match &part.name {
            Some(n) => n.clone(),
            None => String::new(),
        };
        DiskPartition { tp, name, path: part.path.clone() }
    }
}

/// The volumes of `drives` with the role `tp`, in their order.
pub open spec fn with_role(drives: Seq<DiskPartition>, tp: DriveType) -> Seq<DiskPartition> {
    drives.filter(|d: DiskPartition| d.tp == tp)
}

/// The first volume of `drives` with the role `tp`.
pub open spec fn first_with_role(drives: Seq<DiskPartition>, tp: DriveType) -> Option<
    DiskPartition,
>
    decreases drives.len(),
{
    if drives.len() == 0 {
        None
    } else if drives[0].tp == tp {
        Some(drives[0])
    } else {
        first_with_role(drives.drop_first(), tp)
    }
}

proof fn lemma_first_skip(drives: Seq<DiskPartition>, upto: int, tp: DriveType)
    requires
        0 <= upto <= drives.len(),
        forall|k: int| 0 <= k < upto ==> drives[k].tp != tp,
    ensures
        first_with_role(drives, tp) == first_with_role(drives.skip(upto), tp),
    decreases upto,
{
    if upto == 0 {
        assert(drives.skip(0) =~= drives);
    } else {
        assert forall|k: int| 0 <= k < upto - 1 implies drives.drop_first()[k].tp != tp by {
            assert(drives.drop_first()[k] == drives[k + 1]);
        }
        lemma_first_skip(drives.drop_first(), upto - 1, tp);
        assert(drives.drop_first().skip(upto - 1) =~= drives.skip(upto));
    }
}

fn find_role(drives: &Vec<DiskPartition>, tp: DriveType) -> (found: Option<DiskPartition>)
    ensures
        found == first_with_role(drives@, tp),
{
    let mut i: usize = 0;
    while i < drives.len()
        invariant
            i <= drives@.len(),
            forall|k: int| 0 <= k < i ==> drives@[k].tp != tp,
        decreases drives@.len() - i,
    {
        if drives[i].tp == tp {
            proof {
                lemma_first_skip(drives@, i as int, tp);
            }
            return Some(drives[i].clone());
        }
        i += 1;
    }
    proof {
        lemma_first_skip(drives@, i as int, tp);
    }
    None
}

/// The name that output gets where none is given: the program's name,
/// then `_` and the system's name, or the host's where the system has
/// none; the program's name alone where both are missing.
pub open spec fn default_name(name: Option<Seq<char>>, host_name: Option<Seq<char>>) -> Seq<char> {
    match (name, host_name) {
        (Some(n), _) => APP_NAME@ + seq!['_'] + n,
        (None, Some(h)) => APP_NAME@ + seq!['_'] + h,
        (None, None) => APP_NAME@,
    }
}

/// The view of an optional string.
pub open spec fn text_of(s: Option<String>) -> Option<Seq<char>> {
    match s {
        Some(t) => Some(t@),
        None => None,
    }
}

/// What is known of the machine: its names and versions, the default name
/// for output, and its volumes.
#[derive(Debug)]
pub struct SystemDiskInfo {
    pub name: Option<String>,
    pub kernel_version: Option<String>,
    pub os_version: Option<String>,
    pub host_name: Option<String>,
    pub default_filename: String,
    pub drives: Vec<DiskPartition>,
}

impl SystemDiskInfo {
    /// The machine as described by its names and versions and by `disks`,
    /// one volume for each disk, in their order.
    pub fn new(
        name: Option<String>,
        kernel_version: Option<String>,
        os_version: Option<String>,
        host_name: Option<String>,
        disks: &Vec<Disk>,
    ) -> (sys: SystemDiskInfo)
        ensures
            sys.name == name,
            sys.kernel_version == kernel_version,
            sys.os_version == os_version,
            sys.host_name == host_name,
            sys.default_filename@ == default_name(text_of(name), text_of(host_name)),
            sys.drives@.len() == disks@.len(),
            forall|i: int|
                0 <= i < disks@.len() ==> {
                    &&& (#[trigger] sys.drives@[i]).tp == DriveType::of(
                        disks@[i].removable,
                        text_of(disks@[i].mount_point),
                    )
                    &&& sys.drives@[i].name@ == match disks@[i].name {
                        Some(n) => n@,
                        None => Seq::<char>::empty(),
                    }
                    &&& sys.drives@[i].path == disks@[i].path
                },
    {
        let mut drives: Vec<DiskPartition> = Vec::new();
        let mut i: usize = 0;
        while i < disks.len()
            invariant
                i <= disks@.len(),
                drives@.len() == i,
                forall|k: int|
                    0 <= k < i ==> {
                        &&& (#[trigger] drives@[k]).tp == DriveType::of(
                            disks@[k].removable,
                            text_of(disks@[k].mount_point),
                        )
                        &&& drives@[k].name@ == match disks@[k].name {
                            Some(n) => n@,
                            None => Seq::<char>::empty(),
                        }
                        &&& drives@[k].path == disks@[k].path
                    },
            decreases disks@.len() - i,
        {
            drives.push(DiskPartition::from_sysinfo(&disks[i]));
            i += 1;
        }
        proof {
            reveal_strlit("_");
            assert("_"@ =~= seq!['_']);
        }
        let default_filename = match (&name, &host_name) {
            (Some(n), _) => {
                let mut s = followed_by(APP_NAME, "_");
                s.append(n.as_str());
                s
            },
            (None, Some(h)) => {
                let mut s = followed_by(APP_NAME, "_");
                s.append(h.as_str());
                s
            },
            (None, None) => APP_NAME.to_owned(),
        };
        SystemDiskInfo { name, kernel_version, os_version, host_name, default_filename, drives }
    }

    /// Where output goes: `out` where it is given; else the default name
    /// on the first removable volume; else the default name alone.
    pub open spec fn dest_of(self, out: Option<Seq<char>>) -> Seq<char> {
        match out {
            Some(path) => path,
            None => match first_with_role(self.drives@, DriveType::Removable) {
                Some(volume) => joined(volume.path@, self.default_filename@),
                None => self.default_filename@,
            },
        }
    }

    /// Where output goes.
    pub fn dest(&mut self, out: Option<String>) -> (path: String)
        ensures
            *final(self) == *old(self),
            path@ == old(self).dest_of(text_of(out)),
    {
        match out {
            Some(path) => path,
            None => match self.removable_drive() {
                Some(volume) => join_path(volume.path.as_str(), self.default_filename.as_str()),
                None => self.default_filename.clone(),
            },
        }
    }

    /// The machine's name for display: the system's name and a hyphen,
    /// where it has one, then the host's name, where it has one, both with
    /// hyphens for spaces.
    pub open spec fn label(self) -> Seq<char> {
        (match self.name {
            Some(n) => dashed(n@) + seq!['-'],
            None => Seq::<char>::empty(),
        }) + (match self.host_name {
            Some(h) => dashed(h@),
            None => Seq::<char>::empty(),
        })
    }

    /// The machine's name for display.
    pub fn to_string(&self) -> (text: String)
        ensures
            text@ == self.label(),
    {
        let mut text = String::new();
        proof {
            reveal_strlit("-");
            assert("-"@ =~= seq!['-']);
        }
        match &self.name {
            Some(n) => {
                let name = dashed_string(n.as_str());
                text.append(name.as_str());
                text.append("-");
            },
            None => {},
        }
        match &self.host_name {
            Some(h) => {
                let host = dashed_string(h.as_str());
                text.append(host.as_str());
            },
            None => {},
        }
        assert(text@ =~= self.label());
        text
    }

    /// The first root volume.
    pub fn root_drive(&mut self) -> (volume: Option<DiskPartition>)
        ensures
            *final(self) == *old(self),
            volume == first_with_role(old(self).drives@, DriveType::Root),
    {
        find_role(&self.drives, DriveType::Root)
    }

    /// All ordinary data volumes, in their order, or `None` where there is
    /// none.
    pub fn generic_drive(&mut self) -> (volumes: Option<Vec<DiskPartition>>)
        ensures
            *final(self) == *old(self),
            match volumes {
                Some(list) => list@ == with_role(old(self).drives@, DriveType::Generic)
                    && list@.len() > 0,
                None => with_role(old(self).drives@, DriveType::Generic).len() == 0,
            },
    {
        let ghost wanted = |d: DiskPartition| d.tp == DriveType::Generic;
        let mut list: Vec<DiskPartition> = Vec::new();
        let mut i: usize = 0;
        proof {
            reveal(Seq::filter);
            assert(self.drives@.take(0) =~= Seq::<DiskPartition>::empty());
        }
        while i < self.drives.len()
            invariant
                i <= self.drives@.len(),
                wanted == |d: DiskPartition| d.tp == DriveType::Generic,
                list@ == self.drives@.take(i as int).filter(wanted),
            decreases self.drives@.len() - i,
        {
            proof {
                reveal(Seq::filter);
                assert(self.drives@.take(i + 1).drop_last() =~= self.drives@.take(i as int));
            }
            if self.drives[i].tp == DriveType::Generic {
                list.push(self.drives[i].clone());
            }
            i += 1;
        }
        proof {
            assert(self.drives@.take(i as int) =~= self.drives@);
        }
        if list.len() == 0 {
            None
        } else {
            Some(list)
        }
    }

    /// The first removable volume.
    pub fn removable_drive(&mut self) -> (volume: Option<DiskPartition>)
        ensures
            *final(self) == *old(self),
            volume == first_with_role(old(self).drives@, DriveType::Removable),
    {
        find_role(&self.drives, DriveType::Removable)
    }
}

} // verus!
