//! Manipulate partition of physical drive (both removable and unremovable).
use crate::devices::Device;
use crate::error::Error;
use crate::name_map::NameMap;
use crate::storages::local_info::{LocalInfo, LocalInfoView};
use crate::storages::{replaced_of, Storage, StorageExt, StorageView, Storages};
use vstd::prelude::*;

verus! {

/// What a [`PhysicalDrivePartition`] holds.
pub struct PhysicalDrivePartitionView {
    pub name: Seq<char>,
    pub kind: Seq<char>,
    pub capacity: u64,
    pub fs: Seq<char>,
    pub is_removable: bool,
    pub local_infos: Map<Seq<char>, LocalInfoView>,
}

/// Partition of physical (on-premises) drive.
#[derive(Debug, Clone)]
pub struct PhysicalDrivePartition {
    name: String,
    kind: String,
    capacity: u64,
    fs: String,
    is_removable: bool,
    local_infos: NameMap<LocalInfo>,
}

impl View for PhysicalDrivePartition {
    type V = PhysicalDrivePartitionView;

    closed spec fn view(&self) -> PhysicalDrivePartitionView {
        PhysicalDrivePartitionView {
            name: self.name@,
            kind: self.kind@,
            capacity: self.capacity,
            fs: self.fs@,
            is_removable: self.is_removable,
            local_infos: self.local_infos@,
        }
    }
}

impl PhysicalDrivePartition {
    /// The partition `name`, bound on `device` as `local_info` says.
    pub fn new(
        name: String,
        kind: String,
        capacity: u64,
        fs: String,
        is_removable: bool,
        local_info: LocalInfo,
        device: &Device,
    ) -> (r: PhysicalDrivePartition)
        ensures
            r@ == (PhysicalDrivePartitionView {
                name: name@,
                kind: kind@,
                capacity: capacity,
                fs: fs@,
                is_removable: is_removable,
                local_infos: Map::<Seq<char>, LocalInfoView>::empty().insert(device@.name, local_info@),
            }),
    {
        let mut local_infos: NameMap<LocalInfo> = NameMap::new();
        local_infos.insert(device.name(), local_info);
        PhysicalDrivePartition { name, kind, capacity, fs, is_removable, local_infos }
    }

    /// Builds a partition from its parts.
    pub fn from_parts(
        name: String,
        kind: String,
        capacity: u64,
        fs: String,
        is_removable: bool,
        local_infos: NameMap<LocalInfo>,
    ) -> (r: PhysicalDrivePartition)
        ensures
            r@ == (PhysicalDrivePartitionView {
                name: name@,
                kind: kind@,
                capacity: capacity,
                fs: fs@,
                is_removable: is_removable,
                local_infos: local_infos@,
            }),
    {
        PhysicalDrivePartition { name, kind, capacity, fs, is_removable, local_infos }
    }

    pub fn is_removable(&self) -> (r: bool)
        ensures
            r == self@.is_removable,
    {
        self.is_removable
    }

    pub fn kind(&self) -> (r: &String)
        ensures
            r@ == self@.kind,
    {
        &self.kind
    }

    /// The file system of the partition.
    pub fn fs(&self) -> (r: &String)
        ensures
            r@ == self@.fs,
    {
        &self.fs
    }

    /// The bindings, by the name of the device.
    pub fn local_infos(&self) -> (r: &NameMap<LocalInfo>)
        ensures
            r@ == self@.local_infos,
    {
        &self.local_infos
    }
}

/// A disk as `sysinfo` describes it.
#[verifier::external_type_specification]
#[verifier::external_body]
pub struct ExDisk(sysinfo::Disk);

/// What the machine reports of a disk. The name, the file system and the
/// mount point are missing where they are not valid UTF-8.
pub struct DiskInfo {
    pub name: Option<String>,
    pub file_system: Option<String>,
    pub kind: String,
    pub total_space: u64,
    pub is_removable: bool,
    pub mount_point: Option<String>,
}

/// Calls `sysinfo::Disk::name` and hands out the name as a string, if it is
/// valid UTF-8. Nothing is claimed of what the disk reports.
#[verifier::external_body]
fn disk_name(disk: &sysinfo::Disk) -> (r: Option<String>) {
    disk.name().to_str().map(|s| s.to_string())
}

/// Calls `sysinfo::Disk::file_system` and hands out the name of the file
/// system as a string, if it is valid UTF-8. Nothing is claimed of what the
/// disk reports.
#[verifier::external_body]
fn disk_file_system(disk: &sysinfo::Disk) -> (r: Option<String>) {
    disk.file_system().to_str().map(|s| s.to_string())
}

/// Calls `sysinfo::Disk::kind` and hands out the kind as its `Debug` form
/// prints it. Nothing is claimed of what the disk reports.
#[verifier::external_body]
fn disk_kind(disk: &sysinfo::Disk) -> (r: String) {
    format!("{:?}", disk.kind())
}

/// Calls `sysinfo::Disk::total_space`. Nothing is claimed of what the disk
/// reports.
#[verifier::external_body]
fn disk_total_space(disk: &sysinfo::Disk) -> (r: u64) {
    disk.total_space()
}

/// Calls `sysinfo::Disk::is_removable`. Nothing is claimed of what the disk
/// reports.
#[verifier::external_body]
fn disk_is_removable(disk: &sysinfo::Disk) -> (r: bool) {
    disk.is_removable()
}

/// Calls `sysinfo::Disk::mount_point` and hands out the path as text, if it
/// is valid UTF-8. Nothing is claimed of what the disk reports.
#[verifier::external_body]
fn disk_mount_point(disk: &sysinfo::Disk) -> (r: Option<String>) {
    disk.mount_point().to_str().map(|s| s.to_string())
}

/// Asks `disk` for what it reports of itself.
fn read_disk(disk: &sysinfo::Disk) -> (r: DiskInfo) {
    DiskInfo {
        name: disk_name(disk),
        file_system: disk_file_system(disk),
        kind: disk_kind(disk),
        total_space: disk_total_space(disk),
        is_removable: disk_is_removable(disk),
        mount_point: disk_mount_point(disk),
    }
}

/// The partition named `name` that the report `info` describes, bound on the
/// device named `device` under the name of the disk at its mount point.
/// There is none where the name of the disk, the name of its file system
/// or its mount point is missing.
pub open spec fn partition_of(name: Seq<char>, info: DiskInfo, device: Seq<char>) -> Result<
    PhysicalDrivePartitionView,
    Error,
> {
    if info.name.is_none() || info.file_system.is_none() || info.mount_point.is_none() {
        Err(Error::InvalidText)
    } else {
        Ok(
            PhysicalDrivePartitionView {
                name,
                kind: info.kind@,
                capacity: info.total_space,
                fs: info.file_system.unwrap()@,
                is_removable: info.is_removable,
                local_infos: Map::<Seq<char>, LocalInfoView>::empty().insert(
                    device,
                    LocalInfoView { alias: info.name.unwrap()@, mount_path: info.mount_point.unwrap()@ },
                ),
            },
        )
    }
}

/// The view of a partition that was built, or why it was not.
pub open spec fn built(r: Result<PhysicalDrivePartition, Error>) -> Result<PhysicalDrivePartitionView, Error> {
    match r {
        Ok(p) => Ok(p@),
        Err(e) => Err(e),
    }
}

/// The storage with the binding that the report `info` gives it on the
/// device named `device`. There is none where the name of the disk or its
/// mount point is missing.
pub open spec fn rebound(p: PhysicalDrivePartitionView, info: DiskInfo, device: Seq<char>) -> Result<
    PhysicalDrivePartitionView,
    Error,
> {
    if info.name.is_none() || info.mount_point.is_none() {
        Err(Error::InvalidText)
    } else {
        Ok(
            PhysicalDrivePartitionView {
                local_infos: p.local_infos.insert(
                    device,
                    LocalInfoView { alias: info.name.unwrap()@, mount_path: info.mount_point.unwrap()@ },
                ),
                ..p
            },
        )
    }
}

/// Whether `after` and `r` are what binding `before` as the report `info`
/// says gives: the storage with the new binding and the binding that it
/// replaced, if any, or the failure and the storage as it was.
pub open spec fn binds_as(
    before: PhysicalDrivePartitionView,
    after: PhysicalDrivePartitionView,
    r: Result<Option<LocalInfo>, Error>,
    info: DiskInfo,
    device: Seq<char>,
) -> bool {
    match rebound(before, info, device) {
        Ok(p) => r.is_ok() && after == p && replaced_of(r.unwrap()) == StorageView::Physical(before).local_info(
            device,
        ),
        Err(e) => r == Err::<Option<LocalInfo>, Error>(e) && after == before,
    }
}

impl PhysicalDrivePartition {
    /// The partition named `name` that the report `info` describes. Fails
    /// with [`Error::InvalidText`] where the name of the disk, the name of
    /// its file system or its mount point is missing.
    pub fn from_disk_info(info: DiskInfo, name: String, device: &Device) -> (r: Result<
        PhysicalDrivePartition,
        Error,
    >)
        ensures
            built(r) == partition_of(name@, info, device@.name),
    {
        let alias: String = match info.name {
            Some(s) => s,
            None => {
                return Err(Error::InvalidText);
            },
        };
        let fs: String = match info.file_system {
            Some(s) => s,
            None => {
                return Err(Error::InvalidText);
            },
        };
        let mount_point: String = match info.mount_point {
            Some(s) => s,
            None => {
                return Err(Error::InvalidText);
            },
        };
        let local_info = LocalInfo::new(alias, mount_point);
        Ok(
            PhysicalDrivePartition::new(
                name,
                info.kind,
                info.total_space,
                fs,
                info.is_removable,
                local_info,
                device,
            ),
        )
    }

    /// Try to get Physical drive info from sysinfo.
    pub fn try_from_sysinfo_disk(disk: &sysinfo::Disk, name: String, device: Device) -> (r: Result<
        PhysicalDrivePartition,
        Error,
    >)
        ensures
            exists|info: DiskInfo| built(r) == partition_of(name@, info, device@.name),
    {
        let info: DiskInfo = read_disk(disk);
        let r = PhysicalDrivePartition::from_disk_info(info, name, &device);
        assert(built(r) == partition_of(name@, info, device@.name));
        r
    }

    /// Binds the partition on `device` as the report `info` says and hands
    /// back the binding that it replaced, if any. Fails with
    /// [`Error::InvalidText`] where the name of the disk or its mount point
    /// is missing; the partition then stays as it is.
    pub fn bind_disk_info(&mut self, info: DiskInfo, device: &Device) -> (r: Result<Option<LocalInfo>, Error>)
        ensures
            binds_as(old(self)@, final(self)@, r, info, device@.name),
    {
        let alias: String = match info.name {
            Some(s) => s,
            None => {
                return Err(Error::InvalidText);
            },
        };
        let mount_point: String = match info.mount_point {
            Some(s) => s,
            None => {
                return Err(Error::InvalidText);
            },
        };
        Ok(self.local_infos.insert(device.name(), LocalInfo::new(alias, mount_point)))
    }

    /// Binds the partition on `device` under the name of `disk` at its mount
    /// point and hands back the binding that it replaced, if any.
    pub fn bind_device(&mut self, disk: &sysinfo::Disk, device: &Device) -> (r: Result<Option<LocalInfo>, Error>)
        ensures
            exists|info: DiskInfo| binds_as(old(self)@, final(self)@, r, info, device@.name),
    {
        let info: DiskInfo = read_disk(disk);
        let r = self.bind_disk_info(info, device);
        assert(binds_as(old(self)@, self@, r, info, device@.name));
        r
    }
}

impl StorageExt for PhysicalDrivePartition {
    open spec fn as_storage(&self) -> StorageView {
        StorageView::Physical(self@)
    }

    fn name(&self) -> (r: &String) {
        &self.name
    }

    fn capacity(&self) -> (r: Option<u64>) {
        Some(self.capacity)
    }

    fn local_info(&self, device: &Device) -> (r: Option<&LocalInfo>) {
        self.local_infos.get(&device.name())
    }

    fn mount_path(&self, device: &Device) -> (r: Option<String>) {
        match self.local_infos.get(&device.name()) {
            Some(info) => Some(info.mount_path()),
            None => None,
        }
    }

    fn bound_on_device(&mut self, alias: String, mount_point: String, device: &Device) -> (r: Option<LocalInfo>) {
        self.local_infos.insert(device.name(), LocalInfo::new(alias, mount_point))
    }

    fn parent<'a>(&'a self, storages: &'a Storages) -> (r: Option<&'a Storage>) {
        None
    }
}

} // verus!
