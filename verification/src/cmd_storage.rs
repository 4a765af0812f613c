//! Adding storages to the catalog.
use crate::devices::Device;
use crate::error::Error;
use crate::storages::directory::{Directory, DirectoryView};
use crate::storages::local_info::{LocalInfo, LocalInfoView};
use crate::storages::online_storage::{OnlineStorage, OnlineStorageView};
use crate::storages::physical_drive_partition::{PhysicalDrivePartition, PhysicalDrivePartitionView};
use crate::storages::{Storage, StorageView, Storages};
use crate::util::{is_closest, not_covered, candidate};
use crate::paths::components_of;
use vstd::prelude::*;

verus! {

/// Whether no storage of `storages` is named `newname`.
pub fn is_unique_name(newname: &String, storages: &Storages) -> (r: bool)
    ensures
        r == !storages@.dom().contains(newname@),
{
    storages.get(newname).is_none()
}

/// The only binding of a storage that was just made on one device.
pub open spec fn bound_once(device: Seq<char>, alias: Seq<char>, path: Seq<char>) -> Map<
    Seq<char>,
    LocalInfoView,
> {
    Map::<Seq<char>, LocalInfoView>::empty().insert(device, LocalInfoView { alias, mount_path: path })
}

/// Adds the online storage `name`, bound on `device` under `alias` at
/// `path`. Fails with [`Error::NameConflict`] where the name is taken; the
/// storages then stay as they are.
pub fn add_online(
    storages: &mut Storages,
    name: String,
    path: String,
    provider: String,
    capacity: u64,
    alias: String,
    device: &Device,
) -> (r: Result<(), Error>)
    ensures
        old(storages)@.dom().contains(name@) ==> r == Err::<(), Error>(Error::NameConflict) && final(storages)@
            == old(storages)@,
        !old(storages)@.dom().contains(name@) ==> r == Ok::<(), Error>(()) && final(storages)@ == old(
            storages,
        )@.insert(
            name@,
            StorageView::Online(
                OnlineStorageView {
                    name: name@,
                    provider: provider@,
                    capacity: capacity,
                    local_infos: bound_once(device@.name, alias@, path@),
                },
            ),
        ),
{
    if !is_unique_name(&name, storages) {
        return Err(Error::NameConflict);
    }
    let storage = OnlineStorage::new(name, provider, capacity, alias, path, device);
    storages.add(Storage::Online(storage))
}

/// Adds the partition `name` of a physical drive, bound on `device` under
/// `alias` at `path`. Fails with [`Error::NameConflict`] where the name is
/// taken; the storages then stay as they are.
pub fn add_physical(
    storages: &mut Storages,
    name: String,
    kind: String,
    capacity: u64,
    fs: String,
    is_removable: bool,
    alias: String,
    path: String,
    device: &Device,
) -> (r: Result<(), Error>)
    ensures
        old(storages)@.dom().contains(name@) ==> r == Err::<(), Error>(Error::NameConflict) && final(storages)@
            == old(storages)@,
        !old(storages)@.dom().contains(name@) ==> r == Ok::<(), Error>(()) && final(storages)@ == old(
            storages,
        )@.insert(
            name@,
            StorageView::Physical(
                PhysicalDrivePartitionView {
                    name: name@,
                    kind: kind@,
                    capacity: capacity,
                    fs: fs@,
                    is_removable: is_removable,
                    local_infos: bound_once(device@.name, alias@, path@),
                },
            ),
        ),
{
    if !is_unique_name(&name, storages) {
        return Err(Error::NameConflict);
    }
    let local_info = LocalInfo::new(alias, path);
    let storage = PhysicalDrivePartition::new(name, kind, capacity, fs, is_removable, local_info, device);
    storages.add(Storage::Physical(storage))
}

/// Adds the sub-directory `name` at `path` on `device`, below the closest
/// storage that contains `path` there. Fails with [`Error::NameConflict`]
/// where the name is taken, with [`Error::NotFound`] where there is no
/// storage yet that it could lie in, and with [`Error::PathNotCovered`]
/// where no storage contains `path`; the storages then stay as they are.
pub fn add_directory(
    storages: &mut Storages,
    name: String,
    path: String,
    notes: String,
    alias: String,
    device: &Device,
) -> (r: Result<(), Error>)
    ensures
        match r {
            Err(e) => final(storages)@ == old(storages)@ && e == (if old(storages)@.dom().contains(name@) {
                Error::NameConflict
            } else if old(storages).listing().len() == 0 {
                Error::NotFound
            } else {
                Error::PathNotCovered
            }) && (e == Error::PathNotCovered ==> not_covered(old(storages), path@, device@.name)),
            Ok(()) => !old(storages)@.dom().contains(name@) && exists|i: int|
                #![trigger old(storages).listing()[i]]
                is_closest(old(storages), i, path@, device@.name) && final(storages)@ == old(storages)@.insert(
                    name@,
                    StorageView::SubDirectory(
                        DirectoryView {
                            name: name@,
                            parent: old(storages).listing()[i].1.name(),
                            relative_path: components_of(
                                candidate(old(storages), i, path@, device@.name).unwrap(),
                            ),
                            notes: notes@,
                            local_infos: bound_once(device@.name, alias@, path@),
                        },
                    ),
                ),
        },
{
    if !is_unique_name(&name, storages) {
        return Err(Error::NameConflict);
    }
    if storages.len() == 0 {
        return Err(Error::NotFound);
    }
    match Directory::try_from_device_path(name, path, notes, alias, device, storages) {
        Err(e) => Err(e),
        Ok(directory) => storages.add(Storage::SubDirectory(directory)),
    }
}

} // verus!
