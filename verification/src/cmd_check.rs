//! Checking that the names in the catalog lead somewhere.
use crate::backups::{BackupView, Backups};
use crate::devices::{device_names, find_device, Device};
use crate::error::Error;
use crate::name_map::{index_of, lemma_map_of};
use crate::storages::{Storage, StorageView, Storages};
use vstd::prelude::*;

verus! {

/// Whether every sub-directory of `m` has its parent in `m`.
pub open spec fn parents_exist(m: Map<Seq<char>, StorageView>) -> bool {
    forall|k: Seq<char>|
        m.dom().contains(k) && (#[trigger] m[k]).parent_name().is_some() ==> m.dom().contains(
            m[k].parent_name().unwrap(),
        )
}

/// Checks that every sub-directory has its parent among the storages.
/// Fails with [`Error::UnresolvedReference`] where one has not.
pub fn check_storages(storages: &Storages) -> (r: Result<(), Error>)
    ensures
        r == (if parents_exist(storages@) {
            Ok::<(), Error>(())
        } else {
            Err::<(), Error>(Error::UnresolvedReference)
        }),
{
    let n: usize = storages.len();
    let mut i: usize = 0;
    while i < n
        invariant
            i <= n,
            n == storages.listing().len(),
            forall|j: int|
                0 <= j < i && (#[trigger] storages.listing()[j]).1.parent_name().is_some()
                    ==> storages@.dom().contains(storages.listing()[j].1.parent_name().unwrap()),
        decreases n - i,
    {
        let storage: &Storage = storages.storage_at(i);
        let missing: bool = match storage.parent_name() {
            Some(p) => storages.get(p).is_none(),
            None => false,
        };
        if missing {
            return Err(Error::UnresolvedReference);
        }
        i += 1;
    }
    proof {
        use_type_invariant(storages);
        lemma_map_of(storages.listing());
        assert forall|k: Seq<char>|
            storages@.dom().contains(k) && (#[trigger] storages@[k]).parent_name().is_some()
                implies storages@.dom().contains(storages@[k].parent_name().unwrap()) by {
            let j = index_of(storages.listing(), k);
            assert(storages.listing()[j].1 == storages@[k]);
        }
    }
    Ok(())
}

/// What is wrong with the backup `b` that is filed under `key`, if anything:
/// it is filed under a name that is not its own, or its device is not among
/// `devices`, or the storage of its source or of its destination is not
/// among `storages`. The first of these that holds is reported.
pub open spec fn backup_fault(
    key: Seq<char>,
    b: BackupView,
    devices: Seq<Seq<char>>,
    storages: Map<Seq<char>, StorageView>,
) -> Option<Error> {
    if key != b.name {
        Some(Error::NameMismatch)
    } else if !devices.contains(b.device) {
        Some(Error::UnresolvedReference)
    } else if !storages.dom().contains(b.from.storage) {
        Some(Error::UnresolvedReference)
    } else if !storages.dom().contains(b.to.storage) {
        Some(Error::UnresolvedReference)
    } else {
        None
    }
}

/// What is wrong with the first backup of `entries` with which something is
/// wrong.
pub open spec fn first_fault(
    entries: Seq<(Seq<char>, BackupView)>,
    devices: Seq<Seq<char>>,
    storages: Map<Seq<char>, StorageView>,
) -> Option<Error>
    decreases entries.len(),
{
    if entries.len() == 0 {
        None
    } else {
        match backup_fault(entries[0].0, entries[0].1, devices, storages) {
            Some(e) => Some(e),
            None => first_fault(entries.drop_first(), devices, storages),
        }
    }
}

/// The outcome of a check that found `fault`.
pub open spec fn verdict(fault: Option<Error>) -> Result<(), Error> {
    match fault {
        Some(e) => Err(e),
        None => Ok(()),
    }
}

/// Checks the backups of one device, in name order, and fails with what is
/// wrong with the first one with which something is: see [`backup_fault`].
pub fn check_backups(backups: &Backups, devices: &[Device], storages: &Storages) -> (r: Result<(), Error>)
    ensures
        r == verdict(first_fault(backups.list.seq(), device_names(devices@), storages@)),
{
    let n: usize = backups.list.len();
    let ghost entries = backups.list.seq();
    let ghost names = device_names(devices@);
    let mut i: usize = 0;
    assert(entries.skip(0) =~= entries);
    while i < n
        invariant
            i <= n,
            n == entries.len(),
            entries == backups.list.seq(),
            names == device_names(devices@),
            first_fault(entries, names, storages@) == first_fault(entries.skip(i as int), names, storages@),
        decreases n - i,
    {
        let name = backups.list.key_at(i);
        let backup = backups.list.value_at(i);
        proof {
            assert(entries.skip(i as int).drop_first() =~= entries.skip(i as int + 1));
            assert(entries.skip(i as int)[0] == entries[i as int]);
        }
        if *name != *backup.name() {
            return Err(Error::NameMismatch);
        }
        match find_device(devices, backup.device_name()) {
            None => {
                proof {
                    assert forall|j: int| 0 <= j < names.len() implies names[j] != backup@.device by {
                        assert(names[j] == devices@[j]@.name);
                    }
                }
                return Err(Error::UnresolvedReference);
            },
            Some(d) => {
                assert(names[d as int] == backup@.device);
            },
        }
        if storages.get(&backup.source().storage).is_none() {
            return Err(Error::UnresolvedReference);
        }
        if storages.get(&backup.destination().storage).is_none() {
            return Err(Error::UnresolvedReference);
        }
        i += 1;
    }
    Ok(())
}

/// What is wrong with the first of `all` with which something is wrong.
pub open spec fn first_fault_of_all(
    all: Seq<Backups>,
    devices: Seq<Seq<char>>,
    storages: Map<Seq<char>, StorageView>,
) -> Option<Error>
    decreases all.len(),
{
    if all.len() == 0 {
        None
    } else {
        match first_fault(all[0].list.seq(), devices, storages) {
            Some(e) => Some(e),
            None => first_fault_of_all(all.drop_first(), devices, storages),
        }
    }
}

/// Checks the whole catalog: that every sub-directory has its parent among
/// the storages, then the backups of each device in turn as
/// [`check_backups`] does. Fails with what it finds first.
pub fn cmd_check(devices: &[Device], storages: &Storages, all_backups: &Vec<Backups>) -> (r: Result<(), Error>)
    ensures
        r == (if !parents_exist(storages@) {
            Err::<(), Error>(Error::UnresolvedReference)
        } else {
            verdict(first_fault_of_all(all_backups@, device_names(devices@), storages@))
        }),
{
    match check_storages(storages) {
        Err(e) => {
            return Err(e);
        },
        Ok(()) => {},
    }
    let ghost names = device_names(devices@);
    let mut i: usize = 0;
    assert(all_backups@.skip(0) =~= all_backups@);
    while i < all_backups.len()
        invariant
            i <= all_backups.len(),
            parents_exist(storages@),
            names == device_names(devices@),
            first_fault_of_all(all_backups@, names, storages@) == first_fault_of_all(
                all_backups@.skip(i as int),
                names,
                storages@,
            ),
        decreases all_backups.len() - i,
    {
        proof {
            assert(all_backups@.skip(i as int).drop_first() =~= all_backups@.skip(i as int + 1));
            assert(all_backups@.skip(i as int)[0] == all_backups@[i as int]);
        }
        match check_backups(&all_backups[i], devices, storages) {
            Err(e) => {
                return Err(e);
            },
            Ok(()) => {},
        }
        i += 1;
    }
    Ok(())
}

} // verus!
