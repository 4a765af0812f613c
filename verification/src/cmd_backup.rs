//! Adding, listing and closing backups.
use crate::backups::{
    spec_add_log, Backup, BackupCommand, BackupLog, BackupLogView, BackupResult, BackupTarget, BackupTargetView,
    BackupView, Backups, Timestamp,
};
use crate::devices::Device;
use crate::error::Error;
use crate::paths::{components_of, option_text, path_components};
use crate::storages::Storages;
use crate::util::{candidate, is_closest, min_parent_storage, not_covered};
use vstd::prelude::*;

verus! {

/// The target that stands for a path that the `i`-th storage of the listing
/// contains on the device named `device`.
pub open spec fn target_below(storages: &Storages, i: int, path: Seq<char>, device: Seq<char>) -> BackupTargetView {
    BackupTargetView {
        storage: storages.listing()[i].1.name(),
        path: components_of(candidate(storages, i, path, device).unwrap()),
    }
}

/// The backup `name` of `device` from the directory `src` to the directory
/// `dest`, each given as the closest storage that contains it on `device`
/// and what is left of the path below that storage. Fails with
/// [`Error::PathNotCovered`] where no storage contains one of the two.
pub fn new_backup(
    name: String,
    src: String,
    dest: String,
    command: BackupCommand,
    device: &Device,
    storages: &Storages,
) -> (r: Result<Backup, Error>)
    ensures
        match r {
            Ok(backup) => exists|i: int, j: int|
                #![trigger storages.listing()[i], storages.listing()[j]]
                is_closest(storages, i, src@, device@.name) && is_closest(storages, j, dest@, device@.name)
                    && backup@ == (BackupView {
                    name: name@,
                    device: device@.name,
                    from: target_below(storages, i, src@, device@.name),
                    to: target_below(storages, j, dest@, device@.name),
                    command: command@,
                    logs: Seq::<BackupLogView>::empty(),
                }),
            Err(e) => e == Error::PathNotCovered && (not_covered(storages, src@, device@.name) || not_covered(
                storages,
                dest@,
                device@.name,
            )),
        },
{
    let src_found = min_parent_storage(&src, storages, device);
    let dest_found = min_parent_storage(&dest, storages, device);
    match src_found {
        None => Err(Error::PathNotCovered),
        Some((src_parent, src_diff)) => match dest_found {
            None => Err(Error::PathNotCovered),
            Some((dest_parent, dest_diff)) => {
                let src_target = BackupTarget::new(
                    crate::storages::StorageExt::name(src_parent).clone(),
                    path_components(&src_diff),
                );
                let dest_target = BackupTarget::new(
                    crate::storages::StorageExt::name(dest_parent).clone(),
                    path_components(&dest_diff),
                );
                Ok(Backup::new(name, device.name(), src_target, dest_target, command))
            },
        },
    }
}

/// Whether the backup `b` passes the filter: its source lies in the storage
/// `src_storage`, where one is given, and its destination in `dest_storage`,
/// where one is given.
pub open spec fn passes(b: BackupView, src_storage: Option<Seq<char>>, dest_storage: Option<Seq<char>>) -> bool {
    &&& (src_storage.is_some() ==> b.from.storage == src_storage.unwrap())
    &&& (dest_storage.is_some() ==> b.to.storage == dest_storage.unwrap())
}

/// Tells whether `backup` passes the filter.
pub fn passes_filter(backup: &Backup, src_storage: &Option<String>, dest_storage: &Option<String>) -> (r: bool)
    ensures
        r == passes(backup@, option_text(*src_storage), option_text(*dest_storage)),
{
    let src_matched: bool = match src_storage {
        Some(s) => backup.source().storage == *s,
        None => true,
    };
    let dest_matched: bool = match dest_storage {
        Some(d) => backup.destination().storage == *d,
        None => true,
    };
    src_matched && dest_matched
}

/// The names under which the backups of `entries` that pass the filter are
/// filed, in the order of `entries`.
pub open spec fn listed(
    entries: Seq<(Seq<char>, BackupView)>,
    src_storage: Option<Seq<char>>,
    dest_storage: Option<Seq<char>>,
) -> Seq<Seq<char>>
    decreases entries.len(),
{
    if entries.len() == 0 {
        Seq::empty()
    } else if passes(entries.last().1, src_storage, dest_storage) {
        listed(entries.drop_last(), src_storage, dest_storage).push(entries.last().0)
    } else {
        listed(entries.drop_last(), src_storage, dest_storage)
    }
}

/// The names of the backups of a device that pass the filter, in name
/// order.
pub fn cmd_backup_list(backups: &Backups, src_storage: &Option<String>, dest_storage: &Option<String>) -> (r: Vec<
    String,
>)
    ensures
        crate::text::texts(r@) == listed(backups.list.seq(), option_text(*src_storage), option_text(*dest_storage)),
{
    let mut out: Vec<String> = Vec::new();
    let mut i: usize = 0;
    let n: usize = backups.list.len();
    while i < n
        invariant
            i <= n,
            n == backups.list.seq().len(),
            crate::text::texts(out@) == listed(
                backups.list.seq().take(i as int),
                option_text(*src_storage),
                option_text(*dest_storage),
            ),
        decreases n - i,
    {
        let ghost before = crate::text::texts(out@);
        proof {
            let s = backups.list.seq();
            assert(s.take(i as int + 1).drop_last() =~= s.take(i as int));
            assert(s.take(i as int + 1).last() == s[i as int]);
        }
        if passes_filter(backups.list.value_at(i), src_storage, dest_storage) {
            out.push(backups.list.key_at(i).clone());
            assert(crate::text::texts(out@) =~= before.push(backups.list.seq()[i as int].0));
        }
        i += 1;
    }
    proof {
        assert(backups.list.seq().take(n as int) =~= backups.list.seq());
    }
    out
}

/// The note of a run, empty where none was given.
pub open spec fn note_of(log: Option<String>) -> Seq<char> {
    match log {
        Some(s) => s@,
        None => Seq::empty(),
    }
}

/// Records that the backup filed under `name` ended at `datetime` with the
/// exit code `exit_status`. Fails with [`Error::NotFound`] where there is no
/// such backup; the backups then stay as they are.
pub fn cmd_backup_done(
    backups: &mut Backups,
    name: &String,
    exit_status: u64,
    log: Option<String>,
    datetime: Timestamp,
) -> (r: Result<(), Error>)
    ensures
        (r, final(backups)@) == spec_add_log(
            old(backups)@,
            name@,
            BackupLogView { datetime, status: BackupResult::of_exit_code(exit_status), log: note_of(log) },
        ),
{
    let status = BackupResult::from_exit_code(exit_status);
    let note: String = match log {
        Some(s) => s,
        None => String::new(),
    };
    backups.add_log(name, BackupLog::new(datetime, status, note))
}

} // verus!
