//! Finding the backups that cover a path.
use crate::backups::{target_path, Backup, BackupView, Backups};
use crate::devices::Device;
use crate::paths::{diff_paths, is_inside, joined_path, path_components, path_join};
use crate::storages::{mount_path, Storage, StorageView, Storages};
use crate::util::remainder_below;
use vstd::prelude::*;

verus! {

/// The backups of `entries` whose source contains the path `target` on the
/// device named `device`, each with what is left of `target` below its
/// source, in the order of `entries`.
pub open spec fn covering(
    entries: Seq<(Seq<char>, BackupView)>,
    target: Seq<char>,
    storages: &Storages,
    device: Seq<char>,
) -> Seq<(BackupView, Seq<char>)>
    decreases entries.len(),
{
    if entries.len() == 0 {
        Seq::empty()
    } else {
        let rest = covering(entries.drop_last(), target, storages, device);
        match remainder_below(target_path(entries.last().1.from, storages, device), target) {
            Some(d) => rest.push((entries.last().1, d)),
            None => rest,
        }
    }
}

/// The views of a list of backups with paths.
pub open spec fn covering_views(found: Seq<(&Backup, String)>) -> Seq<(BackupView, Seq<char>)> {
    Seq::new(found.len(), |i: int| (found[i].0@, found[i].1@))
}

/// The path that the backups are held against: `rest` below the mount path
/// of the storage `target` on the device named `device`.
pub open spec fn target_on_device(target: StorageView, rest: Seq<char>, storages: &Storages, device: Seq<char>) -> Option<
    Seq<char>,
> {
    match storages.mount_path_of(target, device) {
        Ok(root) => Some(joined_path(root, rest)),
        Err(_) => None,
    }
}

/// Get [`Backup`]s for `device` which covers the path that lies at
/// `target_path_from_storage` below `target_storage`. Each comes with the
/// relative path from the source of the backup to that path. Where
/// `target_storage` does not resolve on `device`, no backup covers the path.
pub fn parent_backups<'a>(
    target_path_from_storage: &String,
    target_storage: &Storage,
    backups: &'a Backups,
    storages: &Storages,
    device: &Device,
) -> (r: Vec<(&'a Backup, String)>)
    ensures
        covering_views(r@) == (match target_on_device(
            target_storage@,
            target_path_from_storage@,
            storages,
            device@.name,
        ) {
            Some(target) => covering(backups.list.seq(), target, storages, device@.name),
            None => Seq::empty(),
        }),
{
    let mut found: Vec<(&'a Backup, String)> = Vec::new();
    let target: String = match mount_path(target_storage, device, storages) {
        Ok(root) => path_join(&root, target_path_from_storage),
        Err(_) => {
            assert(covering_views(found@) =~= Seq::empty());
            return found;
        },
    };
    let n: usize = backups.list.len();
    let mut i: usize = 0;
    assert(covering_views(found@) =~= Seq::empty());
    while i < n
        invariant
            i <= n,
            n == backups.list.seq().len(),
            covering_views(found@) == covering(backups.list.seq().take(i as int), target@, storages, device@.name),
        decreases n - i,
    {
        let backup: &'a Backup = backups.list.value_at(i);
        let ghost before = covering_views(found@);
        proof {
            let s = backups.list.seq();
            assert(s.take(i as int + 1).drop_last() =~= s.take(i as int));
            assert(s.take(i as int + 1).last() == s[i as int]);
        }
        match backup.source().path(storages, device) {
            Ok(backup_path) => {
                match diff_paths(&target, &backup_path) {
                    Some(diff) => {
                        let components: Vec<String> = path_components(&diff);
                        if is_inside(&components) {
                            found.push((backup, diff));
                            assert(covering_views(found@) =~= before.push((backup@, diff@)));
                        }
                    },
                    None => {},
                }
            },
            Err(_) => {},
        }
        i += 1;
    }
    proof {
        assert(backups.list.seq().take(n as int) =~= backups.list.seq());
    }
    found
}

} // verus!
