//! Manipulate subdirectories of other storages, including directories.
use crate::devices::Device;
use crate::name_map::NameMap;
use crate::storages::local_info::{LocalInfo, LocalInfoView};
use crate::storages::{Storage, StorageExt, StorageView, Storages};
use crate::error::Error;
use crate::paths::{components_of, path_components};
use crate::text::texts;
use crate::util::{candidate, is_closest, min_parent_storage, not_covered};
use vstd::prelude::*;

verus! {

/// What a [`Directory`] holds.
pub struct DirectoryView {
    pub name: Seq<char>,
    pub parent: Seq<char>,
    pub relative_path: Seq<Seq<char>>,
    pub notes: Seq<char>,
    pub local_infos: Map<Seq<char>, LocalInfoView>,
}

/// Subdirectory of other [Storage]s.
#[derive(Debug, Clone)]
pub struct Directory {
    /// ID.
    name: String,
    /// ID of parent storage.
    parent: String,
    /// Relative path to the parent storage.
    relative_path: Vec<String>,
    pub notes: String,
    /// [`Device`] name and localinfo pairs.
    local_infos: NameMap<LocalInfo>,
}

impl View for Directory {
    type V = DirectoryView;

    closed spec fn view(&self) -> DirectoryView {
        DirectoryView {
            name: self.name@,
            parent: self.parent@,
            relative_path: texts(self.relative_path@),
            notes: self.notes@,
            local_infos: self.local_infos@,
        }
    }
}

impl Directory {
    /// - `name`: id
    /// - `parent`: where the directory locates.
    /// - `relative_path`: path from root of the parent storage, by its components.
    /// - `notes`: supplemental notes.
    pub fn new(
        name: String,
        parent: String,
        relative_path: Vec<String>,
        notes: String,
        local_infos: NameMap<LocalInfo>,
    ) -> (r: Directory)
        ensures
            r@ == (DirectoryView {
                name: name@,
                parent: parent@,
                relative_path: texts(relative_path@),
                notes: notes@,
                local_infos: local_infos@,
            }),
    {
        Directory { name, parent, relative_path, notes, local_infos }
    }

    /// The sub-directory at `path` on `device`: it lies in the closest
    /// storage that contains `path` there, at what is left of `path` below
    /// that storage, and is bound on `device` under `alias` at `path`. Fails
    /// with [`Error::PathNotCovered`] where no storage contains `path`.
    pub fn try_from_device_path(
        name: String,
        path: String,
        notes: String,
        alias: String,
        device: &Device,
        storages: &Storages,
    ) -> (r: Result<Directory, Error>)
        ensures
            match r {
                Ok(dir) => exists|i: int|
                    #![trigger storages.listing()[i]]
                    is_closest(storages, i, path@, device@.name) && dir@ == (DirectoryView {
                        name: name@,
                        parent: storages.listing()[i].1.name(),
                        relative_path: components_of(candidate(storages, i, path@, device@.name).unwrap()),
                        notes: notes@,
                        local_infos: Map::<Seq<char>, LocalInfoView>::empty().insert(
                            device@.name,
                            LocalInfoView { alias: alias@, mount_path: path@ },
                        ),
                    }),
                Err(e) => e == Error::PathNotCovered && not_covered(storages, path@, device@.name),
            },
    {
        match min_parent_storage(&path, storages, device) {
            None => Err(Error::PathNotCovered),
            Some((parent, diff_path)) => {
                let relative_path: Vec<String> = path_components(&diff_path);
                let parent_name: String = parent.name().clone();
                let mut local_infos: NameMap<LocalInfo> = NameMap::new();
                local_infos.insert(device.name(), LocalInfo::new(alias, path));
                Ok(Directory::new(name, parent_name, relative_path, notes, local_infos))
            },
        }
    }

    /// The directory with `notes` in place of its notes.
    pub fn update_note(self, notes: String) -> (r: Directory)
        ensures
            r@ == (DirectoryView { notes: notes@, ..self@ }),
    {
        Directory {
            name: self.name,
            parent: self.parent,
            relative_path: self.relative_path,
            notes,
            local_infos: self.local_infos,
        }
    }

    /// The name of the storage that the directory lies in.
    pub fn parent_name(&self) -> (r: &String)
        ensures
            r@ == self@.parent,
    {
        &self.parent
    }

    /// The path from the root of the parent storage, by its components.
    pub fn relative_path(&self) -> (r: &Vec<String>)
        ensures
            texts(r@) == self@.relative_path,
    {
        &self.relative_path
    }

    /// The bindings, by the name of the device.
    pub fn local_infos(&self) -> (r: &NameMap<LocalInfo>)
        ensures
            r@ == self@.local_infos,
    {
        &self.local_infos
    }
}

impl StorageExt for Directory {
    open spec fn as_storage(&self) -> StorageView {
        StorageView::SubDirectory(self@)
    }

    fn name(&self) -> (r: &String) {
        &self.name
    }

    fn capacity(&self) -> (r: Option<u64>) {
        None
    }

    fn local_info(&self, device: &Device) -> (r: Option<&LocalInfo>) {
        self.local_infos.get(&device.name())
    }

    fn mount_path(&self, device: &Device) -> (r: Option<String>) {
        match self.local_infos.get(&device.name()) {
            Some(info) => Some(info.mount_path()),
            None => None,
        }
    }

    fn bound_on_device(&mut self, alias: String, mount_point: String, device: &Device) -> (r: Option<LocalInfo>) {
        self.local_infos.insert(device.name(), LocalInfo::new(alias, mount_point))
    }

    fn parent<'a>(&'a self, storages: &'a Storages) -> (r: Option<&'a Storage>) {
        storages.get(&self.parent)
    }
}

} // verus!
