//! Online storage which is not a children of any physical drive.
use crate::devices::Device;
use crate::name_map::NameMap;
use crate::storages::local_info::{LocalInfo, LocalInfoView};
use crate::storages::{Storage, StorageExt, StorageView, Storages};
use vstd::prelude::*;

verus! {

/// What an [`OnlineStorage`] holds.
pub struct OnlineStorageView {
    pub name: Seq<char>,
    pub provider: Seq<char>,
    pub capacity: u64,
    pub local_infos: Map<Seq<char>, LocalInfoView>,
}

#[derive(Debug, Clone)]
pub struct OnlineStorage {
    /// ID.
    name: String,
    /// Provider string (for the common information).
    pub provider: String,
    /// Capacity in bytes.
    capacity: u64,
    /// Device and local info pairs.
    local_infos: NameMap<LocalInfo>,
}

impl View for OnlineStorage {
    type V = OnlineStorageView;

    closed spec fn view(&self) -> OnlineStorageView {
        OnlineStorageView {
            name: self.name@,
            provider: self.provider@,
            capacity: self.capacity,
            local_infos: self.local_infos@,
        }
    }
}

impl OnlineStorage {
    /// The online storage `name`, bound on `device` under `alias` at `path`.
    pub fn new(
        name: String,
        provider: String,
        capacity: u64,
        alias: String,
        path: String,
        device: &Device,
    ) -> (r: OnlineStorage)
        ensures
            r@ == (OnlineStorageView {
                name: name@,
                provider: provider@,
                capacity: capacity,
                local_infos: Map::<Seq<char>, LocalInfoView>::empty().insert(
                    device@.name,
                    LocalInfoView { alias: alias@, mount_path: path@ },
                ),
            }),
    {
        let mut local_infos: NameMap<LocalInfo> = NameMap::new();
        local_infos.insert(device.name(), LocalInfo::new(alias, path));
        OnlineStorage { name, provider, capacity, local_infos }
    }

    /// Builds an online storage from its parts.
    pub fn from_parts(name: String, provider: String, capacity: u64, local_infos: NameMap<LocalInfo>) -> (r:
        OnlineStorage)
        ensures
            r@ == (OnlineStorageView {
                name: name@,
                provider: provider@,
                capacity: capacity,
                local_infos: local_infos@,
            }),
    {
        OnlineStorage { name, provider, capacity, local_infos }
    }

    /// The bindings, by the name of the device.
    pub fn local_infos(&self) -> (r: &NameMap<LocalInfo>)
        ensures
            r@ == self@.local_infos,
    {
        &self.local_infos
    }
}

impl StorageExt for OnlineStorage {
    open spec fn as_storage(&self) -> StorageView {
        StorageView::Online(self@)
    }

    fn name(&self) -> (r: &String) {
        &self.name
    }

    fn capacity(&self) -> (r: Option<u64>) {
        Some(self.capacity)
    }

    fn local_info(&self, device: &Device) -> (r: Option<&LocalInfo>) {
        self.local_infos.get(&device.name())
    }

    fn mount_path(&self, device: &Device) -> (r: Option<String>) {
        match self.local_infos.get(&device.name()) {
            Some(info) => Some(info.mount_path()),
            None => None,
        }
    }

    fn bound_on_device(&mut self, alias: String, mount_point: String, device: &Device) -> (r: Option<LocalInfo>) {
        self.local_infos.insert(device.name(), LocalInfo::new(alias, mount_point))
    }

    fn parent<'a>(&'a self, storages: &'a Storages) -> (r: Option<&'a Storage>) {
        None
    }
}

} // verus!
