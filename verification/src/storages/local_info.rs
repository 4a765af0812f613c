//! What a device knows of a storage.
use vstd::prelude::*;

verus! {

/// What a [`LocalInfo`] holds, as texts.
pub struct LocalInfoView {
    pub alias: Seq<char>,
    pub mount_path: Seq<char>,
}

/// The binding of a storage to one device: the name that the storage goes by
/// on the device, and the absolute path at which it is mounted there.
#[derive(Debug, Clone)]
pub struct LocalInfo {
    alias: String,
    mount_path: String,
}

impl View for LocalInfo {
    type V = LocalInfoView;

    closed spec fn view(&self) -> LocalInfoView {
        LocalInfoView { alias: self.alias@, mount_path: self.mount_path@ }
    }
}

impl LocalInfo {
    pub fn new(alias: String, mount_path: String) -> (r: LocalInfo)
        ensures
            r@ == (LocalInfoView { alias: alias@, mount_path: mount_path@ }),
    {
        LocalInfo { alias, mount_path }
    }

    pub fn alias(&self) -> (r: String)
        ensures
            r@ == self@.alias,
    {
        self.alias.clone()
    }

    pub fn mount_path(&self) -> (r: String)
        ensures
            r@ == self@.mount_path,
    {
        self.mount_path.clone()
    }
}

} // verus!
