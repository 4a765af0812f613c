//! The storages of the catalog and the resolution of their mount paths.
use crate::devices::Device;
use crate::error::Error;
use crate::name_map::{lemma_map_of, NameMap};
use crate::paths::{join_all, join_components, option_text};
use crate::storages::directory::{Directory, DirectoryView};
use crate::storages::local_info::{LocalInfo, LocalInfoView};
use crate::storages::online_storage::{OnlineStorage, OnlineStorageView};
use crate::storages::physical_drive_partition::{PhysicalDrivePartition, PhysicalDrivePartitionView};
use vstd::prelude::*;

pub mod directory;
pub mod local_info;
pub mod online_storage;
pub mod physical_drive_partition;

verus! {

/// The kinds of storage.
#[derive(Clone, Copy, Debug, PartialEq, Eq, Structural)]
pub enum StorageType {
    /// Physical storage
    P,
    /// Sub directory
    S,
    /// Online storage
    O,
}

/// The colours in which the kinds of storage are shown.
#[derive(Clone, Copy, Debug, PartialEq, Eq, Structural)]
pub enum TypeStyle {
    Cyan,
    Yellow,
    Green,
}

/// What a [`Storage`] holds.
pub enum StorageView {
    Physical(PhysicalDrivePartitionView),
    SubDirectory(DirectoryView),
    Online(OnlineStorageView),
}

impl StorageView {
    /// The name that identifies the storage.
    pub open spec fn name(self) -> Seq<char> {
        match self {
            StorageView::Physical(s) => s.name,
            StorageView::SubDirectory(s) => s.name,
            StorageView::Online(s) => s.name,
        }
    }

    /// The capacity in bytes. A sub-directory has none of its own.
    pub open spec fn capacity(self) -> Option<u64> {
        match self {
            StorageView::Physical(s) => Some(s.capacity),
            StorageView::SubDirectory(_) => None,
            StorageView::Online(s) => Some(s.capacity),
        }
    }

    /// The bindings of the storage, by the name of the device.
    pub open spec fn local_infos(self) -> Map<Seq<char>, LocalInfoView> {
        match self {
            StorageView::Physical(s) => s.local_infos,
            StorageView::SubDirectory(s) => s.local_infos,
            StorageView::Online(s) => s.local_infos,
        }
    }

    /// The binding of the storage on the device named `device`.
    pub open spec fn local_info(self, device: Seq<char>) -> Option<LocalInfoView> {
        if self.local_infos().dom().contains(device) {
            Some(self.local_infos()[device])
        } else {
            None
        }
    }

    /// The path at which the storage is bound on the device named `device`.
    pub open spec fn bound_path(self, device: Seq<char>) -> Option<Seq<char>> {
        match self.local_info(device) {
            Some(info) => Some(info.mount_path),
            None => None,
        }
    }

    /// The name of the storage that a sub-directory lies in.
    pub open spec fn parent_name(self) -> Option<Seq<char>> {
        match self {
            StorageView::SubDirectory(s) => Some(s.parent),
            _ => None,
        }
    }

    /// The storage with `info` as its binding on the device named `device`,
    /// in place of the binding that it had there, if any.
    pub open spec fn bound(self, device: Seq<char>, info: LocalInfoView) -> StorageView {
        match self {
            StorageView::Physical(s) => StorageView::Physical(
                PhysicalDrivePartitionView { local_infos: s.local_infos.insert(device, info), ..s },
            ),
            StorageView::SubDirectory(s) => StorageView::SubDirectory(
                DirectoryView { local_infos: s.local_infos.insert(device, info), ..s },
            ),
            StorageView::Online(s) => StorageView::Online(
                OnlineStorageView { local_infos: s.local_infos.insert(device, info), ..s },
            ),
        }
    }

    /// The storage that `self` lies in, looked up in `storages`.
    pub open spec fn parent(self, storages: Map<Seq<char>, StorageView>) -> Option<StorageView> {
        match self.parent_name() {
            Some(p) => if storages.dom().contains(p) {
                Some(storages[p])
            } else {
                None
            },
            None => None,
        }
    }
}

/// The storages `m` after each of `added` has been handed to
/// [`Storages::add`] in turn.
pub open spec fn add_all(m: Map<Seq<char>, StorageView>, added: Seq<StorageView>) -> Map<Seq<char>, StorageView>
    decreases added.len(),
{
    if added.len() == 0 {
        m
    } else {
        spec_add(add_all(m, added.drop_last()), added.last()).1
    }
}

/// Adding storages takes no name away.
pub proof fn lemma_add_all_keeps_names(m: Map<Seq<char>, StorageView>, added: Seq<StorageView>, name: Seq<char>)
    requires
        m.dom().contains(name),
    ensures
        add_all(m, added).dom().contains(name),
    decreases added.len(),
{
    if added.len() > 0 {
        lemma_add_all_keeps_names(m, added.drop_last(), name);
    }
}

/// Names are unique: once a storage was handed to [`Storages::add`], a later
/// one of the same name is refused with [`Error::NameConflict`] and leaves
/// the storages as they were, whatever was added in between.
pub proof fn lemma_second_add_conflicts(
    m: Map<Seq<char>, StorageView>,
    first: StorageView,
    between: Seq<StorageView>,
    second: StorageView,
)
    requires
        first.name() == second.name(),
    ensures
        spec_add(add_all(spec_add(m, first).1, between), second) == (
            Err::<(), Error>(Error::NameConflict),
            add_all(spec_add(m, first).1, between),
        ),
{
    lemma_add_all_keeps_names(spec_add(m, first).1, between, first.name());
}

/// A storage with a sub-directory cannot be removed; once its only
/// sub-directory, which has none of its own, is removed, it can.
pub proof fn lemma_removal_after_child(m: Map<Seq<char>, StorageView>, parent: Seq<char>, child: Seq<char>)
    requires
        m.dom().contains(parent),
        m.dom().contains(child),
        m[child].parent_name() == Some(parent),
        forall|k: Seq<char>| m.dom().contains(k) && (#[trigger] m[k]).parent_name() == Some(parent) ==> k == child,
        !has_child(m, child),
    ensures
        spec_remove(m, parent) == (Err::<Option<StorageView>, Error>(Error::DependencyError), m),
        spec_remove(m, child) == (Ok::<Option<StorageView>, Error>(Some(m[child])), m.remove(child)),
        spec_remove(m.remove(child), parent) == (
            Ok::<Option<StorageView>, Error>(Some(m[parent])),
            m.remove(child).remove(parent),
        ),
{
    assert(has_child(m, parent));
    assert(parent != child);
    let m2 = m.remove(child);
    assert(!has_child(m2, parent)) by {
        if has_child(m2, parent) {
            let k = choose|k: Seq<char>| m2.dom().contains(k) && (#[trigger] m2[k]).parent_name() == Some(parent);
            assert(m.dom().contains(k) && m[k].parent_name() == Some(parent));
        }
    }
}

/// Binding a storage twice on one device leaves the second binding alone:
/// the later one replaces the earlier, and the device is counted once.
pub proof fn lemma_binding_replaces(
    storage: StorageView,
    device: Seq<char>,
    first: LocalInfoView,
    second: LocalInfoView,
)
    ensures
        storage.bound(device, first).bound(device, second) == storage.bound(device, second),
        storage.bound(device, first).bound(device, second).local_infos().dom()
            == storage.local_infos().dom().insert(device),
        storage.bound(device, first).bound(device, second).local_info(device) == Some(second),
{
    let m = storage.local_infos();
    assert(m.insert(device, first).insert(device, second) =~= m.insert(device, second));
    assert(m.insert(device, second).dom() =~= m.dom().insert(device));
}

/// The view of an optional binding.
pub open spec fn info_of(o: Option<&LocalInfo>) -> Option<LocalInfoView> {
    match o {
        Some(i) => Some(i@),
        None => None,
    }
}

/// The view of a binding that was replaced, if one was.
pub open spec fn replaced_of(o: Option<LocalInfo>) -> Option<LocalInfoView> {
    match o {
        Some(i) => Some(i@),
        None => None,
    }
}

/// The view of an optional storage.
pub open spec fn storage_of(o: Option<&Storage>) -> Option<StorageView> {
    match o {
        Some(s) => Some(s@),
        None => None,
    }
}

/// What every kind of storage can do.
pub trait StorageExt {
    /// The storage that `self` is, whatever its kind.
    spec fn as_storage(&self) -> StorageView;

    /// The name that identifies the storage.
    fn name(&self) -> (r: &String)
        ensures
            r@ == self.as_storage().name(),
    ;

    /// Capacity in bytes. A sub-directory has none of its own.
    fn capacity(&self) -> (r: Option<u64>)
        ensures
            r == self.as_storage().capacity(),
    ;

    /// Return `true` if `self` has local info on the `device`.
    /// Used to check if the storage is bound on the `device`.
    fn has_alias(&self, device: &Device) -> (r: bool)
        ensures
            r == self.as_storage().local_infos().dom().contains(device@.name),
    {
        self.local_info(device).is_some()
    }

    /// The binding of the storage on `device`, if it has one.
    fn local_info(&self, device: &Device) -> (r: Option<&LocalInfo>)
        ensures
            info_of(r) == self.as_storage().local_info(device@.name),
    ;

    /// The path at which the storage is bound on `device`, if it is bound
    /// there. For a sub-directory this is the path that was noted when it
    /// was bound, not the one that its parent leads to.
    fn mount_path(&self, device: &Device) -> (r: Option<String>)
        ensures
            option_text(r) == self.as_storage().bound_path(device@.name),
    ;

    /// Binds the storage on `device` under `alias` at `mount_point`. A
    /// binding that the device had is replaced, never refused, and handed
    /// back, so that the caller can tell of it.
    fn bound_on_device(&mut self, alias: String, mount_point: String, device: &Device) -> (r: Option<LocalInfo>)
        ensures
            final(self).as_storage() == old(self).as_storage().bound(
                device@.name,
                LocalInfoView { alias: alias@, mount_path: mount_point@ },
            ),
            replaced_of(r) == old(self).as_storage().local_info(device@.name),
    ;

    /// The storage that this one lies in: none for a physical or an online
    /// storage; for a sub-directory the storage of `storages` that it names
    /// as its parent, if there is one.
    fn parent<'a>(&'a self, storages: &'a Storages) -> (r: Option<&'a Storage>)
        ensures
            storage_of(r) == self.as_storage().parent(storages@),
    ;
}

/// A catalogued location of data.
#[derive(Debug, Clone)]
pub enum Storage {
    Physical(PhysicalDrivePartition),
    SubDirectory(Directory),
    Online(OnlineStorage),
}

impl View for Storage {
    type V = StorageView;

    open spec fn view(&self) -> StorageView {
        match self {
            Storage::Physical(s) => StorageView::Physical(s@),
            Storage::SubDirectory(s) => StorageView::SubDirectory(s@),
            Storage::Online(s) => StorageView::Online(s@),
        }
    }
}

impl Storage {
    /// The kind of the storage.
    pub open spec fn kind_of(v: StorageView) -> StorageType {
        match v {
            StorageView::Physical(_) => StorageType::P,
            StorageView::SubDirectory(_) => StorageType::S,
            StorageView::Online(_) => StorageType::O,
        }
    }

    /// The kind of the storage.
    pub fn storage_type(&self) -> (r: StorageType)
        ensures
            r == Storage::kind_of(self@),
    {
        match self {
            Storage::Physical(_) => StorageType::P,
            Storage::SubDirectory(_) => StorageType::S,
            Storage::Online(_) => StorageType::O,
        }
    }

    /// Full type name like "PhysicalStorage".
    pub fn typename(&self) -> (r: &'static str)
        ensures
            r@ == match self@ {
                StorageView::Physical(_) => "PhysicalStorage"@,
                StorageView::SubDirectory(_) => "SubDirectory"@,
                StorageView::Online(_) => "OnlineStorage"@,
            },
    {
        match self {
            Storage::Physical(_) => "PhysicalStorage",
            Storage::SubDirectory(_) => "SubDirectory",
            Storage::Online(_) => "OnlineStorage",
        }
    }

    /// The colour in which the storage is shown: cyan for a physical
    /// storage, yellow for a sub-directory, green for an online storage.
    pub fn typestyle(&self) -> (r: TypeStyle)
        ensures
            r == match self@ {
                StorageView::Physical(_) => TypeStyle::Cyan,
                StorageView::SubDirectory(_) => TypeStyle::Yellow,
                StorageView::Online(_) => TypeStyle::Green,
            },
    {
        match self {
            Storage::Physical(_) => TypeStyle::Cyan,
            Storage::SubDirectory(_) => TypeStyle::Yellow,
            Storage::Online(_) => TypeStyle::Green,
        }
    }

    /// The name of the storage that a sub-directory lies in.
    pub fn parent_name(&self) -> (r: Option<&String>)
        ensures
            match r {
                Some(p) => self@.parent_name() == Some(p@),
                None => self@.parent_name().is_none(),
            },
    {
        match self {
            Storage::SubDirectory(s) => Some(s.parent_name()),
            _ => None,
        }
    }

    /// Short type name with one letter like "P".
    pub fn shorttypename(&self) -> (r: &'static str)
        ensures
            r@ == match self@ {
                StorageView::Physical(_) => "P"@,
                StorageView::SubDirectory(_) => "S"@,
                StorageView::Online(_) => "O"@,
            },
    {
        match self {
            Storage::Physical(_) => "P",
            Storage::SubDirectory(_) => "S",
            Storage::Online(_) => "O",
        }
    }
}

impl StorageExt for Storage {
    open spec fn as_storage(&self) -> StorageView {
        self@
    }

    fn name(&self) -> (r: &String) {
        match self {
            Storage::Physical(s) => s.name(),
            Storage::SubDirectory(s) => s.name(),
            Storage::Online(s) => s.name(),
        }
    }

    fn capacity(&self) -> (r: Option<u64>) {
        match self {
            Storage::Physical(s) => s.capacity(),
            Storage::SubDirectory(s) => s.capacity(),
            Storage::Online(s) => s.capacity(),
        }
    }

    fn local_info(&self, device: &Device) -> (r: Option<&LocalInfo>) {
        match self {
            Storage::Physical(s) => s.local_info(device),
            Storage::SubDirectory(s) => s.local_info(device),
            Storage::Online(s) => s.local_info(device),
        }
    }

    fn mount_path(&self, device: &Device) -> (r: Option<String>) {
        match self {
            Storage::Physical(s) => s.mount_path(device),
            Storage::SubDirectory(s) => s.mount_path(device),
            Storage::Online(s) => s.mount_path(device),
        }
    }

    fn bound_on_device(&mut self, alias: String, mount_point: String, device: &Device) -> (r: Option<LocalInfo>) {
        match self {
            Storage::Physical(s) => s.bound_on_device(alias, mount_point, device),
            Storage::SubDirectory(s) => s.bound_on_device(alias, mount_point, device),
            Storage::Online(s) => s.bound_on_device(alias, mount_point, device),
        }
    }

    fn parent<'a>(&'a self, storages: &'a Storages) -> (r: Option<&'a Storage>) {
        match self {
            Storage::Physical(s) => s.parent(storages),
            Storage::SubDirectory(s) => s.parent(storages),
            Storage::Online(s) => s.parent(storages),
        }
    }
}

/// The storages of the catalog, each under its name.
#[derive(Debug)]
pub struct Storages {
    list: NameMap<Storage>,
}

impl View for Storages {
    type V = Map<Seq<char>, StorageView>;

    closed spec fn view(&self) -> Map<Seq<char>, StorageView> {
        self.list@
    }
}

/// What [`Storages::add`] makes of the storages `m` when given `s`.
pub open spec fn spec_add(m: Map<Seq<char>, StorageView>, s: StorageView) -> (
    Result<(), Error>,
    Map<Seq<char>, StorageView>,
) {
    if m.dom().contains(s.name()) {
        (Err(Error::NameConflict), m)
    } else {
        (Ok(()), m.insert(s.name(), s))
    }
}

/// Whether some storage of `m` names `name` as its parent.
pub open spec fn has_child(m: Map<Seq<char>, StorageView>, name: Seq<char>) -> bool {
    exists|k: Seq<char>| m.dom().contains(k) && (#[trigger] m[k]).parent_name() == Some(name)
}

/// What [`Storages::remove`] makes of the storages `m` when asked to remove
/// the storage named `name`.
pub open spec fn spec_remove(m: Map<Seq<char>, StorageView>, name: Seq<char>) -> (
    Result<Option<StorageView>, Error>,
    Map<Seq<char>, StorageView>,
) {
    if !m.dom().contains(name) {
        (Ok(None), m)
    } else if has_child(m, name) {
        (Err(Error::DependencyError), m)
    } else {
        (Ok(Some(m[name])), m.remove(name))
    }
}

/// What [`Storages::bind`] makes of the storages `m`.
pub open spec fn spec_bind(
    m: Map<Seq<char>, StorageView>,
    name: Seq<char>,
    device: Seq<char>,
    info: LocalInfoView,
) -> (Result<(), Error>, Map<Seq<char>, StorageView>) {
    if !m.dom().contains(name) {
        (Err(Error::NotFound), m)
    } else if m[name].local_infos().dom().contains(device) {
        (Err(Error::AlreadyBound), m)
    } else {
        (Ok(()), m.insert(name, m[name].bound(device, info)))
    }
}

/// The view of the outcome of a removal.
pub open spec fn removed_of(r: Result<Option<Storage>, Error>) -> Result<Option<StorageView>, Error> {
    match r {
        Ok(Some(s)) => Ok(Some(s@)),
        Ok(None) => Ok(None),
        Err(e) => Err(e),
    }
}

/// The text of a path that was resolved, or why it was not.
pub open spec fn path_of(r: Result<String, Error>) -> Result<Seq<char>, Error> {
    match r {
        Ok(p) => Ok(p@),
        Err(e) => Err(e),
    }
}

/// The mount path of the storage `s` on the device named `device`, looked up
/// in the storages `m` through at most `depth` parents.
///
/// A physical or an online storage is mounted where it is bound on the
/// device. A sub-directory lies at its relative path below the mount path of
/// its parent, whatever the sub-directory itself is bound to.
pub open spec fn resolve(m: Map<Seq<char>, StorageView>, s: StorageView, device: Seq<char>, depth: nat) -> Result<
    Seq<char>,
    Error,
>
    decreases depth,
{
    match s {
        StorageView::SubDirectory(d) => if !m.dom().contains(d.parent) {
            Err(Error::UnresolvedReference)
        } else if depth == 0 {
            Err(Error::ParentCycle)
        } else {
            match resolve(m, m[d.parent], device, (depth - 1) as nat) {
                Ok(base) => Ok(join_all(base, d.relative_path)),
                Err(e) => Err(e),
            }
        },
        _ => match s.bound_path(device) {
            Some(p) => Ok(p),
            None => Err(Error::Unbound),
        },
    }
}

/// Looking up more parents than a storage has changes nothing: where the
/// chain of parents ends within `depth` steps, a greater depth resolves to
/// the same path or fails in the same way.
pub proof fn lemma_resolve_stable(m: Map<Seq<char>, StorageView>, s: StorageView, device: Seq<char>, depth: nat)
    requires
        resolve(m, s, device, depth) != Err::<Seq<char>, Error>(Error::ParentCycle),
    ensures
        resolve(m, s, device, depth + 1) == resolve(m, s, device, depth),
    decreases depth,
{
    match s {
        StorageView::SubDirectory(d) => {
            if m.dom().contains(d.parent) && depth > 0 {
                lemma_resolve_stable(m, m[d.parent], device, (depth - 1) as nat);
            }
        },
        _ => {},
    }
}

fn resolve_within(storage: &Storage, device: &Device, storages: &Storages, depth: usize) -> (r: Result<
    String,
    Error,
>)
    ensures
        path_of(r) == resolve(storages@, storage@, device@.name, depth as nat),
    decreases depth,
{
    match storage {
        Storage::SubDirectory(d) => match storages.get(d.parent_name()) {
            None => Err(Error::UnresolvedReference),
            Some(parent) => if depth == 0 {
                Err(Error::ParentCycle)
            } else {
                match resolve_within(parent, device, storages, depth - 1) {
                    Ok(base) => Ok(join_components(base, d.relative_path())),
                    Err(e) => Err(e),
                }
            },
        },
        _ => match storage.mount_path(device) {
            Some(p) => Ok(p),
            None => Err(Error::Unbound),
        },
    }
}

/// Resolves the path at which `storage` is mounted on `device`.
///
/// Fails with [`Error::Unbound`] where the storage, or for a sub-directory
/// the storage at the end of its chain of parents, is not bound on `device`;
/// with [`Error::UnresolvedReference`] where a parent is not in `storages`;
/// with [`Error::ParentCycle`] where the chain of parents is longer than
/// `storages`, which only a circle of parents can make it.
pub fn mount_path(storage: &Storage, device: &Device, storages: &Storages) -> (r: Result<String, Error>)
    ensures
        path_of(r) == storages.mount_path_of(storage@, device@.name),
{
    resolve_within(storage, device, storages, storages.len())
}

impl Storages {
    /// The mount path of the storage `s` on the device named `device`, with
    /// these storages to look up parents in.
    pub open spec fn mount_path_of(&self, s: StorageView, device: Seq<char>) -> Result<Seq<char>, Error> {
        resolve(self@, s, device, self.listing().len())
    }

    /// The number of storages.
    pub fn len(&self) -> (n: usize)
        ensures
            n == self.listing().len(),
    {
        self.list.len()
    }

    /// The name of the storage at position `i` of the listing.
    pub fn name_at(&self, i: usize) -> (r: &String)
        requires
            i < self.listing().len(),
        ensures
            r@ == self.listing()[i as int].0,
    {
        self.list.key_at(i)
    }

    /// The storage at position `i` of the listing.
    pub fn storage_at(&self, i: usize) -> (r: &Storage)
        requires
            i < self.listing().len(),
        ensures
            r@ == self.listing()[i as int].1,
            self@.dom().contains(self.listing()[i as int].0),
            self@[self.listing()[i as int].0] == r@,
            r@.name() == self.listing()[i as int].0,
    {
        proof {
            use_type_invariant(self);
            lemma_map_of(self.listing());
        }
        self.list.value_at(i)
    }

    /// Add new [`Storage`] to [`Storages`]
    /// New `storage` must has new unique name: where the name is taken, the
    /// storages stay as they are and the call fails with
    /// [`Error::NameConflict`].
    pub fn add(&mut self, storage: Storage) -> (r: Result<(), Error>)
        ensures
            (r, final(self)@) == spec_add(old(self)@, storage@),
    {
        proof {
            use_type_invariant(&*self);
        }
        if self.list.contains_key(storage.name()) {
            return Err(Error::NameConflict);
        }
        let name: String = storage.name().clone();
        let mut list: NameMap<Storage> = NameMap::new();
        std::mem::swap(&mut list, &mut self.list);
        list.insert(name, storage);
        proof {
            use_type_invariant(&list);
        }
        self.list = list;
        Ok(())
    }

    /// Whether some storage names `name` as its parent.
    pub fn has_children(&self, name: &String) -> (r: bool)
        ensures
            r == has_child(self@, name@),
    {
        proof {
            use_type_invariant(self);
            lemma_map_of(self.listing());
        }
        let mut i: usize = 0;
        while i < self.list.len()
            invariant
                i <= self.listing().len(),
                self.well_formed(),
                forall|j: int| 0 <= j < i ==> (#[trigger] self.listing()[j]).1.parent_name() != Some(name@),
            decreases self.listing().len() - i,
        {
            let found: bool = match self.list.value_at(i).parent_name() {
                Some(p) => *p == *name,
                None => false,
            };
            if found {
                proof {
                    lemma_map_of(self.listing());
                    let k = self.listing()[i as int].0;
                    assert(self@.dom().contains(k) && self@[k].parent_name() == Some(name@));
                }
                return true;
            }
            i += 1;
        }
        proof {
            lemma_map_of(self.listing());
            assert forall|k: Seq<char>| self@.dom().contains(k) implies (#[trigger] self@[k]).parent_name()
                != Some(name@) by {
                let j = crate::name_map::index_of(self.listing(), k);
                assert(self.listing()[j].1 == self@[k]);
            }
        }
        false
    }

    /// Remove `storage` from [`Storages`] and return it. A storage that
    /// others name as their parent stays, and the call fails with
    /// [`Error::DependencyError`]. Only the name of `storage` is looked at.
    pub fn remove(&mut self, storage: &Storage) -> (r: Result<Option<Storage>, Error>)
        ensures
            (removed_of(r), final(self)@) == spec_remove(old(self)@, storage@.name()),
    {
        proof {
            use_type_invariant(&*self);
        }
        let name: &String = storage.name();
        if !self.list.contains_key(name) {
            return Ok(None);
        }
        if self.has_children(name) {
            return Err(Error::DependencyError);
        }
        let mut list: NameMap<Storage> = NameMap::new();
        std::mem::swap(&mut list, &mut self.list);
        let gone = list.remove(name);
        proof {
            use_type_invariant(&list);
        }
        self.list = list;
        Ok(gone)
    }

    /// Binds the storage named `storage_name` on `device` under `alias` at
    /// `mount_point`. Fails with [`Error::NotFound`] where there is no such
    /// storage and with [`Error::AlreadyBound`] where it is bound on the
    /// device already; the storages then stay as they are.
    pub fn bind(&mut self, storage_name: &String, alias: String, mount_point: String, device: &Device) -> (r:
        Result<(), Error>)
        ensures
            (r, final(self)@) == spec_bind(
                old(self)@,
                storage_name@,
                device@.name,
                LocalInfoView { alias: alias@, mount_path: mount_point@ },
            ),
    {
        proof {
            use_type_invariant(&*self);
        }
        match self.list.get(storage_name) {
            None => {
                return Err(Error::NotFound);
            },
            Some(s) => {
                if s.has_alias(device) {
                    return Err(Error::AlreadyBound);
                }
            },
        }
        let ghost before = self@;
        let mut list: NameMap<Storage> = NameMap::new();
        std::mem::swap(&mut list, &mut self.list);
        match list.remove(storage_name) {
            Some(mut s) => {
                let _replaced = s.bound_on_device(alias, mount_point, device);
                let key: String = storage_name.clone();
                list.insert(key, s);
                proof {
                    use_type_invariant(&list);
                    assert(list@ =~= before.insert(storage_name@, s@));
                }
            },
            None => {},
        }
        self.list = list;
        Ok(())
    }

    /// The names of the storages, in name order.
    pub fn names(&self) -> (r: Vec<String>)
        ensures
            r.len() == self.listing().len(),
            forall|i: int| 0 <= i < r.len() ==> (#[trigger] r[i])@ == self.listing()[i].0,
            forall|i: int, j: int| 0 <= i < j < r.len() ==> crate::text::text_lt(r[i]@, r[j]@),
            forall|i: int| 0 <= i < r.len() ==> self@.dom().contains((#[trigger] r[i])@),
            forall|k: Seq<char>| self@.dom().contains(k) ==> exists|i: int| 0 <= i < r.len() && (#[trigger] r[i])@ == k,
    {
        proof {
            use_type_invariant(self);
            lemma_map_of(self.listing());
        }
        let mut out: Vec<String> = Vec::new();
        let mut i: usize = 0;
        while i < self.list.len()
            invariant
                i <= self.listing().len(),
                out.len() == i,
                forall|j: int| 0 <= j < i ==> (#[trigger] out[j])@ == self.listing()[j].0,
            decreases self.listing().len() - i,
        {
            out.push(self.list.key_at(i).clone());
            i += 1;
        }
        proof {
            assert forall|a: int, b: int| 0 <= a < b < out.len() implies crate::text::text_lt(out[a]@, out[b]@) by {
                assert(out[a]@ == self.listing()[a].0);
                assert(out[b]@ == self.listing()[b].0);
            }
            assert forall|k: Seq<char>| self@.dom().contains(k) implies exists|i: int|
                0 <= i < out.len() && (#[trigger] out[i])@ == k by {
                let j = crate::name_map::index_of(self.listing(), k);
                assert(out[j]@ == k);
            }
        }
        out
    }

    /// The storages in the order in which they are listed: by name.
    pub closed spec fn listing(&self) -> Seq<(Seq<char>, StorageView)> {
        self.list.seq()
    }

    /// Each storage is filed under its own name, and the listing is in name
    /// order and holds what the map holds.
    #[verifier::type_invariant]
    pub open spec fn well_formed(&self) -> bool {
        &&& crate::name_map::sorted_keys(self.listing())
        &&& self@ == crate::name_map::map_of(self.listing())
        &&& forall|k: Seq<char>| #[trigger] self@.dom().contains(k) ==> self@[k].name() == k
    }

    /// Construct empty [`Storages`]
    pub fn new() -> (r: Storages)
        ensures
            r@ == Map::<Seq<char>, StorageView>::empty(),
            r.listing().len() == 0,
    {
        Storages { list: NameMap::new() }
    }

    /// Get [`Storage`] with `name`.
    pub fn get(&self, name: &String) -> (r: Option<&Storage>)
        ensures
            storage_of(r) == (if self@.dom().contains(name@) {
                Some(self@[name@])
            } else {
                None
            }),
    {
        self.list.get(name)
    }
}

} // verus!
