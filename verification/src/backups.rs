//! Backup config and its history.
use crate::devices::{find_device, Device};
use crate::error::Error;
use crate::name_map::NameMap;
use crate::paths::{join_all, join_components, joined_path, path_join};
use crate::storages::{mount_path, path_of, Storages};
use crate::text::texts;
use vstd::prelude::*;
use vstd::string::StringExecFns;

verus! {

/// The text of the name of the directory that holds the backups of each
/// device.
pub open spec fn backups_dir() -> Seq<char> {
    seq!['b', 'a', 'c', 'k', 'u', 'p', 's']
}

/// The text of the extension of the file of a device.
pub open spec fn yml() -> Seq<char> {
    seq!['.', 'y', 'm', 'l']
}

/// File to store backups for the `device`.
/// Relative path from the config directory.
pub fn backups_file(device: &Device) -> (r: String)
    ensures
        r@ == joined_path(backups_dir(), device@.name + yml()),
{
    let dir: String = "backups".to_owned();
    let mut file: String = device.name();
    file.append(".yml");
    proof {
        reveal_strlit("backups");
        reveal_strlit(".yml");
        assert(dir@ =~= backups_dir());
        assert(file@ =~= device@.name + yml());
    }
    path_join(&dir, &file)
}

/// What a [`BackupTarget`] holds.
pub struct BackupTargetView {
    pub storage: Seq<char>,
    pub path: Seq<Seq<char>>,
}

/// Targets for backup source or destination.
#[derive(Debug, Clone)]
pub struct BackupTarget {
    /// `name()` of [`crate::storages::Storage`].
    pub storage: String,
    /// Relative path to the `storage`, by its components.
    pub path: Vec<String>,
}

impl View for BackupTarget {
    type V = BackupTargetView;

    open spec fn view(&self) -> BackupTargetView {
        BackupTargetView { storage: self.storage@, path: texts(self.path@) }
    }
}

/// The absolute path of the target `target` on the device named `device`:
/// the mount path of its storage with the components of its path joined to
/// it in turn.
pub open spec fn target_path(target: BackupTargetView, storages: &Storages, device: Seq<char>) -> Result<
    Seq<char>,
    Error,
> {
    if !storages@.dom().contains(target.storage) {
        Err(Error::UnresolvedReference)
    } else {
        match storages.mount_path_of(storages@[target.storage], device) {
            Ok(root) => Ok(join_all(root, target.path)),
            Err(e) => Err(e),
        }
    }
}

impl BackupTarget {
    pub fn new(storage_name: String, relative_path: Vec<String>) -> (r: Self)
        ensures
            r@ == (BackupTargetView { storage: storage_name@, path: texts(relative_path@) }),
    {
        BackupTarget { storage: storage_name, path: relative_path }
    }

    /// The absolute path of the target on `device`. Fails with
    /// [`Error::UnresolvedReference`] where the storage of the target is not
    /// in `storages`, and as [`mount_path`] does where the storage does not
    /// resolve on `device`.
    pub fn path(&self, storages: &Storages, device: &Device) -> (r: Result<String, Error>)
        ensures
            path_of(r) == target_path(self@, storages, device@.name),
    {
        match storages.get(&self.storage) {
            None => Err(Error::UnresolvedReference),
            Some(parent) => match mount_path(parent, device, storages) {
                Ok(root) => Ok(join_components(root, &self.path)),
                Err(e) => Err(e),
            },
        }
    }
}

/// What an [`ExternallyInvoked`] holds.
pub struct ExternallyInvokedView {
    pub name: Seq<char>,
    pub note: Seq<char>,
}

/// What a [`BackupCommand`] holds.
pub enum BackupCommandView {
    ExternallyInvoked(ExternallyInvokedView),
}

/// Type of backup commands.
#[derive(Debug, Clone)]
pub enum BackupCommand {
    ExternallyInvoked(ExternallyInvoked),
}

impl View for BackupCommand {
    type V = BackupCommandView;

    open spec fn view(&self) -> BackupCommandView {
        match self {
            BackupCommand::ExternallyInvoked(cmd) => BackupCommandView::ExternallyInvoked(cmd@),
        }
    }
}

pub trait BackupCommandExt {
    /// The name of the command.
    spec fn command_name(&self) -> Seq<char>;

    /// The note on the command.
    spec fn command_note(&self) -> Seq<char>;

    fn name(&self) -> (r: &String)
        ensures
            r@ == self.command_name(),
    ;

    fn note(&self) -> (r: &String)
        ensures
            r@ == self.command_note(),
    ;
}

impl BackupCommandExt for BackupCommand {
    open spec fn command_name(&self) -> Seq<char> {
        match self@ {
            BackupCommandView::ExternallyInvoked(cmd) => cmd.name,
        }
    }

    open spec fn command_note(&self) -> Seq<char> {
        match self@ {
            BackupCommandView::ExternallyInvoked(cmd) => cmd.note,
        }
    }

    fn name(&self) -> (r: &String) {
        match self {
            BackupCommand::ExternallyInvoked(cmd) => cmd.name(),
        }
    }

    fn note(&self) -> (r: &String) {
        match self {
            BackupCommand::ExternallyInvoked(cmd) => cmd.note(),
        }
    }
}

/// Backup commands which is not invoked from xdbm itself.
/// Call xdbm externally to record backup datetime and status.
#[derive(Debug, Clone)]
pub struct ExternallyInvoked {
    name: String,
    pub note: String,
}

impl View for ExternallyInvoked {
    type V = ExternallyInvokedView;

    closed spec fn view(&self) -> ExternallyInvokedView {
        ExternallyInvokedView { name: self.name@, note: self.note@ }
    }
}

impl ExternallyInvoked {
    pub fn new(name: String, note: String) -> (r: Self)
        ensures
            r@ == (ExternallyInvokedView { name: name@, note: note@ }),
    {
        ExternallyInvoked { name, note }
    }
}

impl BackupCommandExt for ExternallyInvoked {
    open spec fn command_name(&self) -> Seq<char> {
        self@.name
    }

    open spec fn command_note(&self) -> Seq<char> {
        self@.note
    }

    fn name(&self) -> (r: &String) {
        &self.name
    }

    fn note(&self) -> (r: &String) {
        &self.note
    }
}

/// A point in time: whole seconds since the start of 1970 in UTC, and the
/// nanoseconds since the last whole second.
#[derive(Clone, Copy, Debug, PartialEq, Eq, Structural)]
pub struct Timestamp {
    pub seconds: i64,
    pub nanoseconds: u32,
}

impl Timestamp {
    /// Whether `self` is earlier than `other`.
    pub open spec fn before(self, other: Timestamp) -> bool {
        self.seconds < other.seconds || (self.seconds == other.seconds && self.nanoseconds < other.nanoseconds)
    }

    /// Tells whether `self` is earlier than `other`.
    pub fn is_before(&self, other: &Timestamp) -> (r: bool)
        ensures
            r == self.before(*other),
    {
        self.seconds < other.seconds || (self.seconds == other.seconds && self.nanoseconds < other.nanoseconds)
    }
}

/// Result of backup.
#[derive(Clone, Copy, Debug, PartialEq, Eq, Structural)]
pub enum BackupResult {
    Success,
    Failure,
}

impl BackupResult {
    /// The result that the exit code `code` of a command stands for.
    pub open spec fn of_exit_code(code: u64) -> BackupResult {
        if code == 0 {
            BackupResult::Success
        } else {
            BackupResult::Failure
        }
    }

    pub fn from_exit_code(code: u64) -> (r: Self)
        ensures
            r == BackupResult::of_exit_code(code),
    {
        if code == 0 {
            Self::Success
        } else {
            Self::Failure
        }
    }
}

/// What a [`BackupLog`] holds.
pub struct BackupLogView {
    pub datetime: Timestamp,
    pub status: BackupResult,
    pub log: Seq<char>,
}

/// Backup execution log.
#[derive(Debug, Clone)]
pub struct BackupLog {
    pub datetime: Timestamp,
    status: BackupResult,
    log: String,
}

impl View for BackupLog {
    type V = BackupLogView;

    closed spec fn view(&self) -> BackupLogView {
        BackupLogView { datetime: self.datetime, status: self.status, log: self.log@ }
    }
}

impl BackupLog {
    /// The log of a backup that ended at `datetime`.
    pub fn new(datetime: Timestamp, status: BackupResult, log: String) -> (r: BackupLog)
        ensures
            r@ == (BackupLogView { datetime, status, log: log@ }),
    {
        BackupLog { datetime, status, log }
    }

    /// How the backup ended.
    pub fn status(&self) -> (r: BackupResult)
        ensures
            r == self@.status,
    {
        self.status
    }

    /// The note on the run.
    pub fn log(&self) -> (r: &String)
        ensures
            r@ == self@.log,
    {
        &self.log
    }

    /// When the backup ended.
    pub fn datetime(&self) -> (r: Timestamp)
        ensures
            r == self@.datetime,
    {
        self.datetime
    }
}

/// What a [`Backup`] holds.
pub struct BackupView {
    pub name: Seq<char>,
    pub device: Seq<char>,
    pub from: BackupTargetView,
    pub to: BackupTargetView,
    pub command: BackupCommandView,
    pub logs: Seq<BackupLogView>,
}

/// The views of a list of logs.
pub open spec fn log_views(logs: Seq<BackupLog>) -> Seq<BackupLogView> {
    Seq::new(logs.len(), |i: int| logs[i]@)
}

/// Whether the log at position `i` is the last backup of `logs`: none is
/// later, and of those that are as late it was added last.
pub open spec fn is_latest(logs: Seq<BackupLogView>, i: int) -> bool {
    &&& 0 <= i < logs.len()
    &&& forall|j: int| 0 <= j < logs.len() ==> !logs[i].datetime.before((#[trigger] logs[j]).datetime)
    &&& forall|j: int| i < j < logs.len() ==> (#[trigger] logs[j]).datetime.before(logs[i].datetime)
}

/// A history has one last backup at most.
pub proof fn lemma_latest_unique(logs: Seq<BackupLogView>, i: int, j: int)
    requires
        is_latest(logs, i),
        is_latest(logs, j),
    ensures
        i == j,
{
    if i < j {
        assert(logs[j].datetime.before(logs[i].datetime));
    } else if j < i {
        assert(logs[i].datetime.before(logs[j].datetime));
    }
}

/// Of two logs the later one is the last backup, in whichever order they
/// were added.
pub proof fn lemma_latest_of_two(earlier: BackupLogView, later: BackupLogView)
    requires
        earlier.datetime.before(later.datetime),
    ensures
        is_latest(seq![earlier, later], 1),
        is_latest(seq![later, earlier], 0),
{
}

/// Backup source, destination, command and logs.
#[derive(Debug, Clone)]
pub struct Backup {
    /// must be unique
    name: String,
    /// name of [`Device`]
    device: String,
    from: BackupTarget,
    to: BackupTarget,
    command: BackupCommand,
    logs: Vec<BackupLog>,
}

impl View for Backup {
    type V = BackupView;

    closed spec fn view(&self) -> BackupView {
        BackupView {
            name: self.name@,
            device: self.device@,
            from: self.from@,
            to: self.to@,
            command: self.command@,
            logs: log_views(self.logs@),
        }
    }
}

impl Backup {
    /// With empty logs.
    pub fn new(name: String, device_name: String, from: BackupTarget, to: BackupTarget, command: BackupCommand) -> (r:
        Self)
        ensures
            r@ == (BackupView {
                name: name@,
                device: device_name@,
                from: from@,
                to: to@,
                command: command@,
                logs: Seq::<BackupLogView>::empty(),
            }),
    {
        let r = Backup { name, device: device_name, from, to, command, logs: Vec::new() };
        assert(r@.logs =~= Seq::<BackupLogView>::empty());
        r
    }

    pub fn name(&self) -> (r: &String)
        ensures
            r@ == self@.name,
    {
        &self.name
    }

    /// The name of the device that the backup runs on.
    pub fn device_name(&self) -> (r: &String)
        ensures
            r@ == self@.device,
    {
        &self.device
    }

    /// The device that the backup runs on: the first of `devices` that has
    /// the name that the backup holds, if one has.
    pub fn device<'a>(&'a self, devices: &'a [Device]) -> (r: Option<&'a Device>)
        ensures
            match r {
                Some(d) => exists|i: int|
                    0 <= i < devices@.len() && *d == #[trigger] devices@[i] && d@.name == self@.device && forall|j: int|
                        0 <= j < i ==> (#[trigger] devices@[j])@.name != self@.device,
                None => forall|j: int| 0 <= j < devices@.len() ==> (#[trigger] devices@[j])@.name != self@.device,
            },
    {
        match find_device(devices, &self.device) {
            Some(i) => Some(&devices[i]),
            None => None,
        }
    }

    pub fn source(&self) -> (r: &BackupTarget)
        ensures
            r@ == self@.from,
    {
        &self.from
    }

    pub fn destination(&self) -> (r: &BackupTarget)
        ensures
            r@ == self@.to,
    {
        &self.to
    }

    pub fn command(&self) -> (r: &BackupCommand)
        ensures
            r@ == self@.command,
    {
        &self.command
    }

    /// The history, in the order in which the logs were added.
    pub fn logs(&self) -> (r: &Vec<BackupLog>)
        ensures
            log_views(r@) == self@.logs,
    {
        &self.logs
    }

    /// Appends `newlog` to the history, whatever its time.
    pub fn add_log(&mut self, newlog: BackupLog)
        ensures
            final(self)@ == (BackupView { logs: old(self)@.logs.push(newlog@), ..old(self)@ }),
    {
        self.logs.push(newlog);
        assert(log_views(self.logs@) =~= log_views(old(self).logs@).push(newlog@));
    }

    /// Get the last backup: the log with the latest time, and of several
    /// with that time the one that was added last. None where the backup
    /// never ran.
    pub fn last_backup(&self) -> (r: Option<&BackupLog>)
        ensures
            match r {
                Some(l) => exists|i: int| is_latest(self@.logs, i) && l@ == #[trigger] self@.logs[i],
                None => self@.logs.len() == 0,
            },
    {
        if self.logs.len() == 0 {
            return None;
        }
        let mut best: usize = 0;
        let mut i: usize = 1;
        while i < self.logs.len()
            invariant
                1 <= i <= self.logs.len(),
                is_latest(log_views(self.logs@).take(i as int), best as int),
            decreases self.logs.len() - i,
        {
            let ghost s = log_views(self.logs@);
            let next: usize = if self.logs[i].datetime.is_before(&self.logs[best].datetime) {
                best
            } else {
                i
            };
            proof {
                let t = s.take(i as int + 1);
                let u = s.take(i as int);
                assert forall|j: int| 0 <= j < i implies t[j] == u[j] by {}
                assert(t[i as int] == self.logs[i as int]@);
                assert(u[best as int] == self.logs[best as int]@);
                assert forall|j: int| 0 <= j < t.len() implies !t[next as int].datetime.before(
                    (#[trigger] t[j]).datetime,
                ) by {
                    if j < i {
                        assert(!u[best as int].datetime.before(u[j].datetime));
                    }
                }
                assert forall|j: int| next < j < t.len() implies (#[trigger] t[j]).datetime.before(
                    t[next as int].datetime,
                ) by {
                    if j < i {
                        assert(u[j].datetime.before(u[best as int].datetime));
                    }
                }
            }
            best = next;
            i += 1;
        }
        proof {
            assert(log_views(self.logs@).take(self.logs.len() as int) =~= log_views(self.logs@));
            assert(is_latest(self@.logs, best as int));
            assert(self@.logs[best as int] == self.logs[best as int]@);
        }
        Some(&self.logs[best])
    }
}

/// The backups of one device, each under a name.
#[derive(Debug, Clone)]
pub struct Backups {
    pub list: NameMap<Backup>,
}

impl View for Backups {
    type V = Map<Seq<char>, BackupView>;

    open spec fn view(&self) -> Map<Seq<char>, BackupView> {
        self.list@
    }
}

/// What [`Backups::add`] makes of the backups `m` when given `b`.
pub open spec fn spec_add_backup(m: Map<Seq<char>, BackupView>, b: BackupView) -> (
    Result<(), Error>,
    Map<Seq<char>, BackupView>,
) {
    if m.dom().contains(b.name) {
        (Err(Error::NameConflict), m)
    } else {
        (Ok(()), m.insert(b.name, b))
    }
}

/// The backups `m` after each of `added` has been handed to
/// [`Backups::add`] in turn.
pub open spec fn add_all_backups(m: Map<Seq<char>, BackupView>, added: Seq<BackupView>) -> Map<Seq<char>, BackupView>
    decreases added.len(),
{
    if added.len() == 0 {
        m
    } else {
        spec_add_backup(add_all_backups(m, added.drop_last()), added.last()).1
    }
}

/// Adding backups takes no name away.
pub proof fn lemma_add_all_backups_keeps_names(m: Map<Seq<char>, BackupView>, added: Seq<BackupView>, name: Seq<char>)
    requires
        m.dom().contains(name),
    ensures
        add_all_backups(m, added).dom().contains(name),
    decreases added.len(),
{
    if added.len() > 0 {
        lemma_add_all_backups_keeps_names(m, added.drop_last(), name);
    }
}

/// Names are unique: once a backup was handed to [`Backups::add`], a later
/// one of the same name is refused with [`Error::NameConflict`] and leaves
/// the backups as they were, whatever was added in between.
pub proof fn lemma_second_backup_conflicts(
    m: Map<Seq<char>, BackupView>,
    first: BackupView,
    between: Seq<BackupView>,
    second: BackupView,
)
    requires
        first.name == second.name,
    ensures
        spec_add_backup(add_all_backups(spec_add_backup(m, first).1, between), second) == (
            Err::<(), Error>(Error::NameConflict),
            add_all_backups(spec_add_backup(m, first).1, between),
        ),
{
    lemma_add_all_backups_keeps_names(spec_add_backup(m, first).1, between, first.name);
}

/// What [`Backups::add_log`] makes of the backups `m`.
pub open spec fn spec_add_log(m: Map<Seq<char>, BackupView>, name: Seq<char>, log: BackupLogView) -> (
    Result<(), Error>,
    Map<Seq<char>, BackupView>,
) {
    if m.dom().contains(name) {
        (Ok(()), m.insert(name, BackupView { logs: m[name].logs.push(log), ..m[name] }))
    } else {
        (Err(Error::NotFound), m)
    }
}

/// The view of an optional backup.
pub open spec fn backup_of(o: Option<&Backup>) -> Option<BackupView> {
    match o {
        Some(b) => Some(b@),
        None => None,
    }
}

impl Backups {
    /// Empty [`Backups`].
    pub fn new() -> (r: Backups)
        ensures
            r@ == Map::<Seq<char>, BackupView>::empty(),
    {
        Backups { list: NameMap::new() }
    }

    pub fn get(&self, name: &String) -> (r: Option<&Backup>)
        ensures
            backup_of(r) == (if self@.dom().contains(name@) {
                Some(self@[name@])
            } else {
                None
            }),
    {
        self.list.get(name)
    }

    /// The backup filed under `name`, if there is one, to be changed in
    /// place.
    pub fn get_mut(&mut self, name: &String) -> (r: Option<&mut Backup>)
        ensures
            match r {
                Some(b) => old(self)@.dom().contains(name@) && (*b)@ == old(self)@[name@] && final(self)@ == old(
                    self,
                )@.insert(name@, (*final(b))@),
                None => !old(self)@.dom().contains(name@) && final(self)@ == old(self)@,
            },
    {
        self.list.get_mut(name)
    }

    /// Add new [`Backup`].
    /// New `backup` must has new unique name: where the name is taken, the
    /// backups stay as they are and the call fails with
    /// [`Error::NameConflict`].
    pub fn add(&mut self, backup: Backup) -> (r: Result<(), Error>)
        ensures
            (r, final(self)@) == spec_add_backup(old(self)@, backup@),
    {
        if self.list.contains_key(backup.name()) {
            return Err(Error::NameConflict);
        }
        let name: String = backup.name().clone();
        self.list.insert(name, backup);
        Ok(())
    }

    /// Appends `newlog` to the history of the backup filed under `name`.
    /// Fails with [`Error::NotFound`] where there is none.
    pub fn add_log(&mut self, name: &String, newlog: BackupLog) -> (r: Result<(), Error>)
        ensures
            (r, final(self)@) == spec_add_log(old(self)@, name@, newlog@),
    {
        let ghost before = self@;
        match self.list.remove(name) {
            None => {
                assert(self@ =~= before);
                Err(Error::NotFound)
            },
            Some(mut backup) => {
                backup.add_log(newlog);
                self.list.insert(name.clone(), backup);
                assert(self@ =~= before.insert(name@, backup@));
                Ok(())
            },
        }
    }
}

} // verus!
