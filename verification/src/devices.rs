//! The devices that take part in the catalog.
use crate::error::Error;
use vstd::prelude::*;

verus! {

/// What a [`Device`] holds, as texts.
pub struct DeviceView {
    pub name: Seq<char>,
    pub os_name: Seq<char>,
    pub os_version: Seq<char>,
    pub hostname: Seq<char>,
}

/// One participating machine. It is identified by its name; the name of its
/// operating system, the version of that and the host name are kept for
/// information.
#[derive(Debug, Clone)]
pub struct Device {
    name: String,
    os_name: String,
    os_version: String,
    hostname: String,
}

impl View for Device {
    type V = DeviceView;

    closed spec fn view(&self) -> DeviceView {
        DeviceView {
            name: self.name@,
            os_name: self.os_name@,
            os_version: self.os_version@,
            hostname: self.hostname@,
        }
    }
}

/// Calls `sysinfo::System::name`, which asks the machine for the name of its
/// operating system. Nothing is claimed of what it returns.
#[verifier::external_body]
fn system_name() -> (r: Option<String>) {
    sysinfo::System::name()
}

/// Calls `sysinfo::System::os_version`, which asks the machine for the
/// version of its operating system. Nothing is claimed of what it returns.
#[verifier::external_body]
fn system_os_version() -> (r: Option<String>) {
    sysinfo::System::os_version()
}

/// Calls `sysinfo::System::host_name`, which asks the machine for its host
/// name. Nothing is claimed of what it returns.
#[verifier::external_body]
fn system_host_name() -> (r: Option<String>) {
    sysinfo::System::host_name()
}

/// The text that stands for a piece of information that could not be had.
pub open spec fn unknown() -> Seq<char> {
    seq!['u', 'n', 'k', 'n', 'o', 'w', 'n']
}

/// The text of `value`, or [`unknown`] where there is none.
pub open spec fn or_unknown(value: Option<String>) -> Seq<char> {
    match value {
        Some(s) => s@,
        None => unknown(),
    }
}

/// The device named `name` with the given information on the machine.
pub open spec fn described(
    name: Seq<char>,
    os_name: Option<String>,
    os_version: Option<String>,
    hostname: Option<String>,
) -> DeviceView {
    DeviceView {
        name,
        os_name: or_unknown(os_name),
        os_version: or_unknown(os_version),
        hostname: or_unknown(hostname),
    }
}

fn text_or_unknown(value: Option<String>) -> (r: String)
    ensures
        r@ == or_unknown(value),
{
    match value {
        Some(s) => s,
        None => {
            let r: String = "unknown".to_owned();
            proof {
                reveal_strlit("unknown");
                assert(r@ =~= unknown());
            }
            r
        },
    }
}

impl Device {
    /// The device named `name` with the given information on the machine,
    /// each piece saved as "unknown" where it is missing.
    pub fn from_parts(
        name: String,
        os_name: Option<String>,
        os_version: Option<String>,
        hostname: Option<String>,
    ) -> (r: Device)
        ensures
            r@ == described(name@, os_name, os_version, hostname),
    {
        Device {
            name,
            os_name: text_or_unknown(os_name),
            os_version: text_or_unknown(os_version),
            hostname: text_or_unknown(hostname),
        }
    }

    /// The device named `name`, described by what this machine tells of
    /// itself.
    pub fn new(name: String) -> (r: Device)
        ensures
            r@.name == name@,
            exists|os_name: Option<String>, os_version: Option<String>, hostname: Option<String>|
                r@ == described(name@, os_name, os_version, hostname),
    {
        let os_name = system_name();
        let os_version = system_os_version();
        let hostname = system_host_name();
        let r = Device::from_parts(name, os_name, os_version, hostname);
        assert(r@ == described(name@, os_name, os_version, hostname));
        r
    }

    /// The name of the device.
    pub fn name(&self) -> (r: String)
        ensures
            r@ == self@.name,
    {
        self.name.clone()
    }

    /// The name of the operating system of the device.
    pub fn os_name(&self) -> (r: String)
        ensures
            r@ == self@.os_name,
    {
        self.os_name.clone()
    }

    /// The version of the operating system of the device.
    pub fn os_version(&self) -> (r: String)
        ensures
            r@ == self@.os_version,
    {
        self.os_version.clone()
    }

    /// The host name of the device.
    pub fn hostname(&self) -> (r: String)
        ensures
            r@ == self@.hostname,
    {
        self.hostname.clone()
    }
}

/// The names of a list of devices.
pub open spec fn device_names(devices: Seq<Device>) -> Seq<Seq<char>> {
    Seq::new(devices.len(), |i: int| devices[i]@.name)
}

/// The position of the first device named `name` in `devices`.
pub fn find_device(devices: &[Device], name: &String) -> (r: Option<usize>)
    ensures
        match r {
            Some(i) => i < devices.len() && devices[i as int]@.name == name@ && forall|j: int|
                0 <= j < i ==> (#[trigger] devices[j])@.name != name@,
            None => forall|j: int| 0 <= j < devices.len() ==> (#[trigger] devices[j])@.name != name@,
        },
{
    let mut i: usize = 0;
    while i < devices.len()
        invariant
            i <= devices.len(),
            forall|j: int| 0 <= j < i ==> (#[trigger] devices[j])@.name != name@,
        decreases devices.len() - i,
    {
        if devices[i].name == *name {
            return Some(i);
        }
        i += 1;
    }
    None
}

/// The current device: the first of `devices` that is named `devname`.
/// Fails with [`Error::NotFound`] where none is.
pub fn get_device(devname: &String, devices: Vec<Device>) -> (r: Result<Device, Error>)
    ensures
        match r {
            Ok(d) => exists|i: int|
                0 <= i < devices.len() && d == #[trigger] devices[i] && d@.name == devname@ && forall|j: int|
                    0 <= j < i ==> (#[trigger] devices[j])@.name != devname@,
            Err(e) => e == Error::NotFound && forall|j: int|
                0 <= j < devices.len() ==> (#[trigger] devices[j])@.name != devname@,
        },
{
    let mut devices = devices;
    match find_device(devices.as_slice(), devname) {
        Some(i) => Ok(devices.remove(i)),
        None => Err(Error::NotFound),
    }
}

/// Whether `name` can name a device: it can unless it is empty.
pub fn is_valid_name(name: &String) -> (r: bool)
    ensures
        r == (name@.len() > 0),
{
    name.as_str().unicode_len() > 0
}

/// What [`register_device`] makes of the devices named `names` when given a
/// device named `name`.
pub open spec fn registered(names: Seq<Seq<char>>, name: Seq<char>) -> Result<Seq<Seq<char>>, Error> {
    if name.len() == 0 {
        Err(Error::EmptyName)
    } else if names.contains(name) {
        Err(Error::NameConflict)
    } else {
        Ok(names.push(name))
    }
}

/// The names of the devices that were registered, or why none was.
pub open spec fn registered_names(r: Result<Vec<Device>, Error>) -> Result<Seq<Seq<char>>, Error> {
    match r {
        Ok(devices) => Ok(device_names(devices@)),
        Err(e) => Err(e),
    }
}

/// Adds `device` to the devices that take part. Fails with
/// [`Error::EmptyName`] where the device has no name and with
/// [`Error::NameConflict`] where its name is taken. The devices that were
/// there stay as they are, in their order, and the new one comes last.
pub fn register_device(devices: Vec<Device>, device: Device) -> (r: Result<Vec<Device>, Error>)
    ensures
        registered_names(r) == registered(device_names(devices@), device@.name),
        r.is_ok() ==> r.unwrap()@ == devices@.push(device),
{
    if !is_valid_name(&device.name) {
        return Err(Error::EmptyName);
    }
    let ghost names = device_names(devices@);
    match find_device(devices.as_slice(), &device.name) {
        Some(i) => {
            assert(names[i as int] == device@.name);
            Err(Error::NameConflict)
        },
        None => {
            proof {
                assert forall|j: int| 0 <= j < names.len() implies names[j] != device@.name by {
                    assert(names[j] == devices@[j]@.name);
                }
            }
            let mut devices = devices;
            devices.push(device);
            assert(device_names(devices@) =~= names.push(device@.name));
            Ok(devices)
        },
    }
}

} // verus!
