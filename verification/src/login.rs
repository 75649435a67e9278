//! The login form: its fields restored from the saved settings, the device
//! choices it shows, and what it saves back.
use vstd::prelude::*;
use vstd::string::StringExecFns;
use crate::devices::DeviceInfo;
use crate::protocol::DEFAULT_PORT;
use crate::text::{decimal, push_decimal, str_equal};

verus! {

/// The fields of the login form.
pub struct LoginForm {
    pub server_addr: String,
    pub username: String,
    pub room: String,
    pub password: String,
    /// Position of the chosen microphone in the input device list.
    pub selected_input: usize,
    /// Position of the chosen speaker in the output device list.
    pub selected_output: usize,
}

/// What the settings remember of the login form; `None` for what was never
/// saved.
pub struct SavedLogin {
    pub server_addr: Option<String>,
    pub username: Option<String>,
    pub room: Option<String>,
    pub input_device: Option<String>,
    pub output_device: Option<String>,
}

/// The names of a device list.
pub open spec fn device_names(devices: Seq<DeviceInfo>) -> Seq<Seq<char>> {
    devices.map_values(|d: DeviceInfo| d.name@)
}

/// Whether `i` is the first position of a device named `name`.
pub open spec fn first_named(devices: Seq<DeviceInfo>, name: Seq<char>, i: int) -> bool {
    0 <= i < devices.len() && devices[i].name@ == name && forall|j: int| 0 <= j < i ==> devices[j].name@ != name
}

/// The position of the first device named `name`, if any.
pub fn device_position(devices: &Vec<DeviceInfo>, name: &str) -> (r: Option<usize>)
    ensures
        match r {
            Some(i) => first_named(devices@, name@, i as int),
            None => !device_names(devices@).contains(name@),
        },
{
    let mut i: usize = 0;
    while i < devices.len()
        invariant
            0 <= i <= devices@.len(),
            forall|j: int| 0 <= j < i ==> devices@[j].name@ != name@,
        decreases devices@.len() - i,
    {
        if str_equal(devices[i].name.as_str(), name) {
            return Some(i);
        }
        i = i + 1;
    }
    proof {
        if device_names(devices@).contains(name@) {
            let k = choose|k: int| 0 <= k < device_names(devices@).len() && device_names(devices@)[k] == name@;
            assert(devices@[k].name@ == name@);
        }
    }
    None
}

/// The entry selected for a saved device name: the first device of that name,
/// else the first entry (the system default).
pub open spec fn restored_choice(devices: Seq<DeviceInfo>, saved: Option<String>, i: usize) -> bool {
    match saved {
        Some(n) => if device_names(devices).contains(n@) {
            first_named(devices, n@, i as int)
        } else {
            i == 0
        },
        None => i == 0,
    }
}

fn restore_choice(devices: &Vec<DeviceInfo>, saved: &Option<String>) -> (r: usize)
    ensures
        restored_choice(devices@, *saved, r),
{
    match saved {
        Some(n) => match device_position(devices, n.as_str()) {
            Some(i) => {
                assert(device_names(devices@)[i as int] == n@);
                i
            },
            None => 0,
        },
        None => 0,
    }
}

/// The server address offered when none was saved: this machine, on the
/// default signalling port.
pub open spec fn default_server_addr() -> Seq<char> {
    "127.0.0.1:"@ + decimal(DEFAULT_PORT as nat)
}

/// The text of a saved field, or `default` when it was never saved.
pub open spec fn saved_or(saved: Option<String>, default: Seq<char>) -> Seq<char> {
    match saved {
        Some(s) => s@,
        None => default,
    }
}

fn text_or_default(saved: Option<String>, default: &str) -> (r: String)
    ensures
        r@ == saved_or(saved, default@),
{
    match saved {
        Some(s) => s,
        None => String::from_str(default),
    }
}

impl LoginForm {
    /// The form as the client opens: the saved server address, user name and
    /// room (by default this machine on the default port, no name, and the
    /// room "general"), no password, and the saved devices when they are still
    /// present.
    pub fn restore(saved: SavedLogin, inputs: &Vec<DeviceInfo>, outputs: &Vec<DeviceInfo>) -> (r: LoginForm)
        ensures
            r.server_addr@ == saved_or(saved.server_addr, default_server_addr()),
            r.username@ == saved_or(saved.username, Seq::empty()),
            r.room@ == saved_or(saved.room, "general"@),
            r.password@ == Seq::<char>::empty(),
            restored_choice(inputs@, saved.input_device, r.selected_input),
            restored_choice(outputs@, saved.output_device, r.selected_output),
    {
        let selected_input = restore_choice(inputs, &saved.input_device);
        let selected_output = restore_choice(outputs, &saved.output_device);
        let server_addr = match saved.server_addr {
            Some(a) => a,
            None => {
                let mut a = String::from_str("127.0.0.1:");
                push_decimal(&mut a, DEFAULT_PORT as u64);
                a
            },
        };
        LoginForm {
            server_addr,
            username: match saved.username {
                Some(u) => u,
                None => String::new(),
            },
            room: text_or_default(saved.room, "general"),
            password: String::new(),
            selected_input,
            selected_output,
        }
    }
}

/// The name of entry `selected`, if the list has one there.
pub open spec fn name_at(devices: Seq<DeviceInfo>, selected: usize) -> Option<Seq<char>> {
    if selected < devices.len() {
        Some(devices[selected as int].name@)
    } else {
        None
    }
}

/// The name of the selected device, as saved in the settings; `None` when the
/// selection is past the end of the list.
pub fn selected_device_name(devices: &Vec<DeviceInfo>, selected: usize) -> (r: Option<String>)
    ensures
        match name_at(devices@, selected) {
            Some(n) => r matches Some(s) && s@ == n,
            None => r is None,
        },
{
    if selected < devices.len() {
        Some(devices[selected].name.clone())
    } else {
        None
    }
}

/// The device name the form shows: the selected device's, or "Unknown".
pub fn device_label(devices: &Vec<DeviceInfo>, selected: usize) -> (r: String)
    ensures
        r@ == match name_at(devices@, selected) {
            Some(n) => n,
            None => "Unknown"@,
        },
{
    match selected_device_name(devices, selected) {
        Some(n) => n,
        None => String::from_str("Unknown"),
    }
}

} // verus!
