//! The audio devices offered for selection.
use vstd::prelude::*;
use vstd::string::StringExecFns;

verus! {

/// A selectable audio device.
#[derive(Clone)]
pub struct DeviceInfo {
    pub name: String,
    /// `None` for the system's default device, `Some(n)` for the device at
    /// position `n` in the host's list.
    pub index: Option<usize>,
}

/// The names the host reported, by position; `None` where a device's name
/// could not be read.
pub open spec fn reported(names: Seq<Option<String>>) -> Seq<Option<Seq<char>>> {
    names.map_values(
        |o: Option<String>|
            match o {
                Some(s) => Some(s@),
                None => None,
            },
    )
}

/// The devices that reported a name, each with its position, in order.
pub open spec fn named_devices(names: Seq<Option<Seq<char>>>) -> Seq<(Seq<char>, nat)>
    decreases names.len(),
{
    if names.len() == 0 {
        seq![]
    } else {
        let before = named_devices(names.drop_last());
        match names.last() {
            Some(n) => before.push((n, (names.len() - 1) as nat)),
            None => before,
        }
    }
}

/// The entry that stands for the system's default device.
pub open spec fn system_default_name() -> Seq<char> {
    "System Default"@
}

/// Whether `r` is the list to offer for the names the host reported: the
/// system's default first, then each device that reported a name (see
/// [`named_devices`]).
pub open spec fn offered(r: Seq<DeviceInfo>, names: Seq<Option<String>>) -> bool {
    &&& r.len() == 1 + named_devices(reported(names)).len()
    &&& r[0].name@ == system_default_name()
    &&& r[0].index is None
    &&& forall|j: int|
        0 <= j < named_devices(reported(names)).len() ==> {
            &&& (#[trigger] r[j + 1]).name@ == named_devices(reported(names))[j].0
            &&& r[j + 1].index == Some(named_devices(reported(names))[j].1 as usize)
        }
}

/// The microphones to offer, from the names of the host's input devices by
/// position (see [`offered`]).
pub fn list_input_devices(names: &Vec<Option<String>>) -> (r: Vec<DeviceInfo>)
    ensures
        offered(r@, names@),
{
    listed_devices(names)
}

/// The speakers to offer, from the names of the host's output devices by
/// position (see [`offered`]).
pub fn list_output_devices(names: &Vec<Option<String>>) -> (r: Vec<DeviceInfo>)
    ensures
        offered(r@, names@),
{
    listed_devices(names)
}

fn listed_devices(names: &Vec<Option<String>>) -> (r: Vec<DeviceInfo>)
    ensures
        offered(r@, names@),
{
    let mut out: Vec<DeviceInfo> = Vec::new();
    out.push(DeviceInfo { name: String::from_str("System Default"), index: None });
    let ghost all = reported(names@);
    let mut i: usize = 0;
    while i < names.len()
        invariant
            0 <= i <= names@.len(),
            all == reported(names@),
            out@.len() == 1 + named_devices(all.take(i as int)).len(),
            out@[0].name@ == system_default_name(),
            out@[0].index is None,
            forall|j: int|
                0 <= j < named_devices(all.take(i as int)).len() ==> {
                    &&& (#[trigger] out@[j + 1]).name@ == named_devices(all.take(i as int))[j].0
                    &&& out@[j + 1].index == Some(named_devices(all.take(i as int))[j].1 as usize)
                },
        decreases names@.len() - i,
    {
        let ghost before = named_devices(all.take(i as int));
        assert(all.take(i + 1).drop_last() =~= all.take(i as int));
        match &names[i] {
            Some(n) => {
                out.push(DeviceInfo { name: n.clone(), index: Some(i) });
            },
            None => {},
        }
        i = i + 1;
    }
    assert(all.take(names@.len() as int) =~= all);
    out
}

} // verus!
