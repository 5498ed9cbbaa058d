//! Which HID interfaces are Razer mice this program reads, and which of them
//! are connected: the difference between two enumerations, and lookups by id.

use vstd::prelude::*;

verus! {

/// A supported Razer model: the HID interface through which its battery is read.
pub struct DeviceInfo {
    pub name: String,
    pub vid: u16,
    pub pid: u16,
    pub interface: u8,
    pub usage_page: u16,
    pub usage: u16,
}

/// What an enumerated HID interface reports of itself.
pub struct HidDeviceInfo {
    pub vendor_id: u16,
    pub product_id: u16,
    pub interface_number: i32,
    pub usage_page: u16,
    pub usage: u16,
}

/// An opened, supported device: its product id and model name.
pub struct ConnectedDevice {
    pub pid: u16,
    pub name: String,
}

/// Whether entry `i` of the model list has the vendor and product ids `vid`, `pid`.
pub open spec fn model_has_ids(known: Seq<DeviceInfo>, i: int, vid: u16, pid: u16) -> bool {
    known[i].vid == vid && known[i].pid == pid
}

/// Whether some model of the list has the ids `vid`, `pid`.
pub open spec fn is_listed_model(known: Seq<DeviceInfo>, vid: u16, pid: u16) -> bool {
    exists|i: int| 0 <= i < known.len() && model_has_ids(known, i, vid, pid)
}

/// `i` is the last entry of the list with the ids `vid`, `pid`: the one that a
/// map from ids to models built from the list in order keeps.
pub open spec fn is_last_model(known: Seq<DeviceInfo>, i: int, vid: u16, pid: u16) -> bool {
    &&& 0 <= i < known.len()
    &&& model_has_ids(known, i, vid, pid)
    &&& forall|j: int| i < j < known.len() ==> !model_has_ids(known, j, vid, pid)
}

/// Whether the interface `hid` is the one through which the model `d` is
/// read: the same interface number and, where the platform reports usages,
/// the same usage page and usage.
pub open spec fn interface_matches(d: DeviceInfo, hid: HidDeviceInfo, check_usage: bool) -> bool {
    &&& hid.interface_number == d.interface as i32
    &&& check_usage ==> hid.usage_page == d.usage_page && hid.usage == d.usage
}

/// Law: an interface is the one through which a model is read exactly when
/// its interface number is the model's and, when usages are compared, its
/// usage page and its usage are both the model's; without the comparison
/// the usages play no part.
pub proof fn law_interface_matches(d: DeviceInfo, hid: HidDeviceInfo)
    ensures
        interface_matches(d, hid, true) ==> hid.interface_number == d.interface as i32
            && hid.usage_page == d.usage_page && hid.usage == d.usage,
        hid.interface_number == d.interface as i32 && hid.usage_page == d.usage_page && hid.usage
            == d.usage ==> interface_matches(d, hid, true),
        interface_matches(d, hid, false) <==> hid.interface_number == d.interface as i32,
{
}

/// Whether some device of the list has the product id `id`.
pub open spec fn has_id(s: Seq<ConnectedDevice>, id: u32) -> bool {
    exists|i: int| 0 <= i < s.len() && s[i].pid as u32 == id
}

/// `ids` lists, once each, the ids that `a` has and `b` has not.
pub open spec fn is_id_difference(ids: Seq<u32>, a: Seq<ConnectedDevice>, b: Seq<ConnectedDevice>) -> bool {
    &&& ids.no_duplicates()
    &&& forall|x: u32| ids.contains(x) <==> (has_id(a, x) && !has_id(b, x))
}

/// `i` is the first device of the list with the product id `id`.
pub open spec fn is_first_with_id(s: Seq<ConnectedDevice>, i: int, id: u32) -> bool {
    &&& 0 <= i < s.len()
    &&& s[i].pid as u32 == id
    &&& forall|j: int| 0 <= j < i ==> s[j].pid as u32 != id
}

/// The name of the first device of the list with the product id `id`.
pub open spec fn device_name_of(s: Seq<ConnectedDevice>, id: u32) -> String {
    s[choose|i: int| is_first_with_id(s, i, id)].name
}

/// Only one position is the first with a given id.
pub proof fn lemma_first_with_id_unique(s: Seq<ConnectedDevice>, i: int, j: int, id: u32)
    requires
        is_first_with_id(s, i, id),
        is_first_with_id(s, j, id),
    ensures
        i == j,
{
}

/// The model of the list that a map from ids to models, built from the list
/// in order, gives for `vid`, `pid`: the last entry with those ids.
pub fn find_model(known: &Vec<DeviceInfo>, vid: u16, pid: u16) -> (r: Option<usize>)
    ensures
        r is None <==> !is_listed_model(known@, vid, pid),
        r matches Some(i) ==> is_last_model(known@, i as int, vid, pid),
{
    let mut k: usize = known.len();
    while k > 0
        invariant
            k <= known@.len(),
            forall|j: int| k <= j < known@.len() ==> !model_has_ids(known@, j, vid, pid),
        decreases k,
    {
        k = k - 1;
        if known[k].vid == vid && known[k].pid == pid {
            assert(model_has_ids(known@, k as int, vid, pid));
            return Some(k);
        }
    }
    None
}

/// Whether some model of the list has the ids `vid`, `pid`.
pub fn is_listed(known: &Vec<DeviceInfo>, vid: u16, pid: u16) -> (r: bool)
    ensures
        r == is_listed_model(known@, vid, pid),
{
    find_model(known, vid, pid).is_some()
}

/// The model of the list that the enumerated interface `hid` is to be opened
/// as: the model its ids map to, if `hid` is the interface through which that
/// model is read. `check_usage` says whether usages are compared (they are
/// reported on Windows only).
pub fn match_hid_device(known: &Vec<DeviceInfo>, hid: &HidDeviceInfo, check_usage: bool) -> (r:
    Option<usize>)
    ensures
        r matches Some(i) ==> is_last_model(known@, i as int, hid.vendor_id, hid.product_id)
            && interface_matches(known@[i as int], *hid, check_usage),
        r is None ==> forall|i: int|
            is_last_model(known@, i, hid.vendor_id, hid.product_id) ==> !interface_matches(
                known@[i],
                *hid,
                check_usage,
            ),
{
    match find_model(known, hid.vendor_id, hid.product_id) {
        None => None,
        Some(i) => {
            let d = &known[i];
            if hid.interface_number != d.interface as i32 {
                return None;
            }
            if check_usage && (hid.usage_page != d.usage_page || hid.usage != d.usage) {
                return None;
            }
            Some(i)
        },
    }
}

/// The first device of `devices` with the product id `id`.
pub fn find_device(devices: &Vec<ConnectedDevice>, id: u32) -> (r: Option<usize>)
    ensures
        r is None <==> !has_id(devices@, id),
        r matches Some(i) ==> is_first_with_id(devices@, i as int, id),
{
    let mut i: usize = 0;
    while i < devices.len()
        invariant
            i <= devices@.len(),
            forall|j: int| 0 <= j < i ==> devices@[j].pid as u32 != id,
        decreases devices@.len() - i,
    {
        if devices[i].pid as u32 == id {
            return Some(i);
        }
        i = i + 1;
    }
    None
}

fn contains_id(ids: &Vec<u32>, x: u32) -> (r: bool)
    ensures
        r == ids@.contains(x),
{
    let mut i: usize = 0;
    while i < ids.len()
        invariant
            i <= ids@.len(),
            forall|j: int| 0 <= j < i ==> ids@[j] != x,
        decreases ids@.len() - i,
    {
        if ids[i] == x {
            return true;
        }
        i = i + 1;
    }
    false
}

/// The ids that `a` has and `b` has not, once each, in order of first
/// appearance in `a`.
pub fn id_difference(a: &Vec<ConnectedDevice>, b: &Vec<ConnectedDevice>) -> (ids: Vec<u32>)
    ensures
        is_id_difference(ids@, a@, b@),
{
    let mut ids: Vec<u32> = Vec::new();
    let mut i: usize = 0;
    while i < a.len()
        invariant
            i <= a@.len(),
            ids@.no_duplicates(),
            forall|x: u32|
                ids@.contains(x) <==> ((exists|j: int| 0 <= j < i && a@[j].pid as u32 == x)
                    && !has_id(b@, x)),
        decreases a@.len() - i,
    {
        let x = a[i].pid as u32;
        let ghost before = ids@;
        let absent_from_b = find_device(b, x).is_none();
        let already = contains_id(&ids, x);
        if absent_from_b && !already {
            ids.push(x);
            proof {
                assert(ids@ == before.push(x));
                assert forall|y: u32| ids@.contains(y) <==> (before.contains(y) || y == x) by {
                    if ids@.contains(y) {
                        let k = choose|k: int| 0 <= k < ids@.len() && ids@[k] == y;
                        if k < before.len() {
                            assert(before[k] == y);
                        }
                    }
                    if before.contains(y) {
                        let k = choose|k: int| 0 <= k < before.len() && before[k] == y;
                        assert(ids@[k] == y);
                    }
                    if y == x {
                        assert(ids@[before.len() as int] == y);
                    }
                }
            }
        }
        proof {
            assert forall|y: u32|
                ids@.contains(y) <==> ((exists|j: int| 0 <= j < i + 1 && a@[j].pid as u32 == y)
                    && !has_id(b@, y)) by {
                assert(a@[i as int].pid as u32 == x);
                assert(before.contains(y) <==> ((exists|j: int| 0 <= j < i && a@[j].pid as u32 == y)
                    && !has_id(b@, y)));
                assert(ids@.contains(y) <==> (before.contains(y) || (y == x && absent_from_b
                    && !already)));
                if exists|j: int| 0 <= j < i + 1 && a@[j].pid as u32 == y {
                    let j = choose|j: int| 0 <= j < i + 1 && a@[j].pid as u32 == y;
                    if j < i {
                        assert(exists|j2: int| 0 <= j2 < i && a@[j2].pid as u32 == y);
                    } else {
                        assert(y == x);
                    }
                }
                if y != x && (exists|j: int| 0 <= j < i + 1 && a@[j].pid as u32 == y) {
                    let j = choose|j: int| 0 <= j < i + 1 && a@[j].pid as u32 == y;
                    assert(j != i);
                }
            }
        }
        i = i + 1;
    }
    ids
}

/// The connected devices, as found by the last enumeration.
pub struct DeviceManager {
    pub devices: Vec<ConnectedDevice>,
}

impl DeviceManager {
    /// A manager that knows of no device yet.
    pub fn new() -> (m: DeviceManager)
        ensures
            m.devices@.len() == 0,
    {
        DeviceManager { devices: Vec::new() }
    }

    /// Replace the connected devices by those `found` by a new enumeration,
    /// and return the ids that left (`.0`) and those that arrived (`.1`),
    /// each once.
    pub fn fetch_devices(&mut self, found: Vec<ConnectedDevice>) -> (r: (Vec<u32>, Vec<u32>))
        ensures
            final(self).devices@ == found@,
            is_id_difference(r.0@, old(self).devices@, found@),
            is_id_difference(r.1@, found@, old(self).devices@),
    {
        let removed = id_difference(&self.devices, &found);
        let connected = id_difference(&found, &self.devices);
        self.devices = found;
        (removed, connected)
    }

    /// Where the first connected device with the product id `id` stands.
    pub fn device_index(&self, id: u32) -> (r: Option<usize>)
        ensures
            r is None <==> !has_id(self.devices@, id),
            r matches Some(i) ==> is_first_with_id(self.devices@, i as int, id),
    {
        find_device(&self.devices, id)
    }

    /// The model name of the first connected device with the product id `id`.
    pub fn get_device_name(&self, id: u32) -> (r: Option<String>)
        ensures
            r is None <==> !has_id(self.devices@, id),
            r matches Some(name) ==> name == device_name_of(self.devices@, id),
    {
        match find_device(&self.devices, id) {
            Some(i) => {
                proof {
                    let k = choose|k: int| is_first_with_id(self.devices@, k, id);
                    lemma_first_with_id_unique(self.devices@, i as int, k, id);
                }
                Some(self.devices[i].name.clone())
            },
            None => None,
        }
    }
}

/// Law: the ids that left and those that arrived never overlap, and the ids
/// before an enumeration, less those that left, with those that arrived, are
/// the ids after it.
pub proof fn law_fetch_difference(
    before: Seq<ConnectedDevice>,
    after: Seq<ConnectedDevice>,
    removed: Seq<u32>,
    connected: Seq<u32>,
)
    requires
        is_id_difference(removed, before, after),
        is_id_difference(connected, after, before),
    ensures
        forall|x: u32| !(removed.contains(x) && connected.contains(x)),
        forall|x: u32|
            has_id(after, x) <==> ((has_id(before, x) && !removed.contains(x)) || connected.contains(
                x,
            )),
{
}

} // verus!
