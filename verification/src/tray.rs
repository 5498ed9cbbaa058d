//! The decisions of the tray application: what a battery reading does to a
//! device's record, which notification it raises, when the icon is redrawn,
//! and how each poll of the connected devices updates the device table.

use vstd::prelude::*;
use vstd::string::StringExecFns;
use crate::text::{append_decimal, decimal, replaced};
use crate::manager::{DeviceManager, ConnectedDevice, has_id, device_name_of};
use crate::icon::{Theme, IconSet, ColorRole, role_color, COLOR_TOKEN, render_battery_icon, render_unknown_icon, battery_svg_text, unknown_svg_text};
use crate::raster::{svg_parses, is_parse_failure_message};
use crate::raster::RgbaIcon;
use crate::settings::{ThemeSetting, resolved};

verus! {

/// Seconds between two battery readings of every known device.
pub const BATTERY_UPDATE_INTERVAL: u64 = 300;

/// Seconds between two enumerations of the connected devices.
pub const DEVICE_FETCH_INTERVAL_SECS: u64 = 5;

/// At or below this level the battery is critical.
pub const BATTERY_CRITICAL_LEVEL: i32 = 5;

/// At or below this level the battery is low.
pub const BATTERY_LOW_LEVEL: i32 = 15;

/// What the application remembers of a connected device.
#[derive(Debug)]
pub struct MemoryDevice {
    pub name: String,
    pub pid: u32,
    /// The last level read, `-1` while none has been read.
    pub battery_level: i32,
    /// The level read before the last one.
    pub old_battery_level: i32,
    pub is_charging: bool,
}

/// The notification that a battery reading raises.
#[derive(Debug, Clone, Copy, PartialEq, Eq, Structural)]
pub enum Notification {
    Nothing,
    BatteryLow,
    BatteryFull,
}

/// The notification for a reading of `level` after `old`, charging or not:
/// none while no level is known; a low-battery warning when not charging and
/// the level is critical or has just fallen to or below the low level; a
/// full-battery notice when charging and the level has just reached 100.
pub open spec fn notification_for(level: int, old: int, is_charging: bool) -> Notification {
    if level == -1 {
        Notification::Nothing
    } else if !is_charging && (level <= BATTERY_CRITICAL_LEVEL || (old > BATTERY_LOW_LEVEL
        && level <= BATTERY_LOW_LEVEL)) {
        Notification::BatteryLow
    } else if old <= 99 && level == 100 && is_charging {
        Notification::BatteryFull
    } else {
        Notification::Nothing
    }
}

/// The tooltip text for a device: its name, `: `, its level and `%`.
pub open spec fn tooltip_text(name: Seq<char>, level: int) -> Seq<char> {
    name + ": "@ + decimal(level) + "%"@
}

impl MemoryDevice {
    /// A device that has just connected: no level read yet (`-1`), a previous
    /// level of 50, not charging.
    pub fn new(name: String, pid: u32) -> (d: MemoryDevice)
        ensures
            d.name == name,
            d.pid == pid,
            d.battery_level == -1,
            d.old_battery_level == 50,
            !d.is_charging,
    {
        MemoryDevice { name, pid, battery_level: -1i32, old_battery_level: 50i32, is_charging: false }
    }

    /// Record a reading: the current level becomes the previous one, and
    /// `level` and `is_charging` the current ones. Returns whether the reading
    /// differs from the one before it in level or charging state, that is
    /// whether the icon showing it must be redrawn.
    pub fn record_reading(&mut self, level: i32, is_charging: bool) -> (changed: bool)
        ensures
            final(self).name == old(self).name,
            final(self).pid == old(self).pid,
            final(self).old_battery_level == old(self).battery_level,
            final(self).battery_level == level,
            final(self).is_charging == is_charging,
            changed == (old(self).battery_level != level || old(self).is_charging != is_charging),
    {
        let was_charging = self.is_charging;
        self.old_battery_level = self.battery_level;
        self.battery_level = level;
        self.is_charging = is_charging;
        self.old_battery_level != level || was_charging != is_charging
    }

    /// The tooltip text for this device (see `tooltip_text`).
    pub fn tooltip(&self) -> (t: String)
        ensures
            t@ == tooltip_text(self.name@, self.battery_level as int),
    {
        let mut t = self.name.clone();
        t.append(": ");
        append_decimal(&mut t, self.battery_level);
        t.append("%");
        t
    }
}

/// The notification that the device's last reading raises (see `notification_for`).
pub fn check_notify(device: &MemoryDevice) -> (n: Notification)
    ensures
        n == notification_for(
            device.battery_level as int,
            device.old_battery_level as int,
            device.is_charging,
        ),
{
    if device.battery_level == -1 {
        return Notification::Nothing;
    }
    if !device.is_charging && (device.battery_level <= BATTERY_CRITICAL_LEVEL || (
    device.old_battery_level > BATTERY_LOW_LEVEL && device.battery_level <= BATTERY_LOW_LEVEL)) {
        Notification::BatteryLow
    } else if device.old_battery_level <= 99 && device.battery_level == 100 && device.is_charging {
        Notification::BatteryFull
    } else {
        Notification::Nothing
    }
}

/// No two devices of the sequence share a product id.
pub open spec fn pids_unique(s: Seq<MemoryDevice>) -> bool {
    forall|i: int, j: int| 0 <= i < s.len() && 0 <= j < s.len() && i != j ==> s[i].pid != s[j].pid
}

/// The devices of the sequence keyed by product id.
pub open spec fn table_map(s: Seq<MemoryDevice>) -> Map<u32, MemoryDevice> {
    Map::new(
        |id: u32| exists|i: int| 0 <= i < s.len() && s[i].pid == id,
        |id: u32| s[choose|i: int| 0 <= i < s.len() && s[i].pid == id],
    )
}

/// Entry `i` of a sequence without repeated ids is the table's entry for its id.
proof fn lemma_table_map_at(s: Seq<MemoryDevice>, i: int)
    requires
        pids_unique(s),
        0 <= i < s.len(),
    ensures
        table_map(s).dom().contains(s[i].pid),
        table_map(s)[s[i].pid] == s[i],
{
    let id = s[i].pid;
    assert(exists|k: int| 0 <= k < s.len() && s[k].pid == id);
    let j = choose|k: int| 0 <= k < s.len() && s[k].pid == id;
    assert(j == i);
}

/// A sequence without repeated ids whose entries are exactly the entries of
/// `m` has `m` as its table.
proof fn lemma_table_map_is(s: Seq<MemoryDevice>, m: Map<u32, MemoryDevice>)
    requires
        pids_unique(s),
        forall|i: int| 0 <= i < s.len() ==> #[trigger] m.dom().contains(s[i].pid) && m[s[i].pid] == s[i],
        forall|k: u32| #[trigger] m.dom().contains(k) ==> exists|i: int| 0 <= i < s.len() && s[i].pid == k,
    ensures
        table_map(s) == m,
{
    assert forall|k: u32| #[trigger] table_map(s).dom().contains(k) implies m.dom().contains(k)
        && table_map(s)[k] == m[k] by {
        let j = choose|j: int| 0 <= j < s.len() && s[j].pid == k;
        lemma_table_map_at(s, j);
        assert(m.dom().contains(s[j].pid));
    }
    assert(table_map(s) =~= m);
}

/// A device of the table with a fresh reading: the record it keeps, the
/// notification the reading raises, whether the icon must be redrawn, and the
/// tooltip text.
#[derive(Debug)]
pub struct ReadingOutcome {
    pub name: String,
    pub notification: Notification,
    pub redraw: bool,
    pub tooltip: String,
}

/// The record of `d` after a reading of `level`, charging or not.
pub open spec fn after_reading(d: MemoryDevice, level: i32, is_charging: bool) -> MemoryDevice {
    MemoryDevice {
        name: d.name,
        pid: d.pid,
        battery_level: level,
        old_battery_level: d.battery_level,
        is_charging: is_charging,
    }
}

/// Whether a reading of `level`, charging or not, differs from the one
/// recorded in `d` in level or charging state, so that the icon is redrawn.
pub open spec fn redraws(d: MemoryDevice, level: i32, is_charging: bool) -> bool {
    d.battery_level != level || d.is_charging != is_charging
}

/// Every device of the table is keyed by its own product id.
pub open spec fn keys_are_pids(m: Map<u32, MemoryDevice>) -> bool {
    forall|k: u32| #[trigger] m.dom().contains(k) ==> m[k].pid == k
}

/// The record of a device that has just connected (see `MemoryDevice::new`).
pub open spec fn fresh_device(name: String, pid: u32) -> MemoryDevice {
    MemoryDevice { name: name, pid: pid, battery_level: -1i32, old_battery_level: 50i32, is_charging: false }
}

/// The connected devices that the application keeps, keyed by product id.
pub struct DeviceTable {
    devices: Vec<MemoryDevice>,
}

impl View for DeviceTable {
    type V = Map<u32, MemoryDevice>;

    closed spec fn view(&self) -> Map<u32, MemoryDevice> {
        table_map(self.devices@)
    }
}

impl DeviceTable {
    /// Product ids are not repeated, and each device is keyed by its own id.
    pub closed spec fn wf(&self) -> bool {
        &&& pids_unique(self.devices@)
        &&& keys_are_pids(table_map(self.devices@))
    }

    /// Every device of a valid table is keyed by its own product id.
    pub proof fn lemma_keys_are_pids(&self)
        requires
            self.wf(),
        ensures
            keys_are_pids(self@),
    {
    }

    /// A table of no device.
    pub fn new() -> (t: DeviceTable)
        ensures
            t.wf(),
            t@ == Map::<u32, MemoryDevice>::empty(),
    {
        let t = DeviceTable { devices: Vec::new() };
        assert(t@ =~= Map::<u32, MemoryDevice>::empty());
        t
    }

    fn position(&self, id: u32) -> (r: Option<usize>)
        requires
            self.wf(),
        ensures
            r is None <==> !self@.dom().contains(id),
            r matches Some(i) ==> i < self.devices@.len() && self.devices@[i as int].pid == id,
    {
        let mut i: usize = 0;
        while i < self.devices.len()
            invariant
                i <= self.devices@.len(),
                forall|j: int| 0 <= j < i ==> self.devices@[j].pid != id,
            decreases self.devices@.len() - i,
        {
            if self.devices[i].pid == id {
                return Some(i);
            }
            i = i + 1;
        }
        None
    }

    /// Whether the table holds a device with the product id `id`.
    pub fn contains(&self, id: u32) -> (r: bool)
        requires
            self.wf(),
        ensures
            r == self@.dom().contains(id),
    {
        self.position(id).is_some()
    }

    /// The product ids of the devices in the table, each once.
    pub fn ids(&self) -> (ids: Vec<u32>)
        requires
            self.wf(),
        ensures
            ids@.no_duplicates(),
            forall|x: u32| ids@.contains(x) <==> self@.dom().contains(x),
    {
        let mut ids: Vec<u32> = Vec::new();
        let mut i: usize = 0;
        while i < self.devices.len()
            invariant
                pids_unique(self.devices@),
                i <= self.devices@.len(),
                ids@.len() == i,
                forall|j: int| 0 <= j < i ==> ids@[j] == self.devices@[j].pid,
            decreases self.devices@.len() - i,
        {
            ids.push(self.devices[i].pid);
            i = i + 1;
        }
        assert forall|x: u32| ids@.contains(x) <==> self@.dom().contains(x) by {
            if ids@.contains(x) {
                let j = choose|j: int| 0 <= j < ids@.len() && ids@[j] == x;
                assert(self.devices@[j].pid == x);
            }
            if self@.dom().contains(x) {
                let j = choose|j: int| 0 <= j < self.devices@.len() && self.devices@[j].pid == x;
                assert(ids@[j] == x);
            }
        }
        ids
    }

    /// Take the device with the product id `id` out of the table.
    pub fn remove(&mut self, id: u32) -> (r: Option<MemoryDevice>)
        requires
            old(self).wf(),
        ensures
            final(self).wf(),
            r == (if old(self)@.dom().contains(id) {
                Some(old(self)@[id])
            } else {
                None
            }),
            final(self)@ == old(self)@.remove(id),
    {
        match self.position(id) {
            None => {
                assert(self@ =~= old(self)@.remove(id));
                None
            },
            Some(i) => {
                let ghost before = self.devices@;
                proof {
                    lemma_table_map_at(before, i as int);
                }
                let d = self.devices.remove(i);
                let ghost after = before.remove(i as int);
                let ghost m = table_map(before).remove(id);
                assert(pids_unique(after));
                assert forall|a: int| 0 <= a < after.len() implies #[trigger] m.dom().contains(
                    after[a].pid,
                ) && m[after[a].pid] == after[a] by {
                    let b = if a < i { a } else { a + 1 };
                    assert(after[a] == before[b]);
                    lemma_table_map_at(before, b);
                }
                assert forall|k: u32| #[trigger] m.dom().contains(k) implies exists|a: int|
                    0 <= a < after.len() && after[a].pid == k by {
                    let j = choose|j: int| 0 <= j < before.len() && before[j].pid == k;
                    let a = if j < i { j } else { j - 1 };
                    assert(after[a].pid == k);
                }
                proof {
                    lemma_table_map_is(after, m);
                }
                Some(d)
            },
        }
    }

    /// Add a device that has just connected, with no level read yet.
    pub fn insert_new(&mut self, id: u32, name: String)
        requires
            old(self).wf(),
            !old(self)@.dom().contains(id),
        ensures
            final(self).wf(),
            final(self)@ == old(self)@.insert(id, fresh_device(name, id)),
    {
        let ghost before = self.devices@;
        let d = MemoryDevice::new(name, id);
        assert(d == fresh_device(name, id));
        self.devices.push(d);
        let ghost after = self.devices@;
        assert(after == before.push(d));
        assert forall|a: int, b: int|
            0 <= a < after.len() && 0 <= b < after.len() && a != b implies after[a].pid
            != after[b].pid by {
            if a < before.len() && b == before.len() {
                assert(table_map(before).dom().contains(before[a].pid));
            }
            if b < before.len() && a == before.len() {
                assert(table_map(before).dom().contains(before[b].pid));
            }
        }
        let ghost m = table_map(before).insert(id, d);
        assert forall|a: int| 0 <= a < after.len() implies #[trigger] m.dom().contains(
            after[a].pid,
        ) && m[after[a].pid] == after[a] by {
            if a < before.len() {
                lemma_table_map_at(before, a);
            }
        }
        assert forall|k: u32| #[trigger] m.dom().contains(k) implies exists|a: int|
            0 <= a < after.len() && after[a].pid == k by {
            if k == id {
                assert(after[before.len() as int].pid == k);
            } else {
                let j = choose|j: int| 0 <= j < before.len() && before[j].pid == k;
                assert(after[j].pid == k);
            }
        }
        proof {
            lemma_table_map_is(after, m);
        }
    }

    /// Record a reading of the device with the product id `id`, if the table
    /// holds it: the outcome says which notification it raises, whether the
    /// icon must be redrawn (the level or the charging state changed), and the
    /// device's new tooltip. A device that is not in the table is left alone.
    pub fn apply_reading(&mut self, id: u32, level: i32, is_charging: bool) -> (r: Option<
        ReadingOutcome,
    >)
        requires
            old(self).wf(),
        ensures
            final(self).wf(),
            r is None <==> !old(self)@.dom().contains(id),
            r is None ==> final(self)@ == old(self)@,
            r matches Some(out) ==> {
                let d = old(self)@[id];
                &&& final(self)@ == old(self)@.insert(id, after_reading(d, level, is_charging))
                &&& out.notification == notification_for(
                    level as int,
                    d.battery_level as int,
                    is_charging,
                )
                &&& out.name == d.name
                &&& out.redraw == redraws(d, level, is_charging)
                &&& out.tooltip@ == tooltip_text(d.name@, level as int)
            },
    {
        match self.position(id) {
            None => None,
            Some(i) => {
                let ghost before = self.devices@;
                proof {
                    lemma_table_map_at(before, i as int);
                }
                let mut d = self.devices.remove(i);
                let redraw = d.record_reading(level, is_charging);
                let notification = check_notify(&d);
                let tooltip = d.tooltip();
                let name = d.name.clone();
                let ghost nd = d;
                self.devices.insert(i, d);
                let ghost after = self.devices@;
                assert(after =~= before.update(i as int, nd));
                assert(pids_unique(after));
                let ghost m = table_map(before).insert(id, nd);
                assert forall|a: int| 0 <= a < after.len() implies #[trigger] m.dom().contains(
                    after[a].pid,
                ) && m[after[a].pid] == after[a] by {
                    if a != i {
                        lemma_table_map_at(before, a);
                    }
                }
                assert forall|k: u32| #[trigger] m.dom().contains(k) implies exists|a: int|
                    0 <= a < after.len() && after[a].pid == k by {
                    if k == id {
                        assert(after[i as int].pid == k);
                    } else {
                        let j = choose|j: int| 0 <= j < before.len() && before[j].pid == k;
                        assert(after[j].pid == k);
                    }
                }
                proof {
                    lemma_table_map_is(after, m);
                }
                Some(ReadingOutcome { name, notification, redraw, tooltip })
            },
        }
    }
}

/// Polls of the connected devices between two battery readings of every device.
pub const POLLS_PER_BATTERY_UPDATE: u64 = BATTERY_UPDATE_INTERVAL / DEVICE_FETCH_INTERVAL_SECS;

/// The table after taking out, in order, the devices with the ids `ids`.
pub open spec fn after_removals(m: Map<u32, MemoryDevice>, ids: Seq<u32>) -> Map<u32, MemoryDevice>
    decreases ids.len(),
{
    if ids.len() == 0 {
        m
    } else {
        after_removals(m.remove(ids[0]), ids.drop_first())
    }
}

/// The names of the devices that taking out the ids `ids` in order finds in
/// the table, in that order.
pub open spec fn removed_names(m: Map<u32, MemoryDevice>, ids: Seq<u32>) -> Seq<String>
    decreases ids.len(),
{
    if ids.len() == 0 {
        seq![]
    } else if m.dom().contains(ids[0]) {
        seq![m[ids[0]].name] + removed_names(m.remove(ids[0]), ids.drop_first())
    } else {
        removed_names(m, ids.drop_first())
    }
}

/// Whether a newly connected id `id` is added to the table `m`: the table has
/// no device with it and the enumerated devices `devs` name it.
pub open spec fn is_added(m: Map<u32, MemoryDevice>, id: u32, devs: Seq<ConnectedDevice>) -> bool {
    !m.dom().contains(id) && has_id(devs, id)
}

/// The table after adding, in order, the newly connected ids `ids` that it has
/// no device for and that `devs` names, each as a fresh device.
pub open spec fn after_arrivals(
    m: Map<u32, MemoryDevice>,
    ids: Seq<u32>,
    devs: Seq<ConnectedDevice>,
) -> Map<u32, MemoryDevice>
    decreases ids.len(),
{
    if ids.len() == 0 {
        m
    } else if is_added(m, ids[0], devs) {
        after_arrivals(
            m.insert(ids[0], fresh_device(device_name_of(devs, ids[0]), ids[0])),
            ids.drop_first(),
            devs,
        )
    } else {
        after_arrivals(m, ids.drop_first(), devs)
    }
}

/// The names of the devices that adding the ids `ids` in order adds.
pub open spec fn arrived_names(m: Map<u32, MemoryDevice>, ids: Seq<u32>, devs: Seq<ConnectedDevice>) -> Seq<
    String,
>
    decreases ids.len(),
{
    if ids.len() == 0 {
        seq![]
    } else if is_added(m, ids[0], devs) {
        seq![device_name_of(devs, ids[0])] + arrived_names(
            m.insert(ids[0], fresh_device(device_name_of(devs, ids[0]), ids[0])),
            ids.drop_first(),
            devs,
        )
    } else {
        arrived_names(m, ids.drop_first(), devs)
    }
}

/// The ids that adding the ids `ids` in order finds neither in the table nor
/// named by `devs`.
pub open spec fn unnamed_arrivals(m: Map<u32, MemoryDevice>, ids: Seq<u32>, devs: Seq<ConnectedDevice>) -> Seq<
    u32,
>
    decreases ids.len(),
{
    if ids.len() == 0 {
        seq![]
    } else if is_added(m, ids[0], devs) {
        unnamed_arrivals(
            m.insert(ids[0], fresh_device(device_name_of(devs, ids[0]), ids[0])),
            ids.drop_first(),
            devs,
        )
    } else if !m.dom().contains(ids[0]) {
        seq![ids[0]] + unnamed_arrivals(m, ids.drop_first(), devs)
    } else {
        unnamed_arrivals(m, ids.drop_first(), devs)
    }
}

/// The ids the poller remembers after a poll that reported `connected` as
/// newly connected, when it remembered `last`: `connected` if its ids differ.
pub open spec fn next_last(last: Seq<u32>, connected: Seq<u32>) -> Seq<u32> {
    if !same_ids(connected, last) {
        connected
    } else {
        last
    }
}

/// Whether two id lists hold the same ids.
pub open spec fn same_ids(a: Seq<u32>, b: Seq<u32>) -> bool {
    forall|x: u32| a.contains(x) <==> b.contains(x)
}

fn seq_contains(v: &Vec<u32>, x: u32) -> (r: bool)
    ensures
        r == v@.contains(x),
{
    let mut i: usize = 0;
    while i < v.len()
        invariant
            i <= v@.len(),
            forall|j: int| 0 <= j < i ==> v@[j] != x,
        decreases v@.len() - i,
    {
        if v[i] == x {
            return true;
        }
        i = i + 1;
    }
    false
}

/// Whether `a` and `b` hold the same ids.
pub fn same_id_set(a: &Vec<u32>, b: &Vec<u32>) -> (r: bool)
    ensures
        r == same_ids(a@, b@),
{
    let mut i: usize = 0;
    while i < a.len()
        invariant
            i <= a@.len(),
            forall|j: int| 0 <= j < i ==> b@.contains(#[trigger] a@[j]),
        decreases a@.len() - i,
    {
        if !seq_contains(b, a[i]) {
            return false;
        }
        i = i + 1;
    }
    let mut k: usize = 0;
    while k < b.len()
        invariant
            k <= b@.len(),
            forall|j: int| 0 <= j < a@.len() ==> b@.contains(#[trigger] a@[j]),
            forall|j: int| 0 <= j < k ==> a@.contains(#[trigger] b@[j]),
        decreases b@.len() - k,
    {
        if !seq_contains(a, b[k]) {
            return false;
        }
        k = k + 1;
    }
    assert forall|x: u32| a@.contains(x) <==> b@.contains(x) by {
        if a@.contains(x) {
            let j = choose|j: int| 0 <= j < a@.len() && a@[j] == x;
            assert(b@.contains(a@[j]));
        }
        if b@.contains(x) {
            let j = choose|j: int| 0 <= j < b@.len() && b@[j] == x;
            assert(a@.contains(b@[j]));
        }
    }
    true
}

fn copy_ids(v: &Vec<u32>) -> (r: Vec<u32>)
    ensures
        r@ == v@,
{
    let mut r: Vec<u32> = Vec::new();
    let mut i: usize = 0;
    while i < v.len()
        invariant
            i <= v@.len(),
            r@ == v@.take(i as int),
        decreases v@.len() - i,
    {
        r.push(v[i]);
        i = i + 1;
        assert(r@ =~= v@.take(i as int));
    }
    assert(v@.take(v@.len() as int) =~= v@);
    r
}

/// What one poll of the connected devices asks the application to do.
#[derive(Debug)]
pub struct PollOutcome {
    /// Names of the devices that left, for a disconnect notification each.
    pub removed_names: Vec<String>,
    /// Names of the devices that arrived, for a connect notification each.
    pub added_names: Vec<String>,
    /// Newly connected ids that no enumerated device names.
    pub unnamed_ids: Vec<u32>,
    /// The device-update requests to send to the tray, in order: each lists
    /// the ids whose battery is to be read.
    pub updates: Vec<Vec<u32>>,
}

/// The state of the device-polling loop between two polls.
pub struct DevicePoller {
    last_devices: Vec<u32>,
    battery_update_counter: u64,
}

impl DevicePoller {
    /// The counter is below `POLLS_PER_BATTERY_UPDATE`.
    pub closed spec fn wf(&self) -> bool {
        self.battery_update_counter < POLLS_PER_BATTERY_UPDATE
    }

    /// The ids reported as newly connected by the last poll that changed them.
    pub closed spec fn remembered(&self) -> Seq<u32> {
        self.last_devices@
    }

    /// Polls since the last battery reading of every device, modulo
    /// `POLLS_PER_BATTERY_UPDATE`.
    pub closed spec fn counter(&self) -> int {
        self.battery_update_counter as int
    }

    /// The state before the first poll: no ids seen, a battery reading due.
    pub fn new() -> (p: DevicePoller)
        ensures
            p.wf(),
            p.remembered() == Seq::<u32>::empty(),
            p.counter() == 0,
    {
        let p = DevicePoller { last_devices: Vec::new(), battery_update_counter: 0 };
        assert(p.remembered() =~= Seq::<u32>::empty());
        p
    }

    /// The ids reported as newly connected by the last poll that changed them.
    pub fn last_devices(&self) -> (r: &Vec<u32>)
        ensures
            r@ == self.remembered(),
    {
        &self.last_devices
    }

    /// Polls since the last battery reading of every device, modulo
    /// `POLLS_PER_BATTERY_UPDATE`.
    pub fn battery_update_counter(&self) -> (r: u64)
        ensures
            r == self.counter(),
    {
        self.battery_update_counter
    }

    /// One poll, after `manager` has been given a new enumeration that reported
    /// the ids `removed` as gone and `connected` as new: the devices that left
    /// are taken out of `table`; each new id that `table` has no device for is
    /// added under its name, if `manager` has one; a device update for
    /// `connected` is requested when its ids differ from the previous poll's
    /// that differed, and one for every device of the table every
    /// `POLLS_PER_BATTERY_UPDATE` polls, starting with the first.
    pub fn poll(
        &mut self,
        table: &mut DeviceTable,
        manager: &DeviceManager,
        removed: &Vec<u32>,
        connected: &Vec<u32>,
    ) -> (out: PollOutcome)
        requires
            old(self).wf(),
            old(table).wf(),
        ensures
            final(self).wf(),
            final(table).wf(),
            ({
                let mid = after_removals(old(table)@, removed@);
                let devs = manager.devices@;
                &&& out.removed_names@ == removed_names(old(table)@, removed@)
                &&& out.added_names@ == arrived_names(mid, connected@, devs)
                &&& out.unnamed_ids@ == unnamed_arrivals(mid, connected@, devs)
                &&& final(table)@ == after_arrivals(mid, connected@, devs)
            }),
            ({
                let changed = !same_ids(connected@, old(self).remembered());
                let due = old(self).counter() == 0;
                &&& out.updates@.len() == (if changed { 1int } else { 0int }) + (if due {
                    1int
                } else {
                    0int
                })
                &&& changed ==> out.updates@[0]@ == connected@
                &&& due ==> out.updates@.last()@.no_duplicates() && forall|x: u32|
                    out.updates@.last()@.contains(x) <==> final(table)@.dom().contains(x)
                &&& final(self).remembered() == next_last(old(self).remembered(), connected@)
                &&& final(self).counter() == (old(self).counter() + 1) % (
                POLLS_PER_BATTERY_UPDATE as int)
            }),
    {
        let ghost t0 = table@;
        let mut removed_out: Vec<String> = Vec::new();
        let mut i: usize = 0;
        assert(removed@.skip(0) =~= removed@);
        while i < removed.len()
            invariant
                table.wf(),
                i <= removed@.len(),
                after_removals(table@, removed@.skip(i as int)) == after_removals(t0, removed@),
                removed_out@ + removed_names(table@, removed@.skip(i as int)) == removed_names(
                    t0,
                    removed@,
                ),
            decreases removed@.len() - i,
        {
            let id = removed[i];
            let ghost before = table@;
            assert(removed@.skip(i as int).drop_first() =~= removed@.skip(i + 1));
            let ghost rest = removed_names(before.remove(id), removed@.skip(i + 1));
            match table.remove(id) {
                Some(d) => {
                    let ghost before_out = removed_out@;
                    removed_out.push(d.name);
                    assert(removed_out@ =~= before_out + seq![before[id].name]);
                    assert(removed_names(before, removed@.skip(i as int)) == seq![before[id].name]
                        + rest);
                    assert(before_out + (seq![before[id].name] + rest) =~= removed_out@ + rest);
                },
                None => {
                    assert(before.remove(id) =~= before);
                },
            }
            i = i + 1;
        }
        let ghost mid = table@;
        assert(removed@.skip(removed@.len() as int) =~= Seq::<u32>::empty());
        let mut added_out: Vec<String> = Vec::new();
        let mut unnamed_out: Vec<u32> = Vec::new();
        let mut k: usize = 0;
        assert(connected@.skip(0) =~= connected@);
        while k < connected.len()
            invariant
                table.wf(),
                k <= connected@.len(),
                after_arrivals(table@, connected@.skip(k as int), manager.devices@)
                    == after_arrivals(mid, connected@, manager.devices@),
                added_out@ + arrived_names(table@, connected@.skip(k as int), manager.devices@)
                    == arrived_names(mid, connected@, manager.devices@),
                unnamed_out@ + unnamed_arrivals(table@, connected@.skip(k as int), manager.devices@)
                    == unnamed_arrivals(mid, connected@, manager.devices@),
            decreases connected@.len() - k,
        {
            let id = connected[k];
            assert(connected@.skip(k as int).drop_first() =~= connected@.skip(k + 1));
            if !table.contains(id) {
                match manager.get_device_name(id) {
                    Some(name) => {
                        let ghost before_out = added_out@;
                        let ghost n = name;
                        table.insert_new(id, name.clone());
                        added_out.push(name);
                        assert(added_out@ =~= before_out + seq![n]);
                    },
                    None => {
                        let ghost before_out = unnamed_out@;
                        unnamed_out.push(id);
                        assert(unnamed_out@ =~= before_out + seq![id]);
                    },
                }
            }
            k = k + 1;
        }
        assert(connected@.skip(connected@.len() as int) =~= Seq::<u32>::empty());
        let mut updates: Vec<Vec<u32>> = Vec::new();
        if !same_id_set(connected, &self.last_devices) {
            updates.push(copy_ids(connected));
            self.last_devices = copy_ids(connected);
        }
        if self.battery_update_counter == 0 {
            updates.push(table.ids());
        }
        self.battery_update_counter = (self.battery_update_counter + 1) % POLLS_PER_BATTERY_UPDATE;
        PollOutcome {
            removed_names: removed_out,
            added_names: added_out,
            unnamed_ids: unnamed_out,
            updates,
        }
    }
}

/// The SVG document of the tray icon for the reading `(level, is_charging)`
/// with the palette `theme`: the placeholder's for a negative level, else the
/// battery icon's with the application's critical and low levels.
pub open spec fn tray_svg_text(icons: &IconSet, level: i32, is_charging: bool, theme: Theme) -> Seq<
    char,
> {
    if level < 0 {
        unknown_svg_text(icons, theme)
    } else {
        battery_svg_text(
            icons,
            level as int,
            is_charging,
            BATTERY_CRITICAL_LEVEL as int,
            BATTERY_LOW_LEVEL as int,
            theme,
        )
    }
}

/// Render the icon for the reading `(level, is_charging)` with the palette
/// `theme`: the placeholder for a negative level, else the battery icon with
/// the application's critical and low levels.
pub fn render_tray_icon(icons: &IconSet, level: i32, is_charging: bool, theme: Theme) -> (r:
    Result<RgbaIcon, String>)
    requires
        icons.wf(),
    ensures
        r is Ok <==> svg_parses(tray_svg_text(icons, level, is_charging, theme)),
        r matches Ok(icon) ==> icon.is_rendered_from(tray_svg_text(icons, level, is_charging, theme)),
        r matches Err(m) ==> is_parse_failure_message(m@),
{
    if level < 0 {
        render_unknown_icon(icons, theme)
    } else {
        render_battery_icon(icons, level, is_charging, BATTERY_CRITICAL_LEVEL, BATTERY_LOW_LEVEL, theme)
    }
}

/// The check marks of the three theme entries of the menu, in the order
/// auto, light taskbar, dark taskbar: only the active setting's is set.
pub fn theme_checks(setting: ThemeSetting) -> (c: (bool, bool, bool))
    ensures
        c.0 == (setting == ThemeSetting::Auto),
        c.1 == (setting == ThemeSetting::Light),
        c.2 == (setting == ThemeSetting::Dark),
{
    (setting == ThemeSetting::Auto, setting == ThemeSetting::Light, setting == ThemeSetting::Dark)
}

/// The label of the log-window entry of the menu, given whether the window
/// is now visible.
pub fn console_menu_label(visible: bool) -> (s: &'static str)
    ensures
        s@ == (if visible {
            "Hide Log Window"@
        } else {
            "Show Log Window"@
        }),
{
    if visible {
        "Hide Log Window"
    } else {
        "Show Log Window"
    }
}

/// An entry of the tray menu.
#[derive(Debug, Clone, Copy, PartialEq, Eq, Structural)]
pub enum MenuEntry {
    ShowConsole,
    ThemeAuto,
    ThemeLight,
    ThemeDark,
    Quit,
}

/// What the tray does for a chosen menu entry.
#[derive(Debug, Clone, Copy, PartialEq, Eq, Structural)]
pub enum MenuCommand {
    /// Show or hide the log window.
    ToggleConsole,
    /// Persist `setting`, set the check marks, and redraw the reading
    /// `(level, is_charging)` with the palette it resolves to.
    ApplyTheme { setting: ThemeSetting, level: i32, is_charging: bool },
    /// Leave the event loop.
    Exit,
}

/// What the tray shows: the theme preference and the reading on the icon.
pub struct TrayState {
    pub theme_setting: ThemeSetting,
    /// The level shown, `-1` for the placeholder.
    pub shown_level: i32,
    pub shown_charging: bool,
}

impl TrayState {
    /// The state at startup: the placeholder is shown.
    pub fn new(theme_setting: ThemeSetting) -> (s: TrayState)
        ensures
            s.theme_setting == theme_setting,
            s.shown_level == -1,
            !s.shown_charging,
    {
        TrayState { theme_setting, shown_level: -1, shown_charging: false }
    }

    /// Remember the reading now on screen, so a theme switch can redraw it.
    pub fn show_reading(&mut self, level: i32, is_charging: bool)
        ensures
            final(self).theme_setting == old(self).theme_setting,
            final(self).shown_level == level,
            final(self).shown_charging == is_charging,
    {
        self.shown_level = level;
        self.shown_charging = is_charging;
    }

    /// The palette the icon is drawn with, given the system's taskbar theme.
    pub fn theme(&self, system: Theme) -> (t: Theme)
        ensures
            t == resolved(self.theme_setting, system),
    {
        self.theme_setting.resolve(system)
    }

    /// Apply a new theme preference; returns the reading to redraw with it.
    pub fn set_theme(&mut self, setting: ThemeSetting) -> (shown: (i32, bool))
        ensures
            final(self).theme_setting == setting,
            final(self).shown_level == old(self).shown_level,
            final(self).shown_charging == old(self).shown_charging,
            shown == (old(self).shown_level, old(self).shown_charging),
    {
        self.theme_setting = setting;
        (self.shown_level, self.shown_charging)
    }

    /// The command for a chosen menu entry; a theme entry sets the preference.
    pub fn on_menu(&mut self, entry: MenuEntry) -> (c: MenuCommand)
        ensures
            final(self).shown_level == old(self).shown_level,
            final(self).shown_charging == old(self).shown_charging,
            match entry {
                MenuEntry::ShowConsole => c == MenuCommand::ToggleConsole && final(self).theme_setting
                    == old(self).theme_setting,
                MenuEntry::Quit => c == MenuCommand::Exit && final(self).theme_setting == old(
                    self,
                ).theme_setting,
                _ => {
                    let s = if entry == MenuEntry::ThemeAuto {
                        ThemeSetting::Auto
                    } else if entry == MenuEntry::ThemeLight {
                        ThemeSetting::Light
                    } else {
                        ThemeSetting::Dark
                    };
                    &&& final(self).theme_setting == s
                    &&& c == MenuCommand::ApplyTheme {
                        setting: s,
                        level: old(self).shown_level,
                        is_charging: old(self).shown_charging,
                    }
                },
            },
    {
        match entry {
            MenuEntry::ShowConsole => MenuCommand::ToggleConsole,
            MenuEntry::Quit => MenuCommand::Exit,
            MenuEntry::ThemeAuto => {
                let (level, is_charging) = self.set_theme(ThemeSetting::Auto);
                MenuCommand::ApplyTheme { setting: ThemeSetting::Auto, level, is_charging }
            },
            MenuEntry::ThemeLight => {
                let (level, is_charging) = self.set_theme(ThemeSetting::Light);
                MenuCommand::ApplyTheme { setting: ThemeSetting::Light, level, is_charging }
            },
            MenuEntry::ThemeDark => {
                let (level, is_charging) = self.set_theme(ThemeSetting::Dark);
                MenuCommand::ApplyTheme { setting: ThemeSetting::Dark, level, is_charging }
            },
        }
    }
}

/// Law: the notification of a reading, with the critical level 5 and the low
/// level 15. A known level raises a low-battery warning when not charging and
/// either at or below 5, or at or below 15 after a previous level above 15;
/// a full-battery notice when charging at 100 after a previous level of at
/// most 99; nothing when not charging above 15, nor while charging below 100.
pub proof fn law_notification_cases(level: int, old: int, is_charging: bool)
    ensures
        level != -1 && !is_charging && level <= 5 ==> notification_for(level, old, is_charging)
            == Notification::BatteryLow,
        level != -1 && !is_charging && old > 15 && level <= 15 ==> notification_for(
            level,
            old,
            is_charging,
        ) == Notification::BatteryLow,
        is_charging && old <= 99 && level == 100 ==> notification_for(level, old, is_charging)
            == Notification::BatteryFull,
        !is_charging && level > 15 ==> notification_for(level, old, is_charging)
            == Notification::Nothing,
        is_charging && level != 100 ==> notification_for(level, old, is_charging)
            == Notification::Nothing,
{
}

/// Law: a reading redraws the icon whenever its level differs from the
/// recorded one, whenever its charging state differs from the recorded one,
/// and never when both are the same.
pub proof fn law_redraw_on_change(d: MemoryDevice, level: i32, is_charging: bool)
    ensures
        d.battery_level != level ==> redraws(d, level, is_charging),
        d.is_charging != is_charging ==> redraws(d, level, is_charging),
        d.battery_level == level && d.is_charging == is_charging ==> !redraws(
            d,
            level,
            is_charging,
        ),
{
}

/// Law: the tray icon's document. For an unknown (negative) level it is the
/// placeholder template in the theme's unknown colour. For a known level it is
/// the template of the level clamped to 0..=100, filled with the theme's
/// colour for: charging while charging; else critical at or below 5, low from
/// 6 to 15, normal above 15.
pub proof fn law_tray_icon_document(icons: &IconSet, level: i32, is_charging: bool, theme: Theme)
    requires
        icons.wf(),
    ensures
        level < 0 ==> tray_svg_text(icons, level, is_charging, theme) == replaced(
            icons.unknown@,
            COLOR_TOKEN@,
            role_color(theme, ColorRole::Unknown),
        ),
        level >= 0 ==> tray_svg_text(icons, level, is_charging, theme) == replaced(
            icons.levels@[if level > 100 {
                100
            } else {
                level as int
            }]@,
            COLOR_TOKEN@,
            role_color(
                theme,
                if is_charging {
                    ColorRole::Charging
                } else if level <= 5 {
                    ColorRole::Critical
                } else if level <= 15 {
                    ColorRole::Low
                } else {
                    ColorRole::Normal
                },
            ),
        ),
{
}

/// Law: no notification is raised while no level is known.
pub proof fn law_unknown_level_silent(old: int, is_charging: bool)
    ensures
        notification_for(-1, old, is_charging) == Notification::Nothing,
{
}

/// Law: a charging device never raises a low-battery warning.
pub proof fn law_no_low_warning_while_charging(level: int, old: int)
    ensures
        notification_for(level, old, true) != Notification::BatteryLow,
{
}

/// Law: above the critical level, the low-battery warning is raised once,
/// when the level falls to or below the low level, and not again while it
/// stays there.
pub proof fn law_low_warning_once(level: int, old: int, is_charging: bool)
    requires
        BATTERY_CRITICAL_LEVEL < level <= BATTERY_LOW_LEVEL,
        old <= BATTERY_LOW_LEVEL,
    ensures
        notification_for(level, old, is_charging) != Notification::BatteryLow,
{
}

/// Law: the full-battery notice is raised once, when the level reaches 100,
/// and not again while it stays there.
pub proof fn law_full_notice_once(is_charging: bool)
    ensures
        notification_for(100, 100, is_charging) != Notification::BatteryFull,
{
}

/// Law: when a reading of a device in the table is applied twice in a row,
/// the second does not redraw the icon: the table after the first holds that
/// reading for the device, and `apply_reading` redraws only on a difference.
pub proof fn law_repeated_reading_keeps_icon(
    m: Map<u32, MemoryDevice>,
    id: u32,
    level: i32,
    is_charging: bool,
)
    requires
        m.dom().contains(id),
    ensures
        ({
            let m1 = m.insert(id, after_reading(m[id], level, is_charging));
            &&& m1.dom() == m.dom()
            &&& !redraws(m1[id], level, is_charging)
        }),
{
    let m1 = m.insert(id, after_reading(m[id], level, is_charging));
    assert(m1.dom() =~= m.dom());
}

/// Law: taking out devices by id leaves exactly the devices whose id was not
/// named, each as it was.
pub proof fn law_removals(m: Map<u32, MemoryDevice>, ids: Seq<u32>)
    ensures
        forall|x: u32|
            #[trigger] after_removals(m, ids).dom().contains(x) <==> (m.dom().contains(x)
                && !ids.contains(x)),
        forall|x: u32| #[trigger]
            after_removals(m, ids).dom().contains(x) ==> after_removals(m, ids)[x] == m[x],
    decreases ids.len(),
{
    if ids.len() > 0 {
        let rest = ids.drop_first();
        let m1 = m.remove(ids[0]);
        law_removals(m1, rest);
        assert(after_removals(m, ids) == after_removals(m1, rest));
        assert forall|x: u32| ids.contains(x) <==> (x == ids[0] || rest.contains(x)) by {
            if ids.contains(x) {
                let j = choose|j: int| 0 <= j < ids.len() && ids[j] == x;
                if j > 0 {
                    assert(rest[j - 1] == x);
                }
            }
            if rest.contains(x) {
                let j = choose|j: int| 0 <= j < rest.len() && rest[j] == x;
                assert(ids[j + 1] == x);
            }
            if x == ids[0] {
                assert(ids[0] == x);
            }
        }
        assert forall|x: u32| #[trigger]
            after_removals(m, ids).dom().contains(x) <==> (m.dom().contains(x) && !ids.contains(x)) by {
            assert(after_removals(m1, rest).dom().contains(x) <==> (m1.dom().contains(x)
                && !rest.contains(x)));
        }
        assert forall|x: u32| #[trigger]
            after_removals(m, ids).dom().contains(x) implies after_removals(m, ids)[x] == m[x] by {
            assert(after_removals(m1, rest).dom().contains(x));
            assert(after_removals(m1, rest)[x] == m1[x]);
        }
    }
}

/// Law: adding newly connected ids never changes or drops a device the table
/// already holds, and adds only ids that were reported, each as a fresh device.
pub proof fn law_arrivals_keep_existing(
    m: Map<u32, MemoryDevice>,
    ids: Seq<u32>,
    devs: Seq<ConnectedDevice>,
)
    ensures
        forall|x: u32| #[trigger]
            m.dom().contains(x) ==> after_arrivals(m, ids, devs).dom().contains(x) && after_arrivals(
                m,
                ids,
                devs,
            )[x] == m[x],
        forall|x: u32|
            #[trigger] after_arrivals(m, ids, devs).dom().contains(x) && !m.dom().contains(x)
                ==> ids.contains(x) && after_arrivals(m, ids, devs)[x] == fresh_device(
                device_name_of(devs, x),
                x,
            ),
    decreases ids.len(),
{
    if ids.len() > 0 {
        let rest = ids.drop_first();
        if is_added(m, ids[0], devs) {
            let m2 = m.insert(ids[0], fresh_device(device_name_of(devs, ids[0]), ids[0]));
            law_arrivals_keep_existing(m2, rest, devs);
            assert forall|x: u32| #[trigger] m.dom().contains(x) implies after_arrivals(
                m,
                ids,
                devs,
            ).dom().contains(x) && after_arrivals(m, ids, devs)[x] == m[x] by {
                assert(after_arrivals(m, ids, devs) == after_arrivals(m2, rest, devs));
                assert(x != ids[0]);
                assert(m2.dom().contains(x));
            }
            assert forall|x: u32|
                #[trigger] after_arrivals(m, ids, devs).dom().contains(x) && !m.dom().contains(x)
                    implies ids.contains(x) && after_arrivals(m, ids, devs)[x] == fresh_device(
                    device_name_of(devs, x),
                    x,
                ) by {
                assert(after_arrivals(m, ids, devs) == after_arrivals(m2, rest, devs));
                if x == ids[0] {
                    assert(ids[0] == x);
                    assert(m2.dom().contains(x));
                } else {
                    assert(!m2.dom().contains(x));
                    assert(after_arrivals(m2, rest, devs).dom().contains(x));
                    let j = choose|j: int| 0 <= j < rest.len() && rest[j] == x;
                    assert(ids[j + 1] == x);
                }
            }
        } else {
            law_arrivals_keep_existing(m, rest, devs);
            assert forall|x: u32|
                #[trigger] after_arrivals(m, ids, devs).dom().contains(x) && !m.dom().contains(x)
                    implies ids.contains(x) && after_arrivals(m, ids, devs)[x] == fresh_device(
                    device_name_of(devs, x),
                    x,
                ) by {
                let j = choose|j: int| 0 <= j < rest.len() && rest[j] == x;
                assert(ids[j + 1] == x);
            }
        }
    }
}

/// Law: starting from the first poll with the counter at 0, the counter after
/// `k` polls is `k` modulo `POLLS_PER_BATTERY_UPDATE`, so every device's
/// battery is read on poll 0 and every `POLLS_PER_BATTERY_UPDATE` polls after.
pub proof fn law_battery_update_period(k: nat)
    ensures
        ((k % (POLLS_PER_BATTERY_UPDATE as nat)) + 1) % (POLLS_PER_BATTERY_UPDATE as nat) == (k + 1)
            % (POLLS_PER_BATTERY_UPDATE as nat),
        POLLS_PER_BATTERY_UPDATE == 60,
{
    assert(POLLS_PER_BATTERY_UPDATE == 60);
    assert(((k % 60) + 1) % 60 == (k + 1) % 60) by (nonlinear_arith);
}

/// One poll's change to the device table: the devices that left are taken
/// out, then the newly connected ones are added.
pub open spec fn poll_table(
    m: Map<u32, MemoryDevice>,
    removed: Seq<u32>,
    connected: Seq<u32>,
    devices: Seq<ConnectedDevice>,
) -> Map<u32, MemoryDevice> {
    after_arrivals(after_removals(m, removed), connected, devices)
}

/// What happens to the device table: a poll, with the ids that the
/// enumeration reported as gone and as new and the enumerated devices; or a
/// battery reading of one device.
pub enum TableEvent {
    Poll { removed: Seq<u32>, connected: Seq<u32>, devices: Seq<ConnectedDevice> },
    Reading { id: u32, level: i32, is_charging: bool },
}

/// The table after one event: `DevicePoller::poll` for a poll,
/// `DeviceTable::apply_reading` for a reading.
pub open spec fn apply_event(m: Map<u32, MemoryDevice>, e: TableEvent) -> Map<u32, MemoryDevice> {
    match e {
        TableEvent::Poll { removed, connected, devices } => poll_table(m, removed, connected, devices),
        TableEvent::Reading { id, level, is_charging } => if m.dom().contains(id) {
            m.insert(id, after_reading(m[id], level, is_charging))
        } else {
            m
        },
    }
}

/// The table after the events, in order, from `m`.
pub open spec fn table_after(m: Map<u32, MemoryDevice>, events: Seq<TableEvent>) -> Map<
    u32,
    MemoryDevice,
>
    decreases events.len(),
{
    if events.len() == 0 {
        m
    } else {
        apply_event(table_after(m, events.drop_last()), events.last())
    }
}

/// Whether event `e` is a poll that reported `k` as gone.
pub open spec fn removes(e: TableEvent, k: u32) -> bool {
    e matches TableEvent::Poll { removed, .. } && removed.contains(k)
}

/// Whether event `e` is a poll that reported `k` as new.
pub open spec fn connects(e: TableEvent, k: u32) -> bool {
    e matches TableEvent::Poll { connected, .. } && connected.contains(k)
}

/// Law: from the empty table, after any sequence of polls and readings, every
/// device of the table is keyed by its own product id, and its id was
/// reported as new by some poll and reported as gone by no poll after it.
pub proof fn law_table_history(events: Seq<TableEvent>)
    ensures
        forall|k: u32| #[trigger]
            table_after(Map::empty(), events).dom().contains(k) ==> {
                &&& table_after(Map::empty(), events)[k].pid == k
                &&& exists|i: int|
                    0 <= i < events.len() && connects(events[i], k) && forall|j: int|
                        i < j < events.len() ==> !removes(#[trigger] events[j], k)
            },
    decreases events.len(),
{
    if events.len() > 0 {
        let before = events.drop_last();
        let n = events.len() - 1;
        let prev = table_after(Map::empty(), before);
        let now = table_after(Map::empty(), events);
        law_table_history(before);
        assert(now == apply_event(prev, events[n]));
        assert forall|k: u32| #[trigger] now.dom().contains(k) implies {
            &&& now[k].pid == k
            &&& exists|i: int|
                0 <= i < events.len() && connects(events[i], k) && forall|j: int|
                    i < j < events.len() ==> !removes(#[trigger] events[j], k)
        } by {
            match events[n] {
                TableEvent::Poll { removed, connected, devices } => {
                    let mid = after_removals(prev, removed);
                    law_removals(prev, removed);
                    law_arrivals_keep_existing(mid, connected, devices);
                    if mid.dom().contains(k) {
                        assert(prev.dom().contains(k) && !removed.contains(k));
                        let i = choose|i: int|
                            0 <= i < before.len() && connects(before[i], k) && forall|j: int|
                                i < j < before.len() ==> !removes(#[trigger] before[j], k);
                        assert(connects(events[i], k));
                        assert forall|j: int| i < j < events.len() implies !removes(
                            #[trigger] events[j],
                            k,
                        ) by {
                            if j < n {
                                assert(events[j] == before[j]);
                            }
                        }
                    } else {
                        assert(connected.contains(k));
                        assert(connects(events[n], k));
                    }
                },
                TableEvent::Reading { id, level, is_charging } => {
                    assert(prev.dom().contains(k));
                    let i = choose|i: int|
                        0 <= i < before.len() && connects(before[i], k) && forall|j: int|
                            i < j < before.len() ==> !removes(#[trigger] before[j], k);
                    assert(connects(events[i], k));
                    assert forall|j: int| i < j < events.len() implies !removes(
                        #[trigger] events[j],
                        k,
                    ) by {
                        if j < n {
                            assert(events[j] == before[j]);
                        }
                    }
                },
            }
        }
    }
}

/// The poller's remembered ids and counter after polls that reported the
/// newly connected ids `conns`, in order, from `DevicePoller::new`.
pub open spec fn poller_after(conns: Seq<Seq<u32>>) -> (Seq<u32>, int)
    decreases conns.len(),
{
    if conns.len() == 0 {
        (seq![], 0)
    } else {
        let s = poller_after(conns.drop_last());
        (next_last(s.0, conns.last()), (s.1 + 1) % (POLLS_PER_BATTERY_UPDATE as int))
    }
}

/// The newly connected ids the poll before poll `i` reported; none before the first.
pub open spec fn previous_connected(conns: Seq<Seq<u32>>, i: int) -> Seq<u32> {
    if i == 0 {
        seq![]
    } else {
        conns[i - 1]
    }
}

proof fn lemma_poller_after(conns: Seq<Seq<u32>>, n: int)
    requires
        0 <= n <= conns.len(),
    ensures
        same_ids(poller_after(conns.take(n)).0, previous_connected(conns, n)),
        poller_after(conns.take(n)).1 == n % (POLLS_PER_BATTERY_UPDATE as int),
    decreases n,
{
    if n == 0 {
        assert(conns.take(0) =~= Seq::<Seq<u32>>::empty());
    } else {
        lemma_poller_after(conns, n - 1);
        assert(conns.take(n).drop_last() =~= conns.take(n - 1));
        assert(conns.take(n).last() == conns[n - 1]);
        let s = poller_after(conns.take(n - 1));
        law_battery_update_period((n - 1) as nat);
        assert(POLLS_PER_BATTERY_UPDATE == 60);
    }
}

/// Law: over successive polls from `DevicePoller::new`, where poll `i`
/// reported the newly connected ids `conns[i]`, poll `i` requests an update
/// for those ids exactly when they differ, as a set, from those of the poll
/// before it (none before the first), and requests an update of every device
/// exactly when `i` is a multiple of `POLLS_PER_BATTERY_UPDATE`.
pub proof fn law_poll_history(conns: Seq<Seq<u32>>, i: int)
    requires
        0 <= i < conns.len(),
    ensures
        ({
            let s = poller_after(conns.take(i));
            &&& !same_ids(conns[i], s.0) <==> !same_ids(conns[i], previous_connected(conns, i))
            &&& (s.1 == 0) <==> (i % (POLLS_PER_BATTERY_UPDATE as int) == 0)
        }),
{
    lemma_poller_after(conns, i);
    let s = poller_after(conns.take(i));
    let p = previous_connected(conns, i);
    if same_ids(conns[i], s.0) {
        assert forall|x: u32| conns[i].contains(x) <==> p.contains(x) by {
            assert(conns[i].contains(x) <==> s.0.contains(x));
            assert(s.0.contains(x) <==> p.contains(x));
        }
    }
    if same_ids(conns[i], p) {
        assert forall|x: u32| conns[i].contains(x) <==> s.0.contains(x) by {
            assert(conns[i].contains(x) <==> p.contains(x));
            assert(s.0.contains(x) <==> p.contains(x));
        }
    }
}

} // verus!
