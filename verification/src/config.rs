//! Settings kept for each mouse device, keyed by the device's instance id
//! (its Raw Input device path).

use vstd::prelude::*;

verus! {

/// What a `DeviceConfig` holds, as plain values.
pub struct DeviceEntry {
    pub instance_id: Seq<char>,
    pub display_name: Seq<char>,
    pub speed: i32,
    pub monitored: bool,
    pub enhance_pointer_precision: bool,
    pub swap_buttons: bool,
    pub wheel_scroll_lines: i32,
}

/// Settings of one device.
#[derive(Clone)]
pub struct DeviceConfig {
    /// Instance id of the device (its Raw Input device path).
    pub instance_id: String,
    /// Name that the user gave the device.
    pub display_name: String,
    /// Cursor speed (1 to 20).
    pub speed: i32,
    /// Whether the device is watched (listed, and its input acted on).
    pub monitored: bool,
    /// Whether "enhance pointer precision" is on.
    pub enhance_pointer_precision: bool,
    /// Whether the primary and secondary buttons are swapped.
    pub swap_buttons: bool,
    /// Lines scrolled per wheel notch (1 to 20).
    pub wheel_scroll_lines: i32,
}

impl View for DeviceConfig {
    type V = DeviceEntry;

    open spec fn view(&self) -> DeviceEntry {
        DeviceEntry {
            instance_id: self.instance_id@,
            display_name: self.display_name@,
            speed: self.speed,
            monitored: self.monitored,
            enhance_pointer_precision: self.enhance_pointer_precision,
            swap_buttons: self.swap_buttons,
            wheel_scroll_lines: self.wheel_scroll_lines,
        }
    }
}

/// Whether a device is watched, where its stored settings do not say.
pub fn default_monitored() -> (monitored: bool)
    ensures
        monitored,
{
    true
}

/// Whether "enhance pointer precision" is on, where stored settings do not say.
pub fn default_enhance_pointer_precision() -> (enabled: bool)
    ensures
        enabled,
{
    true
}

/// Whether the buttons are swapped, where stored settings do not say.
pub fn default_swap_buttons() -> (swap: bool)
    ensures
        !swap,
{
    false
}

/// Lines scrolled per wheel notch, where stored settings do not say.
pub fn default_wheel_scroll_lines() -> (lines: i32)
    ensures
        lines == 3,
{
    3
}

/// Settings of every device seen so far.
pub struct AppConfig {
    pub devices: Vec<DeviceConfig>,
}

impl Default for AppConfig {
    fn default() -> (config: AppConfig)
        ensures
            config@ == Seq::<DeviceEntry>::empty(),
    {
        let config = AppConfig { devices: Vec::new() };
        assert(config@ =~= Seq::<DeviceEntry>::empty());
        config
    }
}

/// The entries of a list of device settings, in order.
pub open spec fn entries(devices: Seq<DeviceConfig>) -> Seq<DeviceEntry> {
    devices.map_values(|d: DeviceConfig| d@)
}

impl View for AppConfig {
    type V = Seq<DeviceEntry>;

    open spec fn view(&self) -> Seq<DeviceEntry> {
        entries(self.devices@)
    }
}

/// Index of the first entry whose instance id is `id`, if there is one.
pub open spec fn index_of_id(devs: Seq<DeviceEntry>, id: Seq<char>) -> Option<int>
    decreases devs.len(),
{
    if devs.len() == 0 {
        None
    } else {
        match index_of_id(devs.drop_last(), id) {
            Some(i) => Some(i),
            None => if devs.last().instance_id == id {
                Some(devs.len() - 1)
            } else {
                None
            },
        }
    }
}

impl AppConfig {
    /// Finds the settings of the device with this instance id.
    pub fn find_by_instance_id(&self, instance_id: &str) -> (found: Option<&DeviceConfig>)
        ensures
            match index_of_id(self@, instance_id@) {
                Some(i) => found == Some(&self.devices@[i]),
                None => found is None,
            },
    {
        let key = instance_id.to_owned();
        let mut i: usize = 0;
        while i < self.devices.len()
            invariant
                i <= self.devices.len(),
                key@ == instance_id@,
                index_of_id(self@.take(i as int), instance_id@) is None,
            decreases self.devices.len() - i,
        {
            assert(self@.take(i + 1).drop_last() =~= self@.take(i as int));
            if self.devices[i].instance_id == key {
                proof { lemma_index_of_id_prefix(self@, instance_id@, i + 1); }
                return Some(&self.devices[i]);
            }
            i += 1;
        }
        assert(self@.take(i as int) =~= self@);
        None
    }

    /// Finds the settings of the device with this instance id, for changing them.
    pub fn find_by_instance_id_mut(&mut self, instance_id: &str) -> (found: Option<&mut DeviceConfig>)
        ensures
            match index_of_id(old(self)@, instance_id@) {
                Some(i) => found matches Some(r) && *r == old(self).devices@[i]
                    && final(self).devices@ == old(self).devices@.update(i, *final(r)),
                None => found is None && *final(self) == *old(self),
            },
    {
        let key = instance_id.to_owned();
        let mut i: usize = 0;
        while i < self.devices.len()
            invariant
                i <= self.devices.len(),
                key@ == instance_id@,
                *self == *old(self),
                index_of_id(self@.take(i as int), instance_id@) is None,
            decreases self.devices.len() - i,
        {
            assert(self@.take(i + 1).drop_last() =~= self@.take(i as int));
            if self.devices[i].instance_id == key {
                proof { lemma_index_of_id_prefix(self@, instance_id@, i + 1); }
                assert(index_of_id(self@, instance_id@) == Some(i as int));
                return Some(&mut self.devices[i]);
            }
            i += 1;
        }
        assert(self@.take(i as int) =~= self@);
        None
    }
}

/// Where a prefix of a list already holds the id, the whole list finds it there.
pub proof fn lemma_index_of_id_prefix(devs: Seq<DeviceEntry>, id: Seq<char>, n: int)
    requires
        0 <= n <= devs.len(),
        index_of_id(devs.take(n), id) is Some,
    ensures
        index_of_id(devs, id) == index_of_id(devs.take(n), id),
    decreases devs.len() - n,
{
    if n < devs.len() {
        assert(devs.take(n + 1).drop_last() =~= devs.take(n));
        lemma_index_of_id_prefix(devs, id, n + 1);
    } else {
        assert(devs.take(n) =~= devs);
    }
}

/// `index_of_id` finds the first entry with the id, and finds none only where
/// no entry has it.
pub proof fn lemma_index_of_id_first(devs: Seq<DeviceEntry>, id: Seq<char>)
    ensures
        match index_of_id(devs, id) {
            Some(i) => 0 <= i < devs.len() && devs[i].instance_id == id
                && forall|j: int| 0 <= j < i ==> devs[j].instance_id != id,
            None => forall|j: int| 0 <= j < devs.len() ==> devs[j].instance_id != id,
        },
    decreases devs.len(),
{
    if devs.len() > 0 {
        lemma_index_of_id_first(devs.drop_last(), id);
        assert forall|j: int| 0 <= j < devs.len() - 1 implies devs[j] == devs.drop_last()[j] by {}
    }
}

} // verus!
