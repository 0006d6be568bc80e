//! The decisions of the main window and the settings window: which devices
//! are listed, which one is being edited, and how an edit changes the stored
//! settings. The window code performs what these functions decide.

use vstd::prelude::*;

use crate::config::{entries, index_of_id, lemma_index_of_id_first, AppConfig, DeviceConfig, DeviceEntry};
use crate::device::{MouseDevice, MouseDeviceView};

verus! {

/// The views of a list of strings.
pub open spec fn string_views(v: Seq<String>) -> Seq<Seq<char>> {
    v.map_values(|s: String| s@)
}

/// The views of a list of mouse devices.
pub open spec fn mouse_views(v: Seq<MouseDevice>) -> Seq<MouseDeviceView> {
    v.map_values(|m: MouseDevice| m@)
}

/// Index of the first element of `s` equal to `x`, if there is one.
pub open spec fn first_index_of<A>(s: Seq<A>, x: A) -> Option<int>
    decreases s.len(),
{
    if s.len() == 0 {
        None
    } else {
        match first_index_of(s.drop_last(), x) {
            Some(i) => Some(i),
            None => if s.last() == x {
                Some(s.len() - 1)
            } else {
                None
            },
        }
    }
}

/// The system-wide mouse settings at a given moment.
#[derive(Clone, Copy)]
pub struct MouseSettings {
    pub speed: i32,
    pub enhance_pointer_precision: bool,
    pub swap_buttons: bool,
    pub wheel_scroll_lines: i32,
}

/// The entry stored for a device seen for the first time: its listed name,
/// watched, with the current system settings.
pub open spec fn new_entry(m: MouseDeviceView, s: MouseSettings) -> DeviceEntry {
    DeviceEntry {
        instance_id: m.instance_id,
        display_name: m.display_name,
        speed: s.speed,
        monitored: true,
        enhance_pointer_precision: s.enhance_pointer_precision,
        swap_buttons: s.swap_buttons,
        wheel_scroll_lines: s.wheel_scroll_lines,
    }
}

/// The stored entries after the connected devices `mice` are registered in
/// turn: each device whose id has no entry yet gets a new one at the end.
pub open spec fn registered(devs: Seq<DeviceEntry>, mice: Seq<MouseDeviceView>, s: MouseSettings) -> Seq<DeviceEntry>
    decreases mice.len(),
{
    if mice.len() == 0 {
        devs
    } else {
        let prev = registered(devs, mice.drop_last(), s);
        if index_of_id(prev, mice.last().instance_id) is Some {
            prev
        } else {
            prev.push(new_entry(mice.last(), s))
        }
    }
}

/// Whether the stored entry for `id` says the device is watched.
pub open spec fn is_watched(devs: Seq<DeviceEntry>, id: Seq<char>) -> bool {
    match index_of_id(devs, id) {
        Some(j) => devs[j].monitored,
        None => false,
    }
}

/// A row of the device list.
pub struct ListRow {
    pub handle: isize,
    pub instance_id: Seq<char>,
    pub label: Seq<char>,
}

/// The rows of the device list: the connected devices, in order, whose
/// stored entry says they are watched, each shown under its stored name.
pub open spec fn listed(devs: Seq<DeviceEntry>, mice: Seq<MouseDeviceView>) -> Seq<ListRow>
    decreases mice.len(),
{
    if mice.len() == 0 {
        Seq::empty()
    } else {
        let prev = listed(devs, mice.drop_last());
        let m = mice.last();
        match index_of_id(devs, m.instance_id) {
            Some(j) => if devs[j].monitored {
                prev.push(ListRow { handle: m.handle, instance_id: m.instance_id, label: devs[j].display_name })
            } else {
                prev
            },
            None => prev,
        }
    }
}

/// What prefixes the name of an unwatched device in the settings window.
pub open spec fn unmonitored_prefix() -> Seq<char> {
    seq!['[', '監', '視', '外', ']', ' ']
}

/// How a device is shown in the settings window.
pub open spec fn settings_label(e: DeviceEntry) -> Seq<char> {
    if e.monitored {
        e.display_name
    } else {
        unmonitored_prefix() + e.display_name
    }
}

/// A row of the settings window's list.
pub struct SettingsRow {
    pub instance_id: Seq<char>,
    pub label: Seq<char>,
}

/// The rows of the settings window: the connected devices, in order, that
/// have a stored entry.
pub open spec fn settings_rows(devs: Seq<DeviceEntry>, ids: Seq<Seq<char>>) -> Seq<SettingsRow>
    decreases ids.len(),
{
    if ids.len() == 0 {
        Seq::empty()
    } else {
        let prev = settings_rows(devs, ids.drop_last());
        match index_of_id(devs, ids.last()) {
            Some(j) => prev.push(SettingsRow { instance_id: ids.last(), label: settings_label(devs[j]) }),
            None => prev,
        }
    }
}

/// The entries with the first entry whose id is `id` changed by `f`.
pub open spec fn update_by_id(
    devs: Seq<DeviceEntry>,
    id: Seq<char>,
    f: spec_fn(DeviceEntry) -> DeviceEntry,
) -> Seq<DeviceEntry> {
    match index_of_id(devs, id) {
        Some(j) => devs.update(j, f(devs[j])),
        None => devs,
    }
}

/// A change to one setting of a device.
#[derive(Clone, Copy)]
pub enum SettingChange {
    Speed(i32),
    EnhancePointerPrecision(bool),
    SwapButtons(bool),
    WheelScrollLines(i32),
}

/// An entry after a change of one setting.
pub open spec fn changed(c: SettingChange) -> spec_fn(DeviceEntry) -> DeviceEntry {
    |e: DeviceEntry| match c {
        SettingChange::Speed(v) => DeviceEntry { speed: v, ..e },
        SettingChange::EnhancePointerPrecision(b) => DeviceEntry { enhance_pointer_precision: b, ..e },
        SettingChange::SwapButtons(b) => DeviceEntry { swap_buttons: b, ..e },
        SettingChange::WheelScrollLines(v) => DeviceEntry { wheel_scroll_lines: v, ..e },
    }
}

/// An entry under a new name.
pub open spec fn renamed(name: Seq<char>) -> spec_fn(DeviceEntry) -> DeviceEntry {
    |e: DeviceEntry| DeviceEntry { display_name: name, ..e }
}

/// An entry watched or not.
pub open spec fn with_monitored(monitored: bool) -> spec_fn(DeviceEntry) -> DeviceEntry {
    |e: DeviceEntry| DeviceEntry { monitored, ..e }
}

/// Fastest cursor speed.
pub const MAX_SPEED: i32 = 20;
/// Slowest cursor speed.
pub const MIN_SPEED: i32 = 1;
/// Most lines scrolled per wheel notch.
pub const MAX_WHEEL_SCROLL_LINES: i32 = 20;
/// Fewest lines scrolled per wheel notch.
pub const MIN_WHEEL_SCROLL_LINES: i32 = 1;

/// `v` brought into `min..=max`.
pub open spec fn bounded(v: i32, min: i32, max: i32) -> i32 {
    if v < min {
        min
    } else if v > max {
        max
    } else {
        v
    }
}

/// The value one step above `current`, unless `current` is at `max` or above.
pub open spec fn raised(current: i32, max: i32) -> Option<i32> {
    if current >= max {
        None
    } else {
        Some((current + 1) as i32)
    }
}

/// The value one step below `current`, unless `current` is at `min` or below.
pub open spec fn lowered(current: i32, min: i32) -> Option<i32> {
    if current <= min {
        None
    } else {
        Some((current - 1) as i32)
    }
}

/// What choosing "watch" or "do not watch" in the settings window leads to.
pub enum MonitorChange {
    /// No row was selected: nothing happens.
    Ignored,
    /// The selected device has no stored settings: only the device list is rebuilt.
    Missing,
    /// The selected device's setting changed: the settings are saved, the
    /// row is relabelled, and the device list is rebuilt.
    Changed { row: usize, label: String },
}

/// The state behind the main window and the settings window.
pub struct AppState {
    /// Stored settings of every device seen.
    pub config: AppConfig,
    /// Raw Input handle of the device on each row of the device list.
    pub device_handles: Vec<isize>,
    /// Instance id of the device on each row of the device list.
    pub device_instance_ids: Vec<String>,
    /// Row of the device being edited, if any.
    pub active_device_index: Option<usize>,
    /// Instance ids of all connected devices, watched or not.
    pub all_connected_ids: Vec<String>,
    /// Instance id of the device on each row of the settings window's list.
    pub settings_instance_ids: Vec<String>,
    /// Set while the window code updates the controls itself, so that the
    /// events this raises change nothing.
    pub is_updating_ui: bool,
}

impl Default for AppState {
    /// No settings stored, no device listed or being edited.
    fn default() -> (state: AppState)
        ensures
            state.wf(),
            state.config@ == Seq::<DeviceEntry>::empty(),
            state.device_handles@.len() == 0,
            state.device_instance_ids@.len() == 0,
            state.active_device_index is None,
            state.all_connected_ids@.len() == 0,
            state.settings_instance_ids@.len() == 0,
            !state.is_updating_ui,
    {
        AppState::new(AppConfig::default())
    }
}

impl AppState {
    /// The device list has one handle and one instance id per row.
    pub open spec fn wf(self) -> bool {
        self.device_handles.len() == self.device_instance_ids.len()
    }

    /// The row being edited, if any, is a row of the device list.
    pub open spec fn active_in_range(self) -> bool {
        self.active_device_index matches Some(i) ==> i < self.device_instance_ids.len()
    }

    /// Instance id of the device being edited, if any.
    pub open spec fn active_id(self) -> Option<Seq<char>> {
        match self.active_device_index {
            Some(i) => Some(self.device_instance_ids@[i as int]@),
            None => None,
        }
    }

    /// Everything but the stored settings is as in `other`.
    pub open spec fn same_but_config(self, other: Self) -> bool {
        &&& self.device_handles == other.device_handles
        &&& self.device_instance_ids == other.device_instance_ids
        &&& self.active_device_index == other.active_device_index
        &&& self.all_connected_ids == other.all_connected_ids
        &&& self.settings_instance_ids == other.settings_instance_ids
        &&& self.is_updating_ui == other.is_updating_ui
    }

    /// The stored settings after `change` is made to the device being edited.
    pub open spec fn after_change(self, change: SettingChange) -> Seq<DeviceEntry> {
        match self.active_id() {
            Some(id) => update_by_id(self.config@, id, changed(change)),
            None => self.config@,
        }
    }

    /// The state at start-up, with the stored settings loaded.
    pub fn new(config: AppConfig) -> (state: AppState)
        ensures
            state.wf(),
            state.config == config,
            state.device_handles@.len() == 0,
            state.device_instance_ids@.len() == 0,
            state.active_device_index is None,
            state.all_connected_ids@.len() == 0,
            state.settings_instance_ids@.len() == 0,
            !state.is_updating_ui,
    {
        AppState {
            config,
            device_handles: Vec::new(),
            device_instance_ids: Vec::new(),
            active_device_index: None,
            all_connected_ids: Vec::new(),
            settings_instance_ids: Vec::new(),
            is_updating_ui: false,
        }
    }

    /// Whether the row being edited, if any, is a row of the device list.
    pub fn active_index_valid(&self) -> (valid: bool)
        ensures
            valid == self.active_in_range(),
    {
        match self.active_device_index {
            Some(i) => i < self.device_instance_ids.len(),
            None => true,
        }
    }

    /// Rebuilds the device list from the connected devices `mice`.
    ///
    /// Every connected device without stored settings is registered, watched,
    /// with the current system settings `current`; the result says whether
    /// any was (the settings are then to be saved). The device list then
    /// holds the watched devices, in the order given; the names to show on
    /// its rows are returned.
    pub fn refresh_device_list(&mut self, mice: &Vec<MouseDevice>, current: MouseSettings) -> (update: (bool, Vec<String>))
        ensures
            final(self).config@ == registered(old(self).config@, mouse_views(mice@), current),
            update.0 == (final(self).config@.len() != old(self).config@.len()),
            string_views(final(self).all_connected_ids@)
                == mouse_views(mice@).map_values(|m: MouseDeviceView| m.instance_id),
            final(self).device_handles@
                == listed(final(self).config@, mouse_views(mice@)).map_values(|r: ListRow| r.handle),
            string_views(final(self).device_instance_ids@)
                == listed(final(self).config@, mouse_views(mice@)).map_values(|r: ListRow| r.instance_id),
            string_views(update.1@)
                == listed(final(self).config@, mouse_views(mice@)).map_values(|r: ListRow| r.label),
            final(self).wf(),
            final(self).active_device_index == old(self).active_device_index,
            final(self).settings_instance_ids == old(self).settings_instance_ids,
            final(self).is_updating_ui == old(self).is_updating_ui,
            // entries there were stay as they were
            final(self).config@.len() >= old(self).config@.len(),
            forall|k: int| 0 <= k < old(self).config@.len() ==> #[trigger] final(self).config@[k] == old(self).config@[k],
            // each added entry is watched and holds the current system settings
            forall|k: int| old(self).config@.len() <= k < final(self).config@.len() ==> {
                let e = #[trigger] final(self).config@[k];
                &&& e.monitored
                &&& e.speed == current.speed
                &&& e.enhance_pointer_precision == current.enhance_pointer_precision
                &&& e.swap_buttons == current.swap_buttons
                &&& e.wheel_scroll_lines == current.wheel_scroll_lines
            },
            // every connected device has stored settings
            forall|k: int| 0 <= k < mice@.len() ==> #[trigger] index_of_id(final(self).config@, mice@[k]@.instance_id) is Some,
            // every watched connected device is on a row, with its handle and id
            forall|k: int| #![trigger mice@[k]] 0 <= k < mice@.len() && is_watched(final(self).config@, mice@[k]@.instance_id)
                ==> exists|r: int| 0 <= r < final(self).device_handles@.len()
                    && #[trigger] final(self).device_handles@[r] == mice@[k].handle
                    && final(self).device_instance_ids@[r]@ == mice@[k].instance_id@,
    {
        let ghost mv = mouse_views(mice@);
        let ghost old_devs = self.config@;

        let mut all_ids: Vec<String> = Vec::new();
        let mut i: usize = 0;
        while i < mice.len()
            invariant
                i <= mice.len(),
                mv == mouse_views(mice@),
                string_views(all_ids@) == mv.take(i as int).map_values(|m: MouseDeviceView| m.instance_id),
            decreases mice.len() - i,
        {
            let ghost prev = all_ids@;
            assert(mv[i as int] == mice@[i as int]@);
            all_ids.push(mice[i].instance_id.clone());
            assert(string_views(all_ids@) =~= string_views(prev).push(mv[i as int].instance_id));
            assert(mv.take(i + 1) =~= mv.take(i as int).push(mv[i as int]));
            i += 1;
            assert(string_views(all_ids@) =~= mv.take(i as int).map_values(|m: MouseDeviceView| m.instance_id));
        }
        assert(mv.take(i as int) =~= mv);
        self.all_connected_ids = all_ids;

        let mut added = false;
        let mut i: usize = 0;
        while i < mice.len()
            invariant
                i <= mice.len(),
                mv == mouse_views(mice@),
                self.config@ == registered(old_devs, mv.take(i as int), current),
                self.config@.len() >= old_devs.len(),
                added == (self.config@.len() != old_devs.len()),
                string_views(self.all_connected_ids@) == mv.map_values(|m: MouseDeviceView| m.instance_id),
                self.device_handles == old(self).device_handles,
                self.device_instance_ids == old(self).device_instance_ids,
                self.active_device_index == old(self).active_device_index,
                self.settings_instance_ids == old(self).settings_instance_ids,
                self.is_updating_ui == old(self).is_updating_ui,
            decreases mice.len() - i,
        {
            let m = &mice[i];
            assert(mv.take(i + 1).drop_last() =~= mv.take(i as int));
            assert(mv.take(i + 1).last() == m@);
            if self.config.find_by_instance_id(m.instance_id.as_str()).is_none() {
                let entry = DeviceConfig {
                    instance_id: m.instance_id.clone(),
                    display_name: m.display_name.clone(),
                    speed: current.speed,
                    monitored: true,
                    enhance_pointer_precision: current.enhance_pointer_precision,
                    swap_buttons: current.swap_buttons,
                    wheel_scroll_lines: current.wheel_scroll_lines,
                };
                let ghost before = self.config.devices@;
                self.config.devices.push(entry);
                assert(entries(before.push(entry)) =~= entries(before).push(entry@));
                added = true;
            }
            i += 1;
        }
        assert(mv.take(i as int) =~= mv);

        let ghost devs = self.config@;
        let mut handles: Vec<isize> = Vec::new();
        let mut ids: Vec<String> = Vec::new();
        let mut labels: Vec<String> = Vec::new();
        let mut i: usize = 0;
        while i < mice.len()
            invariant
                i <= mice.len(),
                mv == mouse_views(mice@),
                devs == self.config@,
                handles@ == listed(devs, mv.take(i as int)).map_values(|r: ListRow| r.handle),
                string_views(ids@) == listed(devs, mv.take(i as int)).map_values(|r: ListRow| r.instance_id),
                string_views(labels@) == listed(devs, mv.take(i as int)).map_values(|r: ListRow| r.label),
            decreases mice.len() - i,
        {
            let m = &mice[i];
            assert(mv.take(i + 1).drop_last() =~= mv.take(i as int));
            assert(mv.take(i + 1).last() == m@);
            proof {
                lemma_index_of_id_first(devs, m@.instance_id);
            }
            match self.config.find_by_instance_id(m.instance_id.as_str()) {
                Some(dc) => {
                    if dc.monitored {
                        let ghost rows = listed(devs, mv.take(i as int));
                        let ghost row = ListRow { handle: m.handle, instance_id: m@.instance_id, label: dc.display_name@ };
                        let ghost (h0, i0, l0) = (handles@, ids@, labels@);
                        handles.push(m.handle);
                        ids.push(m.instance_id.clone());
                        labels.push(dc.display_name.clone());
                        assert(rows.push(row).map_values(|r: ListRow| r.handle) =~= rows.map_values(|r: ListRow| r.handle).push(row.handle));
                        assert(rows.push(row).map_values(|r: ListRow| r.instance_id) =~= rows.map_values(|r: ListRow| r.instance_id).push(row.instance_id));
                        assert(rows.push(row).map_values(|r: ListRow| r.label) =~= rows.map_values(|r: ListRow| r.label).push(row.label));
                        assert(string_views(ids@) =~= string_views(i0).push(row.instance_id));
                        assert(string_views(labels@) =~= string_views(l0).push(row.label));
                    }
                },
                None => {},
            }
            i += 1;
        }
        assert(mv.take(i as int) =~= mv);
        self.device_handles = handles;
        self.device_instance_ids = ids;
        proof {
            law_registration_keeps_entries(old_devs, mv, current);
            law_registration_uses_current_settings(old_devs, mv, current);
            law_registration_covers_all(old_devs, mv, current);
            assert forall|k: int| 0 <= k < old_devs.len() implies #[trigger] self.config@[k] == old_devs[k] by {
                assert(self.config@.take(old_devs.len() as int)[k] == self.config@[k]);
            }
            assert forall|k: int| 0 <= k < mice@.len() implies #[trigger] index_of_id(self.config@, mice@[k]@.instance_id) is Some by {
                assert(mv[k] == mice@[k]@);
            }
            let rows = listed(devs, mv);
            assert forall|k: int| #![trigger mice@[k]] 0 <= k < mice@.len() && is_watched(self.config@, mice@[k]@.instance_id)
                implies exists|r: int| 0 <= r < self.device_handles@.len()
                    && #[trigger] self.device_handles@[r] == mice@[k].handle
                    && self.device_instance_ids@[r]@ == mice@[k].instance_id@ by {
                assert(mv[k] == mice@[k]@);
                law_watched_devices_listed(devs, mv, k);
                let r = choose|r: int| 0 <= r < rows.len() && #[trigger] rows[r] == (ListRow {
                    handle: mv[k].handle,
                    instance_id: mv[k].instance_id,
                    label: devs[index_of_id(devs, mv[k].instance_id).unwrap()].display_name,
                });
                assert(self.device_handles@[r] == rows.map_values(|x: ListRow| x.handle)[r]);
                assert(string_views(self.device_instance_ids@)[r] == rows.map_values(|x: ListRow| x.instance_id)[r]);
            }
        }
        (added, labels)
    }

    /// The row of the device list that shows the device with this handle.
    pub fn highlight_device(&self, device_handle: isize) -> (row: Option<usize>)
        ensures
            match row {
                Some(i) => first_index_of(self.device_handles@, device_handle) == Some(i as int),
                None => first_index_of(self.device_handles@, device_handle) is None,
            },
    {
        position_of(&self.device_handles, device_handle)
    }

    /// Input came from the device with this handle: it becomes the device
    /// being edited. Where it is listed and was not already being edited, its
    /// stored settings are returned, to be applied to the system and shown.
    pub fn on_device_switch(&mut self, device_handle: isize) -> (settings: Option<DeviceConfig>)
        requires
            match first_index_of(old(self).device_handles@, device_handle) {
                Some(i) => old(self).active_device_index == Some(i as usize)
                    || i < old(self).device_instance_ids.len(),
                None => true,
            },
        ensures
            match first_index_of(old(self).device_handles@, device_handle) {
                None => settings is None && *final(self) == *old(self),
                Some(i) => if old(self).active_device_index == Some(i as usize) {
                    settings is None && *final(self) == *old(self)
                } else {
                    &&& final(self).active_device_index == Some(i as usize)
                    &&& final(self).config == old(self).config
                    &&& final(self).device_handles == old(self).device_handles
                    &&& final(self).device_instance_ids == old(self).device_instance_ids
                    &&& final(self).all_connected_ids == old(self).all_connected_ids
                    &&& final(self).settings_instance_ids == old(self).settings_instance_ids
                    &&& final(self).is_updating_ui == old(self).is_updating_ui
                    &&& match index_of_id(old(self).config@, old(self).device_instance_ids@[i]@) {
                        Some(j) => settings matches Some(d) && d@ == old(self).config@[j],
                        None => settings is None,
                    }
                },
            },
    {
        let idx = match position_of(&self.device_handles, device_handle) {
            Some(i) => i,
            None => return None,
        };
        proof {
            lemma_first_index_of_in_range(self.device_handles@, device_handle);
        }
        if self.active_device_index == Some(idx) {
            return None;
        }
        self.active_device_index = Some(idx);
        let instance_id = self.device_instance_ids[idx].clone();
        proof {
            lemma_index_of_id_first(self.config@, instance_id@);
        }
        match self.config.find_by_instance_id(instance_id.as_str()) {
            Some(dc) => Some(DeviceConfig {
                instance_id: dc.instance_id.clone(),
                display_name: dc.display_name.clone(),
                speed: dc.speed,
                monitored: dc.monitored,
                enhance_pointer_precision: dc.enhance_pointer_precision,
                swap_buttons: dc.swap_buttons,
                wheel_scroll_lines: dc.wheel_scroll_lines,
            }),
            None => None,
        }
    }

    /// Makes `change` to the stored settings of the device being edited.
    /// The result says whether a device is being edited: the settings are
    /// then to be saved (also where the device has no stored settings).
    pub fn update_active_device_config(&mut self, change: SettingChange) -> (save: bool)
        requires
            old(self).active_in_range(),
        ensures
            save == old(self).active_device_index is Some,
            final(self).config@ == old(self).after_change(change),
            final(self).same_but_config(*old(self)),
            final(self).config@.len() == old(self).config@.len(),
            // no entry of another device changes
            forall|k: int| 0 <= k < old(self).config@.len()
                && (old(self).active_id() matches Some(id) ==> old(self).config@[k].instance_id != id)
                ==> #[trigger] final(self).config@[k] == old(self).config@[k],
            // the edited device's entry holds the new value in the changed setting
            old(self).active_id() matches Some(id) ==> (index_of_id(old(self).config@, id) matches Some(j) ==> {
                let after = final(self).config@[j];
                &&& after.instance_id == id
                &&& match change {
                    SettingChange::Speed(v) => after.speed == v,
                    SettingChange::EnhancePointerPrecision(b) => after.enhance_pointer_precision == b,
                    SettingChange::SwapButtons(b) => after.swap_buttons == b,
                    SettingChange::WheelScrollLines(v) => after.wheel_scroll_lines == v,
                }
            }),
    {
        proof {
            law_change_touches_only_the_edited_device(*old(self), change);
        }
        let idx = match self.active_device_index {
            Some(i) => i,
            None => return false,
        };
        let instance_id = self.device_instance_ids[idx].clone();
        proof {
            lemma_index_of_id_first(self.config@, instance_id@);
        }
        let ghost before = self.config.devices@;
        match self.config.find_by_instance_id_mut(instance_id.as_str()) {
            Some(dc) => {
                match change {
                    SettingChange::Speed(v) => dc.speed = v,
                    SettingChange::EnhancePointerPrecision(b) => dc.enhance_pointer_precision = b,
                    SettingChange::SwapButtons(b) => dc.swap_buttons = b,
                    SettingChange::WheelScrollLines(v) => dc.wheel_scroll_lines = v,
                }
            },
            None => {},
        }
        proof {
            if let Some(j) = index_of_id(entries(before), instance_id@) {
                assert(entries(self.config.devices@) =~= entries(before).update(j, changed(change)(entries(before)[j])));
            }
        }
        true
    }

    /// The cursor speed slider moved to `speed`. Unless the controls are being
    /// updated, the speed, kept within 1 to 20, is stored; the result then
    /// holds the speed stored and whether to save.
    pub fn on_speed_change(&mut self, speed: i32) -> (applied: Option<(i32, bool)>)
        requires
            !old(self).is_updating_ui ==> old(self).active_in_range(),
        ensures
            if old(self).is_updating_ui {
                applied is None && *final(self) == *old(self)
            } else {
                let v = bounded(speed, MIN_SPEED, MAX_SPEED);
                &&& applied == Some((v, old(self).active_device_index is Some))
                &&& MIN_SPEED <= v <= MAX_SPEED
                &&& final(self).config@ == old(self).after_change(SettingChange::Speed(v))
                &&& final(self).same_but_config(*old(self))
            },
    {
        if self.is_updating_ui {
            return None;
        }
        let v = bound(speed, MIN_SPEED, MAX_SPEED);
        Some((v, self.update_active_device_config(SettingChange::Speed(v))))
    }

    /// The cursor speed "up" button, with the slider at `current`. Unless the controls
    /// are being updated or the speed is at its top, it goes one step up (to
    /// 1 at least); the result then holds the new speed and whether to save.
    pub fn on_speed_up(&mut self, current: i32) -> (step: Option<(i32, bool)>)
        requires
            !old(self).is_updating_ui && raised(current, MAX_SPEED) is Some ==> old(self).active_in_range(),
        ensures
            match (old(self).is_updating_ui, raised(current, MAX_SPEED)) {
                (false, Some(next)) => {
                    let v = bounded(next, MIN_SPEED, MAX_SPEED);
                    &&& step == Some((v, old(self).active_device_index is Some))
                    &&& MIN_SPEED <= v <= MAX_SPEED
                    &&& final(self).config@ == old(self).after_change(SettingChange::Speed(v))
                    &&& final(self).same_but_config(*old(self))
                },
                _ => step is None && *final(self) == *old(self),
            },
    {
        if self.is_updating_ui {
            return None;
        }
        match raise(current, MAX_SPEED) {
            Some(next) => {
                let v = bound(next, MIN_SPEED, MAX_SPEED);
                Some((v, self.update_active_device_config(SettingChange::Speed(v))))
            },
            None => None,
        }
    }

    /// The cursor speed "down" button, with the slider at `current`. Unless the controls
    /// are being updated or the speed is at its bottom, it goes one step down
    /// (to 20 at most); the result then holds the new speed and whether to save.
    pub fn on_speed_down(&mut self, current: i32) -> (step: Option<(i32, bool)>)
        requires
            !old(self).is_updating_ui && lowered(current, MIN_SPEED) is Some ==> old(self).active_in_range(),
        ensures
            match (old(self).is_updating_ui, lowered(current, MIN_SPEED)) {
                (false, Some(next)) => {
                    let v = bounded(next, MIN_SPEED, MAX_SPEED);
                    &&& step == Some((v, old(self).active_device_index is Some))
                    &&& MIN_SPEED <= v <= MAX_SPEED
                    &&& final(self).config@ == old(self).after_change(SettingChange::Speed(v))
                    &&& final(self).same_but_config(*old(self))
                },
                _ => step is None && *final(self) == *old(self),
            },
    {
        if self.is_updating_ui {
            return None;
        }
        match lower(current, MIN_SPEED) {
            Some(next) => {
                let v = bound(next, MIN_SPEED, MAX_SPEED);
                Some((v, self.update_active_device_config(SettingChange::Speed(v))))
            },
            None => None,
        }
    }

    /// The "enhance pointer precision" box changed to `checked`. Unless the
    /// controls are being updated, the change is made; the result then says
    /// whether to save.
    pub fn on_epp_change(&mut self, checked: bool) -> (save: Option<bool>)
        requires
            !old(self).is_updating_ui ==> old(self).active_in_range(),
        ensures
            if old(self).is_updating_ui {
                save is None && *final(self) == *old(self)
            } else {
                &&& save == Some(old(self).active_device_index is Some)
                &&& final(self).config@ == old(self).after_change(SettingChange::EnhancePointerPrecision(checked))
                &&& final(self).same_but_config(*old(self))
            },
    {
        if self.is_updating_ui {
            return None;
        }
        Some(self.update_active_device_config(SettingChange::EnhancePointerPrecision(checked)))
    }

    /// The "swap buttons" box changed to `checked`. Unless the controls are
    /// being updated, the change is made; the result then says whether to save.
    pub fn on_swap_change(&mut self, checked: bool) -> (save: Option<bool>)
        requires
            !old(self).is_updating_ui ==> old(self).active_in_range(),
        ensures
            if old(self).is_updating_ui {
                save is None && *final(self) == *old(self)
            } else {
                &&& save == Some(old(self).active_device_index is Some)
                &&& final(self).config@ == old(self).after_change(SettingChange::SwapButtons(checked))
                &&& final(self).same_but_config(*old(self))
            },
    {
        if self.is_updating_ui {
            return None;
        }
        Some(self.update_active_device_config(SettingChange::SwapButtons(checked)))
    }

    /// The scroll lines slider moved to `lines`. Unless the controls are being
    /// updated, the value, kept within 1 to 20, is stored; the result then
    /// holds the value stored and whether to save.
    pub fn on_scroll_change(&mut self, lines: i32) -> (applied: Option<(i32, bool)>)
        requires
            !old(self).is_updating_ui ==> old(self).active_in_range(),
        ensures
            if old(self).is_updating_ui {
                applied is None && *final(self) == *old(self)
            } else {
                let v = bounded(lines, MIN_WHEEL_SCROLL_LINES, MAX_WHEEL_SCROLL_LINES);
                &&& applied == Some((v, old(self).active_device_index is Some))
                &&& MIN_WHEEL_SCROLL_LINES <= v <= MAX_WHEEL_SCROLL_LINES
                &&& final(self).config@ == old(self).after_change(SettingChange::WheelScrollLines(v))
                &&& final(self).same_but_config(*old(self))
            },
    {
        if self.is_updating_ui {
            return None;
        }
        let v = bound(lines, MIN_WHEEL_SCROLL_LINES, MAX_WHEEL_SCROLL_LINES);
        Some((v, self.update_active_device_config(SettingChange::WheelScrollLines(v))))
    }

    /// The scroll lines "up" button, with the slider at `current`. Unless the controls
    /// are being updated or the value is at its top, it goes one step up (to
    /// 1 at least); the result then holds the new value and whether to save.
    pub fn on_scroll_up(&mut self, current: i32) -> (step: Option<(i32, bool)>)
        requires
            !old(self).is_updating_ui && raised(current, MAX_WHEEL_SCROLL_LINES) is Some ==> old(self).active_in_range(),
        ensures
            match (old(self).is_updating_ui, raised(current, MAX_WHEEL_SCROLL_LINES)) {
                (false, Some(next)) => {
                    let v = bounded(next, MIN_WHEEL_SCROLL_LINES, MAX_WHEEL_SCROLL_LINES);
                    &&& step == Some((v, old(self).active_device_index is Some))
                    &&& MIN_WHEEL_SCROLL_LINES <= v <= MAX_WHEEL_SCROLL_LINES
                    &&& final(self).config@ == old(self).after_change(SettingChange::WheelScrollLines(v))
                    &&& final(self).same_but_config(*old(self))
                },
                _ => step is None && *final(self) == *old(self),
            },
    {
        if self.is_updating_ui {
            return None;
        }
        match raise(current, MAX_WHEEL_SCROLL_LINES) {
            Some(next) => {
                let v = bound(next, MIN_WHEEL_SCROLL_LINES, MAX_WHEEL_SCROLL_LINES);
                Some((v, self.update_active_device_config(SettingChange::WheelScrollLines(v))))
            },
            None => None,
        }
    }

    /// The scroll lines "down" button, with the slider at `current`. Unless the controls
    /// are being updated or the value is at its bottom, it goes one step down
    /// (to 20 at most); the result then holds the new value and whether to save.
    pub fn on_scroll_down(&mut self, current: i32) -> (step: Option<(i32, bool)>)
        requires
            !old(self).is_updating_ui && lowered(current, MIN_WHEEL_SCROLL_LINES) is Some ==> old(self).active_in_range(),
        ensures
            match (old(self).is_updating_ui, lowered(current, MIN_WHEEL_SCROLL_LINES)) {
                (false, Some(next)) => {
                    let v = bounded(next, MIN_WHEEL_SCROLL_LINES, MAX_WHEEL_SCROLL_LINES);
                    &&& step == Some((v, old(self).active_device_index is Some))
                    &&& MIN_WHEEL_SCROLL_LINES <= v <= MAX_WHEEL_SCROLL_LINES
                    &&& final(self).config@ == old(self).after_change(SettingChange::WheelScrollLines(v))
                    &&& final(self).same_but_config(*old(self))
                },
                _ => step is None && *final(self) == *old(self),
            },
    {
        if self.is_updating_ui {
            return None;
        }
        match lower(current, MIN_WHEEL_SCROLL_LINES) {
            Some(next) => {
                let v = bound(next, MIN_WHEEL_SCROLL_LINES, MAX_WHEEL_SCROLL_LINES);
                Some((v, self.update_active_device_config(SettingChange::WheelScrollLines(v))))
            },
            None => None,
        }
    }
}

impl AppState {
    /// The "rename" button, with `new_name` typed in. Where a device is being
    /// edited and the name is not empty, the device's stored name becomes
    /// `new_name`; the result is then the row to relabel (the settings are
    /// to be saved, also where the device has no stored settings).
    pub fn on_name_change(&mut self, new_name: &str) -> (row: Option<usize>)
        requires
            new_name@.len() > 0 ==> old(self).active_in_range(),
        ensures
            match old(self).active_device_index {
                Some(i) if new_name@.len() > 0 => {
                    &&& row == Some(i)
                    &&& final(self).config@ == update_by_id(old(self).config@, old(self).device_instance_ids@[i as int]@, renamed(new_name@))
                    &&& final(self).same_but_config(*old(self))
                },
                _ => row is None && *final(self) == *old(self),
            },
    {
        let idx = match self.active_device_index {
            Some(i) => i,
            None => return None,
        };
        if new_name.is_empty() {
            return None;
        }
        let instance_id = self.device_instance_ids[idx].clone();
        proof {
            lemma_index_of_id_first(self.config@, instance_id@);
        }
        let ghost before = self.config.devices@;
        match self.config.find_by_instance_id_mut(instance_id.as_str()) {
            Some(dc) => {
                dc.display_name = String::from_str(new_name);
            },
            None => {},
        }
        proof {
            if let Some(j) = index_of_id(entries(before), instance_id@) {
                assert(entries(self.config.devices@) =~= entries(before).update(j, renamed(new_name@)(entries(before)[j])));
            }
        }
        Some(idx)
    }

    /// Rebuilds the settings window's list: every connected device that has
    /// stored settings, in order. The labels of its rows are returned.
    pub fn refresh_settings_list(&mut self) -> (labels: Vec<String>)
        ensures
            string_views(final(self).settings_instance_ids@)
                == settings_rows(old(self).config@, string_views(old(self).all_connected_ids@))
                    .map_values(|r: SettingsRow| r.instance_id),
            string_views(labels@)
                == settings_rows(old(self).config@, string_views(old(self).all_connected_ids@))
                    .map_values(|r: SettingsRow| r.label),
            final(self).config == old(self).config,
            final(self).device_handles == old(self).device_handles,
            final(self).device_instance_ids == old(self).device_instance_ids,
            final(self).active_device_index == old(self).active_device_index,
            final(self).all_connected_ids == old(self).all_connected_ids,
            final(self).is_updating_ui == old(self).is_updating_ui,
            // every connected device with stored settings has a row
            forall|k: int| #![trigger old(self).all_connected_ids@[k]]
                0 <= k < old(self).all_connected_ids@.len()
                && index_of_id(old(self).config@, old(self).all_connected_ids@[k]@) is Some
                ==> exists|r: int| 0 <= r < final(self).settings_instance_ids@.len()
                    && #[trigger] final(self).settings_instance_ids@[r]@ == old(self).all_connected_ids@[k]@,
    {
        let ghost devs = self.config@;
        let ghost all = string_views(self.all_connected_ids@);
        let mut ids: Vec<String> = Vec::new();
        let mut labels: Vec<String> = Vec::new();
        let mut i: usize = 0;
        while i < self.all_connected_ids.len()
            invariant
                i <= self.all_connected_ids.len(),
                devs == self.config@,
                all == string_views(self.all_connected_ids@),
                string_views(ids@) == settings_rows(devs, all.take(i as int)).map_values(|r: SettingsRow| r.instance_id),
                string_views(labels@) == settings_rows(devs, all.take(i as int)).map_values(|r: SettingsRow| r.label),
            decreases self.all_connected_ids.len() - i,
        {
            let instance_id = &self.all_connected_ids[i];
            assert(all.take(i + 1).drop_last() =~= all.take(i as int));
            assert(all.take(i + 1).last() == instance_id@);
            proof {
                lemma_index_of_id_first(devs, instance_id@);
            }
            match self.config.find_by_instance_id(instance_id.as_str()) {
                Some(dc) => {
                    let ghost rows = settings_rows(devs, all.take(i as int));
                    let ghost row = SettingsRow { instance_id: instance_id@, label: settings_label(dc@) };
                    let ghost (i0, l0) = (ids@, labels@);
                    ids.push(instance_id.clone());
                    labels.push(settings_label_of(dc));
                    assert(rows.push(row).map_values(|r: SettingsRow| r.instance_id) =~= rows.map_values(|r: SettingsRow| r.instance_id).push(row.instance_id));
                    assert(rows.push(row).map_values(|r: SettingsRow| r.label) =~= rows.map_values(|r: SettingsRow| r.label).push(row.label));
                    assert(string_views(ids@) =~= string_views(i0).push(row.instance_id));
                    assert(string_views(labels@) =~= string_views(l0).push(row.label));
                },
                None => {},
            }
            i += 1;
        }
        assert(all.take(i as int) =~= all);
        self.settings_instance_ids = ids;
        proof {
            let rows = settings_rows(devs, all);
            assert forall|k: int| #![trigger self.all_connected_ids@[k]]
                0 <= k < self.all_connected_ids@.len()
                && index_of_id(devs, self.all_connected_ids@[k]@) is Some
                implies exists|r: int| 0 <= r < self.settings_instance_ids@.len()
                    && #[trigger] self.settings_instance_ids@[r]@ == self.all_connected_ids@[k]@ by {
                assert(all[k] == self.all_connected_ids@[k]@);
                law_stored_devices_in_settings(devs, all, k);
                let r = choose|r: int| 0 <= r < rows.len() && #[trigger] rows[r].instance_id == all[k]
                    && rows[r].label == settings_label(devs[index_of_id(devs, all[k]).unwrap()]);
                assert(string_views(self.settings_instance_ids@)[r] == rows.map_values(|x: SettingsRow| x.instance_id)[r]);
            }
        }
        labels
    }

    /// "Watch" (`monitored`) or "do not watch" chosen in the settings window,
    /// with row `selected` of its list selected.
    pub fn set_device_monitored(&mut self, selected: Option<usize>, monitored: bool) -> (outcome: MonitorChange)
        requires
            selected matches Some(i) ==> i < old(self).settings_instance_ids.len(),
        ensures
            match selected {
                None => outcome is Ignored && *final(self) == *old(self),
                Some(i) => {
                    let id = old(self).settings_instance_ids@[i as int]@;
                    match index_of_id(old(self).config@, id) {
                        Some(j) => {
                            &&& outcome matches MonitorChange::Changed { row, label }
                                && row == i && label@ == settings_label(final(self).config@[j])
                            &&& final(self).config@ == update_by_id(old(self).config@, id, with_monitored(monitored))
                            &&& final(self).same_but_config(*old(self))
                            &&& final(self).config@[j].monitored == monitored
                            &&& final(self).config@.len() == old(self).config@.len()
                            &&& forall|k: int| 0 <= k < old(self).config@.len() && old(self).config@[k].instance_id != id
                                ==> #[trigger] final(self).config@[k] == old(self).config@[k]
                        },
                        None => outcome is Missing && *final(self) == *old(self),
                    }
                },
            },
    {
        let idx = match selected {
            Some(i) => i,
            None => return MonitorChange::Ignored,
        };
        let instance_id = self.settings_instance_ids[idx].clone();
        proof {
            law_monitored_set_to_choice(self.config@, instance_id@, monitored);
        }
        proof {
            lemma_index_of_id_first(self.config@, instance_id@);
        }
        let ghost before = self.config.devices@;
        let label = match self.config.find_by_instance_id_mut(instance_id.as_str()) {
            Some(dc) => {
                dc.monitored = monitored;
                settings_label_of(dc)
            },
            None => return MonitorChange::Missing,
        };
        proof {
            let j = index_of_id(entries(before), instance_id@).unwrap();
            assert(entries(self.config.devices@) =~= entries(before).update(j, with_monitored(monitored)(entries(before)[j])));
        }
        MonitorChange::Changed { row: idx, label }
    }

    /// The settings window closed: no device is being edited any more.
    pub fn on_settings_close(&mut self)
        ensures
            final(self).active_device_index is None,
            final(self).config == old(self).config,
            final(self).device_handles == old(self).device_handles,
            final(self).device_instance_ids == old(self).device_instance_ids,
            final(self).all_connected_ids == old(self).all_connected_ids,
            final(self).settings_instance_ids == old(self).settings_instance_ids,
            final(self).is_updating_ui == old(self).is_updating_ui,
    {
        self.active_device_index = None;
    }

    /// "Reset" in the settings window: the stored settings of every device
    /// are dropped and no device is being edited. (The settings are then to
    /// be saved and both lists rebuilt.)
    pub fn on_settings_reset(&mut self)
        ensures
            final(self).config@ == Seq::<DeviceEntry>::empty(),
            final(self).active_device_index is None,
            final(self).device_handles == old(self).device_handles,
            final(self).device_instance_ids == old(self).device_instance_ids,
            final(self).all_connected_ids == old(self).all_connected_ids,
            final(self).settings_instance_ids == old(self).settings_instance_ids,
            final(self).is_updating_ui == old(self).is_updating_ui,
    {
        self.config.devices.clear();
        assert(self.config@ =~= Seq::<DeviceEntry>::empty());
        self.active_device_index = None;
    }
}

/// How a device is shown in the settings window.
fn settings_label_of(dc: &DeviceConfig) -> (label: String)
    ensures
        label@ == settings_label(dc@),
{
    if dc.monitored {
        dc.display_name.clone()
    } else {
        let prefix = "[監視外] ";
        proof {
            reveal_strlit("[監視外] ");
        }
        assert(prefix@ =~= unmonitored_prefix());
        let mut label = String::from_str(prefix);
        label.append(dc.display_name.as_str());
        label
    }
}

/// Index of the first element of `v` equal to `x`.
fn position_of(v: &Vec<isize>, x: isize) -> (found: Option<usize>)
    ensures
        match found {
            Some(i) => first_index_of(v@, x) == Some(i as int),
            None => first_index_of(v@, x) is None,
        },
{
    let mut i: usize = 0;
    while i < v.len()
        invariant
            i <= v.len(),
            first_index_of(v@.take(i as int), x) is None,
        decreases v.len() - i,
    {
        assert(v@.take(i + 1).drop_last() =~= v@.take(i as int));
        if v[i] == x {
            proof {
                lemma_first_index_of_prefix(v@, x, i + 1);
            }
            return Some(i);
        }
        i += 1;
    }
    assert(v@.take(i as int) =~= v@);
    None
}

/// `v` brought into `min..=max`.
pub fn bound(v: i32, min: i32, max: i32) -> (b: i32)
    requires
        min <= max,
    ensures
        b == bounded(v, min, max),
        min <= b <= max,
{
    if v < min {
        min
    } else if v > max {
        max
    } else {
        v
    }
}

/// The value one step above `current`, unless it is at `max` or above.
pub fn raise(current: i32, max: i32) -> (next: Option<i32>)
    ensures
        next == raised(current, max),
{
    if current >= max {
        None
    } else {
        Some(current + 1)
    }
}

/// The value one step below `current`, unless it is at `min` or below.
pub fn lower(current: i32, min: i32) -> (next: Option<i32>)
    ensures
        next == lowered(current, min),
{
    if current <= min {
        None
    } else {
        Some(current - 1)
    }
}

/// Where a prefix of a sequence already holds `x`, the whole sequence finds it there.
pub proof fn lemma_first_index_of_prefix<A>(s: Seq<A>, x: A, n: int)
    requires
        0 <= n <= s.len(),
        first_index_of(s.take(n), x) is Some,
    ensures
        first_index_of(s, x) == first_index_of(s.take(n), x),
    decreases s.len() - n,
{
    if n < s.len() {
        assert(s.take(n + 1).drop_last() =~= s.take(n));
        lemma_first_index_of_prefix(s, x, n + 1);
    } else {
        assert(s.take(n) =~= s);
    }
}

/// `first_index_of` finds the first element equal to `x`, and finds none only
/// where no element is.
pub proof fn lemma_first_index_of_in_range<A>(s: Seq<A>, x: A)
    ensures
        match first_index_of(s, x) {
            Some(i) => 0 <= i < s.len() && s[i] == x && forall|j: int| 0 <= j < i ==> s[j] != x,
            None => forall|j: int| 0 <= j < s.len() ==> s[j] != x,
        },
    decreases s.len(),
{
    if s.len() > 0 {
        lemma_first_index_of_in_range(s.drop_last(), x);
        assert forall|j: int| 0 <= j < s.len() - 1 implies s[j] == s.drop_last()[j] by {}
    }
}

/// Adding an entry at the end does not change which entry an id already finds.
pub proof fn lemma_index_of_id_push(devs: Seq<DeviceEntry>, e: DeviceEntry, id: Seq<char>)
    ensures
        index_of_id(devs, id) is Some ==> index_of_id(devs.push(e), id) == index_of_id(devs, id),
        index_of_id(devs, id) is None ==> index_of_id(devs.push(e), id) == (if e.instance_id == id {
            Some(devs.len() as int)
        } else {
            None
        }),
{
    assert(devs.push(e).drop_last() =~= devs);
}

/// Registering keeps the entries there were, in place, and only adds at the end.
pub proof fn law_registration_keeps_entries(devs: Seq<DeviceEntry>, mice: Seq<MouseDeviceView>, s: MouseSettings)
    ensures
        registered(devs, mice, s).len() >= devs.len(),
        registered(devs, mice, s).take(devs.len() as int) == devs,
    decreases mice.len(),
{
    if mice.len() > 0 {
        law_registration_keeps_entries(devs, mice.drop_last(), s);
        let prev = registered(devs, mice.drop_last(), s);
        assert(prev.push(new_entry(mice.last(), s)).take(devs.len() as int) =~= prev.take(devs.len() as int));
    }
}

/// After registration every connected device has stored settings.
pub proof fn law_registration_covers_all(devs: Seq<DeviceEntry>, mice: Seq<MouseDeviceView>, s: MouseSettings)
    ensures
        forall|k: int| 0 <= k < mice.len() ==> #[trigger] index_of_id(registered(devs, mice, s), mice[k].instance_id) is Some,
    decreases mice.len(),
{
    if mice.len() > 0 {
        let prev = registered(devs, mice.drop_last(), s);
        let e = new_entry(mice.last(), s);
        law_registration_covers_all(devs, mice.drop_last(), s);
        assert forall|k: int| 0 <= k < mice.len() implies #[trigger] index_of_id(registered(devs, mice, s), mice[k].instance_id) is Some by {
            lemma_index_of_id_push(prev, e, mice[k].instance_id);
            if k < mice.len() - 1 {
                assert(mice.drop_last()[k] == mice[k]);
            }
        }
    }
}

/// Registering the same devices a second time changes nothing, whatever the
/// system settings are then.
pub proof fn law_registration_idempotent(
    devs: Seq<DeviceEntry>,
    mice: Seq<MouseDeviceView>,
    s: MouseSettings,
    later: MouseSettings,
)
    ensures
        registered(registered(devs, mice, s), mice, later) == registered(devs, mice, s),
{
    let r = registered(devs, mice, s);
    law_registration_covers_all(devs, mice, s);
    lemma_registration_of_known(r, mice, later);
}

/// Registering devices that all have stored settings changes nothing.
pub proof fn lemma_registration_of_known(devs: Seq<DeviceEntry>, mice: Seq<MouseDeviceView>, s: MouseSettings)
    requires
        forall|k: int| 0 <= k < mice.len() ==> #[trigger] index_of_id(devs, mice[k].instance_id) is Some,
    ensures
        registered(devs, mice, s) == devs,
    decreases mice.len(),
{
    if mice.len() > 0 {
        assert forall|k: int| 0 <= k < mice.drop_last().len() implies #[trigger] index_of_id(devs, mice.drop_last()[k].instance_id) is Some by {
            assert(mice.drop_last()[k] == mice[k]);
        }
        lemma_registration_of_known(devs, mice.drop_last(), s);
        assert(index_of_id(devs, mice[mice.len() - 1].instance_id) is Some);
    }
}

/// Every row of the device list shows a watched device under its stored name.
pub proof fn law_listed_rows_are_watched(devs: Seq<DeviceEntry>, mice: Seq<MouseDeviceView>)
    ensures
        forall|r: int| 0 <= r < listed(devs, mice).len() ==> {
            let row = #[trigger] listed(devs, mice)[r];
            &&& index_of_id(devs, row.instance_id) matches Some(j)
            &&& devs[j].monitored
            &&& row.label == devs[j].display_name
        },
    decreases mice.len(),
{
    if mice.len() > 0 {
        law_listed_rows_are_watched(devs, mice.drop_last());
        lemma_index_of_id_first(devs, mice.last().instance_id);
    }
}

/// A device whose stored settings say it is not watched is on no row of the
/// device list.
pub proof fn law_unwatched_not_listed(devs: Seq<DeviceEntry>, mice: Seq<MouseDeviceView>, id: Seq<char>)
    requires
        index_of_id(devs, id) is Some,
        !is_watched(devs, id),
    ensures
        forall|r: int| 0 <= r < listed(devs, mice).len() ==> #[trigger] listed(devs, mice)[r].instance_id != id,
{
    law_listed_rows_are_watched(devs, mice);
}

/// Where every connected device has stored settings that say it is watched,
/// the device list shows them all, in order.
pub proof fn lemma_all_watched_all_listed(devs: Seq<DeviceEntry>, mice: Seq<MouseDeviceView>)
    requires
        forall|k: int| 0 <= k < mice.len() ==> #[trigger] is_watched(devs, mice[k].instance_id),
    ensures
        listed(devs, mice).map_values(|r: ListRow| r.handle) == mice.map_values(|m: MouseDeviceView| m.handle),
        listed(devs, mice).map_values(|r: ListRow| r.instance_id) == mice.map_values(|m: MouseDeviceView| m.instance_id),
    decreases mice.len(),
{
    if mice.len() > 0 {
        assert forall|k: int| 0 <= k < mice.drop_last().len() implies #[trigger] is_watched(devs, mice.drop_last()[k].instance_id) by {
            assert(mice.drop_last()[k] == mice[k]);
        }
        lemma_all_watched_all_listed(devs, mice.drop_last());
        assert(is_watched(devs, mice[mice.len() - 1].instance_id));
        let prev = listed(devs, mice.drop_last());
        lemma_index_of_id_first(devs, mice.last().instance_id);
        let j = index_of_id(devs, mice.last().instance_id).unwrap();
        let row = ListRow {
            handle: mice.last().handle,
            instance_id: mice.last().instance_id,
            label: devs[j].display_name,
        };
        assert(listed(devs, mice) == prev.push(row));
        let ph = prev.map_values(|r: ListRow| r.handle);
        let mh = mice.drop_last().map_values(|m: MouseDeviceView| m.handle);
        assert(ph.len() == mh.len());
        let pi = prev.map_values(|r: ListRow| r.instance_id);
        let mi = mice.drop_last().map_values(|m: MouseDeviceView| m.instance_id);
        assert(pi.len() == mi.len());
        assert(prev.len() == mice.len() - 1);
        assert forall|k: int| 0 <= k < mice.len() implies #[trigger] prev.push(row)[k] == (ListRow {
            handle: mice[k].handle, instance_id: mice[k].instance_id, label: prev.push(row)[k].label }) by {
            if k < mice.len() - 1 {
                assert(ph[k] == mh[k]);
                assert(pi[k] == mi[k]);
                assert(mice.drop_last()[k] == mice[k]);
            }
        }
        assert(listed(devs, mice).map_values(|r: ListRow| r.handle) =~= mice.map_values(|m: MouseDeviceView| m.handle));
        assert(listed(devs, mice).map_values(|r: ListRow| r.instance_id) =~= mice.map_values(|m: MouseDeviceView| m.instance_id));
    }
}

/// Registration adds only watched entries.
pub proof fn lemma_registration_watched(devs: Seq<DeviceEntry>, mice: Seq<MouseDeviceView>, s: MouseSettings)
    requires
        forall|j: int| 0 <= j < devs.len() ==> #[trigger] devs[j].monitored,
    ensures
        forall|j: int| 0 <= j < registered(devs, mice, s).len() ==> #[trigger] registered(devs, mice, s)[j].monitored,
    decreases mice.len(),
{
    if mice.len() > 0 {
        lemma_registration_watched(devs, mice.drop_last(), s);
        let prev = registered(devs, mice.drop_last(), s);
        let e = new_entry(mice.last(), s);
        assert forall|j: int| 0 <= j < prev.push(e).len() implies #[trigger] prev.push(e)[j].monitored by {
            if j < prev.len() {
                assert(prev.push(e)[j] == prev[j]);
            }
        }
    }
}

/// After a reset, every connected device is registered as watched, so the
/// device list shows every connected device, in order.
pub proof fn law_reset_lists_every_device(mice: Seq<MouseDeviceView>, s: MouseSettings)
    ensures
        listed(registered(Seq::empty(), mice, s), mice).map_values(|r: ListRow| r.handle)
            == mice.map_values(|m: MouseDeviceView| m.handle),
        listed(registered(Seq::empty(), mice, s), mice).map_values(|r: ListRow| r.instance_id)
            == mice.map_values(|m: MouseDeviceView| m.instance_id),
{
    let devs = registered(Seq::<DeviceEntry>::empty(), mice, s);
    lemma_registration_watched(Seq::empty(), mice, s);
    law_registration_covers_all(Seq::empty(), mice, s);
    assert forall|k: int| 0 <= k < mice.len() implies #[trigger] is_watched(devs, mice[k].instance_id) by {
        lemma_index_of_id_first(devs, mice[k].instance_id);
    }
    lemma_all_watched_all_listed(devs, mice);
}

/// A change that keeps ids applies to the entry the id finds, and the id
/// still finds that entry afterwards: a lookup after an edit gives the edit.
pub proof fn law_lookup_after_update(devs: Seq<DeviceEntry>, id: Seq<char>, f: spec_fn(DeviceEntry) -> DeviceEntry)
    requires
        forall|e: DeviceEntry| #[trigger] f(e).instance_id == e.instance_id,
    ensures
        index_of_id(update_by_id(devs, id, f), id) == index_of_id(devs, id),
        index_of_id(devs, id) matches Some(j) ==> update_by_id(devs, id, f)[j] == f(devs[j]),
        update_by_id(devs, id, f).len() == devs.len(),
{
    lemma_index_of_id_first(devs, id);
    lemma_index_of_id_first(update_by_id(devs, id, f), id);
    if let Some(j) = index_of_id(devs, id) {
        let u = update_by_id(devs, id, f);
        assert(f(devs[j]).instance_id == devs[j].instance_id);
        match index_of_id(u, id) {
            Some(k) => {
                if k < j {
                    assert(u[k] == devs[k]);
                }
                if k > j {
                    assert(u[j].instance_id == id);
                }
            },
            None => {
                assert(u[j].instance_id == id);
            },
        }
    } else {
        if let Some(k) = index_of_id(update_by_id(devs, id, f), id) {
            assert(update_by_id(devs, id, f)[k] == devs[k]);
        }
    }
}

/// Stepping a setting up and then down gives it back, and steps never leave
/// the range they start in.
pub proof fn law_steps(current: i32, min: i32, max: i32)
    requires
        min <= current <= max,
    ensures
        raised(current, max) matches Some(v) ==> min <= v <= max && lowered(v, min) == Some(current),
        lowered(current, min) matches Some(v) ==> min <= v <= max && raised(v, max) == Some(current),
{
}

/// No two entries have the same instance id.
pub open spec fn ids_distinct(devs: Seq<DeviceEntry>) -> bool {
    forall|i: int, j: int| 0 <= i < j < devs.len() ==> #[trigger] devs[i].instance_id != #[trigger] devs[j].instance_id
}

/// Registration never stores two entries for one device: where the stored
/// ids were distinct, they stay distinct.
pub proof fn law_registration_keeps_ids_distinct(devs: Seq<DeviceEntry>, mice: Seq<MouseDeviceView>, s: MouseSettings)
    requires
        ids_distinct(devs),
    ensures
        ids_distinct(registered(devs, mice, s)),
    decreases mice.len(),
{
    if mice.len() > 0 {
        law_registration_keeps_ids_distinct(devs, mice.drop_last(), s);
        let prev = registered(devs, mice.drop_last(), s);
        let e = new_entry(mice.last(), s);
        if index_of_id(prev, mice.last().instance_id) is None {
            lemma_index_of_id_first(prev, mice.last().instance_id);
            let r = prev.push(e);
            assert forall|i: int, j: int| 0 <= i < j < r.len() implies #[trigger] r[i].instance_id != #[trigger] r[j].instance_id by {
                if j < prev.len() {
                    assert(r[i] == prev[i] && r[j] == prev[j]);
                } else {
                    assert(r[i] == prev[i]);
                }
            }
        }
    }
}

/// Every entry that registration adds holds the current system settings
/// passed in (speed, pointer precision, button swap, scroll lines), is
/// watched, and has the instance id and the name of one of the connected
/// devices.
pub proof fn law_registration_uses_current_settings(devs: Seq<DeviceEntry>, mice: Seq<MouseDeviceView>, s: MouseSettings)
    ensures
        forall|k: int| devs.len() <= k < registered(devs, mice, s).len() ==> {
            let e = #[trigger] registered(devs, mice, s)[k];
            &&& e.speed == s.speed
            &&& e.enhance_pointer_precision == s.enhance_pointer_precision
            &&& e.swap_buttons == s.swap_buttons
            &&& e.wheel_scroll_lines == s.wheel_scroll_lines
            &&& e.monitored
            &&& exists|i: int| 0 <= i < mice.len() && e.instance_id == mice[i].instance_id
                && e.display_name == mice[i].display_name
        },
    decreases mice.len(),
{
    if mice.len() > 0 {
        law_registration_uses_current_settings(devs, mice.drop_last(), s);
        law_registration_keeps_entries(devs, mice.drop_last(), s);
        let prev = registered(devs, mice.drop_last(), s);
        let r = registered(devs, mice, s);
        assert forall|k: int| devs.len() <= k < r.len() implies {
            let e = #[trigger] r[k];
            &&& e.speed == s.speed
            &&& e.enhance_pointer_precision == s.enhance_pointer_precision
            &&& e.swap_buttons == s.swap_buttons
            &&& e.wheel_scroll_lines == s.wheel_scroll_lines
            &&& e.monitored
            &&& exists|i: int| 0 <= i < mice.len() && e.instance_id == mice[i].instance_id
                && e.display_name == mice[i].display_name
        } by {
            if k < prev.len() {
                assert(r[k] == prev[k]);
                let i = choose|i: int| 0 <= i < mice.drop_last().len()
                    && prev[k].instance_id == mice.drop_last()[i].instance_id
                    && prev[k].display_name == mice.drop_last()[i].display_name;
                assert(mice.drop_last()[i] == mice[i]);
            } else {
                assert(r[k] == new_entry(mice.last(), s));
                assert(mice.last() == mice[mice.len() - 1]);
            }
        }
    }
}

/// The device list of connected devices in two parts is the list of the
/// first part followed by the list of the second: whether one device is
/// listed does not depend on the other devices.
pub proof fn law_listed_concat(devs: Seq<DeviceEntry>, first: Seq<MouseDeviceView>, second: Seq<MouseDeviceView>)
    ensures
        listed(devs, first + second) == listed(devs, first) + listed(devs, second),
    decreases second.len(),
{
    if second.len() == 0 {
        assert(first + second =~= first);
        assert(listed(devs, first) + listed(devs, second) =~= listed(devs, first));
    } else {
        law_listed_concat(devs, first, second.drop_last());
        assert((first + second).drop_last() =~= first + second.drop_last());
        assert((first + second).last() == second.last());
        let m = second.last();
        let a = listed(devs, first);
        let b = listed(devs, second.drop_last());
        match index_of_id(devs, m.instance_id) {
            Some(j) => if devs[j].monitored {
                let row = ListRow { handle: m.handle, instance_id: m.instance_id, label: devs[j].display_name };
                assert((a + b).push(row) =~= a + b.push(row));
            },
            None => {},
        }
    }
}

/// One connected device is on the device list exactly when its stored entry
/// says it is watched; it is then shown with its handle, its instance id and
/// its stored name.
pub proof fn law_listed_single(devs: Seq<DeviceEntry>, m: MouseDeviceView)
    ensures
        is_watched(devs, m.instance_id) ==> listed(devs, seq![m]) == seq![ListRow {
            handle: m.handle,
            instance_id: m.instance_id,
            label: devs[index_of_id(devs, m.instance_id).unwrap()].display_name,
        }],
        !is_watched(devs, m.instance_id) ==> listed(devs, seq![m]) == Seq::<ListRow>::empty(),
{
    let e = Seq::<MouseDeviceView>::empty();
    assert(listed(devs, e) == Seq::<ListRow>::empty());
    assert(seq![m].drop_last() =~= e);
    assert(seq![m].last() == m);
    assert(listed(devs, seq![m]) == (match index_of_id(devs, m.instance_id) {
        Some(j) => if devs[j].monitored {
            listed(devs, e).push(ListRow { handle: m.handle, instance_id: m.instance_id, label: devs[j].display_name })
        } else {
            listed(devs, e)
        },
        None => listed(devs, e),
    }));
    let row = ListRow {
        handle: m.handle,
        instance_id: m.instance_id,
        label: devs[index_of_id(devs, m.instance_id).unwrap()].display_name,
    };
    assert(Seq::<ListRow>::empty().push(row) =~= seq![row]);
}

/// Every connected device whose stored entry says it is watched is on a row
/// of the device list, with its handle, its instance id and its stored name,
/// whatever the other devices are; and there are no other rows.
pub proof fn law_watched_devices_listed(devs: Seq<DeviceEntry>, mice: Seq<MouseDeviceView>, k: int)
    requires
        0 <= k < mice.len(),
        is_watched(devs, mice[k].instance_id),
    ensures
        exists|r: int| 0 <= r < listed(devs, mice).len() && #[trigger] listed(devs, mice)[r] == (ListRow {
            handle: mice[k].handle,
            instance_id: mice[k].instance_id,
            label: devs[index_of_id(devs, mice[k].instance_id).unwrap()].display_name,
        }),
{
    let before = mice.take(k);
    let after = mice.skip(k + 1);
    assert(mice =~= before + seq![mice[k]] + after);
    law_listed_concat(devs, before + seq![mice[k]], after);
    law_listed_concat(devs, before, seq![mice[k]]);
    law_listed_single(devs, mice[k]);
    let r = listed(devs, before).len() as int;
    assert(listed(devs, mice)[r] == listed(devs, seq![mice[k]])[0]);
}

/// The settings window's list of connected ids in two parts is the list of the
/// first part followed by the list of the second: whether one device has a
/// row does not depend on the other devices.
pub proof fn law_settings_rows_concat(devs: Seq<DeviceEntry>, first: Seq<Seq<char>>, second: Seq<Seq<char>>)
    ensures
        settings_rows(devs, first + second) == settings_rows(devs, first) + settings_rows(devs, second),
    decreases second.len(),
{
    if second.len() == 0 {
        assert(first + second =~= first);
        assert(settings_rows(devs, first) + settings_rows(devs, second) =~= settings_rows(devs, first));
    } else {
        law_settings_rows_concat(devs, first, second.drop_last());
        assert((first + second).drop_last() =~= first + second.drop_last());
        assert((first + second).last() == second.last());
        let id = second.last();
        let a = settings_rows(devs, first);
        let b = settings_rows(devs, second.drop_last());
        match index_of_id(devs, id) {
            Some(j) => {
                let row = SettingsRow { instance_id: id, label: settings_label(devs[j]) };
                assert((a + b).push(row) =~= a + b.push(row));
            },
            None => {},
        }
    }
}

/// One connected device has a row in the settings window exactly when it has
/// stored settings; the row shows its stored name, marked where unwatched.
pub proof fn law_settings_rows_single(devs: Seq<DeviceEntry>, id: Seq<char>)
    ensures
        index_of_id(devs, id) matches Some(j) ==> settings_rows(devs, seq![id]) == seq![SettingsRow {
            instance_id: id,
            label: if devs[j].monitored { devs[j].display_name } else { unmonitored_prefix() + devs[j].display_name },
        }],
        index_of_id(devs, id) is None ==> settings_rows(devs, seq![id]) == Seq::<SettingsRow>::empty(),
{
    let e = Seq::<Seq<char>>::empty();
    assert(settings_rows(devs, e) == Seq::<SettingsRow>::empty());
    assert(seq![id].drop_last() =~= e);
    assert(seq![id].last() == id);
    assert(settings_rows(devs, seq![id]) == (match index_of_id(devs, id) {
        Some(j) => settings_rows(devs, e).push(SettingsRow { instance_id: id, label: settings_label(devs[j]) }),
        None => settings_rows(devs, e),
    }));
    lemma_index_of_id_first(devs, id);
    if let Some(j) = index_of_id(devs, id) {
        let row = SettingsRow { instance_id: id, label: settings_label(devs[j]) };
        assert(Seq::<SettingsRow>::empty().push(row) =~= seq![row]);
    }
}

/// Every connected device with stored settings has a row in the settings
/// window, whatever the other devices are.
pub proof fn law_stored_devices_in_settings(devs: Seq<DeviceEntry>, ids: Seq<Seq<char>>, k: int)
    requires
        0 <= k < ids.len(),
        index_of_id(devs, ids[k]) is Some,
    ensures
        exists|r: int| 0 <= r < settings_rows(devs, ids).len()
            && #[trigger] settings_rows(devs, ids)[r].instance_id == ids[k]
            && settings_rows(devs, ids)[r].label == settings_label(devs[index_of_id(devs, ids[k]).unwrap()]),
{
    let before = ids.take(k);
    let after = ids.skip(k + 1);
    assert(ids =~= before + seq![ids[k]] + after);
    law_settings_rows_concat(devs, before + seq![ids[k]], after);
    law_settings_rows_concat(devs, before, seq![ids[k]]);
    law_settings_rows_single(devs, ids[k]);
    lemma_index_of_id_first(devs, ids[k]);
    let r = settings_rows(devs, before).len() as int;
    assert(settings_rows(devs, ids)[r] == settings_rows(devs, seq![ids[k]])[0]);
    assert(settings_rows(devs, ids)[r].instance_id == ids[k]);
    assert(settings_rows(devs, ids)[r].label == settings_label(devs[index_of_id(devs, ids[k]).unwrap()]));
}

/// A setting change to the device being edited leaves every entry with
/// another instance id as it was; the edited entry gets the new value in the
/// changed setting and keeps every other field.
pub proof fn law_change_touches_only_the_edited_device(state: AppState, change: SettingChange)
    ensures
        state.after_change(change).len() == state.config@.len(),
        forall|k: int| 0 <= k < state.config@.len() && (state.active_id() matches Some(id) ==> state.config@[k].instance_id != id)
            ==> #[trigger] state.after_change(change)[k] == state.config@[k],
        forall|k: int| 0 <= k < state.config@.len() && state.active_id() is None
            ==> #[trigger] state.after_change(change)[k] == state.config@[k],
        state.active_id() matches Some(id) ==> (index_of_id(state.config@, id) matches Some(j) ==> {
            let before = state.config@[j];
            let after = state.after_change(change)[j];
            &&& after.instance_id == before.instance_id
            &&& after.display_name == before.display_name
            &&& after.monitored == before.monitored
            &&& after.speed == (if let SettingChange::Speed(v) = change { v } else { before.speed })
            &&& after.enhance_pointer_precision == (if let SettingChange::EnhancePointerPrecision(b) = change { b } else { before.enhance_pointer_precision })
            &&& after.swap_buttons == (if let SettingChange::SwapButtons(b) = change { b } else { before.swap_buttons })
            &&& after.wheel_scroll_lines == (if let SettingChange::WheelScrollLines(v) = change { v } else { before.wheel_scroll_lines })
        }),
{
    if let Some(id) = state.active_id() {
        lemma_index_of_id_first(state.config@, id);
    }
}

/// "Watch" or "do not watch" sets the stored flag of the selected device to
/// the choice, whatever it was, keeps its other fields, and leaves every
/// entry with another instance id as it was.
pub proof fn law_monitored_set_to_choice(devs: Seq<DeviceEntry>, id: Seq<char>, monitored: bool)
    ensures
        update_by_id(devs, id, with_monitored(monitored)).len() == devs.len(),
        forall|k: int| 0 <= k < devs.len() && devs[k].instance_id != id
            ==> #[trigger] update_by_id(devs, id, with_monitored(monitored))[k] == devs[k],
        index_of_id(devs, id) matches Some(j) ==> {
            let before = devs[j];
            let after = update_by_id(devs, id, with_monitored(monitored))[j];
            &&& after.monitored == monitored
            &&& after.instance_id == before.instance_id
            &&& after.display_name == before.display_name
            &&& after.speed == before.speed
            &&& after.enhance_pointer_precision == before.enhance_pointer_precision
            &&& after.swap_buttons == before.swap_buttons
            &&& after.wheel_scroll_lines == before.wheel_scroll_lines
        },
{
    lemma_index_of_id_first(devs, id);
}

} // verus!
