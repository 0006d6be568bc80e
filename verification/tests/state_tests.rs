use multi_mouse_tool::config::{AppConfig, DeviceConfig};
use multi_mouse_tool::device::MouseDevice;
use multi_mouse_tool::state::{
    bound, lower, raise, AppState, MonitorChange, MouseSettings, SettingChange, MAX_SPEED,
    MAX_WHEEL_SCROLL_LINES, MIN_SPEED, MIN_WHEEL_SCROLL_LINES,
};

fn mouse(name: &str, id: &str, handle: isize) -> MouseDevice {
    MouseDevice { display_name: name.to_string(), instance_id: id.to_string(), handle }
}

fn entry(id: &str, name: &str, speed: i32, monitored: bool) -> DeviceConfig {
    DeviceConfig {
        instance_id: id.to_string(),
        display_name: name.to_string(),
        speed,
        monitored,
        enhance_pointer_precision: false,
        swap_buttons: true,
        wheel_scroll_lines: 7,
    }
}

fn system() -> MouseSettings {
    MouseSettings { speed: 10, enhance_pointer_precision: true, swap_buttons: false, wheel_scroll_lines: 3 }
}

fn two_mice() -> Vec<MouseDevice> {
    vec![mouse("VID_1 PID_1", "path-a", 100), mouse("VID_2 PID_2", "path-b", 200)]
}

#[test]
fn new_state_is_empty() {
    let state = AppState::new(AppConfig::default());
    assert!(state.config.devices.is_empty());
    assert!(state.device_handles.is_empty());
    assert!(state.device_instance_ids.is_empty());
    assert_eq!(state.active_device_index, None);
    assert!(state.all_connected_ids.is_empty());
    assert!(state.settings_instance_ids.is_empty());
    assert!(!state.is_updating_ui);
}

#[test]
fn refresh_registers_unknown_devices_with_the_system_settings() {
    let mut state = AppState::new(AppConfig { devices: vec![entry("path-b", "work mouse", 4, true)] });
    let (added, labels) = state.refresh_device_list(&two_mice(), system());
    assert!(added);
    assert_eq!(state.config.devices.len(), 2);
    assert_eq!(state.config.devices[0].display_name, "work mouse");
    assert_eq!(state.config.devices[0].speed, 4);
    let new = &state.config.devices[1];
    assert_eq!(new.instance_id, "path-a");
    assert_eq!(new.display_name, "VID_1 PID_1");
    assert_eq!(new.speed, 10);
    assert!(new.monitored);
    assert!(new.enhance_pointer_precision);
    assert!(!new.swap_buttons);
    assert_eq!(new.wheel_scroll_lines, 3);
    assert_eq!(labels, vec!["VID_1 PID_1".to_string(), "work mouse".to_string()]);
    assert_eq!(state.device_handles, vec![100, 200]);
    assert_eq!(state.device_instance_ids, vec!["path-a".to_string(), "path-b".to_string()]);
    assert_eq!(state.all_connected_ids, vec!["path-a".to_string(), "path-b".to_string()]);
}

#[test]
fn refresh_twice_adds_nothing_the_second_time() {
    let mut state = AppState::new(AppConfig::default());
    let (added, _) = state.refresh_device_list(&two_mice(), system());
    assert!(added);
    let other = MouseSettings { speed: 3, enhance_pointer_precision: false, swap_buttons: true, wheel_scroll_lines: 9 };
    let (added_again, labels) = state.refresh_device_list(&two_mice(), other);
    assert!(!added_again);
    assert_eq!(state.config.devices.len(), 2);
    assert_eq!(state.config.devices[0].speed, 10);
    assert_eq!(state.config.devices[1].speed, 10);
    assert_eq!(labels.len(), 2);
}

#[test]
fn devices_sharing_an_id_are_registered_once_and_both_listed() {
    let mice = vec![mouse("(名前取得不可)", "", 1), mouse("(名前取得失敗)", "", 2)];
    let mut state = AppState::new(AppConfig::default());
    let (added, labels) = state.refresh_device_list(&mice, system());
    assert!(added);
    assert_eq!(state.config.devices.len(), 1);
    assert_eq!(labels, vec!["(名前取得不可)".to_string(), "(名前取得不可)".to_string()]);
    assert_eq!(state.device_handles, vec![1, 2]);
}

#[test]
fn unwatched_devices_are_not_listed() {
    let mut state = AppState::new(AppConfig { devices: vec![entry("path-a", "hidden", 4, false)] });
    let (added, labels) = state.refresh_device_list(&two_mice(), system());
    assert!(added);
    assert_eq!(labels, vec!["VID_2 PID_2".to_string()]);
    assert_eq!(state.device_handles, vec![200]);
    assert_eq!(state.device_instance_ids, vec!["path-b".to_string()]);
    assert_eq!(state.all_connected_ids.len(), 2);
}

#[test]
fn refresh_with_no_devices_empties_the_list() {
    let mut state = AppState::new(AppConfig::default());
    state.refresh_device_list(&two_mice(), system());
    let (added, labels) = state.refresh_device_list(&Vec::new(), system());
    assert!(!added);
    assert!(labels.is_empty());
    assert!(state.device_handles.is_empty());
    assert!(state.all_connected_ids.is_empty());
    assert_eq!(state.config.devices.len(), 2);
}

#[test]
fn highlight_finds_the_row_of_a_handle() {
    let mut state = AppState::new(AppConfig::default());
    state.refresh_device_list(&two_mice(), system());
    assert_eq!(state.highlight_device(200), Some(1));
    assert_eq!(state.highlight_device(100), Some(0));
    assert_eq!(state.highlight_device(300), None);
}

#[test]
fn switching_device_returns_its_settings_once() {
    let mut state = AppState::new(AppConfig { devices: vec![entry("path-b", "work mouse", 4, true)] });
    state.refresh_device_list(&two_mice(), system());
    let settings = state.on_device_switch(200).unwrap();
    assert_eq!(settings.display_name, "work mouse");
    assert_eq!(settings.speed, 4);
    assert!(settings.swap_buttons);
    assert_eq!(settings.wheel_scroll_lines, 7);
    assert_eq!(state.active_device_index, Some(1));
    assert!(state.on_device_switch(200).is_none());
    assert_eq!(state.active_device_index, Some(1));
    let first = state.on_device_switch(100).unwrap();
    assert_eq!(first.display_name, "VID_1 PID_1");
    assert_eq!(state.active_device_index, Some(0));
}

#[test]
fn switching_to_an_unlisted_handle_changes_nothing() {
    let mut state = AppState::new(AppConfig::default());
    state.refresh_device_list(&two_mice(), system());
    assert!(state.on_device_switch(555).is_none());
    assert_eq!(state.active_device_index, None);
}

#[test]
fn switching_to_a_device_without_settings_still_makes_it_active() {
    let mut state = AppState::new(AppConfig::default());
    state.refresh_device_list(&two_mice(), system());
    state.on_settings_reset();
    assert!(state.on_device_switch(100).is_none());
    assert_eq!(state.active_device_index, Some(0));
}

#[test]
fn setting_changes_go_to_the_active_device() {
    let mut state = AppState::new(AppConfig::default());
    state.refresh_device_list(&two_mice(), system());
    assert!(!state.update_active_device_config(SettingChange::Speed(3)));
    assert_eq!(state.config.devices[0].speed, 10);
    state.on_device_switch(200);
    assert!(state.update_active_device_config(SettingChange::Speed(3)));
    assert_eq!(state.on_epp_change(false), Some(true));
    assert_eq!(state.on_swap_change(true), Some(true));
    assert_eq!(state.on_scroll_change(12), Some((12, true)));
    let b = &state.config.devices[1];
    assert_eq!(b.speed, 3);
    assert!(!b.enhance_pointer_precision);
    assert!(b.swap_buttons);
    assert_eq!(b.wheel_scroll_lines, 12);
    assert_eq!(state.config.devices[0].speed, 10);
    assert_eq!(state.on_speed_change(15), Some((15, true)));
    assert_eq!(state.config.devices[1].speed, 15);
}

#[test]
fn changes_are_ignored_while_the_controls_are_updated() {
    let mut state = AppState::new(AppConfig::default());
    state.refresh_device_list(&two_mice(), system());
    state.on_device_switch(100);
    state.is_updating_ui = true;
    assert_eq!(state.on_speed_change(2), None);
    assert_eq!(state.on_speed_up(5), None);
    assert_eq!(state.on_speed_down(5), None);
    assert_eq!(state.on_epp_change(false), None);
    assert_eq!(state.on_swap_change(true), None);
    assert_eq!(state.on_scroll_change(9), None);
    assert_eq!(state.on_scroll_up(5), None);
    assert_eq!(state.on_scroll_down(5), None);
    assert_eq!(state.config.devices[0].speed, 10);
    assert_eq!(state.config.devices[0].wheel_scroll_lines, 3);
}

#[test]
fn speed_buttons_step_within_bounds() {
    let mut state = AppState::new(AppConfig::default());
    state.refresh_device_list(&two_mice(), system());
    assert_eq!(state.on_speed_up(20), None);
    assert_eq!(state.on_speed_down(1), None);
    assert_eq!(state.on_speed_up(19), Some((20, false)));
    state.on_device_switch(100);
    assert_eq!(state.on_speed_up(10), Some((11, true)));
    assert_eq!(state.config.devices[0].speed, 11);
    assert_eq!(state.on_speed_down(11), Some((10, true)));
    assert_eq!(state.config.devices[0].speed, 10);
    assert_eq!(state.on_speed_down(2), Some((1, true)));
    assert_eq!(state.config.devices[0].speed, 1);
}

#[test]
fn scroll_buttons_step_within_bounds() {
    let mut state = AppState::new(AppConfig::default());
    state.refresh_device_list(&two_mice(), system());
    state.on_device_switch(200);
    assert_eq!(state.on_scroll_up(20), None);
    assert_eq!(state.on_scroll_down(1), None);
    assert_eq!(state.on_scroll_up(3), Some((4, true)));
    assert_eq!(state.config.devices[1].wheel_scroll_lines, 4);
    assert_eq!(state.on_scroll_down(4), Some((3, true)));
    assert_eq!(state.config.devices[1].wheel_scroll_lines, 3);
}

#[test]
fn steps_up_then_down_give_the_value_back() {
    for v in MIN_SPEED..MAX_SPEED {
        assert_eq!(lower(raise(v, MAX_SPEED).unwrap(), MIN_SPEED), Some(v));
    }
    for v in (MIN_WHEEL_SCROLL_LINES + 1)..=MAX_WHEEL_SCROLL_LINES {
        assert_eq!(raise(lower(v, MIN_WHEEL_SCROLL_LINES).unwrap(), MAX_WHEEL_SCROLL_LINES), Some(v));
    }
    assert_eq!(raise(25, MAX_SPEED), None);
    assert_eq!(lower(-3, MIN_SPEED), None);
}

#[test]
fn renaming_the_active_device() {
    let mut state = AppState::new(AppConfig::default());
    state.refresh_device_list(&two_mice(), system());
    assert_eq!(state.on_name_change("office"), None);
    state.on_device_switch(200);
    assert_eq!(state.on_name_change(""), None);
    assert_eq!(state.config.devices[1].display_name, "VID_2 PID_2");
    assert_eq!(state.on_name_change("office"), Some(1));
    assert_eq!(state.config.devices[1].display_name, "office");
    assert_eq!(state.config.find_by_instance_id("path-b").unwrap().display_name, "office");
    let (_, labels) = state.refresh_device_list(&two_mice(), system());
    assert_eq!(labels[1], "office");
}

#[test]
fn settings_list_marks_unwatched_devices() {
    let mut state = AppState::new(AppConfig { devices: vec![entry("path-a", "hidden", 4, false)] });
    state.refresh_device_list(&vec![mouse("VID_1 PID_1", "path-a", 100)], system());
    state.all_connected_ids.push("path-z".to_string());
    let labels = state.refresh_settings_list();
    assert_eq!(labels, vec!["[監視外] hidden".to_string()]);
    assert_eq!(state.settings_instance_ids, vec!["path-a".to_string()]);
}

#[test]
fn watching_and_unwatching_from_the_settings_window() {
    let mut state = AppState::new(AppConfig::default());
    state.refresh_device_list(&two_mice(), system());
    let labels = state.refresh_settings_list();
    assert_eq!(labels, vec!["VID_1 PID_1".to_string(), "VID_2 PID_2".to_string()]);

    assert!(matches!(state.set_device_monitored(None, false), MonitorChange::Ignored));
    match state.set_device_monitored(Some(0), false) {
        MonitorChange::Changed { row, label } => {
            assert_eq!(row, 0);
            assert_eq!(label, "[監視外] VID_1 PID_1");
        }
        _ => panic!("the device has stored settings"),
    }
    assert!(!state.config.devices[0].monitored);
    let (added, labels) = state.refresh_device_list(&two_mice(), system());
    assert!(!added);
    assert_eq!(labels, vec!["VID_2 PID_2".to_string()]);
    assert_eq!(state.device_handles, vec![200]);

    match state.set_device_monitored(Some(0), true) {
        MonitorChange::Changed { row, label } => {
            assert_eq!(row, 0);
            assert_eq!(label, "VID_1 PID_1");
        }
        _ => panic!("the device has stored settings"),
    }
    let (_, labels) = state.refresh_device_list(&two_mice(), system());
    assert_eq!(labels.len(), 2);
}

#[test]
fn unwatching_a_device_without_settings() {
    let mut state = AppState::new(AppConfig::default());
    state.refresh_device_list(&two_mice(), system());
    state.refresh_settings_list();
    state.on_settings_reset();
    assert!(matches!(state.set_device_monitored(Some(1), false), MonitorChange::Missing));
    assert!(state.config.devices.is_empty());
}

#[test]
fn closing_the_settings_window_ends_editing() {
    let mut state = AppState::new(AppConfig::default());
    state.refresh_device_list(&two_mice(), system());
    state.on_device_switch(100);
    state.on_settings_close();
    assert_eq!(state.active_device_index, None);
    assert_eq!(state.config.devices.len(), 2);
}

#[test]
fn reset_then_refresh_lists_every_device() {
    let mut state = AppState::new(AppConfig { devices: vec![entry("path-a", "hidden", 4, false)] });
    state.refresh_device_list(&two_mice(), system());
    state.on_device_switch(200);
    state.on_settings_reset();
    assert!(state.config.devices.is_empty());
    assert_eq!(state.active_device_index, None);
    let (added, labels) = state.refresh_device_list(&two_mice(), system());
    assert!(added);
    assert_eq!(labels, vec!["VID_1 PID_1".to_string(), "VID_2 PID_2".to_string()]);
    assert_eq!(state.device_handles, vec![100, 200]);
    assert!(state.config.devices.iter().all(|d| d.monitored));
}

#[test]
fn active_index_validity() {
    let mut state = AppState::new(AppConfig::default());
    assert!(state.active_index_valid());
    state.refresh_device_list(&two_mice(), system());
    state.on_device_switch(200);
    assert!(state.active_index_valid());
    state.refresh_device_list(&vec![mouse("VID_1 PID_1", "path-a", 100)], system());
    assert!(!state.active_index_valid());
}

#[test]
fn default_state_is_empty() {
    let state = AppState::default();
    assert!(state.config.devices.is_empty());
    assert!(state.device_handles.is_empty());
    assert_eq!(state.active_device_index, None);
    assert!(!state.is_updating_ui);
}

#[test]
fn slider_values_are_stored_within_one_to_twenty() {
    let mut state = AppState::new(AppConfig::default());
    state.refresh_device_list(&two_mice(), system());
    state.on_device_switch(100);
    assert_eq!(state.on_scroll_change(21), Some((20, true)));
    assert_eq!(state.config.devices[0].wheel_scroll_lines, 20);
    assert_eq!(state.on_scroll_change(0), Some((1, true)));
    assert_eq!(state.config.devices[0].wheel_scroll_lines, 1);
    assert_eq!(state.on_speed_change(25), Some((20, true)));
    assert_eq!(state.config.devices[0].speed, 20);
    assert_eq!(state.on_speed_change(-4), Some((1, true)));
    assert_eq!(state.config.devices[0].speed, 1);
}

#[test]
fn steps_from_outside_the_range_stay_inside_it() {
    let mut state = AppState::new(AppConfig::default());
    state.refresh_device_list(&two_mice(), system());
    state.on_device_switch(100);
    assert_eq!(state.on_scroll_up(21), None);
    assert_eq!(state.on_scroll_down(21), Some((20, true)));
    assert_eq!(state.config.devices[0].wheel_scroll_lines, 20);
    assert_eq!(state.on_scroll_down(25), Some((20, true)));
    assert_eq!(state.on_speed_down(0), None);
    assert_eq!(state.on_speed_up(0), Some((1, true)));
    assert_eq!(state.config.devices[0].speed, 1);
    assert_eq!(state.on_speed_up(-5), Some((1, true)));
}

#[test]
fn bound_keeps_values_within_the_range() {
    assert_eq!(bound(21, MIN_WHEEL_SCROLL_LINES, MAX_WHEEL_SCROLL_LINES), 20);
    assert_eq!(bound(0, MIN_SPEED, MAX_SPEED), 1);
    assert_eq!(bound(7, MIN_SPEED, MAX_SPEED), 7);
}

#[test]
fn registration_keeps_one_entry_per_device() {
    let mice = vec![
        mouse("A", "path-a", 1),
        mouse("B", "path-b", 2),
        mouse("A again", "path-a", 3),
    ];
    let mut state = AppState::new(AppConfig::default());
    state.refresh_device_list(&mice, system());
    state.refresh_device_list(&mice, system());
    assert_eq!(state.config.devices.len(), 2);
    assert_ne!(state.config.devices[0].instance_id, state.config.devices[1].instance_id);
}

#[test]
fn switching_again_to_the_edited_device_changes_nothing() {
    let mut state = AppState::new(AppConfig::default());
    state.refresh_device_list(&two_mice(), system());
    assert!(state.on_device_switch(200).is_some());
    assert!(state.on_device_switch(200).is_none());
    assert_eq!(state.active_device_index, Some(1));
    assert_eq!(state.config.devices.len(), 2);
}
