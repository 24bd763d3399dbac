use argvus_storage::actions::ActionKind;
use argvus_storage::device::Device;
use argvus_storage::gui::{
    action_label, action_tooltip, device_entries, device_title, pointer_from_json, popup_placement,
    rect_contains,
    submenu_x, submenu_y, Geometry,
};

#[test]
fn mounted_device_has_open_unmount_and_copy_actions() {
    let device = Device {
        mounted: true,
        ejectable: true,
        ..Device::default()
    };
    let kinds: Vec<ActionKind> = device_entries(&device)
        .into_iter()
        .map(|entry| entry.kind)
        .collect();

    assert!(kinds.contains(&ActionKind::Open));
    assert!(kinds.contains(&ActionKind::Unmount));
    assert!(kinds.contains(&ActionKind::Eject));
    assert!(kinds.contains(&ActionKind::Copy));
    assert!(!kinds.contains(&ActionKind::Mount));
}

#[test]
fn locked_device_only_offers_unlock_and_safe_removal() {
    let device = Device {
        encrypted: true,
        locked: true,
        ejectable: true,
        can_power_off: true,
        ..Device::default()
    };
    let kinds: Vec<ActionKind> = device_entries(&device)
        .into_iter()
        .map(|entry| entry.kind)
        .collect();

    assert!(kinds.contains(&ActionKind::Unlock));
    assert!(kinds.contains(&ActionKind::Eject));
    assert!(kinds.contains(&ActionKind::PowerOff));
    assert!(!kinds.contains(&ActionKind::Open));
    assert!(!kinds.contains(&ActionKind::Mount));
}

#[test]
fn device_title_matches_tray_menu_format() {
    let device = Device {
        name: "Ventoy".to_string(),
        capacity: 43_700_000_000,
        ..Device::default()
    };

    // "43.7 GB" is how the byte formatter writes 43_700_000_000.
    assert_eq!(device_title(&device, "43.7 GB"), "Ventoy · 43.7 GB · available");
}

#[test]
fn device_entries_order_and_copies() {
    let device = Device {
        name: "X".to_string(),
        encrypted: true,
        mounted: true,
        can_power_off: true,
        ..Device::default()
    };
    let entries = device_entries(&device);
    let kinds: Vec<ActionKind> = entries.iter().map(|e| e.kind).collect();
    assert_eq!(
        kinds,
        vec![ActionKind::Open, ActionKind::Unmount, ActionKind::Lock, ActionKind::PowerOff, ActionKind::Copy]
    );
    assert!(entries.iter().all(|e| e.device.name == "X"));
}

#[test]
fn titles_without_capacity_and_labels() {
    let d = Device { name: "N".to_string(), mounted: true, ..Device::default() };
    assert_eq!(device_title(&d, "0 B"), "N · mounted");
    assert_eq!(action_label(ActionKind::PowerOff), "Power Off");
    assert_eq!(action_tooltip(ActionKind::Eject), "Unmount and eject this device");
}

#[test]
fn popup_kept_on_screen() {
    let g = Geometry { x: 1920, y: 0, width: 1920, height: 1080 };
    let p = popup_placement(2, (1920 + 1900, 5), Some(g));
    assert_eq!((p.x, p.y, p.width, p.origin_x, p.origin_y), (1920 - 284 - 4, 17, 1920, 1920, 0));
    let p = popup_placement(2, (100, 5), None);
    assert_eq!((p.x, p.y, p.width), (4, 32, 1920));
    let p = popup_placement(40, (10, 1070), Some(Geometry { x: 0, y: 0, width: 800, height: 600 }));
    assert_eq!((p.x, p.y), (10, 4));
    assert_eq!(submenu_x(100, 1920), 384);
    assert_eq!(submenu_x(1700, 1920), 1556);
    assert_eq!(submenu_x(50, 400), 4);
    assert_eq!(submenu_y(40, 3), 127);
    assert!(rect_contains(5, 5, 0, 0, 10, 10));
    assert!(!rect_contains(10, 5, 0, 0, 10, 10));
}

#[test]
fn pointer_position_from_cursor_reply() {
    assert_eq!(pointer_from_json(&b"{\"x\": 1850, \"y\": 12}".to_vec()), Some((1850, 12)));
    assert_eq!(pointer_from_json(&b"{\"x\": 4294967297, \"y\": -3}".to_vec()), Some((1, -3)));
    assert_eq!(pointer_from_json(&b"{\"x\": 1.5, \"y\": 2}".to_vec()), None);
    assert_eq!(pointer_from_json(&b"{\"x\": 1}".to_vec()), None);
    assert_eq!(pointer_from_json(&b"[1, 2]".to_vec()), None);
    assert_eq!(pointer_from_json(&b"garbage".to_vec()), None);
}
