use argvus_storage::actions::ActionKind;
use argvus_storage::config::Config;
use argvus_storage::device::Device;
use argvus_storage::menu::{device_label, Menu};

fn dev(name: &str) -> Device {
    Device { name: name.to_string(), ..Device::default() }
}

#[test]
fn entries_follow_device_state() {
    let a = Device { ejectable: true, ..dev("A") };
    let b = Device { mounted: true, encrypted: true, can_power_off: true, ..dev("B") };
    let c = Device { encrypted: true, locked: true, ..dev("C") };
    let entries = Menu::entries(&vec![a, b, c]);
    let got: Vec<(ActionKind, usize, String)> =
        entries.iter().map(|e| (e.kind, e.device_index, e.label.clone())).collect();
    let want = vec![
        (ActionKind::Open, 0, "A  \u{b7}  Open"),
        (ActionKind::Mount, 0, "A  \u{b7}  Mount"),
        (ActionKind::Eject, 0, "A  \u{b7}  Eject"),
        (ActionKind::Open, 1, "B  \u{b7}  Open"),
        (ActionKind::Unmount, 1, "B  \u{b7}  Unmount"),
        (ActionKind::Lock, 1, "B  \u{b7}  Lock"),
        (ActionKind::PowerOff, 1, "B  \u{b7}  Power Off"),
        (ActionKind::Copy, 1, "B  \u{b7}  Copy path"),
        (ActionKind::Unlock, 2, "C  \u{b7}  Unlock"),
    ];
    let want: Vec<(ActionKind, usize, String)> =
        want.into_iter().map(|(k, i, l)| (k, i, l.to_string())).collect();
    assert_eq!(got, want);
    let labels = Menu::labels(&entries);
    assert_eq!(labels.len(), 9);
    assert_eq!(labels[7], "B  \u{b7}  Copy path");
    assert!(Menu::entries(&vec![]).is_empty());
}

#[test]
fn selection_is_trimmed_and_matched_exactly() {
    let labels = vec!["A  \u{b7}  Open".to_string(), "A  \u{b7}  Mount".to_string(), "A  \u{b7}  Mount".to_string()];
    assert_eq!(Menu::select(&labels, "A  \u{b7}  Mount\n"), Some(1));
    assert_eq!(Menu::select(&labels, "  A  \u{b7}  Open \t\r\n"), Some(0));
    assert_eq!(Menu::select(&labels, "A \u{b7} Open"), None);
    assert_eq!(Menu::select(&labels, "\n"), None);
    assert_eq!(Menu::select(&vec![], "x"), None);
}

#[test]
fn menu_command_appends_flags() {
    let cfg = Config::default();
    assert_eq!(Menu::new(&cfg).command(), "rofi -dmenu -i -p Storage");
    let mut cfg = Config::default();
    cfg.menu = "wofi".to_string();
    cfg.menu_flags = String::new();
    assert_eq!(Menu::new(&cfg).command(), "wofi");
}

#[test]
fn device_list_labels() {
    let d = Device {
        filesystem: "ext4".to_string(),
        capacity: 5,
        mounted: true,
        mount_point: "/mnt/x".to_string(),
        ..dev("Data")
    };
    assert_eq!(device_label(&d, "5 B"), "Data  \u{b7}  ext4 \u{b7} 5 B \u{b7} mounted \u{b7} /mnt/x");
    let bare = dev("Bare");
    assert_eq!(device_label(&bare, "0 B"), "Bare  \u{b7}  available");
    let locked = Device { encrypted: true, locked: true, capacity: 9, ..dev("L") };
    assert_eq!(device_label(&locked, "9 B"), "L  \u{b7}  9 B \u{b7} locked");
}

#[test]
fn mounted_device_rows_match_popup() {
    let usb = Device { mounted: true, mount_point: "/media/USB".to_string(), ..dev("USB") };
    let labels = Menu::labels(&Menu::entries(&vec![usb]));
    assert_eq!(
        labels,
        vec![
            "USB  \u{b7}  Open".to_string(),
            "USB  \u{b7}  Unmount".to_string(),
            "USB  \u{b7}  Copy path".to_string(),
        ]
    );
}
