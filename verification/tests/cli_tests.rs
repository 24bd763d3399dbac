use argvus_storage::actions::ActionKind;
use argvus_storage::cli::{
    action_of, list_line, menu_choice, missing_value_message, no_devices_message, parse_args, pick,
    unknown_command_message, usage_text, Command, MenuChoice, Parsed, ValueFlag,
};
use argvus_storage::config::Config;
use argvus_storage::device::Device;
use argvus_storage::i18n::Lang;

fn args(v: &[&str]) -> Vec<String> {
    v.iter().map(|s| s.to_string()).collect()
}

#[test]
fn options_and_positionals() {
    match parse_args(&args(&["--config", "/tmp/c.json", "eject", "--x", "120", "--y", "-7", "/dev/sdb1"])) {
        Parsed::Run(a) => {
            assert_eq!(a.config_path, "/tmp/c.json");
            assert_eq!(a.positional, args(&["eject", "/dev/sdb1"]));
            assert_eq!(a.fixed_x, Some(120));
            assert_eq!(a.fixed_y, Some(-7));
            assert_eq!(a.command(), "eject");
            assert_eq!(a.token(), "/dev/sdb1");
        }
        _ => panic!("expected a run"),
    }
}

#[test]
fn defaults_when_nothing_given() {
    match parse_args(&vec![]) {
        Parsed::Run(a) => {
            assert_eq!(a.config_path, "");
            assert!(a.positional.is_empty());
            assert_eq!((a.fixed_x, a.fixed_y), (None, None));
            assert_eq!(a.command(), "watch");
            assert_eq!(a.token(), "");
        }
        _ => panic!("expected a run"),
    }
}

#[test]
fn pixel_values_that_do_not_parse_are_absent() {
    for bad in ["12px", " 5", "", "+", "-", "2147483648", "1_0"] {
        match parse_args(&args(&["--x", bad])) {
            Parsed::Run(a) => assert_eq!(a.fixed_x, None, "{:?}", bad),
            _ => panic!("expected a run"),
        }
    }
    match parse_args(&args(&["--x", "+42", "--y", "-2147483648"])) {
        Parsed::Run(a) => {
            assert_eq!(a.fixed_x, Some(42));
            assert_eq!(a.fixed_y, Some(i32::MIN));
        }
        _ => panic!("expected a run"),
    }
}

#[test]
fn help_version_and_missing_values() {
    assert!(matches!(parse_args(&args(&["list", "-h", "--config"])), Parsed::Help));
    assert!(matches!(parse_args(&args(&["--help"])), Parsed::Help));
    assert!(matches!(parse_args(&args(&["-v"])), Parsed::Version));
    assert!(matches!(parse_args(&args(&["--version", "-h"])), Parsed::Version));
    assert!(matches!(parse_args(&args(&["--config"])), Parsed::Missing(ValueFlag::Config)));
    assert!(matches!(parse_args(&args(&["menu", "--x"])), Parsed::Missing(ValueFlag::X)));
    assert!(matches!(parse_args(&args(&["--y"])), Parsed::Missing(ValueFlag::Y)));
    assert_eq!(missing_value_message(Lang::En, ValueFlag::Config), "--config requires a path");
    assert_eq!(missing_value_message(Lang::Pt, ValueFlag::X), "--x exige um valor");
    assert_eq!(missing_value_message(Lang::En, ValueFlag::Y), "--y requires a value");
}

#[test]
fn command_words() {
    assert_eq!(Command::parse("watch"), Command::Watch);
    assert_eq!(Command::parse("once"), Command::Once);
    assert_eq!(Command::parse("list"), Command::List);
    assert_eq!(Command::parse("menu"), Command::Menu);
    assert_eq!(Command::parse("devices"), Command::Devices);
    assert_eq!(Command::parse("poweroff"), Command::Action(ActionKind::PowerOff));
    assert_eq!(Command::parse("copy"), Command::Action(ActionKind::Copy));
    assert_eq!(Command::parse("Mount"), Command::Unknown);
    assert_eq!(action_of("unlock"), Some(ActionKind::Unlock));
    assert_eq!(action_of("once"), None);
    assert_eq!(unknown_command_message(Lang::En, "frob"), "unknown command 'frob'");
    assert_eq!(unknown_command_message(Lang::Pt, "frob"), "comando desconhecido 'frob'");
    assert_eq!(no_devices_message(Lang::En), "no removable storage devices");
}

#[test]
fn menu_mode_choice() {
    let cfg = Config::default();
    assert_eq!(menu_choice(&cfg, Some(1), Some(2)), MenuChoice::Launcher);
    let mut gui = Config::default();
    gui.mode = "gui".to_string();
    assert_eq!(menu_choice(&gui, Some(1), Some(2)), MenuChoice::Popup(1, 2));
    assert_eq!(menu_choice(&gui, Some(1), None), MenuChoice::Nothing);
}

#[test]
fn pick_by_block_name_path_or_basename() {
    let a = Device {
        object_path: "/org/freedesktop/UDisks2/block_devices/sdb1".to_string(),
        block: "/dev/sdb1".to_string(),
        name: "ALPHA".to_string(),
        ..Device::default()
    };
    let b = Device {
        object_path: "/org/freedesktop/UDisks2/block_devices/sdc1".to_string(),
        block: "/dev/sdc1".to_string(),
        name: "sdb1".to_string(),
        ..Device::default()
    };
    let devs = vec![a, b];
    assert_eq!(pick(&devs, ""), Some(0));
    assert_eq!(pick(&devs, "/dev/sdc1"), Some(1));
    // An exact name match wins over an earlier object-path basename.
    assert_eq!(pick(&devs, "sdb1"), Some(1));
    assert_eq!(pick(&devs, "sdc1"), Some(1));
    assert_eq!(pick(&devs, "/org/freedesktop/UDisks2/block_devices/sdb1"), Some(0));
    assert_eq!(pick(&devs, "nothing"), Some(0));
    assert_eq!(pick(&vec![], "x"), None);
}

#[test]
fn usage_and_list_lines() {
    let u = usage_text(Lang::En, "1.2.3");
    assert!(u.starts_with("argvus-storage 1.2.3 - removable storage module for waybar (UDisks2)\n\nUsage:"));
    assert!(!u.contains("{VERSION}"));
    assert!(u.ends_with("  -v, --version    print the version"));
    let p = usage_text(Lang::Pt, "9");
    assert!(p.starts_with("argvus-storage 9 - m\u{f3}dulo"));
    let d = Device {
        block: "/dev/sdb1".to_string(),
        name: "STICK".to_string(),
        filesystem: "vfat".to_string(),
        mount_point: "/run/media/u/STICK".to_string(),
        mounted: true,
        ..Device::default()
    };
    assert_eq!(list_line(&d, "1.0 GB"), "/dev/sdb1\tSTICK\tvfat\t/run/media/u/STICK\t1.0 GB");
    let d = Device { mounted: false, ..d };
    assert_eq!(list_line(&d, "1.0 GB"), "/dev/sdb1\tSTICK\tvfat\t-\t1.0 GB");
}
