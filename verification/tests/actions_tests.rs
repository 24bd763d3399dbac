use argvus_storage::actions::{ActionKind, Actions, CopyError, Outcome, Stage, Step};
use argvus_storage::config::Config;
use argvus_storage::device::Device;

fn stick() -> Device {
    Device {
        object_path: "/org/freedesktop/UDisks2/block_devices/sdb1".to_string(),
        drive_path: "/org/freedesktop/UDisks2/drives/Kingston".to_string(),
        block: "/dev/sdb1".to_string(),
        name: "STICK".to_string(),
        ejectable: true,
        can_power_off: true,
        ..Device::default()
    }
}

fn fs_call(path: &str, method: &str) -> Step {
    Step::Call {
        object_path: path.to_string(),
        interface: "org.freedesktop.UDisks2.Filesystem".to_string(),
        method: method.to_string(),
        no_user_interaction: true,
    }
}

fn drive_call(path: &str, method: &str) -> Step {
    Step::Call {
        object_path: path.to_string(),
        interface: "org.freedesktop.UDisks2.Drive".to_string(),
        method: method.to_string(),
        no_user_interaction: true,
    }
}

#[test]
fn inapplicable_actions_finish_with_code_2() {
    let cfg = Config::default();
    let a = Actions::new(&cfg);
    let mut mounted = stick();
    mounted.mounted = true;
    let (st, step) = a.step(ActionKind::Mount, &mounted, Stage::Start, Outcome::Begin);
    assert_eq!((st, step), (Stage::Finished, Step::Finish(2)));
    let plain = stick();
    for kind in [ActionKind::Unmount, ActionKind::Lock, ActionKind::Unlock] {
        let (st, step) = a.step(kind, &plain, Stage::Start, Outcome::Begin);
        assert_eq!((st, step), (Stage::Finished, Step::Finish(2)));
    }
    let fixed = Device { ejectable: false, can_power_off: false, ..stick() };
    for kind in [ActionKind::Eject, ActionKind::PowerOff] {
        let (st, step) = a.step(kind, &fixed, Stage::Start, Outcome::Begin);
        assert_eq!((st, step), (Stage::Finished, Step::Finish(2)));
    }
}

#[test]
fn unmount_runs_connect_call_finish() {
    let cfg = Config::default();
    let a = Actions::new(&cfg);
    let d = Device { mounted: true, ..stick() };
    let (st, step) = a.step(ActionKind::Unmount, &d, Stage::Start, Outcome::Begin);
    assert_eq!((st, &step), (Stage::UnmountConnect, &Step::Connect));
    let (st, step) = a.step(ActionKind::Unmount, &d, st, Outcome::Connected(Ok(())));
    assert_eq!(st, Stage::Unmounting);
    assert_eq!(step, fs_call("/org/freedesktop/UDisks2/block_devices/sdb1", "Unmount"));
    let (st, step) = a.step(ActionKind::Unmount, &d, st, Outcome::Called(Ok(())));
    assert_eq!((st, step), (Stage::Finished, Step::Finish(0)));
}

#[test]
fn unlocked_volume_mounts_its_cleartext_device() {
    let cfg = Config::default();
    let a = Actions::new(&cfg);
    let d = Device {
        encrypted: true,
        cleartext: "/org/freedesktop/UDisks2/block_devices/dm_2d0".to_string(),
        ..stick()
    };
    let (st, step) = a.step(ActionKind::Mount, &d, Stage::Start, Outcome::Begin);
    assert_eq!((st, &step), (Stage::MountConnect, &Step::Connect));
    let (st, step) = a.step(ActionKind::Mount, &d, st, Outcome::Connected(Ok(())));
    assert_eq!(st, Stage::Mounting);
    assert_eq!(step, fs_call("/org/freedesktop/UDisks2/block_devices/dm_2d0", "Mount"));
    let (st, step) = a.step(ActionKind::Mount, &d, st, Outcome::Called(Err("busy".to_string())));
    assert_eq!((st, step), (Stage::Finished, Step::Fail("busy".to_string())));
}

#[test]
fn locked_volume_refuses_mount() {
    let cfg = Config::default();
    let a = Actions::new(&cfg);
    let d = Device { encrypted: true, locked: true, ..stick() };
    let (st, step) = a.step(ActionKind::Mount, &d, Stage::Start, Outcome::Begin);
    assert_eq!(st, Stage::Finished);
    assert_eq!(step, Step::Fail("device is locked; unlock it first".to_string()));
    // Opening a locked volume has to mount it first, and is refused the same way.
    let (_, step) = a.step(ActionKind::Open, &d, Stage::Start, Outcome::Begin);
    assert_eq!(step, Step::Fail("device is locked; unlock it first".to_string()));
}

#[test]
fn unlock_launches_terminal_command() {
    let mut cfg = Config::default();
    cfg.unlock_command = "foot -e".to_string();
    let a = Actions::new(&cfg);
    let d = Device { encrypted: true, locked: true, block: "/dev/sd'c1".to_string(), ..stick() };
    let (st, step) = a.step(ActionKind::Unlock, &d, Stage::Start, Outcome::Begin);
    assert_eq!(st, Stage::Launching);
    assert_eq!(
        step,
        Step::Launch("foot -e udisksctl unlock --block-device '/dev/sd'\\''c1'".to_string())
    );
    let (st, step) = a.step(ActionKind::Unlock, &d, st, Outcome::Launched(-1));
    assert_eq!((st, step), (Stage::Finished, Step::Fail("failed to launch unlock terminal".to_string())));
    let (_, step) = a.step(ActionKind::Unlock, &d, Stage::Launching, Outcome::Launched(4242));
    assert_eq!(step, Step::Finish(0));
}

#[test]
fn open_mounted_launches_file_manager() {
    let cfg = Config::default();
    let a = Actions::new(&cfg);
    let d = Device { mounted: true, mount_point: "/run/media/u/MY STICK".to_string(), ..stick() };
    let (st, step) = a.step(ActionKind::Open, &d, Stage::Start, Outcome::Begin);
    assert_eq!(st, Stage::Launching);
    assert_eq!(step, Step::Launch("xdg-open '/run/media/u/MY STICK'".to_string()));
    let (st, step) = a.step(ActionKind::Open, &d, st, Outcome::Launched(-1));
    assert_eq!((st, step), (Stage::Finished, Step::Fail("failed to launch xdg-open".to_string())));
}

#[test]
fn copy_unmounted_mounts_refreshes_then_copies() {
    let cfg = Config::default();
    let a = Actions::new(&cfg);
    let d = stick();
    let (st, step) = a.step(ActionKind::Copy, &d, Stage::Start, Outcome::Begin);
    assert_eq!((st, &step), (Stage::MountConnect, &Step::Connect));
    let (st, _) = a.step(ActionKind::Copy, &d, st, Outcome::Connected(Ok(())));
    let (st, step) = a.step(ActionKind::Copy, &d, st, Outcome::Called(Ok(())));
    assert_eq!((st, &step), (Stage::Refreshing, &Step::Refresh));
    let other = Device {
        object_path: "/org/freedesktop/UDisks2/block_devices/sdc1".to_string(),
        mount_point: "/run/media/u/OTHER".to_string(),
        ..Device::default()
    };
    let fresh = Device { mounted: true, mount_point: "/run/media/u/STICK".to_string(), ..stick() };
    let (st, step) = a.step(
        ActionKind::Copy,
        &d,
        st,
        Outcome::Refreshed(Some(vec![other, fresh])),
    );
    assert_eq!(st, Stage::Copying);
    assert_eq!(step, Step::CopyText("/run/media/u/STICK".to_string()));
    let (_, step) = a.step(
        ActionKind::Copy,
        &d,
        st,
        Outcome::Copied(Err(CopyError::Unavailable("no display".to_string()))),
    );
    assert_eq!(step, Step::Fail("clipboard unavailable: no display".to_string()));
    let (_, step) = a.step(
        ActionKind::Copy,
        &d,
        Stage::Copying,
        Outcome::Copied(Err(CopyError::SetFailed("denied".to_string()))),
    );
    assert_eq!(step, Step::Fail("failed to set clipboard: denied".to_string()));
    let (_, step) = a.step(ActionKind::Copy, &d, Stage::Copying, Outcome::Copied(Ok(())));
    assert_eq!(step, Step::Finish(0));
}

#[test]
fn refresh_without_mount_point_fails() {
    let cfg = Config::default();
    let a = Actions::new(&cfg);
    let d = stick();
    let msg = Step::Fail("device mounted but mount point could not be resolved".to_string());
    let (_, step) = a.step(ActionKind::Open, &d, Stage::Refreshing, Outcome::Refreshed(None));
    assert_eq!(step, msg);
    let (_, step) = a.step(ActionKind::Open, &d, Stage::Refreshing, Outcome::Refreshed(Some(vec![stick()])));
    assert_eq!(step, msg);
    let (_, step) = a.step(ActionKind::Open, &d, Stage::Refreshing, Outcome::Refreshed(Some(vec![])));
    assert_eq!(step, msg);
}

#[test]
fn eject_unmounts_first_and_needs_a_drive() {
    let cfg = Config::default();
    let a = Actions::new(&cfg);
    let d = Device { mounted: true, ..stick() };
    let (st, step) = a.step(ActionKind::Eject, &d, Stage::Start, Outcome::Begin);
    assert_eq!((st, &step), (Stage::EjectConnect, &Step::Connect));
    let (st, step) = a.step(ActionKind::Eject, &d, st, Outcome::Connected(Ok(())));
    assert_eq!(st, Stage::EjectUnmounting);
    assert_eq!(step, fs_call("/org/freedesktop/UDisks2/block_devices/sdb1", "Unmount"));
    let (st, step) = a.step(ActionKind::Eject, &d, st, Outcome::Called(Ok(())));
    assert_eq!(st, Stage::Ejecting);
    assert_eq!(step, drive_call("/org/freedesktop/UDisks2/drives/Kingston", "Eject"));
    let no_drive = Device { drive_path: String::new(), ..stick() };
    let (_, step) = a.step(ActionKind::Eject, &no_drive, Stage::EjectConnect, Outcome::Connected(Ok(())));
    assert_eq!(step, Step::Fail("device has no drive to eject".to_string()));
    let (_, step) = a.step(ActionKind::PowerOff, &no_drive, Stage::PowerOffConnect, Outcome::Connected(Ok(())));
    assert_eq!(step, Step::Fail("device has no drive to power off".to_string()));
    let (st, step) = a.step(ActionKind::PowerOff, &d, Stage::PowerOffConnect, Outcome::Connected(Ok(())));
    assert_eq!(st, Stage::PoweringOff);
    assert_eq!(step, drive_call("/org/freedesktop/UDisks2/drives/Kingston", "PowerOff"));
}

#[test]
fn lock_calls_encrypted_interface_with_interaction() {
    let cfg = Config::default();
    let a = Actions::new(&cfg);
    let d = Device { encrypted: true, mounted: true, ..stick() };
    let (st, step) = a.step(ActionKind::Lock, &d, Stage::Start, Outcome::Begin);
    assert_eq!((st, &step), (Stage::LockConnect, &Step::Connect));
    let (st, step) = a.step(ActionKind::Lock, &d, st, Outcome::Connected(Err("no bus".to_string())));
    assert_eq!((st, step), (Stage::Finished, Step::Fail("no bus".to_string())));
    let (st, step) = a.step(ActionKind::Lock, &d, Stage::LockConnect, Outcome::Connected(Ok(())));
    assert_eq!(st, Stage::Locking);
    assert_eq!(
        step,
        Step::Call {
            object_path: "/org/freedesktop/UDisks2/block_devices/sdb1".to_string(),
            interface: "org.freedesktop.UDisks2.Encrypted".to_string(),
            method: "Lock".to_string(),
            no_user_interaction: false,
        }
    );
}

#[test]
fn stray_outcome_finishes_with_code_1() {
    let cfg = Config::default();
    let a = Actions::new(&cfg);
    let d = stick();
    let (st, step) = a.step(ActionKind::Mount, &d, Stage::Start, Outcome::Called(Ok(())));
    assert_eq!((st, step), (Stage::Finished, Step::Finish(1)));
    let (st, step) = a.step(ActionKind::Mount, &d, Stage::Finished, Outcome::Begin);
    assert_eq!((st, step), (Stage::Finished, Step::Finish(1)));
    assert!(Actions::applies(ActionKind::Open, &d));
    assert!(!Actions::applies(ActionKind::Unmount, &d));
}
