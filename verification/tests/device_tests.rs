use argvus_storage::config::Config;
use argvus_storage::device::{build_devices, Device, Usage};
use argvus_storage::string_map::StringMap;
use argvus_storage::udisks::{Enumerated, RawBlock, RawDrive};

fn drive(path: &str) -> RawDrive {
    let mut d = RawDrive::new(path);
    d.removable = true;
    d.vendor = "  Kingston ".to_string();
    d.model = "DataTraveler\n".to_string();
    d
}

fn block(path: &str, dev: &str, drive: &str) -> RawBlock {
    let mut b = RawBlock::new(path);
    b.device = dev.to_string();
    b.drive = drive.to_string();
    b.has_filesystem = true;
    b.id_type = "vfat".to_string();
    b.size = 1000;
    b
}

struct State {
    mt: StringMap<i64>,
    seq: StringMap<u64>,
    next: u64,
}

fn fresh() -> State {
    State { mt: StringMap::new(), seq: StringMap::new(), next: 0 }
}

fn run(raw: &Enumerated, cfg: &Config, st: &mut State, usage: Vec<Option<Usage>>, now: i64) -> Vec<Device> {
    build_devices(raw, cfg, &mut st.mt, &mut st.seq, &mut st.next, &usage, now)
}

#[test]
fn mounted_block_uses_filesystem_usage() {
    let mut b = block("/b/sdb1", "/dev/sdb1", "/d/1");
    b.id_label = "STICK".to_string();
    b.mount_points = vec![String::new(), "/run/media/u/STICK".to_string()];
    let raw = Enumerated { blocks: vec![b], drives: vec![drive("/d/1")] };
    let cfg = Config::default();
    let mut st = fresh();
    let devs = run(&raw, &cfg, &mut st, vec![Some((500, 200, 300, true))], 77);
    assert_eq!(devs.len(), 1);
    let d = &devs[0];
    assert_eq!(d.name, "STICK");
    assert_eq!(d.mount_point, "/run/media/u/STICK");
    assert!(d.mounted);
    assert_eq!((d.capacity, d.used, d.free), (500, 200, 300));
    assert!(d.read_only);
    assert_eq!(d.vendor, "Kingston");
    assert_eq!(d.model, "DataTraveler");
    assert!(d.removable && d.can_power_off && !d.ejectable);
    assert_eq!(d.mount_time, 77);
    assert_eq!(d.insertion_seq, 0);
    assert_eq!(st.next, 1);
}

#[test]
fn unmounted_block_uses_block_size_and_name_fallbacks() {
    let b1 = block("/b/sdb1", "/dev/sdb1", "/d/1");
    let mut b2 = block("/b/sdc1", "/dev/sdc1", "/d/2");
    let mut d2 = drive("/d/2");
    d2.vendor = String::new();
    d2.model = String::new();
    b2.hint_name = String::new();
    let raw = Enumerated { blocks: vec![b1, b2], drives: vec![drive("/d/1"), d2] };
    let mut cfg = Config::default();
    cfg.sort = "insertion".to_string();
    let mut st = fresh();
    let devs = run(&raw, &cfg, &mut st, vec![None, None], 5);
    assert_eq!(devs.len(), 2);
    assert_eq!(devs[0].name, "Kingston DataTraveler");
    assert_eq!(devs[0].capacity, 1000);
    assert_eq!(devs[0].mount_time, 0);
    assert_eq!(devs[1].name, "sdc1");
}

#[test]
fn non_removable_loop_and_table_blocks_are_skipped() {
    let mut fixed = drive("/d/1");
    fixed.removable = false;
    let b1 = block("/b/sda1", "/dev/sda1", "/d/1");
    let mut b2 = block("/b/loop0", "/dev/loop0", "/d/2");
    b2.is_loop = true;
    let mut b3 = block("/b/sdb", "/dev/sdb", "/d/2");
    b3.is_partition_table = true;
    let mut b4 = block("/b/sdb2", "/dev/sdb2", "/d/2");
    b4.has_filesystem = false;
    let b5 = block("/b/sdb3", "/dev/sdb3", "");
    let raw = Enumerated { blocks: vec![b1, b2, b3, b4, b5], drives: vec![fixed, drive("/d/2")] };
    let mut st = fresh();
    let devs = run(&raw, &Config::default(), &mut st, vec![None; 5], 1);
    assert!(devs.is_empty());
}

#[test]
fn efi_partition_hidden_unless_configured() {
    let mut b = block("/b/sdb1", "/dev/sdb1", "/d/1");
    b.mount_points = vec!["/BOOT/EFI".to_string()];
    let raw = Enumerated { blocks: vec![b], drives: vec![drive("/d/1")] };
    let mut st = fresh();
    assert!(run(&raw, &Config::default(), &mut st, vec![None], 1).is_empty());
    let mut cfg = Config::default();
    cfg.show_hidden = true;
    let devs = run(&raw, &cfg, &mut st, vec![None], 1);
    assert_eq!(devs.len(), 1);
    assert!(devs[0].hidden);
    let mut b = block("/b/sdb2", "/dev/sdb2", "/d/1");
    b.id_type = "VFAT".to_string();
    b.partition_type = "0xEF".to_string();
    let raw = Enumerated { blocks: vec![b], drives: vec![drive("/d/1")] };
    assert!(run(&raw, &Config::default(), &mut fresh(), vec![None], 1).is_empty());
}

#[test]
fn locked_volume_has_no_cleartext_and_luks_filesystem() {
    let mut b = block("/b/sdb1", "/dev/sdb1", "/d/1");
    b.has_filesystem = false;
    b.has_encrypted = true;
    b.id_type = String::new();
    b.cleartext = "/".to_string();
    let raw = Enumerated { blocks: vec![b], drives: vec![drive("/d/1")] };
    let devs = run(&raw, &Config::default(), &mut fresh(), vec![None], 1);
    assert!(devs[0].locked && devs[0].encrypted);
    assert_eq!(devs[0].filesystem, "crypto_LUKS");
    assert_eq!(devs[0].cleartext, "");
}

#[test]
fn sort_by_name_ignores_case_and_is_stable() {
    let mut a = block("/b/1", "/dev/sdb1", "/d/1");
    a.id_label = "beta".to_string();
    let mut b = block("/b/2", "/dev/sdb2", "/d/1");
    b.id_label = "Alpha".to_string();
    let mut c = block("/b/3", "/dev/sdb3", "/d/1");
    c.id_label = "BETA".to_string();
    let raw = Enumerated { blocks: vec![a, b, c], drives: vec![drive("/d/1")] };
    let mut cfg = Config::default();
    cfg.sort = "name".to_string();
    let devs = run(&raw, &cfg, &mut fresh(), vec![None; 3], 1);
    let names: Vec<&str> = devs.iter().map(|d| d.name.as_str()).collect();
    assert_eq!(names, vec!["Alpha", "beta", "BETA"]);
}

#[test]
fn sort_by_size_largest_first() {
    let mut a = block("/b/1", "/dev/sdb1", "/d/1");
    a.size = 10;
    let mut b = block("/b/2", "/dev/sdb2", "/d/1");
    b.size = 30;
    let mut c = block("/b/3", "/dev/sdb3", "/d/1");
    c.size = 10;
    let raw = Enumerated { blocks: vec![a, b, c], drives: vec![drive("/d/1")] };
    let mut cfg = Config::default();
    cfg.sort = "size".to_string();
    let devs = run(&raw, &cfg, &mut fresh(), vec![None; 3], 1);
    let paths: Vec<&str> = devs.iter().map(|d| d.object_path.as_str()).collect();
    assert_eq!(paths, vec!["/b/2", "/b/1", "/b/3"]);
}

#[test]
fn default_sort_puts_recently_mounted_first() {
    let mut a = block("/b/1", "/dev/sdb1", "/d/1");
    a.mount_points = vec!["/m/a".to_string()];
    let b = block("/b/2", "/dev/sdb2", "/d/1");
    let raw1 = Enumerated { blocks: vec![a, b], drives: vec![drive("/d/1")] };
    let cfg = Config::default();
    let mut st = fresh();
    let devs = run(&raw1, &cfg, &mut st, vec![None, None], 100);
    assert_eq!(devs[0].object_path, "/b/1");
    // Later the second block is mounted too; it becomes the most recent.
    let mut a = block("/b/1", "/dev/sdb1", "/d/1");
    a.mount_points = vec!["/m/a".to_string()];
    let mut b = block("/b/2", "/dev/sdb2", "/d/1");
    b.mount_points = vec!["/m/b".to_string()];
    let raw2 = Enumerated { blocks: vec![a, b], drives: vec![drive("/d/1")] };
    let devs = run(&raw2, &cfg, &mut st, vec![None, None], 200);
    assert_eq!(devs[0].object_path, "/b/2");
    assert_eq!(devs[0].mount_time, 200);
    assert_eq!(devs[1].mount_time, 100);
}

#[test]
fn insertion_numbers_survive_refreshes() {
    let raw1 = Enumerated { blocks: vec![block("/b/1", "/dev/sdb1", "/d/1")], drives: vec![drive("/d/1")] };
    let mut cfg = Config::default();
    cfg.sort = "insertion".to_string();
    let mut st = fresh();
    run(&raw1, &cfg, &mut st, vec![None], 1);
    let raw2 = Enumerated {
        blocks: vec![block("/b/2", "/dev/sdc1", "/d/1"), block("/b/1", "/dev/sdb1", "/d/1")],
        drives: vec![drive("/d/1")],
    };
    let devs = run(&raw2, &cfg, &mut st, vec![None, None], 2);
    assert_eq!(devs[0].object_path, "/b/1");
    assert_eq!(devs[0].insertion_seq, 0);
    assert_eq!(devs[1].insertion_seq, 1);
    assert_eq!(st.seq.get("/b/1"), Some(0));
    assert_eq!(st.next, 2);
}
