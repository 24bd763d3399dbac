use argvus_storage::udisks::{
    collect_objects, is_relevant_signal, parse_block, parse_drive, BlockSource, Interface,
    ManagedObject, PropValue, RawBlock, RawDrive,
};

fn s(v: &str) -> PropValue {
    PropValue::Str(v.to_string())
}

fn iface(name: &str, props: Vec<(&str, PropValue)>) -> Interface {
    Interface {
        name: name.to_string(),
        props: props.into_iter().map(|(k, v)| (k.to_string(), v)).collect(),
    }
}

fn object(path: &str, interfaces: Vec<Interface>) -> ManagedObject {
    ManagedObject { path: path.to_string(), interfaces }
}

#[test]
fn block_properties_are_read() {
    let mut b = RawBlock::new("/b/sdb1");
    let props = vec![
        ("Device".to_string(), PropValue::Bytes(b"/dev/sdb1\0".to_vec())),
        ("Drive".to_string(), PropValue::ObjectPath("/d/k".to_string())),
        ("IdLabel".to_string(), s("STICK")),
        ("IdType".to_string(), s("vfat")),
        ("Size".to_string(), PropValue::U64(4096)),
        ("ReadOnly".to_string(), PropValue::Bool(true)),
        ("HintIgnore".to_string(), s("not a bool")),
    ];
    parse_block(&props, &mut b, BlockSource::Block);
    assert_eq!(b.object_path, "/b/sdb1");
    assert_eq!(b.device, "/dev/sdb1");
    assert_eq!(b.drive, "/d/k");
    assert_eq!(b.id_label, "STICK");
    assert_eq!(b.id_type, "vfat");
    assert_eq!(b.size, 4096);
    assert!(b.read_only);
    assert!(!b.hint_ignore);
    assert!(!b.has_filesystem);
}

#[test]
fn invalid_utf8_device_bytes_are_replaced() {
    let mut b = RawBlock::new("/b/x");
    let props = vec![("Device".to_string(), PropValue::Bytes(vec![b'/', 0xff, b'x', 0, 0]))];
    parse_block(&props, &mut b, BlockSource::Block);
    assert_eq!(b.device, "/\u{fffd}x");
}

#[test]
fn filesystem_mount_points_and_encryption() {
    let mut b = RawBlock::new("/b/sdb1");
    let props = vec![(
        "MountPoints".to_string(),
        PropValue::ByteArrays(vec![b"/run/media/u/A\0".to_vec(), b"\0".to_vec(), b"/mnt/b".to_vec()]),
    )];
    parse_block(&props, &mut b, BlockSource::Filesystem);
    assert!(b.has_filesystem);
    assert_eq!(b.mount_points, vec!["/run/media/u/A".to_string(), "/mnt/b".to_string()]);
    let mut e = RawBlock::new("/b/sdc1");
    parse_block(&vec![("CleartextDevice".to_string(), PropValue::ObjectPath("/b/dm_0".to_string()))], &mut e, BlockSource::Encrypted);
    assert!(e.has_encrypted);
    assert_eq!(e.cleartext, "/b/dm_0");
    let mut f = RawBlock::new("/b/sdd1");
    parse_block(&vec![], &mut f, BlockSource::Filesystem);
    assert!(!f.has_filesystem);
}

#[test]
fn drive_properties_are_read() {
    let mut d = RawDrive::new("/d/k");
    let props = vec![
        ("Vendor".to_string(), s("Kingston")),
        ("Model".to_string(), s("DataTraveler")),
        ("ConnectionBus".to_string(), s("usb")),
        ("Removable".to_string(), PropValue::Bool(true)),
        ("Optical".to_string(), PropValue::Other),
    ];
    parse_drive(&props, &mut d);
    assert_eq!((d.vendor.as_str(), d.model.as_str(), d.connection_bus.as_str()), ("Kingston", "DataTraveler", "usb"));
    assert!(d.removable && !d.ejectable && !d.optical);
}

#[test]
fn objects_become_blocks_and_drives_with_cleartext_marked() {
    let objs = vec![
        object("/d/k", vec![iface("org.freedesktop.UDisks2.Drive", vec![("Removable", PropValue::Bool(true))])]),
        object(
            "/b/sdb",
            vec![
                iface("org.freedesktop.UDisks2.Block", vec![("Size", PropValue::U64(10))]),
                iface("org.freedesktop.UDisks2.PartitionTable", vec![]),
            ],
        ),
        object(
            "/b/sdb1",
            vec![
                iface("org.freedesktop.UDisks2.Partition", vec![("Type", s("0x0c"))]),
                iface("org.freedesktop.UDisks2.Encrypted", vec![("CleartextDevice", PropValue::ObjectPath("/b/dm_0".to_string()))]),
            ],
        ),
        object("/b/dm_0", vec![iface("org.freedesktop.UDisks2.Filesystem", vec![("MountPoints", PropValue::ByteArrays(vec![]))])]),
        object("/b/loop0", vec![iface("org.freedesktop.UDisks2.Loop", vec![])]),
        object("/jobs/1", vec![iface("org.freedesktop.UDisks2.Job", vec![])]),
        object("/b/sdc1", vec![iface("org.freedesktop.UDisks2.Partition", vec![])]),
    ];
    let e = collect_objects(&objs);
    assert_eq!(e.drives.len(), 1);
    assert_eq!(e.drives[0].object_path, "/d/k");
    assert!(e.drives[0].removable);
    let paths: Vec<&str> = e.blocks.iter().map(|b| b.object_path.as_str()).collect();
    assert_eq!(paths, vec!["/b/sdb", "/b/sdb1", "/b/dm_0", "/b/loop0"]);
    assert!(e.blocks[0].is_partition_table && e.blocks[0].size == 10);
    assert_eq!(e.blocks[1].partition_type, "0x0c");
    assert!(e.blocks[1].has_encrypted && !e.blocks[1].is_cleartext);
    assert!(e.blocks[2].is_cleartext && e.blocks[2].has_filesystem);
    assert!(e.blocks[3].is_loop);
}

#[test]
fn relevant_signals() {
    let svc = "org.freedesktop.UDisks2";
    assert!(is_relevant_signal(svc, "org.freedesktop.DBus.Properties", "PropertiesChanged"));
    assert!(is_relevant_signal(svc, "org.freedesktop.DBus.ObjectManager", "InterfacesAdded"));
    assert!(is_relevant_signal(svc, "org.freedesktop.DBus.ObjectManager", "InterfacesRemoved"));
    assert!(!is_relevant_signal(svc, "org.freedesktop.DBus.Properties", "InterfacesAdded"));
    assert!(!is_relevant_signal(":1.42", "org.freedesktop.DBus.Properties", "PropertiesChanged"));
    assert!(!is_relevant_signal("", "", ""));
}
