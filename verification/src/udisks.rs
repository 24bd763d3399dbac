//! What UDisks2 reports about block devices and drives, as plain values,
//! and how the managed objects' properties are read into them.
use vstd::prelude::*;

use crate::text::{owned, str_eq};

verus! {

/// The properties of one UDisks2 block object that the model reads.
pub struct RawBlock {
    pub object_path: String,
    pub device: String,
    pub drive: String,
    pub id_label: String,
    pub id_type: String,
    pub hint_name: String,
    pub preferred_device: String,
    pub partition_type: String,
    pub size: u64,
    pub read_only: bool,
    pub hint_ignore: bool,
    pub mount_points: Vec<String>,
    pub has_filesystem: bool,
    pub has_encrypted: bool,
    pub is_partition_table: bool,
    pub is_loop: bool,
    pub is_cleartext: bool,
    pub cleartext: String,
    pub encryption_type: String,
}

/// The properties of one UDisks2 drive object that the model reads.
pub struct RawDrive {
    pub object_path: String,
    pub vendor: String,
    pub model: String,
    pub connection_bus: String,
    pub removable: bool,
    pub ejectable: bool,
    pub media_removable: bool,
    pub optical: bool,
}

/// Every block and drive object UDisks2 manages.
pub struct Enumerated {
    pub blocks: Vec<RawBlock>,
    pub drives: Vec<RawDrive>,
}

/// The mathematical model of a [`RawBlock`].
pub struct RawBlockView {
    pub object_path: Seq<char>,
    pub device: Seq<char>,
    pub drive: Seq<char>,
    pub id_label: Seq<char>,
    pub id_type: Seq<char>,
    pub hint_name: Seq<char>,
    pub preferred_device: Seq<char>,
    pub partition_type: Seq<char>,
    pub size: u64,
    pub read_only: bool,
    pub hint_ignore: bool,
    pub mount_points: Seq<Seq<char>>,
    pub has_filesystem: bool,
    pub has_encrypted: bool,
    pub is_partition_table: bool,
    pub is_loop: bool,
    pub is_cleartext: bool,
    pub cleartext: Seq<char>,
    pub encryption_type: Seq<char>,
}

impl View for RawBlock {
    type V = RawBlockView;

    open spec fn view(&self) -> RawBlockView {
        RawBlockView {
            object_path: self.object_path@,
            device: self.device@,
            drive: self.drive@,
            id_label: self.id_label@,
            id_type: self.id_type@,
            hint_name: self.hint_name@,
            preferred_device: self.preferred_device@,
            partition_type: self.partition_type@,
            size: self.size,
            read_only: self.read_only,
            hint_ignore: self.hint_ignore,
            mount_points: self.mount_points@.map_values(|m: String| m@),
            has_filesystem: self.has_filesystem,
            has_encrypted: self.has_encrypted,
            is_partition_table: self.is_partition_table,
            is_loop: self.is_loop,
            is_cleartext: self.is_cleartext,
            cleartext: self.cleartext@,
            encryption_type: self.encryption_type@,
        }
    }
}

/// The mathematical model of a [`RawDrive`].
pub struct RawDriveView {
    pub object_path: Seq<char>,
    pub vendor: Seq<char>,
    pub model: Seq<char>,
    pub connection_bus: Seq<char>,
    pub removable: bool,
    pub ejectable: bool,
    pub media_removable: bool,
    pub optical: bool,
}

impl View for RawDrive {
    type V = RawDriveView;

    open spec fn view(&self) -> RawDriveView {
        RawDriveView {
            object_path: self.object_path@,
            vendor: self.vendor@,
            model: self.model@,
            connection_bus: self.connection_bus@,
            removable: self.removable,
            ejectable: self.ejectable,
            media_removable: self.media_removable,
            optical: self.optical,
        }
    }
}

/// A block object with only its path known.
pub open spec fn empty_block(path: Seq<char>) -> RawBlockView {
    RawBlockView {
        object_path: path,
        device: Seq::empty(),
        drive: Seq::empty(),
        id_label: Seq::empty(),
        id_type: Seq::empty(),
        hint_name: Seq::empty(),
        preferred_device: Seq::empty(),
        partition_type: Seq::empty(),
        size: 0,
        read_only: false,
        hint_ignore: false,
        mount_points: Seq::empty(),
        has_filesystem: false,
        has_encrypted: false,
        is_partition_table: false,
        is_loop: false,
        is_cleartext: false,
        cleartext: Seq::empty(),
        encryption_type: Seq::empty(),
    }
}

/// A drive object with only its path known.
pub open spec fn empty_drive(path: Seq<char>) -> RawDriveView {
    RawDriveView {
        object_path: path,
        vendor: Seq::empty(),
        model: Seq::empty(),
        connection_bus: Seq::empty(),
        removable: false,
        ejectable: false,
        media_removable: false,
        optical: false,
    }
}

impl RawBlock {
    /// A block object with only its path known.
    pub fn new(path: &str) -> (r: RawBlock)
        ensures
            r@ == empty_block(path@),
    {
        let r = RawBlock {
            object_path: owned(path),
            device: String::new(),
            drive: String::new(),
            id_label: String::new(),
            id_type: String::new(),
            hint_name: String::new(),
            preferred_device: String::new(),
            partition_type: String::new(),
            size: 0,
            read_only: false,
            hint_ignore: false,
            mount_points: Vec::new(),
            has_filesystem: false,
            has_encrypted: false,
            is_partition_table: false,
            is_loop: false,
            is_cleartext: false,
            cleartext: String::new(),
            encryption_type: String::new(),
        };
        assert(r.mount_points@.map_values(|m: String| m@) =~= Seq::<Seq<char>>::empty());
        r
    }
}

impl RawDrive {
    /// A drive object with only its path known.
    pub fn new(path: &str) -> (r: RawDrive)
        ensures
            r@ == empty_drive(path@),
    {
        RawDrive {
            object_path: owned(path),
            vendor: String::new(),
            model: String::new(),
            connection_bus: String::new(),
            removable: false,
            ejectable: false,
            media_removable: false,
            optical: false,
        }
    }
}

/// A D-Bus property value, as far as the model reads it.
pub enum PropValue {
    /// A string (`s`).
    Str(String),
    /// An object path (`o`).
    ObjectPath(String),
    Bool(bool),
    U64(u64),
    /// A byte array (`ay`).
    Bytes(Vec<u8>),
    /// An array of byte arrays (`aay`).
    ByteArrays(Vec<Vec<u8>>),
    /// Any other value.
    Other,
}

/// The properties of one interface, by name.
pub type Props = Vec<(String, PropValue)>;

/// One interface of a managed object.
pub struct Interface {
    pub name: String,
    pub props: Props,
}

/// One object UDisks2 manages, with its interfaces.
pub struct ManagedObject {
    pub path: String,
    pub interfaces: Vec<Interface>,
}

/// The property `name`, if present.
pub open spec fn prop(props: Seq<(String, PropValue)>, name: Seq<char>) -> Option<PropValue>
    decreases props.len(),
{
    if props.len() == 0 {
        None
    } else if props[0].0@ == name {
        Some(props[0].1)
    } else {
        prop(props.drop_first(), name)
    }
}

/// A string or object-path property.
pub open spec fn prop_string_spec(props: Seq<(String, PropValue)>, name: Seq<char>) -> Option<
    Seq<char>,
> {
    match prop(props, name) {
        Some(PropValue::Str(s)) => Some(s@),
        Some(PropValue::ObjectPath(s)) => Some(s@),
        _ => None,
    }
}

/// A boolean property.
pub open spec fn prop_bool_spec(props: Seq<(String, PropValue)>, name: Seq<char>) -> Option<bool> {
    match prop(props, name) {
        Some(PropValue::Bool(b)) => Some(b),
        _ => None,
    }
}

/// A `u64` property.
pub open spec fn prop_u64_spec(props: Seq<(String, PropValue)>, name: Seq<char>) -> Option<u64> {
    match prop(props, name) {
        Some(PropValue::U64(n)) => Some(n),
        _ => None,
    }
}

/// `b` without its trailing NUL bytes.
pub open spec fn strip_nuls(b: Seq<u8>) -> Seq<u8>
    decreases b.len(),
{
    if b.len() > 0 && b.last() == 0 {
        strip_nuls(b.drop_last())
    } else {
        b
    }
}

/// A byte-array property, trailing NULs stripped.
pub open spec fn prop_bytes_spec(props: Seq<(String, PropValue)>, name: Seq<char>) -> Option<
    Seq<u8>,
> {
    match prop(props, name) {
        Some(PropValue::Bytes(b)) => Some(strip_nuls(b@)),
        _ => None,
    }
}

/// What `String::from_utf8_lossy` makes of a byte string.
pub uninterp spec fn utf8_lossy(b: Seq<u8>) -> Seq<char>;

/// Calls `String::from_utf8_lossy`; the result is named by [`utf8_lossy`].
/// Valid UTF-8 is decoded unchanged, as the function's documentation says.
#[verifier::external_body]
pub(crate) fn lossy_string(b: &Vec<u8>) -> (r: String)
    ensures
        r@ == utf8_lossy(b@),
        vstd::utf8::valid_utf8(b@) ==> r@ == vstd::utf8::decode_utf8(b@),
{
    String::from_utf8_lossy(b.as_slice()).into_owned()
}

/// The mount points of an array of byte strings: NULs stripped, empty ones
/// dropped, each decoded.
pub open spec fn mount_list(a: Seq<Vec<u8>>) -> Seq<Seq<char>>
    decreases a.len(),
{
    if a.len() == 0 {
        Seq::empty()
    } else {
        let prev = mount_list(a.drop_last());
        let b = strip_nuls(a.last()@);
        if b.len() > 0 {
            prev.push(utf8_lossy(b))
        } else {
            prev
        }
    }
}

/// A mount-point list property.
pub open spec fn prop_mount_points_spec(props: Seq<(String, PropValue)>, name: Seq<char>) -> Option<
    Seq<Seq<char>>,
> {
    match prop(props, name) {
        Some(PropValue::ByteArrays(a)) => Some(mount_list(a@)),
        _ => None,
    }
}

fn prop_index(props: &Props, name: &str) -> (r: Option<usize>)
    ensures
        match r {
            Some(k) => k < props@.len() && prop(props@, name@) == Some(props@[k as int].1),
            None => prop(props@, name@) is None,
        },
{
    let mut i: usize = 0;
    assert(props@.skip(0) =~= props@);
    while i < props.len()
        invariant
            i <= props@.len(),
            prop(props@, name@) == prop(props@.skip(i as int), name@),
        decreases props.len() - i,
    {
        assert(props@.skip(i as int)[0] == props@[i as int]);
        if str_eq(props[i].0.as_str(), name) {
            return Some(i);
        }
        assert(props@.skip(i as int).drop_first() =~= props@.skip(i + 1));
        i += 1;
    }
    None
}

/// A string or object-path property.
pub fn prop_string(props: &Props, name: &str) -> (r: Option<String>)
    ensures
        match r {
            Some(s) => prop_string_spec(props@, name@) == Some(s@),
            None => prop_string_spec(props@, name@) is None,
        },
{
    match prop_index(props, name) {
        Some(k) => match &props[k].1 {
            PropValue::Str(s) => Some(s.clone()),
            PropValue::ObjectPath(s) => Some(s.clone()),
            _ => None,
        },
        None => None,
    }
}

/// A boolean property.
pub fn prop_bool(props: &Props, name: &str) -> (r: Option<bool>)
    ensures
        r == prop_bool_spec(props@, name@),
{
    match prop_index(props, name) {
        Some(k) => match &props[k].1 {
            PropValue::Bool(b) => Some(*b),
            _ => None,
        },
        None => None,
    }
}

/// A `u64` property.
pub fn prop_u64(props: &Props, name: &str) -> (r: Option<u64>)
    ensures
        r == prop_u64_spec(props@, name@),
{
    match prop_index(props, name) {
        Some(k) => match &props[k].1 {
            PropValue::U64(n) => Some(*n),
            _ => None,
        },
        None => None,
    }
}

fn strip_nuls_exec(b: &Vec<u8>) -> (r: Vec<u8>)
    ensures
        r@ == strip_nuls(b@),
{
    let mut n = b.len();
    assert(b@.take(n as int) =~= b@);
    while n > 0 && b[n - 1] == 0
        invariant
            n <= b@.len(),
            strip_nuls(b@) == strip_nuls(b@.take(n as int)),
        decreases n,
    {
        assert(b@.take(n as int).drop_last() =~= b@.take(n - 1));
        n -= 1;
    }
    let mut out: Vec<u8> = Vec::new();
    let mut i: usize = 0;
    while i < n
        invariant
            i <= n <= b@.len(),
            out@ =~= b@.take(i as int),
        decreases n - i,
    {
        out.push(b[i]);
        i += 1;
        assert(out@ =~= b@.take(i as int));
    }
    out
}

/// A byte-array property, trailing NULs stripped.
pub fn prop_bytes(props: &Props, name: &str) -> (r: Option<Vec<u8>>)
    ensures
        match r {
            Some(b) => prop_bytes_spec(props@, name@) == Some(b@),
            None => prop_bytes_spec(props@, name@) is None,
        },
{
    match prop_index(props, name) {
        Some(k) => match &props[k].1 {
            PropValue::Bytes(b) => Some(strip_nuls_exec(b)),
            _ => None,
        },
        None => None,
    }
}

/// A mount-point list property: NULs stripped, empty entries dropped, each
/// decoded.
pub fn prop_mount_points(props: &Props, name: &str) -> (r: Option<Vec<String>>)
    ensures
        match r {
            Some(v) => prop_mount_points_spec(props@, name@) == Some(
                v@.map_values(|m: String| m@),
            ),
            None => prop_mount_points_spec(props@, name@) is None,
        },
{
    match prop_index(props, name) {
        Some(k) => match &props[k].1 {
            PropValue::ByteArrays(arrays) => {
                let mut out: Vec<String> = Vec::new();
                let mut i: usize = 0;
                assert(arrays@.take(0) =~= Seq::<Vec<u8>>::empty());
                assert(out@.map_values(|m: String| m@) =~= Seq::<Seq<char>>::empty());
                while i < arrays.len()
                    invariant
                        i <= arrays@.len(),
                        out@.map_values(|m: String| m@) == mount_list(arrays@.take(i as int)),
                    decreases arrays.len() - i,
                {
                    assert(arrays@.take(i + 1).drop_last() =~= arrays@.take(i as int));
                    let bytes = strip_nuls_exec(&arrays[i]);
                    if bytes.len() > 0 {
                        let ghost before = out@;
                        out.push(lossy_string(&bytes));
                        assert(out@.map_values(|m: String| m@) =~= before.map_values(
                            |m: String| m@,
                        ).push(utf8_lossy(bytes@)));
                    }
                    i += 1;
                }
                assert(arrays@.take(arrays@.len() as int) =~= arrays@);
                Some(out)
            },
            _ => None,
        },
        None => None,
    }
}

/// Which interface of a block object a property set comes from.
#[derive(Clone, Copy, PartialEq, Eq, Structural)]
pub enum BlockSource {
    Block,
    Filesystem,
    Encrypted,
}

/// `o`'s value, or `d` when there is none.
pub open spec fn or<T>(o: Option<T>, d: T) -> T {
    match o {
        Some(v) => v,
        None => d,
    }
}

/// A block with the properties of one of its interfaces read in.
pub open spec fn apply_block(
    b: RawBlockView,
    props: Seq<(String, PropValue)>,
    source: BlockSource,
) -> RawBlockView {
    match source {
        BlockSource::Block => RawBlockView {
            device: match prop_bytes_spec(props, "Device"@) {
                Some(bytes) => utf8_lossy(bytes),
                None => b.device,
            },
            drive: or(prop_string_spec(props, "Drive"@), b.drive),
            id_label: or(prop_string_spec(props, "IdLabel"@), b.id_label),
            id_type: or(prop_string_spec(props, "IdType"@), b.id_type),
            hint_name: or(prop_string_spec(props, "HintName"@), b.hint_name),
            preferred_device: or(prop_string_spec(props, "PreferredDevice"@), b.preferred_device),
            partition_type: or(prop_string_spec(props, "PartitionType"@), b.partition_type),
            size: or(prop_u64_spec(props, "Size"@), b.size),
            read_only: or(prop_bool_spec(props, "ReadOnly"@), b.read_only),
            hint_ignore: or(prop_bool_spec(props, "HintIgnore"@), b.hint_ignore),
            encryption_type: or(prop_string_spec(props, "HintEncryptionType"@), b.encryption_type),
            ..b
        },
        BlockSource::Filesystem => RawBlockView {
            mount_points: or(prop_mount_points_spec(props, "MountPoints"@), b.mount_points),
            has_filesystem: prop(props, "MountPoints"@) is Some,
            ..b
        },
        BlockSource::Encrypted => RawBlockView {
            cleartext: or(prop_string_spec(props, "CleartextDevice"@), b.cleartext),
            has_encrypted: true,
            ..b
        },
    }
}

fn set_from(target: &mut String, v: Option<String>)
    ensures
        final(target)@ == match v {
            Some(s) => s@,
            None => old(target)@,
        },
{
    if let Some(s) = v {
        *target = s;
    }
}

/// Reads the properties of one interface of a block object.
pub fn parse_block(props: &Props, b: &mut RawBlock, source: BlockSource)
    ensures
        final(b)@ == apply_block(old(b)@, props@, source),
{
    match source {
        BlockSource::Block => {
            if let Some(bytes) = prop_bytes(props, "Device") {
                b.device = lossy_string(&bytes);
            }
            set_from(&mut b.drive, prop_string(props, "Drive"));
            set_from(&mut b.id_label, prop_string(props, "IdLabel"));
            set_from(&mut b.id_type, prop_string(props, "IdType"));
            set_from(&mut b.hint_name, prop_string(props, "HintName"));
            set_from(&mut b.preferred_device, prop_string(props, "PreferredDevice"));
            set_from(&mut b.partition_type, prop_string(props, "PartitionType"));
            if let Some(v) = prop_u64(props, "Size") {
                b.size = v;
            }
            if let Some(v) = prop_bool(props, "ReadOnly") {
                b.read_only = v;
            }
            if let Some(v) = prop_bool(props, "HintIgnore") {
                b.hint_ignore = v;
            }
            set_from(&mut b.encryption_type, prop_string(props, "HintEncryptionType"));
        },
        BlockSource::Filesystem => {
            if let Some(v) = prop_mount_points(props, "MountPoints") {
                b.mount_points = v;
            }
            b.has_filesystem = prop_index(props, "MountPoints").is_some();
        },
        BlockSource::Encrypted => {
            set_from(&mut b.cleartext, prop_string(props, "CleartextDevice"));
            b.has_encrypted = true;
        },
    }
}

/// A drive with the properties of its drive interface read in.
pub open spec fn apply_drive(d: RawDriveView, props: Seq<(String, PropValue)>) -> RawDriveView {
    RawDriveView {
        vendor: or(prop_string_spec(props, "Vendor"@), d.vendor),
        model: or(prop_string_spec(props, "Model"@), d.model),
        connection_bus: or(prop_string_spec(props, "ConnectionBus"@), d.connection_bus),
        removable: or(prop_bool_spec(props, "Removable"@), d.removable),
        ejectable: or(prop_bool_spec(props, "Ejectable"@), d.ejectable),
        media_removable: or(prop_bool_spec(props, "MediaRemovable"@), d.media_removable),
        optical: or(prop_bool_spec(props, "Optical"@), d.optical),
        ..d
    }
}

/// Reads the properties of a drive interface.
pub fn parse_drive(props: &Props, d: &mut RawDrive)
    ensures
        final(d)@ == apply_drive(old(d)@, props@),
{
    set_from(&mut d.vendor, prop_string(props, "Vendor"));
    set_from(&mut d.model, prop_string(props, "Model"));
    set_from(&mut d.connection_bus, prop_string(props, "ConnectionBus"));
    if let Some(v) = prop_bool(props, "Removable") {
        d.removable = v;
    }
    if let Some(v) = prop_bool(props, "Ejectable") {
        d.ejectable = v;
    }
    if let Some(v) = prop_bool(props, "MediaRemovable") {
        d.media_removable = v;
    }
    if let Some(v) = prop_bool(props, "Optical") {
        d.optical = v;
    }
}

/// The block of an object so far, or a new one for its path.
pub open spec fn block_or_new(block: Option<RawBlockView>, path: Seq<char>) -> RawBlockView {
    match block {
        Some(b) => b,
        None => empty_block(path),
    }
}

/// Reads one interface of the object at `path` into the drives found so far
/// and the object's block: a drive interface adds a drive; the block,
/// filesystem, encrypted, partition-table, partition and loop interfaces
/// fill the block (creating it).
pub open spec fn interface_step(
    acc: (Seq<RawDriveView>, Option<RawBlockView>),
    path: Seq<char>,
    iface: Interface,
) -> (Seq<RawDriveView>, Option<RawBlockView>) {
    let (drives, block) = acc;
    let name = iface.name@;
    let props = iface.props@;
    let b = block_or_new(block, path);
    if name == "org.freedesktop.UDisks2.Drive"@ {
        (drives.push(apply_drive(empty_drive(path), props)), block)
    } else if name == "org.freedesktop.UDisks2.Block"@ {
        (drives, Some(apply_block(b, props, BlockSource::Block)))
    } else if name == "org.freedesktop.UDisks2.Filesystem"@ {
        (drives, Some(apply_block(b, props, BlockSource::Filesystem)))
    } else if name == "org.freedesktop.UDisks2.Encrypted"@ {
        (drives, Some(apply_block(b, props, BlockSource::Encrypted)))
    } else if name == "org.freedesktop.UDisks2.PartitionTable"@ {
        (drives, Some(RawBlockView { is_partition_table: true, ..b }))
    } else if name == "org.freedesktop.UDisks2.Partition"@ {
        match prop_string_spec(props, "Type"@) {
            Some(t) => (drives, Some(RawBlockView { partition_type: t, ..b })),
            None => (drives, block),
        }
    } else if name == "org.freedesktop.UDisks2.Loop"@ {
        (drives, Some(RawBlockView { is_loop: true, ..b }))
    } else {
        (drives, block)
    }
}

/// The interfaces of one object read in order.
pub open spec fn object_spec(
    acc: (Seq<RawDriveView>, Option<RawBlockView>),
    path: Seq<char>,
    ifaces: Seq<Interface>,
) -> (Seq<RawDriveView>, Option<RawBlockView>)
    decreases ifaces.len(),
{
    if ifaces.len() == 0 {
        acc
    } else {
        interface_step(object_spec(acc, path, ifaces.drop_last()), path, ifaces.last())
    }
}

/// The blocks and drives of the objects, in order, before cleartext
/// devices are marked.
pub open spec fn objects_spec(objs: Seq<ManagedObject>) -> (Seq<RawBlockView>, Seq<RawDriveView>)
    decreases objs.len(),
{
    if objs.len() == 0 {
        (Seq::empty(), Seq::empty())
    } else {
        let (blocks, drives) = objects_spec(objs.drop_last());
        let o = objs.last();
        let (drives2, block) = object_spec((drives, None), o.path@, o.interfaces@);
        match block {
            Some(b) => (blocks.push(b), drives2),
            None => (blocks, drives2),
        }
    }
}

/// Whether a block names a cleartext device.
pub open spec fn names_cleartext(b: RawBlockView) -> bool {
    b.cleartext.len() > 0 && b.cleartext != seq!['/']
}

/// Blocks that are the cleartext device of some encrypted block are marked,
/// so that only the encrypted container is shown.
pub open spec fn mark_cleartext_spec(blocks: Seq<RawBlockView>) -> Seq<RawBlockView> {
    Seq::new(
        blocks.len(),
        |i: int|
            RawBlockView {
                is_cleartext: blocks[i].is_cleartext || exists|j: int|
                    0 <= j < blocks.len() && names_cleartext(#[trigger] blocks[j])
                        && blocks[j].cleartext == blocks[i].object_path,
                ..blocks[i]
            },
    )
}

/// What enumerating a set of managed objects gives.
pub open spec fn enumerate_spec(objs: Seq<ManagedObject>) -> (Seq<RawBlockView>, Seq<RawDriveView>) {
    let (blocks, drives) = objects_spec(objs);
    (mark_cleartext_spec(blocks), drives)
}

/// The views of an enumeration.
pub open spec fn enumerated_view(e: Enumerated) -> (Seq<RawBlockView>, Seq<RawDriveView>) {
    (e.blocks@.map_values(|b: RawBlock| b@), e.drives@.map_values(|d: RawDrive| d@))
}

fn read_interface(
    drives: &mut Vec<RawDrive>,
    block: Option<RawBlock>,
    path: &str,
    iface: &Interface,
) -> (r: Option<RawBlock>)
    ensures
        ({
            let (d2, b2) = interface_step(
                (
                    old(drives)@.map_values(|d: RawDrive| d@),
                    match block {
                        Some(b) => Some(b@),
                        None => None,
                    },
                ),
                path@,
                *iface,
            );
            &&& final(drives)@.map_values(|d: RawDrive| d@) == d2
            &&& match r {
                Some(b) => b2 == Some(b@),
                None => b2 is None,
            }
        }),
{
    let name = iface.name.as_str();
    let props = &iface.props;
    let ghost before = drives@.map_values(|d: RawDrive| d@);
    if str_eq(name, "org.freedesktop.UDisks2.Drive") {
        let mut d = RawDrive::new(path);
        parse_drive(props, &mut d);
        drives.push(d);
        assert(drives@.map_values(|d: RawDrive| d@) =~= before.push(d@));
        return block;
    }
    let source = if str_eq(name, "org.freedesktop.UDisks2.Block") {
        Some(BlockSource::Block)
    } else if str_eq(name, "org.freedesktop.UDisks2.Filesystem") {
        Some(BlockSource::Filesystem)
    } else if str_eq(name, "org.freedesktop.UDisks2.Encrypted") {
        Some(BlockSource::Encrypted)
    } else {
        None
    };
    if let Some(src) = source {
        let mut b = match block {
            Some(b) => b,
            None => RawBlock::new(path),
        };
        parse_block(props, &mut b, src);
        return Some(b);
    }
    if str_eq(name, "org.freedesktop.UDisks2.PartitionTable") {
        let mut b = match block {
            Some(b) => b,
            None => RawBlock::new(path),
        };
        b.is_partition_table = true;
        return Some(b);
    }
    if str_eq(name, "org.freedesktop.UDisks2.Partition") {
        return match prop_string(props, "Type") {
            Some(t) => {
                let mut b = match block {
                    Some(b) => b,
                    None => RawBlock::new(path),
                };
                b.partition_type = t;
                Some(b)
            },
            None => block,
        };
    }
    if str_eq(name, "org.freedesktop.UDisks2.Loop") {
        let mut b = match block {
            Some(b) => b,
            None => RawBlock::new(path),
        };
        b.is_loop = true;
        return Some(b);
    }
    block
}

fn read_object(drives: &mut Vec<RawDrive>, o: &ManagedObject) -> (r: Option<RawBlock>)
    ensures
        ({
            let (d2, b2) = object_spec(
                (old(drives)@.map_values(|d: RawDrive| d@), None),
                o.path@,
                o.interfaces@,
            );
            &&& final(drives)@.map_values(|d: RawDrive| d@) == d2
            &&& match r {
                Some(b) => b2 == Some(b@),
                None => b2 is None,
            }
        }),
{
    let ghost start = drives@.map_values(|d: RawDrive| d@);
    let mut block: Option<RawBlock> = None;
    let mut i: usize = 0;
    assert(o.interfaces@.take(0) =~= Seq::<Interface>::empty());
    while i < o.interfaces.len()
        invariant
            i <= o.interfaces@.len(),
            ({
                let (d2, b2) = object_spec((start, None), o.path@, o.interfaces@.take(i as int));
                &&& drives@.map_values(|d: RawDrive| d@) == d2
                &&& match block {
                    Some(b) => b2 == Some(b@),
                    None => b2 is None,
                }
            }),
        decreases o.interfaces.len() - i,
    {
        assert(o.interfaces@.take(i + 1).drop_last() =~= o.interfaces@.take(i as int));
        block = read_interface(drives, block, o.path.as_str(), &o.interfaces[i]);
        i += 1;
    }
    assert(o.interfaces@.take(o.interfaces@.len() as int) =~= o.interfaces@);
    block
}

fn names_cleartext_exec(b: &RawBlock) -> (r: bool)
    ensures
        r == names_cleartext(b@),
{
    proof {
        reveal_strlit("/");
        assert("/"@ =~= seq!['/']);
    }
    !b.cleartext.is_empty() && !str_eq(b.cleartext.as_str(), "/")
}

/// Reads the managed objects into blocks and drives, and marks the blocks
/// that are cleartext devices of encrypted blocks.
pub fn collect_objects(objects: &Vec<ManagedObject>) -> (r: Enumerated)
    ensures
        enumerated_view(r) == enumerate_spec(objects@),
{
    let mut blocks: Vec<RawBlock> = Vec::new();
    let mut drives: Vec<RawDrive> = Vec::new();
    let mut i: usize = 0;
    assert(objects@.take(0) =~= Seq::<ManagedObject>::empty());
    assert(blocks@.map_values(|b: RawBlock| b@) =~= Seq::<RawBlockView>::empty());
    assert(drives@.map_values(|d: RawDrive| d@) =~= Seq::<RawDriveView>::empty());
    while i < objects.len()
        invariant
            i <= objects@.len(),
            objects_spec(objects@.take(i as int)) == (
                blocks@.map_values(|b: RawBlock| b@),
                drives@.map_values(|d: RawDrive| d@),
            ),
        decreases objects.len() - i,
    {
        assert(objects@.take(i + 1).drop_last() =~= objects@.take(i as int));
        assert(objects@.take(i + 1).last() == objects@[i as int]);
        let ghost before = blocks@.map_values(|b: RawBlock| b@);
        match read_object(&mut drives, &objects[i]) {
            Some(b) => {
                blocks.push(b);
                assert(blocks@.map_values(|b: RawBlock| b@) =~= before.push(b@));
            },
            None => {},
        }
        i += 1;
    }
    assert(objects@.take(objects@.len() as int) =~= objects@);
    let ghost unmarked = blocks@.map_values(|b: RawBlock| b@);
    let n = blocks.len();
    let mut marks: Vec<bool> = Vec::new();
    let mut k: usize = 0;
    while k < n
        invariant
            k <= n,
            n == blocks@.len(),
            unmarked == blocks@.map_values(|b: RawBlock| b@),
            marks@.len() == k,
            forall|q: int|
                0 <= q < k ==> #[trigger] marks@[q] == (exists|j: int|
                    0 <= j < unmarked.len() && names_cleartext(#[trigger] unmarked[j])
                        && unmarked[j].cleartext == unmarked[q].object_path),
        decreases n - k,
    {
        let mut found = false;
        let mut j: usize = 0;
        while j < n
            invariant
                j <= n,
                k < n,
                n == blocks@.len(),
                unmarked == blocks@.map_values(|b: RawBlock| b@),
                found == (exists|q: int|
                    0 <= q < j && names_cleartext(#[trigger] unmarked[q])
                        && unmarked[q].cleartext == unmarked[k as int].object_path),
            decreases n - j,
        {
            assert(unmarked[j as int] == blocks@[j as int]@);
            assert(unmarked[k as int] == blocks@[k as int]@);
            if names_cleartext_exec(&blocks[j]) && str_eq(
                blocks[j].cleartext.as_str(),
                blocks[k].object_path.as_str(),
            ) {
                found = true;
            }
            j += 1;
        }
        marks.push(found);
        k += 1;
    }
    let mut marked: Vec<RawBlock> = Vec::new();
    let mut rest = blocks;
    let ghost total = n;
    while rest.len() > 0
        invariant
            rest@.len() + marked@.len() == n,
            unmarked.len() == n,
            marks@.len() == n,
            forall|q: int|
                0 <= q < rest@.len() ==> #[trigger] rest@[q]@ == unmarked[marked@.len() + q],
            forall|q: int|
                0 <= q < marked@.len() ==> #[trigger] marked@[q]@ == mark_cleartext_spec(
                    unmarked,
                )[q],
            forall|q: int|
                0 <= q < n ==> #[trigger] marks@[q] == (exists|j: int|
                    0 <= j < unmarked.len() && names_cleartext(#[trigger] unmarked[j])
                        && unmarked[j].cleartext == unmarked[q].object_path),
        decreases rest.len(),
    {
        let idx = marked.len();
        let ghost before_rest = rest@;
        let mut b = rest.remove(0);
        assert(b@ == unmarked[idx as int]);
        if marks[idx] {
            b.is_cleartext = true;
        }
        marked.push(b);
        assert forall|q: int| 0 <= q < rest@.len() implies #[trigger] rest@[q]@ == unmarked[marked@.len() + q] by {
            assert(rest@[q] == before_rest[q + 1]);
        }
    }
    assert(marked@.map_values(|b: RawBlock| b@) =~= mark_cleartext_spec(unmarked));
    Enumerated { blocks: marked, drives }
}

/// Whether a bus message is a UDisks2 change signal the monitor reacts to:
/// sent by the UDisks2 service name, and a properties change or an
/// interfaces-added/removed signal.
pub open spec fn is_relevant_signal_spec(
    sender: Seq<char>,
    interface: Seq<char>,
    member: Seq<char>,
) -> bool {
    sender == "org.freedesktop.UDisks2"@ && ((interface == "org.freedesktop.DBus.Properties"@
        && member == "PropertiesChanged"@) || (interface == "org.freedesktop.DBus.ObjectManager"@
        && (member == "InterfacesAdded"@ || member == "InterfacesRemoved"@)))
}

/// Whether a message with this sender, interface and member (empty when
/// absent from its header) is a relevant UDisks2 signal.
pub fn is_relevant_signal(sender: &str, interface: &str, member: &str) -> (r: bool)
    ensures
        r == is_relevant_signal_spec(sender@, interface@, member@),
{
    if !str_eq(sender, "org.freedesktop.UDisks2") {
        return false;
    }
    (str_eq(interface, "org.freedesktop.DBus.Properties") && str_eq(member, "PropertiesChanged"))
        || (str_eq(interface, "org.freedesktop.DBus.ObjectManager") && (str_eq(
        member,
        "InterfacesAdded",
    ) || str_eq(member, "InterfacesRemoved")))
}

} // verus!
