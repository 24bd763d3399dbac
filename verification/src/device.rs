//! The device model: which UDisks2 blocks are shown, what is known of each,
//! and in which order they are listed.
use vstd::prelude::*;

use crate::config::Config;
use crate::string_map::StringMap;
use crate::text::{
    basename, basename_spec, chars_of, contains_spec, contains_str, eq_ignore_ascii_case,
    eq_ignore_ascii_case_spec, lemma_lex_irreflexive, lemma_lex_total, lemma_lex_transitive,
    lex_less, lex_less_exec, lowercase, owned, push_str, str_eq, to_lowercase, trim, trim_spec,
};
use crate::udisks::{Enumerated, RawBlock, RawDrive};

verus! {

/// A removable storage device as the module presents it.
#[derive(Debug, Clone)]
pub struct Device {
    pub object_path: String,
    pub drive_path: String,
    pub block: String,
    pub name: String,
    pub vendor: String,
    pub model: String,
    pub filesystem: String,
    pub mount_point: String,
    pub cleartext: String,
    pub capacity: u64,
    pub used: u64,
    pub free: u64,
    pub mounted: bool,
    pub read_only: bool,
    pub encrypted: bool,
    pub locked: bool,
    pub removable: bool,
    pub ejectable: bool,
    pub can_power_off: bool,
    pub is_optical: bool,
    pub hidden: bool,
    pub insertion_seq: u64,
    pub mount_time: i64,
}

/// The mathematical model of a [`Device`].
pub struct DeviceView {
    pub object_path: Seq<char>,
    pub drive_path: Seq<char>,
    pub block: Seq<char>,
    pub name: Seq<char>,
    pub vendor: Seq<char>,
    pub model: Seq<char>,
    pub filesystem: Seq<char>,
    pub mount_point: Seq<char>,
    pub cleartext: Seq<char>,
    pub capacity: u64,
    pub used: u64,
    pub free: u64,
    pub mounted: bool,
    pub read_only: bool,
    pub encrypted: bool,
    pub locked: bool,
    pub removable: bool,
    pub ejectable: bool,
    pub can_power_off: bool,
    pub is_optical: bool,
    pub hidden: bool,
    pub insertion_seq: u64,
    pub mount_time: i64,
}

impl View for Device {
    type V = DeviceView;

    open spec fn view(&self) -> DeviceView {
        DeviceView {
            object_path: self.object_path@,
            drive_path: self.drive_path@,
            block: self.block@,
            name: self.name@,
            vendor: self.vendor@,
            model: self.model@,
            filesystem: self.filesystem@,
            mount_point: self.mount_point@,
            cleartext: self.cleartext@,
            capacity: self.capacity,
            used: self.used,
            free: self.free,
            mounted: self.mounted,
            read_only: self.read_only,
            encrypted: self.encrypted,
            locked: self.locked,
            removable: self.removable,
            ejectable: self.ejectable,
            can_power_off: self.can_power_off,
            is_optical: self.is_optical,
            hidden: self.hidden,
            insertion_seq: self.insertion_seq,
            mount_time: self.mount_time,
        }
    }
}

/// The device with every string empty, every number zero and every flag off.
pub open spec fn empty_device() -> DeviceView {
    DeviceView {
        object_path: Seq::empty(),
        drive_path: Seq::empty(),
        block: Seq::empty(),
        name: Seq::empty(),
        vendor: Seq::empty(),
        model: Seq::empty(),
        filesystem: Seq::empty(),
        mount_point: Seq::empty(),
        cleartext: Seq::empty(),
        capacity: 0,
        used: 0,
        free: 0,
        mounted: false,
        read_only: false,
        encrypted: false,
        locked: false,
        removable: false,
        ejectable: false,
        can_power_off: false,
        is_optical: false,
        hidden: false,
        insertion_seq: 0,
        mount_time: 0,
    }
}

impl Default for Device {
    fn default() -> (r: Device)
        ensures
            r@ == empty_device(),
    {
        Device {
            object_path: String::new(),
            drive_path: String::new(),
            block: String::new(),
            name: String::new(),
            vendor: String::new(),
            model: String::new(),
            filesystem: String::new(),
            mount_point: String::new(),
            cleartext: String::new(),
            capacity: 0,
            used: 0,
            free: 0,
            mounted: false,
            read_only: false,
            encrypted: false,
            locked: false,
            removable: false,
            ejectable: false,
            can_power_off: false,
            is_optical: false,
            hidden: false,
            insertion_seq: 0,
            mount_time: 0,
        }
    }
}

impl Device {
    /// A field-by-field copy.
    pub fn duplicate(&self) -> (r: Device)
        ensures
            r@ == self@,
    {
        Device {
            object_path: self.object_path.clone(),
            drive_path: self.drive_path.clone(),
            block: self.block.clone(),
            name: self.name.clone(),
            vendor: self.vendor.clone(),
            model: self.model.clone(),
            filesystem: self.filesystem.clone(),
            mount_point: self.mount_point.clone(),
            cleartext: self.cleartext.clone(),
            capacity: self.capacity,
            used: self.used,
            free: self.free,
            mounted: self.mounted,
            read_only: self.read_only,
            encrypted: self.encrypted,
            locked: self.locked,
            removable: self.removable,
            ejectable: self.ejectable,
            can_power_off: self.can_power_off,
            is_optical: self.is_optical,
            hidden: self.hidden,
            insertion_seq: self.insertion_seq,
            mount_time: self.mount_time,
        }
    }
}

/// Filesystem usage of a mount point: total, used and free bytes, and
/// whether it is mounted read-only.
pub type Usage = (u64, u64, u64, bool);

/// The drive with object path `path`; when several share it, the last.
pub open spec fn drive_lookup(drives: Seq<RawDrive>, path: Seq<char>) -> Option<RawDrive>
    decreases drives.len(),
{
    if drives.len() == 0 {
        None
    } else if drives.last().object_path@ == path {
        Some(drives.last())
    } else {
        drive_lookup(drives.drop_last(), path)
    }
}

/// A drive counts as removable when any of its removal flags is set.
pub open spec fn is_removable_drive_spec(drive: Option<RawDrive>) -> bool {
    match drive {
        Some(d) => d.removable || d.media_removable || d.ejectable || d.optical,
        None => false,
    }
}

/// The first non-empty mount point, or the empty string.
pub open spec fn first_mount_point_spec(mps: Seq<String>) -> Seq<char>
    decreases mps.len(),
{
    if mps.len() == 0 {
        Seq::empty()
    } else if mps[0]@.len() > 0 {
        mps[0]@
    } else {
        first_mount_point_spec(mps.drop_first())
    }
}

/// An encrypted block is locked while it has no cleartext device.
pub open spec fn is_locked_spec(b: RawBlock) -> bool {
    b.has_encrypted && (b.cleartext@.len() == 0 || b.cleartext@ == seq!['/'])
}

/// A partition on the EFI system partition is hidden by default: mounted
/// under a path containing `/boot/efi` (in any case), or a vfat partition of
/// type `0xef`.
pub open spec fn is_efi_system_spec(b: RawBlock, mount_point: Seq<char>) -> bool {
    (mount_point.len() > 0 && contains_spec(lowercase(mount_point), "/boot/efi"@)) || (
    eq_ignore_ascii_case_spec(b.id_type@, "vfat"@) && eq_ignore_ascii_case_spec(
        b.partition_type@,
        "0xef"@,
    ))
}

/// The display name: label, else hint name, else vendor and model, else the
/// last component of the block device path.
pub open spec fn device_name_spec(
    b: RawBlock,
    vendor: Seq<char>,
    model: Seq<char>,
    block: Seq<char>,
) -> Seq<char> {
    if b.id_label@.len() > 0 {
        b.id_label@
    } else if b.hint_name@.len() > 0 {
        b.hint_name@
    } else if vendor.len() > 0 && model.len() > 0 {
        vendor + seq![' '] + model
    } else if vendor.len() > 0 {
        vendor
    } else if model.len() > 0 {
        model
    } else {
        basename_spec(block)
    }
}

/// The device a block stands for, before it is given an insertion number and
/// a mount time; `None` when the block is not shown.
pub open spec fn candidate_spec(
    b: RawBlock,
    drives: Seq<RawDrive>,
    show_hidden: bool,
    usage: Option<Usage>,
) -> Option<DeviceView> {
    if b.is_partition_table || b.is_cleartext || b.is_loop || b.device@.len() == 0 {
        None
    } else if !b.has_filesystem && !b.has_encrypted {
        None
    } else {
        let drive = if b.drive@.len() == 0 {
            None
        } else {
            drive_lookup(drives, b.drive@)
        };
        if !is_removable_drive_spec(drive) {
            None
        } else {
            let drv = drive.unwrap();
            let locked = is_locked_spec(b);
            let mp = first_mount_point_spec(b.mount_points@);
            let mounted = mp.len() > 0;
            let vendor = trim_spec(drv.vendor@);
            let model = trim_spec(drv.model@);
            let removable = drv.removable || drv.media_removable;
            let hidden = b.hint_ignore || is_efi_system_spec(b, mp);
            if hidden && !show_hidden {
                None
            } else {
                Some(
                    DeviceView {
                        object_path: b.object_path@,
                        drive_path: b.drive@,
                        block: b.device@,
                        name: device_name_spec(b, vendor, model, b.device@),
                        vendor: vendor,
                        model: model,
                        filesystem: if b.has_encrypted && b.id_type@.len() == 0 {
                            "crypto_LUKS"@
                        } else {
                            b.id_type@
                        },
                        mount_point: mp,
                        cleartext: if locked {
                            Seq::empty()
                        } else {
                            b.cleartext@
                        },
                        capacity: if mounted {
                            match usage {
                                Some(u) => u.0,
                                None => 0,
                            }
                        } else {
                            b.size
                        },
                        used: if mounted {
                            match usage {
                                Some(u) => u.1,
                                None => 0,
                            }
                        } else {
                            0
                        },
                        free: if mounted {
                            match usage {
                                Some(u) => u.2,
                                None => 0,
                            }
                        } else {
                            0
                        },
                        mounted: mounted,
                        read_only: b.read_only || (mounted && match usage {
                            Some(u) => u.3,
                            None => false,
                        }),
                        encrypted: b.has_encrypted,
                        locked: locked,
                        removable: removable,
                        ejectable: drv.ejectable,
                        can_power_off: b.drive@.len() > 0 && (removable || drv.ejectable),
                        is_optical: drv.optical,
                        hidden: hidden,
                        insertion_seq: 0,
                        mount_time: 0,
                    },
                )
            }
        }
    }
}

/// The candidate devices of the blocks, in block order; `usage[i]` is the
/// filesystem usage reported for the mount point of block `i`.
pub open spec fn candidates_spec(
    blocks: Seq<RawBlock>,
    drives: Seq<RawDrive>,
    show_hidden: bool,
    usage: Seq<Option<Usage>>,
) -> Seq<DeviceView>
    decreases blocks.len(),
{
    if blocks.len() == 0 {
        Seq::empty()
    } else {
        let prev = candidates_spec(blocks.drop_last(), drives, show_hidden, usage);
        match candidate_spec(blocks.last(), drives, show_hidden, usage[blocks.len() - 1]) {
            Some(d) => prev.push(d),
            None => prev,
        }
    }
}

/// What the model remembers between refreshes, keyed by object path: when
/// each device was first seen mounted, the insertion number of each device,
/// and the next insertion number.
pub struct History {
    pub mount_time: Map<Seq<char>, i64>,
    pub insertion_seq: Map<Seq<char>, u64>,
    pub next: int,
}

/// Gives one device its insertion number and mount time, and records them.
/// A device keeps the insertion number it was first given; a mounted device
/// keeps the mount time first recorded for it (`now` when none is positive);
/// an unmounted device has mount time 0.
pub open spec fn track_one(d: DeviceView, h: History, now: i64) -> (DeviceView, History) {
    let p = d.object_path;
    let seen = h.insertion_seq.dom().contains(p);
    let seq_no: u64 = if seen {
        h.insertion_seq[p]
    } else {
        h.next as u64
    };
    let seqs = if seen {
        h.insertion_seq
    } else {
        h.insertion_seq.insert(p, h.next as u64)
    };
    let next = if seen {
        h.next
    } else {
        h.next + 1
    };
    let recorded: i64 = if h.mount_time.dom().contains(p) {
        h.mount_time[p]
    } else {
        0
    };
    let mt: i64 = if d.mounted {
        if recorded <= 0 {
            now
        } else {
            recorded
        }
    } else {
        0
    };
    (
        DeviceView { insertion_seq: seq_no, mount_time: mt, ..d },
        History { mount_time: h.mount_time.insert(p, mt), insertion_seq: seqs, next: next },
    )
}

/// [`track_one`] applied to each device in order.
pub open spec fn track(devs: Seq<DeviceView>, h: History, now: i64) -> (Seq<DeviceView>, History)
    decreases devs.len(),
{
    if devs.len() == 0 {
        (devs, h)
    } else {
        let (prev, h1) = track(devs.drop_last(), h, now);
        let (d, h2) = track_one(devs.last(), h1, now);
        (prev.push(d), h2)
    }
}

/// The orders a configuration's `sort` key selects.
#[derive(Clone, Copy)]
pub enum SortMode {
    Name,
    Size,
    Insertion,
    MountTime,
}

/// `"name"`, `"size"` and `"insertion"` select those orders; anything else
/// orders by mount time.
pub open spec fn sort_mode_spec(s: Seq<char>) -> SortMode {
    if s == "name"@ {
        SortMode::Name
    } else if s == "size"@ {
        SortMode::Size
    } else if s == "insertion"@ {
        SortMode::Insertion
    } else {
        SortMode::MountTime
    }
}

/// Reads a sort key.
pub fn sort_mode(s: &str) -> (r: SortMode)
    ensures
        r == sort_mode_spec(s@),
{
    if str_eq(s, "name") {
        SortMode::Name
    } else if str_eq(s, "size") {
        SortMode::Size
    } else if str_eq(s, "insertion") {
        SortMode::Insertion
    } else {
        SortMode::MountTime
    }
}

/// Whether `a` is listed strictly before `b`: by lowercase name; by size,
/// largest first, then insertion; by insertion; or (the default) mounted
/// devices first, the most recently mounted first, then by insertion.
pub open spec fn precedes(mode: SortMode, a: DeviceView, b: DeviceView) -> bool {
    match mode {
        SortMode::Name => lex_less(lowercase(a.name), lowercase(b.name)),
        SortMode::Size => if a.capacity != b.capacity {
            a.capacity > b.capacity
        } else {
            a.insertion_seq < b.insertion_seq
        },
        SortMode::Insertion => a.insertion_seq < b.insertion_seq,
        SortMode::MountTime => if a.mounted != b.mounted {
            a.mounted
        } else if a.mounted && b.mounted && a.mount_time != b.mount_time {
            a.mount_time > b.mount_time
        } else {
            a.insertion_seq < b.insertion_seq
        },
    }
}

/// `precedes` is a strict weak order in every mode.
pub proof fn lemma_precedes_weak_order(mode: SortMode, a: DeviceView, b: DeviceView, c: DeviceView)
    ensures
        !precedes(mode, a, a),
        precedes(mode, a, b) ==> !precedes(mode, b, a),
        precedes(mode, a, b) && !precedes(mode, a, c) ==> precedes(mode, c, b),
{
    match mode {
        SortMode::Name => {
            let ka = lowercase(a.name);
            let kb = lowercase(b.name);
            let kc = lowercase(c.name);
            lemma_lex_irreflexive(ka);
            if lex_less(ka, kb) && lex_less(kb, ka) {
                lemma_lex_transitive(ka, kb, ka);
            }
            if lex_less(ka, kb) && !lex_less(ka, kc) {
                lemma_lex_total(ka, kc);
                if lex_less(kc, ka) {
                    lemma_lex_transitive(kc, ka, kb);
                }
            }
        },
        _ => {},
    }
}

/// `p` lists each index below `n` exactly once.
pub open spec fn is_permutation(p: Seq<int>, n: int) -> bool {
    &&& p.len() == n
    &&& forall|i: int| 0 <= i < n ==> 0 <= #[trigger] p[i] < n
    &&& forall|i: int, j: int| 0 <= i < j < n ==> #[trigger] p[i] != #[trigger] p[j]
}

/// `out` is `inp` rearranged by `p` so that no device follows one it
/// precedes, and devices neither of which precedes the other keep their
/// order in `inp`.
pub open spec fn arranged_stably(
    mode: SortMode,
    inp: Seq<DeviceView>,
    out: Seq<DeviceView>,
    p: Seq<int>,
) -> bool {
    &&& is_permutation(p, inp.len() as int)
    &&& out.len() == inp.len()
    &&& forall|i: int| 0 <= i < out.len() ==> #[trigger] out[i] == inp[p[i]]
    &&& forall|i: int, j: int|
        #![trigger out[i], out[j]]
        0 <= i < j < out.len() ==> !precedes(mode, out[j], out[i]) && (!precedes(
            mode,
            out[i],
            out[j],
        ) ==> p[i] < p[j])
}

/// `out` is the stable sort of `inp` by `precedes`.
pub open spec fn stably_sorted(mode: SortMode, inp: Seq<DeviceView>, out: Seq<DeviceView>) -> bool {
    exists|p: Seq<int>| arranged_stably(mode, inp, out, p)
}

/// Inserting a new last device before the first device it precedes keeps
/// the arrangement stable.
proof fn lemma_stable_insert(
    mode: SortMode,
    inp: Seq<DeviceView>,
    out: Seq<DeviceView>,
    p: Seq<int>,
    d: DeviceView,
    pos: int,
)
    requires
        arranged_stably(mode, inp, out, p),
        0 <= pos <= out.len(),
        forall|k: int| 0 <= k < pos ==> !precedes(mode, d, #[trigger] out[k]),
        pos < out.len() ==> precedes(mode, d, out[pos]),
    ensures
        arranged_stably(mode, inp.push(d), out.insert(pos, d), p.insert(pos, inp.len() as int)),
{
    let n = inp.len() as int;
    let inp2 = inp.push(d);
    let out2 = out.insert(pos, d);
    let p2 = p.insert(pos, n);
    assert forall|i: int| 0 <= i < n + 1 implies 0 <= #[trigger] p2[i] < n + 1 by {
        if i < pos {
            assert(p2[i] == p[i]);
        } else if i > pos {
            assert(p2[i] == p[i - 1]);
        }
    }
    assert forall|i: int, j: int| 0 <= i < j < n + 1 implies #[trigger] p2[i]
        != #[trigger] p2[j] by {
        if i < pos && j < pos {
            assert(p[i] != p[j]);
        } else if i < pos && j == pos {
            assert(p[i] < n);
        } else if i < pos && j > pos {
            assert(p[i] != p[j - 1]);
        } else if i == pos {
            assert(p[j - 1] < n);
        } else {
            assert(p[i - 1] != p[j - 1]);
        }
    }
    assert forall|i: int| 0 <= i < out2.len() implies #[trigger] out2[i] == inp2[p2[i]] by {
        if i < pos {
            assert(out[i] == inp[p[i]]);
        } else if i > pos {
            assert(out[i - 1] == inp[p[i - 1]]);
        }
    }
    assert forall|i: int, j: int| 0 <= i < j < out2.len() implies !precedes(
        mode,
        #[trigger] out2[j],
        #[trigger] out2[i],
    ) && (!precedes(mode, out2[i], out2[j]) ==> p2[i] < p2[j]) by {
        if j < pos {
            assert(out2[i] == out[i] && out2[j] == out[j]);
        } else if j == pos {
            assert(out2[i] == out[i]);
            assert(!precedes(mode, d, out[i]));
        } else if i == pos {
            let k = j - 1;
            assert(out2[j] == out[k]);
            if k > pos {
                assert(!precedes(mode, out[k], out[pos]));
                lemma_precedes_weak_order(mode, d, out[pos], out[k]);
            }
            lemma_precedes_weak_order(mode, d, out[k], out[k]);
        } else if i < pos {
            assert(out2[i] == out[i] && out2[j] == out[j - 1]);
        } else {
            assert(out2[i] == out[i - 1] && out2[j] == out[j - 1]);
        }
    }
}

/// The index of the drive whose object path is `path` (the last such drive).
fn find_drive(drives: &Vec<RawDrive>, path: &str) -> (r: Option<usize>)
    ensures
        match r {
            Some(k) => k < drives@.len() && drive_lookup(drives@, path@) == Some(drives@[k as int]),
            None => drive_lookup(drives@, path@) is None,
        },
{
    let mut k: usize = drives.len();
    assert(drives@.take(k as int) =~= drives@);
    while k > 0
        invariant
            k <= drives@.len(),
            drive_lookup(drives@, path@) == drive_lookup(drives@.take(k as int), path@),
        decreases k,
    {
        assert(drives@.take(k as int).last() == drives@[k - 1]);
        if str_eq(drives[k - 1].object_path.as_str(), path) {
            return Some(k - 1);
        }
        assert(drives@.take(k as int).drop_last() =~= drives@.take(k - 1));
        k -= 1;
    }
    None
}

/// The first non-empty mount point of a block, or the empty string.
pub fn first_mount_point(mps: &Vec<String>) -> (r: String)
    ensures
        r@ == first_mount_point_spec(mps@),
{
    let mut i: usize = 0;
    assert(mps@.skip(0) =~= mps@);
    while i < mps.len()
        invariant
            i <= mps@.len(),
            first_mount_point_spec(mps@) == first_mount_point_spec(mps@.skip(i as int)),
        decreases mps.len() - i,
    {
        if !mps[i].is_empty() {
            return mps[i].clone();
        }
        assert(mps@.skip(i as int).drop_first() =~= mps@.skip(i + 1));
        i += 1;
    }
    String::new()
}

/// Whether a block sits on the EFI system partition.
fn is_efi_system(b: &RawBlock, mount_point: &str) -> (r: bool)
    ensures
        r == is_efi_system_spec(*b, mount_point@),
{
    if !mount_point.is_empty() {
        let lower = to_lowercase(mount_point);
        if contains_str(lower.as_str(), "/boot/efi") {
            return true;
        }
    }
    eq_ignore_ascii_case(b.id_type.as_str(), "vfat") && eq_ignore_ascii_case(
        b.partition_type.as_str(),
        "0xef",
    )
}

/// Whether a drive is removable.
fn is_removable_drive(drive: Option<&RawDrive>) -> (r: bool)
    ensures
        r == is_removable_drive_spec(
            match drive {
                Some(d) => Some(*d),
                None => None,
            },
        ),
{
    match drive {
        Some(d) => d.removable || d.media_removable || d.ejectable || d.optical,
        None => false,
    }
}

/// The display name of a device.
fn device_name(b: &RawBlock, vendor: &str, model: &str, block: &str) -> (r: String)
    ensures
        r@ == device_name_spec(*b, vendor@, model@, block@),
{
    if !b.id_label.is_empty() {
        b.id_label.clone()
    } else if !b.hint_name.is_empty() {
        b.hint_name.clone()
    } else if !vendor.is_empty() && !model.is_empty() {
        let mut s = owned(vendor);
        s.push(' ');
        push_str(&mut s, model);
        s
    } else if !vendor.is_empty() {
        owned(vendor)
    } else if !model.is_empty() {
        owned(model)
    } else {
        owned(basename(block))
    }
}

/// The device a block stands for, before insertion number and mount time.
fn candidate(b: &RawBlock, drives: &Vec<RawDrive>, show_hidden: bool, usage: Option<Usage>) -> (r:
    Option<Device>)
    ensures
        match r {
            Some(d) => candidate_spec(*b, drives@, show_hidden, usage) == Some(d@),
            None => candidate_spec(*b, drives@, show_hidden, usage) is None,
        },
{
    if b.is_partition_table || b.is_cleartext || b.is_loop || b.device.is_empty() {
        return None;
    }
    if !b.has_filesystem && !b.has_encrypted {
        return None;
    }
    let drive_index = if b.drive.is_empty() {
        None
    } else {
        find_drive(drives, b.drive.as_str())
    };
    let drv: &RawDrive = match drive_index {
        Some(k) => &drives[k],
        None => {
            return None;
        },
    };
    if !is_removable_drive(Some(drv)) {
        return None;
    }
    let locked = b.has_encrypted && (b.cleartext.is_empty() || str_eq(b.cleartext.as_str(), "/"));
    proof {
        reveal_strlit("/");
        assert("/"@ =~= seq!['/']);
    }
    let mount_point = first_mount_point(&b.mount_points);
    let mounted = !mount_point.is_empty();
    let vendor = owned(trim(drv.vendor.as_str()));
    let model = owned(trim(drv.model.as_str()));
    let removable = drv.removable || drv.media_removable;
    let hidden = b.hint_ignore || is_efi_system(b, mount_point.as_str());
    if hidden && !show_hidden {
        return None;
    }
    let name = device_name(b, vendor.as_str(), model.as_str(), b.device.as_str());
    let filesystem = if b.has_encrypted && b.id_type.is_empty() {
        owned("crypto_LUKS")
    } else {
        b.id_type.clone()
    };
    let cleartext = if locked {
        String::new()
    } else {
        b.cleartext.clone()
    };
    let (capacity, used, free, read_only) = if mounted {
        match usage {
            Some(u) => (u.0, u.1, u.2, b.read_only || u.3),
            None => (0u64, 0u64, 0u64, b.read_only),
        }
    } else {
        (b.size, 0u64, 0u64, b.read_only)
    };
    Some(
        Device {
            object_path: b.object_path.clone(),
            drive_path: b.drive.clone(),
            block: b.device.clone(),
            name: name,
            vendor: vendor,
            model: model,
            filesystem: filesystem,
            mount_point: mount_point,
            cleartext: cleartext,
            capacity: capacity,
            used: used,
            free: free,
            mounted: mounted,
            read_only: read_only,
            encrypted: b.has_encrypted,
            locked: locked,
            removable: removable,
            ejectable: drv.ejectable,
            can_power_off: !b.drive.is_empty() && (removable || drv.ejectable),
            is_optical: drv.optical,
            hidden: hidden,
            insertion_seq: 0,
            mount_time: 0,
        },
    )
}

/// Whether `a` is listed strictly before `b`, given their lowercase names.
fn precedes_exec(mode: SortMode, a: &Device, ka: &Vec<char>, b: &Device, kb: &Vec<char>) -> (r:
    bool)
    requires
        ka@ == lowercase(a.name@),
        kb@ == lowercase(b.name@),
    ensures
        r == precedes(mode, a@, b@),
{
    match mode {
        SortMode::Name => lex_less_exec(ka, kb),
        SortMode::Size => if a.capacity != b.capacity {
            a.capacity > b.capacity
        } else {
            a.insertion_seq < b.insertion_seq
        },
        SortMode::Insertion => a.insertion_seq < b.insertion_seq,
        SortMode::MountTime => if a.mounted != b.mounted {
            a.mounted
        } else if a.mounted && b.mounted && a.mount_time != b.mount_time {
            a.mount_time > b.mount_time
        } else {
            a.insertion_seq < b.insertion_seq
        },
    }
}

/// The views of a list of devices.
pub open spec fn views(devs: Seq<Device>) -> Seq<DeviceView> {
    devs.map_values(|d: Device| d@)
}

/// Gives a device its insertion number and mount time from the history, and
/// records them there.
fn track_device(
    d: &mut Device,
    mount_time: &mut StringMap<i64>,
    insertion_seq: &mut StringMap<u64>,
    next_insertion: &mut u64,
    now: i64,
)
    requires
        old(mount_time).wf(),
        old(insertion_seq).wf(),
        *old(next_insertion) < u64::MAX,
    ensures
        final(mount_time).wf(),
        final(insertion_seq).wf(),
        *final(next_insertion) <= *old(next_insertion) + 1,
        ({
            let (dv, h) = track_one(
                old(d)@,
                History {
                    mount_time: old(mount_time)@,
                    insertion_seq: old(insertion_seq)@,
                    next: *old(next_insertion) as int,
                },
                now,
            );
            &&& final(d)@ == dv
            &&& final(mount_time)@ == h.mount_time
            &&& final(insertion_seq)@ == h.insertion_seq
            &&& *final(next_insertion) as int == h.next
        }),
{
    let seq_no = match insertion_seq.get(d.object_path.as_str()) {
        Some(s) => s,
        None => {
            let n = *next_insertion;
            insertion_seq.insert(d.object_path.as_str(), n);
            *next_insertion = n + 1;
            n
        },
    };
    d.insertion_seq = seq_no;
    if d.mounted {
        let recorded = match mount_time.get(d.object_path.as_str()) {
            Some(t) => t,
            None => 0,
        };
        let t = if recorded <= 0 {
            now
        } else {
            recorded
        };
        mount_time.insert(d.object_path.as_str(), t);
        d.mount_time = t;
    } else {
        mount_time.insert(d.object_path.as_str(), 0);
        d.mount_time = 0;
    }
}

/// Inserts `d` before the first listed device it precedes.
fn insert_sorted(
    mode: SortMode,
    out: &mut Vec<Device>,
    keys: &mut Vec<Vec<char>>,
    d: Device,
    Ghost(shown): Ghost<Seq<DeviceView>>,
    Ghost(perm): Ghost<Seq<int>>,
) -> (new_perm: Ghost<Seq<int>>)
    requires
        old(keys)@.len() == old(out)@.len(),
        forall|k: int|
            0 <= k < old(keys)@.len() ==> #[trigger] old(keys)@[k]@ == lowercase(
                old(out)@[k].name@,
            ),
        arranged_stably(mode, shown, views(old(out)@), perm),
    ensures
        final(keys)@.len() == final(out)@.len(),
        forall|k: int|
            0 <= k < final(keys)@.len() ==> #[trigger] final(keys)@[k]@ == lowercase(
                final(out)@[k].name@,
            ),
        arranged_stably(mode, shown.push(d@), views(final(out)@), new_perm@),
{
    let lower = to_lowercase(d.name.as_str());
    let key = chars_of(lower.as_str());
    let mut pos: usize = 0;
    while pos < out.len() && !precedes_exec(mode, &d, &key, &out[pos], &keys[pos])
        invariant
            pos <= out@.len(),
            keys@.len() == out@.len(),
            key@ == lowercase(d.name@),
            forall|k: int| 0 <= k < keys@.len() ==> #[trigger] keys@[k]@ == lowercase(out@[k].name@),
            forall|k: int| 0 <= k < pos ==> !precedes(mode, d@, #[trigger] views(out@)[k]),
        decreases out.len() - pos,
    {
        assert(views(out@)[pos as int] == out@[pos as int]@);
        pos += 1;
    }
    proof {
        if pos < out@.len() {
            assert(views(out@)[pos as int] == out@[pos as int]@);
        }
        lemma_stable_insert(mode, shown, views(out@), perm, d@, pos as int);
    }
    let ghost old_out = out@;
    let ghost old_keys = keys@;
    let ghost dv = d@;
    out.insert(pos, d);
    keys.insert(pos, key);
    assert(views(out@) =~= views(old_out).insert(pos as int, dv));
    assert forall|k: int| 0 <= k < keys@.len() implies #[trigger] keys@[k]@ == lowercase(
        out@[k].name@,
    ) by {
        if k < pos {
            assert(keys@[k] == old_keys[k] && out@[k] == old_out[k]);
        } else if k > pos {
            assert(keys@[k] == old_keys[k - 1] && out@[k] == old_out[k - 1]);
        }
    }
    Ghost(perm.insert(pos as int, shown.len() as int))
}

/// Builds the list of removable devices from what UDisks2 reports.
///
/// `usage[i]` is the filesystem usage of the mount point of `raw.blocks[i]`
/// and `now` the current time in seconds since the epoch. The history
/// (`mount_time`, `insertion_seq`, `next_insertion`) carries over from one
/// refresh to the next. The result lists the shown devices stably sorted as
/// `cfg.sort` selects.
pub fn build_devices(
    raw: &Enumerated,
    cfg: &Config,
    mount_time: &mut StringMap<i64>,
    insertion_seq: &mut StringMap<u64>,
    next_insertion: &mut u64,
    usage: &Vec<Option<Usage>>,
    now: i64,
) -> (out: Vec<Device>)
    requires
        usage@.len() == raw.blocks@.len(),
        old(mount_time).wf(),
        old(insertion_seq).wf(),
        *old(next_insertion) + raw.blocks@.len() <= u64::MAX,
    ensures
        final(mount_time).wf(),
        final(insertion_seq).wf(),
        ({
            let (devs, h) = track(
                candidates_spec(raw.blocks@, raw.drives@, cfg.show_hidden, usage@),
                History {
                    mount_time: old(mount_time)@,
                    insertion_seq: old(insertion_seq)@,
                    next: *old(next_insertion) as int,
                },
                now,
            );
            &&& final(mount_time)@ == h.mount_time
            &&& final(insertion_seq)@ == h.insertion_seq
            &&& *final(next_insertion) as int == h.next
            &&& stably_sorted(sort_mode_spec(cfg.sort@), devs, views(out@))
        }),
{
    let mode = sort_mode(cfg.sort.as_str());
    let ghost h0 = History {
        mount_time: mount_time@,
        insertion_seq: insertion_seq@,
        next: *next_insertion as int,
    };
    let ghost start_next = *next_insertion as int;
    let mut out: Vec<Device> = Vec::new();
    let mut keys: Vec<Vec<char>> = Vec::new();
    let ghost mut shown: Seq<DeviceView> = Seq::empty();
    let ghost mut perm: Seq<int> = Seq::empty();
    let mut i: usize = 0;
    assert(raw.blocks@.take(0) =~= Seq::<RawBlock>::empty());
    while i < raw.blocks.len()
        invariant
            i <= raw.blocks@.len(),
            usage@.len() == raw.blocks@.len(),
            mode == sort_mode_spec(cfg.sort@),
            mount_time.wf(),
            insertion_seq.wf(),
            start_next + raw.blocks@.len() <= u64::MAX,
            *next_insertion <= start_next + i,
            ({
                let (devs, h) = track(
                    candidates_spec(
                        raw.blocks@.take(i as int),
                        raw.drives@,
                        cfg.show_hidden,
                        usage@,
                    ),
                    h0,
                    now,
                );
                &&& devs == shown
                &&& mount_time@ == h.mount_time
                &&& insertion_seq@ == h.insertion_seq
                &&& *next_insertion as int == h.next
            }),
            keys@.len() == out@.len(),
            forall|k: int| 0 <= k < keys@.len() ==> #[trigger] keys@[k]@ == lowercase(out@[k].name@),
            arranged_stably(mode, shown, views(out@), perm),
        decreases raw.blocks.len() - i,
    {
        let ghost prev_cands = candidates_spec(
            raw.blocks@.take(i as int),
            raw.drives@,
            cfg.show_hidden,
            usage@,
        );
        assert(raw.blocks@.take(i + 1).drop_last() =~= raw.blocks@.take(i as int));
        let b = &raw.blocks[i];
        match candidate(b, &raw.drives, cfg.show_hidden, usage[i]) {
            None => {},
            Some(mut d) => {
                let ghost cand = d@;
                let ghost (prev_devs, h1) = track(prev_cands, h0, now);
                assert(prev_cands.push(cand).drop_last() =~= prev_cands);
                track_device(&mut d, mount_time, insertion_seq, next_insertion, now);
                let new_perm = insert_sorted(mode, &mut out, &mut keys, d, Ghost(shown), Ghost(perm));
                proof {
                    perm = new_perm@;
                    shown = shown.push(track_one(cand, h1, now).0);
                }
            },
        }
        i += 1;
    }
    assert(raw.blocks@.take(raw.blocks@.len() as int) =~= raw.blocks@);
    out
}

} // verus!
