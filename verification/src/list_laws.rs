//! Properties of the device list that `build_devices` returns, stated over
//! the block enumeration it reads and the history it keeps.
use vstd::prelude::*;

use crate::device::{
    arranged_stably, candidate_spec, candidates_spec, drive_lookup, first_mount_point_spec,
    is_efi_system_spec, is_permutation, is_removable_drive_spec, precedes, stably_sorted, track,
    track_one, DeviceView, History, SortMode, Usage,
};
use crate::laws::{lemma_candidate_origin, lemma_permutation_onto, lemma_track_len};
use crate::text::{basename_spec, lemma_lex_irreflexive, lex_less, lowercase, trim_spec};
use crate::udisks::{RawBlock, RawDrive};

verus! {

/// `out` is the device list for these blocks and drives: the candidates,
/// tracked against the history `h` at time `now`, stably sorted by `mode`.
/// This is what `build_devices` ensures of its result.
pub open spec fn is_device_list(
    blocks: Seq<RawBlock>,
    drives: Seq<RawDrive>,
    show_hidden: bool,
    usage: Seq<Option<Usage>>,
    h: History,
    now: i64,
    mode: SortMode,
    out: Seq<DeviceView>,
) -> bool {
    stably_sorted(mode, track(candidates_spec(blocks, drives, show_hidden, usage), h, now).0, out)
}

/// A block that gets a device: a volume (filesystem or encrypted container)
/// with a device node, not a partition table, cleartext device or loop
/// device, on a removable drive, and not hidden unless hidden devices are
/// shown.
pub open spec fn listed_block(b: RawBlock, drives: Seq<RawDrive>, show_hidden: bool) -> bool {
    &&& !(b.is_partition_table || b.is_cleartext || b.is_loop)
    &&& b.device@.len() > 0
    &&& (b.has_filesystem || b.has_encrypted)
    &&& b.drive@.len() > 0
    &&& is_removable_drive_spec(drive_lookup(drives, b.drive@))
    &&& (show_hidden || !(b.hint_ignore || is_efi_system_spec(
        b,
        first_mount_point_spec(b.mount_points@),
    )))
}

/// Device `d` shows block `b` on drive `drv`, whose mount point has usage
/// `usage`: every field but the insertion number and the mount time.
pub open spec fn shows_block(d: DeviceView, b: RawBlock, drv: RawDrive, usage: Option<Usage>) -> bool {
    let mp = first_mount_point_spec(b.mount_points@);
    let mounted = mp.len() > 0;
    let locked = b.has_encrypted && (b.cleartext@.len() == 0 || b.cleartext@ == seq!['/']);
    &&& d.object_path == b.object_path@
    &&& d.drive_path == b.drive@
    &&& d.block == b.device@
    &&& d.encrypted == b.has_encrypted
    &&& d.locked == locked
    &&& d.cleartext == (if locked {
        Seq::empty()
    } else {
        b.cleartext@
    })
    &&& d.filesystem == (if b.has_encrypted && b.id_type@.len() == 0 {
        "crypto_LUKS"@
    } else {
        b.id_type@
    })
    &&& d.mount_point == mp
    &&& d.mounted == mounted
    &&& (!mounted ==> d.capacity == b.size && d.used == 0 && d.free == 0 && d.read_only
        == b.read_only)
    &&& (mounted ==> match usage {
        Some(u) => d.capacity == u.0 && d.used == u.1 && d.free == u.2 && d.read_only == (
        b.read_only || u.3),
        None => d.capacity == 0 && d.used == 0 && d.free == 0 && d.read_only == b.read_only,
    })
    &&& d.vendor == trim_spec(drv.vendor@)
    &&& d.model == trim_spec(drv.model@)
    &&& d.removable == (drv.removable || drv.media_removable)
    &&& d.ejectable == drv.ejectable
    &&& d.is_optical == drv.optical
    &&& d.can_power_off == (d.removable || d.ejectable)
    &&& d.hidden == (b.hint_ignore || is_efi_system_spec(b, mp))
    &&& d.name == (if b.id_label@.len() > 0 {
        b.id_label@
    } else if b.hint_name@.len() > 0 {
        b.hint_name@
    } else if d.vendor.len() > 0 && d.model.len() > 0 {
        d.vendor + seq![' '] + d.model
    } else if d.vendor.len() > 0 {
        d.vendor
    } else if d.model.len() > 0 {
        d.model
    } else {
        basename_spec(d.block)
    })
}

/// Device `d` shows one of the listed blocks.
pub open spec fn shows_a_listed_block(
    d: DeviceView,
    blocks: Seq<RawBlock>,
    drives: Seq<RawDrive>,
    show_hidden: bool,
    usage: Seq<Option<Usage>>,
) -> bool {
    exists|i: int|
        0 <= i < blocks.len() && listed_block(blocks[i], drives, show_hidden) && (drive_lookup(
            drives,
            blocks[i].drive@,
        ) is Some) && #[trigger] shows_block(
            d,
            blocks[i],
            drive_lookup(drives, blocks[i].drive@).unwrap(),
            usage[i],
        )
}

/// A block gets a candidate exactly when it is listed, and the candidate
/// shows it.
proof fn lemma_candidate_shows(b: RawBlock, drives: Seq<RawDrive>, show_hidden: bool, usage: Option<Usage>)
    ensures
        (candidate_spec(b, drives, show_hidden, usage) is Some) <==> listed_block(b, drives, show_hidden),
        (candidate_spec(b, drives, show_hidden, usage) matches Some(c) ==> (drive_lookup(
            drives,
            b.drive@,
        ) is Some) && shows_block(c, b, drive_lookup(drives, b.drive@).unwrap(), usage)),
{
}

/// Tracking changes only the insertion numbers and mount times.
proof fn lemma_track_fields(devs: Seq<DeviceView>, h: History, now: i64)
    ensures
        track(devs, h, now).0.len() == devs.len(),
        (forall|k: int|
            0 <= k < devs.len() ==> #[trigger] track(devs, h, now).0[k] == (DeviceView {
                insertion_seq: track(devs, h, now).0[k].insertion_seq,
                mount_time: track(devs, h, now).0[k].mount_time,
                ..devs[k]
            })),
    decreases devs.len(),
{
    if devs.len() > 0 {
        lemma_track_fields(devs.drop_last(), h, now);
        let (prev, h1) = track(devs.drop_last(), h, now);
        assert forall|k: int| 0 <= k < devs.len() implies #[trigger] track(devs, h, now).0[k]
            == DeviceView {
            insertion_seq: track(devs, h, now).0[k].insertion_seq,
            mount_time: track(devs, h, now).0[k].mount_time,
            ..devs[k]
        } by {
            if k < devs.len() - 1 {
                assert(track(devs, h, now).0[k] == prev[k]);
                assert(devs.drop_last()[k] == devs[k]);
            }
        }
    }
}

/// A listed block has a candidate among the candidates.
proof fn lemma_candidate_present(
    blocks: Seq<RawBlock>,
    drives: Seq<RawDrive>,
    show_hidden: bool,
    usage: Seq<Option<Usage>>,
    i: int,
) -> (c: int)
    requires
        0 <= i < blocks.len(),
        candidate_spec(blocks[i], drives, show_hidden, usage[i]) is Some,
    ensures
        0 <= c < candidates_spec(blocks, drives, show_hidden, usage).len(),
        candidates_spec(blocks, drives, show_hidden, usage)[c] == candidate_spec(
            blocks[i],
            drives,
            show_hidden,
            usage[i],
        ).unwrap(),
    decreases blocks.len(),
{
    let prev = candidates_spec(blocks.drop_last(), drives, show_hidden, usage);
    if i < blocks.len() - 1 {
        assert(blocks.drop_last()[i] == blocks[i]);
        lemma_candidate_present(blocks.drop_last(), drives, show_hidden, usage, i)
    } else {
        prev.len() as int
    }
}

/// The device list shows exactly the listed blocks: it has one device per
/// listed block, every device shows a listed block (its fields taken from
/// the block, its drive and the usage of its mount point as
/// [`shows_block`] says), and every listed block is shown by a device.
pub proof fn law_device_list_shows_listed_blocks(
    blocks: Seq<RawBlock>,
    drives: Seq<RawDrive>,
    show_hidden: bool,
    usage: Seq<Option<Usage>>,
    h: History,
    now: i64,
    mode: SortMode,
    out: Seq<DeviceView>,
)
    requires
        usage.len() == blocks.len(),
        is_device_list(blocks, drives, show_hidden, usage, h, now, mode, out),
    ensures
        out.len() == candidates_spec(blocks, drives, show_hidden, usage).len(),
        forall|k: int|
            0 <= k < out.len() ==> #[trigger] shows_a_listed_block(
                out[k],
                blocks,
                drives,
                show_hidden,
                usage,
            ),
        (forall|i: int|
            0 <= i < blocks.len() && #[trigger] listed_block(blocks[i], drives, show_hidden)
                ==> (drive_lookup(drives, blocks[i].drive@) is Some) && (exists|k: int|
                0 <= k < out.len() && shows_block(
                    out[k],
                    blocks[i],
                    drive_lookup(drives, blocks[i].drive@).unwrap(),
                    usage[i],
                ))),
{
    let cands = candidates_spec(blocks, drives, show_hidden, usage);
    let t = track(cands, h, now).0;
    lemma_track_fields(cands, h, now);
    let p = choose|p: Seq<int>| arranged_stably(mode, t, out, p);
    assert forall|i: int|
        0 <= i < blocks.len() && #[trigger] listed_block(blocks[i], drives, show_hidden) implies drive_lookup(
        drives,
        blocks[i].drive@,
    ) is Some && exists|k: int|
        0 <= k < out.len() && shows_block(
            out[k],
            blocks[i],
            drive_lookup(drives, blocks[i].drive@).unwrap(),
            usage[i],
        ) by {
        lemma_candidate_shows(blocks[i], drives, show_hidden, usage[i]);
        let c = lemma_candidate_present(blocks, drives, show_hidden, usage, i);
        lemma_permutation_onto(p, t.len() as int, c);
        let k = choose|k: int| 0 <= k < t.len() && p[k] == c;
        assert(out[k] == t[c]);
        assert(t[c] == DeviceView {
            insertion_seq: t[c].insertion_seq,
            mount_time: t[c].mount_time,
            ..cands[c]
        });
        assert(shows_block(out[k], blocks[i], drive_lookup(drives, blocks[i].drive@).unwrap(), usage[i]));
    }
    assert forall|k: int| 0 <= k < out.len() implies #[trigger] shows_a_listed_block(
        out[k],
        blocks,
        drives,
        show_hidden,
        usage,
    ) by {
        let c = p[k];
        assert(out[k] == t[c]);
        let i = lemma_candidate_origin(blocks, drives, show_hidden, usage, c);
        lemma_candidate_shows(blocks[i], drives, show_hidden, usage[i]);
        assert(t[c] == DeviceView {
            insertion_seq: t[c].insertion_seq,
            mount_time: t[c].mount_time,
            ..cands[c]
        });
        assert(shows_block(out[k], blocks[i], drive_lookup(drives, blocks[i].drive@).unwrap(), usage[i]));
        assert(listed_block(blocks[i], drives, show_hidden));
        assert(0 <= i < blocks.len());
    }
}

/// The mount-time order: mounted devices first, the most recently mounted
/// first, then by insertion number.
pub open spec fn mount_order_le(a: DeviceView, b: DeviceView) -> bool {
    if a.mounted != b.mounted {
        a.mounted
    } else if a.mounted && a.mount_time != b.mount_time {
        a.mount_time > b.mount_time
    } else {
        a.insertion_seq <= b.insertion_seq
    }
}

/// The device list is ordered by its sort mode: by size (largest first,
/// then insertion number), by insertion number, by lowercased name (devices
/// whose lowercased names are equal keep the order of their blocks), or by
/// mount time; any two devices stand in that order.
pub proof fn law_device_list_sorted(mode: SortMode, inp: Seq<DeviceView>, out: Seq<DeviceView>)
    requires
        stably_sorted(mode, inp, out),
    ensures
        (forall|i: int, j: int|
            #![trigger out[i], out[j]]
            0 <= i < j < out.len() ==> ({
                &&& (mode == SortMode::MountTime ==> mount_order_le(out[i], out[j]))
                &&& (mode == SortMode::Size ==> out[i].capacity > out[j].capacity || (
                out[i].capacity == out[j].capacity && out[i].insertion_seq
                    <= out[j].insertion_seq))
                &&& (mode == SortMode::Insertion ==> out[i].insertion_seq <= out[j].insertion_seq)
                &&& (mode == SortMode::Name ==> !lex_less(
                    lowercase(out[j].name),
                    lowercase(out[i].name),
                ))
            })),
        (exists|p: Seq<int>|
            ({
                &&& is_permutation(p, inp.len() as int)
                &&& forall|k: int| 0 <= k < out.len() ==> #[trigger] out[k] == inp[p[k]]
                &&& forall|i: int, j: int|
                    #![trigger p[i], p[j]]
                    0 <= i < j < out.len() && mode == SortMode::Name && lowercase(out[i].name)
                        == lowercase(out[j].name) ==> p[i] < p[j]
            })),
{
    let p = choose|p: Seq<int>| arranged_stably(mode, inp, out, p);
    assert forall|i: int, j: int|
        0 <= i < j < out.len() && mode == SortMode::Name && lowercase(out[i].name) == lowercase(
            out[j].name,
        ) implies #[trigger] p[i] < #[trigger] p[j] by {
        lemma_lex_irreflexive(lowercase(out[i].name));
        assert(!precedes(mode, out[i], out[j]));
    }
}

/// No two devices share an object path.
pub open spec fn distinct_paths(devs: Seq<DeviceView>) -> bool {
    forall|i: int, j: int|
        0 <= i < j < devs.len() ==> #[trigger] devs[i].object_path != #[trigger] devs[j].object_path
}

/// No two blocks share an object path.
pub open spec fn distinct_block_paths(blocks: Seq<RawBlock>) -> bool {
    forall|i: int, j: int|
        0 <= i < j < blocks.len() ==> #[trigger] blocks[i].object_path@
            != #[trigger] blocks[j].object_path@
}

/// How many of the devices have an object path outside `known`.
pub open spec fn new_count(devs: Seq<DeviceView>, known: Set<Seq<char>>) -> int
    decreases devs.len(),
{
    if devs.len() == 0 {
        0
    } else {
        new_count(devs.drop_last(), known) + if known.contains(devs.last().object_path) {
            0int
        } else {
            1int
        }
    }
}

/// The mount time a device is given against the recorded mount times: none
/// when unmounted, the recorded one when positive, else `now`.
pub open spec fn expected_mount_time(d: DeviceView, mt: Map<Seq<char>, i64>, now: i64) -> i64 {
    if !d.mounted {
        0
    } else if mt.dom().contains(d.object_path) && mt[d.object_path] > 0 {
        mt[d.object_path]
    } else {
        now
    }
}

/// What tracking devices with distinct object paths does to their
/// insertion numbers and mount times and to the history.
#[verifier::spinoff_prover]
#[verifier::rlimit(40)]
proof fn lemma_track_history(devs: Seq<DeviceView>, h: History, now: i64)
    requires
        distinct_paths(devs),
        0 <= h.next,
        h.next + devs.len() <= u64::MAX,
    ensures
        ({
            let (t, h2) = track(devs, h, now);
            let known = h.insertion_seq.dom();
            &&& t.len() == devs.len()
            &&& 0 <= new_count(devs, known) <= devs.len()
            &&& h2.next == h.next + new_count(devs, known)
            &&& forall|k: int|
                0 <= k < devs.len() ==> {
                    let d = #[trigger] t[k];
                    let p = devs[k].object_path;
                    &&& d.object_path == p
                    &&& (known.contains(p) ==> d.insertion_seq == h.insertion_seq[p])
                    &&& (!known.contains(p) ==> h.next <= d.insertion_seq < h2.next)
                    &&& h2.insertion_seq.dom().contains(p)
                    &&& h2.insertion_seq[p] == d.insertion_seq
                    &&& d.mount_time == expected_mount_time(devs[k], h.mount_time, now)
                    &&& h2.mount_time.dom().contains(p)
                    &&& h2.mount_time[p] == d.mount_time
                }
            &&& forall|i: int, j: int|
                0 <= i < j < devs.len() && !known.contains(devs[i].object_path) && !known.contains(
                    devs[j].object_path,
                ) ==> #[trigger] t[i].insertion_seq < #[trigger] t[j].insertion_seq
            &&& forall|p: Seq<char>|
                known.contains(p) ==> #[trigger] h2.insertion_seq.dom().contains(p)
                    && h2.insertion_seq[p] == h.insertion_seq[p]
            &&& forall|p: Seq<char>|
                #![trigger h2.insertion_seq.dom().contains(p)]
                #![trigger h2.mount_time.dom().contains(p)]
                (forall|k: int| 0 <= k < devs.len() ==> devs[k].object_path != p) ==> {
                    &&& (h2.insertion_seq.dom().contains(p) <==> known.contains(p))
                    &&& (h2.mount_time.dom().contains(p) <==> h.mount_time.dom().contains(p))
                    &&& (h.mount_time.dom().contains(p) ==> h2.mount_time[p] == h.mount_time[p])
                }
        }),
    decreases devs.len(),
{
    lemma_track_fields(devs, h, now);
    if devs.len() > 0 {
        let n = devs.len() - 1;
        let init = devs.drop_last();
        assert(distinct_paths(init)) by {
            assert forall|i: int, j: int| 0 <= i < j < init.len() implies #[trigger] init[i].object_path
                != #[trigger] init[j].object_path by {
                assert(init[i] == devs[i] && init[j] == devs[j]);
            }
        }
        lemma_track_history(init, h, now);
        lemma_track_fields(init, h, now);
        let (prev, h1) = track(init, h, now);
        let (t, h2) = track(devs, h, now);
        let known = h.insertion_seq.dom();
        let d = devs.last();
        let p = d.object_path;
        assert forall|k: int| 0 <= k < init.len() implies init[k].object_path != p by {
            assert(init[k] == devs[k]);
            assert(devs[k].object_path != devs[n].object_path);
        }
        assert(h1.insertion_seq.dom().contains(p) <==> known.contains(p));
        assert(h1.mount_time.dom().contains(p) <==> h.mount_time.dom().contains(p));
        assert(known.contains(p) ==> h1.insertion_seq[p] == h.insertion_seq[p]);
        assert(h.mount_time.dom().contains(p) ==> h1.mount_time[p] == h.mount_time[p]);
        assert(t[n] == track_one(d, h1, now).0);
        assert(h2 == track_one(d, h1, now).1);
        assert(new_count(devs, known) == new_count(init, known) + if known.contains(p) {
            0int
        } else {
            1int
        });
        assert forall|k: int| 0 <= k < n implies t[k] == prev[k] by {}
        assert forall|k: int|
            0 <= k < devs.len() implies {
                let d = #[trigger] t[k];
                let q = devs[k].object_path;
                &&& d.object_path == q
                &&& (known.contains(q) ==> d.insertion_seq == h.insertion_seq[q])
                &&& (!known.contains(q) ==> h.next <= d.insertion_seq < h2.next)
                &&& h2.insertion_seq.dom().contains(q)
                &&& h2.insertion_seq[q] == d.insertion_seq
                &&& d.mount_time == expected_mount_time(devs[k], h.mount_time, now)
                &&& h2.mount_time.dom().contains(q)
                &&& h2.mount_time[q] == d.mount_time
            } by {
            if k < n {
                assert(prev[k] == t[k]);
                assert(init[k] == devs[k]);
                assert(devs[k].object_path != p);
            }
        }
        assert forall|i: int, j: int|
            0 <= i < j < devs.len() && !known.contains(devs[i].object_path) && !known.contains(
                devs[j].object_path,
            ) implies #[trigger] t[i].insertion_seq < #[trigger] t[j].insertion_seq by {
            assert(init[i] == devs[i]);
            if j < n {
                assert(init[j] == devs[j]);
                assert(prev[i] == t[i] && prev[j] == t[j]);
            } else {
                assert(prev[i] == t[i]);
            }
        }
        assert forall|q: Seq<char>|
            #![trigger h2.insertion_seq.dom().contains(q)]
            #![trigger h2.mount_time.dom().contains(q)]
            (forall|k: int| 0 <= k < devs.len() ==> devs[k].object_path != q) implies {
                &&& (h2.insertion_seq.dom().contains(q) <==> known.contains(q))
                &&& (h2.mount_time.dom().contains(q) <==> h.mount_time.dom().contains(q))
                &&& (h.mount_time.dom().contains(q) ==> h2.mount_time[q] == h.mount_time[q])
            } by {
            assert(devs[n].object_path != q);
            assert forall|k: int| 0 <= k < init.len() implies init[k].object_path != q by {
                assert(init[k] == devs[k]);
            }
            assert(h1.insertion_seq.dom().contains(q) <==> known.contains(q));
            assert(h1.mount_time.dom().contains(q) <==> h.mount_time.dom().contains(q));
        }
    } else {
        assert(track(devs, h, now) == (devs, h));
        assert(new_count(devs, h.insertion_seq.dom()) == 0);
    }
}

/// Distinct block paths give distinct candidate paths.
proof fn lemma_candidates_distinct(
    blocks: Seq<RawBlock>,
    drives: Seq<RawDrive>,
    show_hidden: bool,
    usage: Seq<Option<Usage>>,
)
    requires
        distinct_block_paths(blocks),
    ensures
        distinct_paths(candidates_spec(blocks, drives, show_hidden, usage)),
    decreases blocks.len(),
{
    if blocks.len() > 0 {
        let n = blocks.len() - 1;
        let init = blocks.drop_last();
        assert(distinct_block_paths(init)) by {
            assert forall|i: int, j: int| 0 <= i < j < init.len() implies #[trigger] init[i].object_path@
                != #[trigger] init[j].object_path@ by {
                assert(init[i] == blocks[i] && init[j] == blocks[j]);
            }
        }
        lemma_candidates_distinct(init, drives, show_hidden, usage);
        let prev = candidates_spec(init, drives, show_hidden, usage);
        let cs = candidates_spec(blocks, drives, show_hidden, usage);
        lemma_candidate_shows(blocks[n], drives, show_hidden, usage[n]);
        assert forall|i: int, j: int| 0 <= i < j < cs.len() implies #[trigger] cs[i].object_path
            != #[trigger] cs[j].object_path by {
            if j < prev.len() {
                assert(cs[i] == prev[i] && cs[j] == prev[j]);
            } else {
                assert(cs[i] == prev[i]);
                let o = lemma_candidate_origin(init, drives, show_hidden, usage, i);
                lemma_candidate_shows(init[o], drives, show_hidden, usage[o]);
                assert(init[o] == blocks[o]);
                assert(blocks[o].object_path@ != blocks[n].object_path@);
            }
        }
    }
}

/// Insertion numbers and mount times of the device list, for blocks with
/// distinct object paths: a device already known keeps its insertion
/// number, a new one gets a fresh number from the next one on, fresh
/// numbers increase in block order, the next number grows by the number of
/// new devices, and the history never forgets or changes an insertion
/// number; a mounted device keeps its recorded positive mount time, else
/// gets `now`, an unmounted one gets 0; the history records each device's
/// numbers and keeps the mount times of paths no device has.
pub proof fn law_device_list_history(
    blocks: Seq<RawBlock>,
    drives: Seq<RawDrive>,
    show_hidden: bool,
    usage: Seq<Option<Usage>>,
    h: History,
    now: i64,
    mode: SortMode,
    out: Seq<DeviceView>,
)
    requires
        usage.len() == blocks.len(),
        distinct_block_paths(blocks),
        0 <= h.next,
        h.next + blocks.len() <= u64::MAX,
        is_device_list(blocks, drives, show_hidden, usage, h, now, mode, out),
    ensures
        ({
            let cands = candidates_spec(blocks, drives, show_hidden, usage);
            let (t, h2) = track(cands, h, now);
            let known = h.insertion_seq.dom();
            &&& h2.next == h.next + new_count(cands, known)
            &&& forall|k: int|
                0 <= k < out.len() ==> {
                    let d = #[trigger] out[k];
                    &&& (known.contains(d.object_path) ==> d.insertion_seq
                        == h.insertion_seq[d.object_path])
                    &&& (!known.contains(d.object_path) ==> h.next <= d.insertion_seq < h2.next)
                    &&& h2.insertion_seq[d.object_path] == d.insertion_seq
                    &&& d.mount_time == expected_mount_time(d, h.mount_time, now)
                    &&& h2.mount_time[d.object_path] == d.mount_time
                }
            &&& forall|i: int, j: int|
                0 <= i < j < t.len() && !known.contains(t[i].object_path) && !known.contains(
                    t[j].object_path,
                ) ==> #[trigger] t[i].insertion_seq < #[trigger] t[j].insertion_seq
            &&& forall|p: Seq<char>|
                known.contains(p) ==> #[trigger] h2.insertion_seq.dom().contains(p)
                    && h2.insertion_seq[p] == h.insertion_seq[p]
        }),
{
    let cands = candidates_spec(blocks, drives, show_hidden, usage);
    lemma_candidates_distinct(blocks, drives, show_hidden, usage);
    lemma_candidate_len(blocks, drives, show_hidden, usage);
    lemma_track_history(cands, h, now);
    lemma_track_fields(cands, h, now);
    let (t, h2) = track(cands, h, now);
    let p = choose|p: Seq<int>| arranged_stably(mode, t, out, p);
    assert forall|k: int| 0 <= k < out.len() implies {
        let d = #[trigger] out[k];
        &&& (h.insertion_seq.dom().contains(d.object_path) ==> d.insertion_seq
            == h.insertion_seq[d.object_path])
        &&& (!h.insertion_seq.dom().contains(d.object_path) ==> h.next <= d.insertion_seq
            < h2.next)
        &&& h2.insertion_seq[d.object_path] == d.insertion_seq
        &&& d.mount_time == expected_mount_time(d, h.mount_time, now)
        &&& h2.mount_time[d.object_path] == d.mount_time
    } by {
        let c = p[k];
        assert(out[k] == t[c]);
        assert(t[c] == DeviceView {
            insertion_seq: t[c].insertion_seq,
            mount_time: t[c].mount_time,
            ..cands[c]
        });
    }
    assert forall|i: int, j: int|
        0 <= i < j < t.len() && !h.insertion_seq.dom().contains(t[i].object_path)
            && !h.insertion_seq.dom().contains(t[j].object_path) implies #[trigger] t[i].insertion_seq
        < #[trigger] t[j].insertion_seq by {
        assert(t[i].object_path == cands[i].object_path);
        assert(t[j].object_path == cands[j].object_path);
    }
}

/// There are no more candidates than blocks.
proof fn lemma_candidate_len(
    blocks: Seq<RawBlock>,
    drives: Seq<RawDrive>,
    show_hidden: bool,
    usage: Seq<Option<Usage>>,
)
    ensures
        candidates_spec(blocks, drives, show_hidden, usage).len() <= blocks.len(),
    decreases blocks.len(),
{
    if blocks.len() > 0 {
        lemma_candidate_len(blocks.drop_last(), drives, show_hidden, usage);
    }
}

} // verus!
