//! The launcher-menu mode (rofi, dmenu and the like): the rows offered, the
//! command that shows them, and which row was chosen.
use vstd::prelude::*;

use crate::actions::ActionKind;
use crate::config::{string_views, Config};
use crate::device::{Device, DeviceView};
use crate::gui::{action_label, action_label_spec, state_word};
use crate::text::{push_str, str_eq, trim, trim_spec};

verus! {

/// One row of the launcher menu: an action on the device at `device_index`.
pub struct MenuEntry {
    pub kind: ActionKind,
    pub device_index: usize,
    pub label: String,
}

/// The launcher menu.
pub struct Menu<'a> {
    config: &'a Config,
}

/// The view of a menu entry.
pub open spec fn entry_view(e: MenuEntry) -> (ActionKind, int, Seq<char>) {
    (e.kind, e.device_index as int, e.label@)
}

/// The views of menu entries.
pub open spec fn entries_view(v: Seq<MenuEntry>) -> Seq<(ActionKind, int, Seq<char>)> {
    v.map_values(|e: MenuEntry| entry_view(e))
}

/// The actions the launcher menu offers for a device, in order: open when
/// not locked, mount when neither mounted nor locked, unmount when mounted, unlock when
/// locked, lock when unlocked and mounted, eject and power off when
/// possible, copy path when mounted.
pub open spec fn menu_kinds(d: DeviceView) -> Seq<ActionKind> {
    let locked = d.encrypted && d.locked;
    let can_mount = !(d.mounted || locked);
    let s0 = if !locked {
        seq![ActionKind::Open]
    } else {
        Seq::empty()
    };
    let s1 = if can_mount {
        s0.push(ActionKind::Mount)
    } else {
        s0
    };
    let s2 = if d.mounted {
        s1.push(ActionKind::Unmount)
    } else {
        s1
    };
    let s3 = if locked {
        s2.push(ActionKind::Unlock)
    } else {
        s2
    };
    let s4 = if d.encrypted && !d.locked && d.mounted {
        s3.push(ActionKind::Lock)
    } else {
        s3
    };
    let s5 = if d.ejectable {
        s4.push(ActionKind::Eject)
    } else {
        s4
    };
    let s6 = if d.can_power_off {
        s5.push(ActionKind::PowerOff)
    } else {
        s5
    };
    if d.mounted {
        s6.push(ActionKind::Copy)
    } else {
        s6
    }
}

/// The label prefix of a device's rows: its name and a separator.
pub open spec fn row_prefix(d: DeviceView) -> Seq<char> {
    d.name + "  \u{b7}  "@
}

/// The rows of one device, at index `i`.
pub open spec fn device_rows(d: DeviceView, i: int) -> Seq<(ActionKind, int, Seq<char>)> {
    menu_kinds(d).map_values(|k: ActionKind| (k, i, row_prefix(d) + action_label_spec(k)))
}

/// The rows of all devices, device by device.
pub open spec fn menu_entries_spec(devs: Seq<DeviceView>) -> Seq<(ActionKind, int, Seq<char>)>
    decreases devs.len(),
{
    if devs.len() == 0 {
        Seq::empty()
    } else {
        menu_entries_spec(devs.drop_last()) + device_rows(devs.last(), devs.len() - 1)
    }
}

/// The views of a list of devices.
pub open spec fn device_views(devs: Seq<Device>) -> Seq<DeviceView> {
    devs.map_values(|d: Device| d@)
}

/// The first row whose label is the trimmed selection; nothing for an empty
/// selection.
pub open spec fn select_spec(labels: Seq<Seq<char>>, output: Seq<char>) -> Option<int> {
    let sel = trim_spec(output);
    if sel.len() == 0 {
        None
    } else {
        first_match(labels, sel, 0)
    }
}

/// The first index from `i` on whose label is `sel`.
pub open spec fn first_match(labels: Seq<Seq<char>>, sel: Seq<char>, i: int) -> Option<int>
    decreases labels.len() - i,
{
    if i < 0 || i >= labels.len() {
        None
    } else if labels[i] == sel {
        Some(i)
    } else {
        first_match(labels, sel, i + 1)
    }
}

/// The items of a device's list row, joined by ` · `.
pub open spec fn join_spec(items: Seq<Seq<char>>, sep: Seq<char>) -> Seq<char>
    decreases items.len(),
{
    if items.len() == 0 {
        Seq::empty()
    } else if items.len() == 1 {
        items[0]
    } else {
        join_spec(items.drop_last(), sep) + sep + items.last()
    }
}

/// The details of a device in the device list: filesystem when known,
/// size when known, state, mount point when mounted.
pub open spec fn label_details(d: DeviceView, capacity_text: Seq<char>) -> Seq<Seq<char>> {
    let s1 = if d.filesystem.len() > 0 {
        seq![d.filesystem]
    } else {
        Seq::empty()
    };
    let s2 = if d.capacity > 0 {
        s1.push(capacity_text)
    } else {
        s1
    };
    let s3 = s2.push(state_word(d));
    if d.mount_point.len() > 0 {
        s3.push(d.mount_point)
    } else {
        s3
    }
}

/// The row of a device in the device list.
pub open spec fn device_label_spec(d: DeviceView, capacity_text: Seq<char>) -> Seq<char> {
    d.name + "  \u{b7}  "@ + join_spec(label_details(d, capacity_text), " \u{b7} "@)
}

fn push_rows(out: &mut Vec<MenuEntry>, d: &Device, i: usize)
    ensures
        entries_view(final(out)@) == entries_view(old(out)@) + device_rows(d@, i as int),
{
    let can_mount = !(d.mounted || (d.encrypted && d.locked));
    let ghost start = entries_view(out@);
    let ghost mut kinds: Seq<ActionKind> = Seq::empty();
    let mut k: usize = 0;
    let mut todo: Vec<ActionKind> = Vec::new();
    if !(d.encrypted && d.locked) {
        todo.push(ActionKind::Open);
    }
    if can_mount {
        todo.push(ActionKind::Mount);
    }
    if d.mounted {
        todo.push(ActionKind::Unmount);
    }
    if d.encrypted && d.locked {
        todo.push(ActionKind::Unlock);
    }
    if d.encrypted && !d.locked && d.mounted {
        todo.push(ActionKind::Lock);
    }
    if d.ejectable {
        todo.push(ActionKind::Eject);
    }
    if d.can_power_off {
        todo.push(ActionKind::PowerOff);
    }
    if d.mounted {
        todo.push(ActionKind::Copy);
    }
    assert(todo@ =~= menu_kinds(d@));
    let mut prefix = d.name.clone();
    push_str(&mut prefix, "  \u{b7}  ");
    while k < todo.len()
        invariant
            k <= todo@.len(),
            todo@ == menu_kinds(d@),
            prefix@ == row_prefix(d@),
            entries_view(out@) == start + device_rows(d@, i as int).take(k as int),
        decreases todo.len() - k,
    {
        let kind = todo[k];
        let mut label = prefix.clone();
        push_str(&mut label, action_label(kind));
        let ghost before = entries_view(out@);
        out.push(MenuEntry { kind, device_index: i, label });
        assert(entries_view(out@) =~= before.push((kind, i as int, row_prefix(d@)
            + action_label_spec(kind))));
        assert(device_rows(d@, i as int).take(k + 1) =~= device_rows(d@, i as int).take(
            k as int,
        ).push((kind, i as int, row_prefix(d@) + action_label_spec(kind))));
        k += 1;
    }
    assert(device_rows(d@, i as int).take(todo@.len() as int) =~= device_rows(d@, i as int));
}

impl<'a> Menu<'a> {
    /// The menu with `config`.
    pub fn new(config: &'a Config) -> (r: Self)
        ensures
            r.config() == *config,
    {
        Menu { config }
    }

    /// The configuration.
    pub closed spec fn config(&self) -> Config {
        *self.config
    }

    /// The rows offered for the devices.
    pub fn entries(devices: &Vec<Device>) -> (r: Vec<MenuEntry>)
        ensures
            entries_view(r@) == menu_entries_spec(device_views(devices@)),
    {
        let mut out: Vec<MenuEntry> = Vec::new();
        let mut i: usize = 0;
        assert(device_views(devices@).take(0) =~= Seq::<DeviceView>::empty());
        assert(entries_view(out@) =~= Seq::<(ActionKind, int, Seq<char>)>::empty());
        while i < devices.len()
            invariant
                i <= devices@.len(),
                entries_view(out@) == menu_entries_spec(device_views(devices@).take(i as int)),
            decreases devices.len() - i,
        {
            let ghost dv = device_views(devices@);
            assert(dv.take(i + 1).drop_last() =~= dv.take(i as int));
            assert(dv.take(i + 1).last() == devices@[i as int]@);
            push_rows(&mut out, &devices[i], i);
            i += 1;
        }
        assert(device_views(devices@).take(devices@.len() as int) =~= device_views(devices@));
        out
    }

    /// The command that shows the menu: the menu program and its flags.
    pub fn command(&self) -> (r: String)
        ensures
            r@ == if self.config()@.menu_flags.len() > 0 {
                self.config()@.menu + seq![' '] + self.config()@.menu_flags
            } else {
                self.config()@.menu
            },
    {
        let mut cmd = self.config.menu.clone();
        if !self.config.menu_flags.is_empty() {
            cmd.push(' ');
            push_str(&mut cmd, self.config.menu_flags.as_str());
        }
        cmd
    }

    /// The row the menu program printed, if any.
    pub fn select(labels: &Vec<String>, output: &str) -> (r: Option<usize>)
        ensures
            match r {
                Some(i) => select_spec(string_views(labels@), output@) == Some(
                    i as int,
                ),
                None => select_spec(string_views(labels@), output@) is None,
            },
    {
        let ghost lv = string_views(labels@);
        let sel = trim(output);
        if sel.is_empty() {
            return None;
        }
        let mut i: usize = 0;
        while i < labels.len()
            invariant
                i <= labels@.len(),
                lv == string_views(labels@),
                sel@ == trim_spec(output@),
                sel@.len() > 0,
                first_match(lv, sel@, 0) == first_match(lv, sel@, i as int),
            decreases labels.len() - i,
        {
            assert(lv[i as int] == labels@[i as int]@);
            assert(lv.len() == labels@.len());
            if str_eq(labels[i].as_str(), sel) {
                assert(first_match(lv, sel@, i as int) == Some(i as int));
                return Some(i);
            }
            i += 1;
        }
        None
    }

    /// The labels of the menu rows.
    pub fn labels(entries: &Vec<MenuEntry>) -> (r: Vec<String>)
        ensures
            r@.len() == entries@.len(),
            forall|i: int| 0 <= i < r@.len() ==> #[trigger] r@[i]@ == entries@[i].label@,
    {
        let mut out: Vec<String> = Vec::new();
        let mut i: usize = 0;
        while i < entries.len()
            invariant
                i <= entries@.len(),
                out@.len() == i,
                forall|q: int| 0 <= q < i ==> #[trigger] out@[q]@ == entries@[q].label@,
            decreases entries.len() - i,
        {
            out.push(entries[i].label.clone());
            i += 1;
        }
        out
    }
}

/// The row of a device in the device list; `capacity_text` is its
/// formatted capacity.
pub fn device_label(d: &Device, capacity_text: &str) -> (r: String)
    ensures
        r@ == device_label_spec(d@, capacity_text@),
{
    let ghost items = label_details(d@, capacity_text@);
    let mut s = d.name.clone();
    push_str(&mut s, "  \u{b7}  ");
    let ghost head = s@;
    let mut first = true;
    let ghost mut done: Seq<Seq<char>> = Seq::empty();
    if !d.filesystem.is_empty() {
        push_str(&mut s, d.filesystem.as_str());
        first = false;
        proof {
            done = done.push(d.filesystem@);
            assert(join_spec(done, " \u{b7} "@) == d.filesystem@);
            assert(s@ =~= head + join_spec(done, " \u{b7} "@));
        }
    }
    assert(s@ =~= head + join_spec(done, " \u{b7} "@));
    if d.capacity > 0 {
        if !first {
            push_str(&mut s, " \u{b7} ");
        }
        push_str(&mut s, capacity_text);
        proof {
            let old_done = done;
            done = done.push(capacity_text@);
            assert(done.drop_last() =~= old_done);
            assert(s@ =~= head + join_spec(done, " \u{b7} "@));
        }
        first = false;
    }
    if !first {
        push_str(&mut s, " \u{b7} ");
    }
    let word = if d.encrypted && d.locked {
        "locked"
    } else if d.mounted {
        "mounted"
    } else {
        "available"
    };
    push_str(&mut s, word);
    proof {
        let old_done = done;
        done = done.push(state_word(d@));
        assert(done.drop_last() =~= old_done);
        assert(s@ =~= head + join_spec(done, " \u{b7} "@));
    }
    if !d.mount_point.is_empty() {
        push_str(&mut s, " \u{b7} ");
        push_str(&mut s, d.mount_point.as_str());
        proof {
            let old_done = done;
            done = done.push(d.mount_point@);
            assert(done.drop_last() =~= old_done);
            assert(s@ =~= head + join_spec(done, " \u{b7} "@));
        }
    }
    assert(done =~= items);
    s
}

} // verus!
