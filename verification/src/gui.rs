//! The native popup menu's decisions: which actions a device offers, the
//! texts of its rows, and where the popup and its submenu are placed.
use vstd::prelude::*;

use crate::actions::ActionKind;
use crate::config::{get, get_spec, json_parse_bytes, parse_json_bytes, JsonValue};
use crate::device::{Device, DeviceView};
use crate::text::{owned, push_str};

verus! {

/// Width of the device menu.
pub const MENU_WIDTH: i32 = 284;

/// Width of the action submenu.
pub const ACTION_MENU_WIDTH: i32 = 144;

/// Height of one menu row.
pub const MENU_ROW_HEIGHT: i32 = 29;

/// Gap between the pointer and the menu.
pub const MENU_GAP_Y: i32 = 12;

/// Distance kept from the screen edges.
pub const SCREEN_MARGIN: i32 = 4;

/// One action row of a device's submenu.
pub struct DeviceEntry {
    pub kind: ActionKind,
    pub device: Device,
}

/// The actions the popup offers for a device, in order: open unless locked,
/// mount when neither mounted nor locked, unmount when mounted, unlock when
/// locked, lock when unlocked and mounted, eject and power off when possible,
/// copy path when mounted.
pub open spec fn device_entries_spec(d: DeviceView) -> Seq<ActionKind> {
    let locked = d.encrypted && d.locked;
    let can_mount = !(d.mounted || locked);
    let s1 = if !d.encrypted || !d.locked {
        seq![ActionKind::Open]
    } else {
        Seq::empty()
    };
    let s2 = if can_mount {
        s1.push(ActionKind::Mount)
    } else {
        s1
    };
    let s3 = if d.mounted {
        s2.push(ActionKind::Unmount)
    } else {
        s2
    };
    let s4 = if locked {
        s3.push(ActionKind::Unlock)
    } else {
        s3
    };
    let s5 = if d.encrypted && !d.locked && d.mounted {
        s4.push(ActionKind::Lock)
    } else {
        s4
    };
    let s6 = if d.ejectable {
        s5.push(ActionKind::Eject)
    } else {
        s5
    };
    let s7 = if d.can_power_off {
        s6.push(ActionKind::PowerOff)
    } else {
        s6
    };
    if d.mounted {
        s7.push(ActionKind::Copy)
    } else {
        s7
    }
}

/// The kinds of a list of entries.
pub open spec fn entry_kinds(v: Seq<DeviceEntry>) -> Seq<ActionKind> {
    v.map_values(|e: DeviceEntry| e.kind)
}

fn add_entry(out: &mut Vec<DeviceEntry>, kind: ActionKind, d: &Device)
    requires
        forall|i: int| 0 <= i < old(out)@.len() ==> #[trigger] old(out)@[i].device@ == d@,
    ensures
        entry_kinds(final(out)@) == entry_kinds(old(out)@).push(kind),
        forall|i: int| 0 <= i < final(out)@.len() ==> #[trigger] final(out)@[i].device@ == d@,
{
    let ghost before = out@;
    out.push(DeviceEntry { kind, device: d.duplicate() });
    assert(entry_kinds(out@) =~= entry_kinds(before).push(kind));
}

/// The action rows offered for a device, each with a copy of the device.
pub fn device_entries(d: &Device) -> (r: Vec<DeviceEntry>)
    ensures
        entry_kinds(r@) == device_entries_spec(d@),
        forall|i: int| 0 <= i < r@.len() ==> #[trigger] r@[i].device@ == d@,
{
    let can_mount = !(d.mounted || (d.encrypted && d.locked));
    let mut out: Vec<DeviceEntry> = Vec::new();
    assert(entry_kinds(out@) =~= Seq::<ActionKind>::empty());
    if !d.encrypted || !d.locked {
        add_entry(&mut out, ActionKind::Open, d);
    }
    if can_mount {
        add_entry(&mut out, ActionKind::Mount, d);
    }
    if d.mounted {
        add_entry(&mut out, ActionKind::Unmount, d);
    }
    if d.encrypted && d.locked {
        add_entry(&mut out, ActionKind::Unlock, d);
    }
    if d.encrypted && !d.locked && d.mounted {
        add_entry(&mut out, ActionKind::Lock, d);
    }
    if d.ejectable {
        add_entry(&mut out, ActionKind::Eject, d);
    }
    if d.can_power_off {
        add_entry(&mut out, ActionKind::PowerOff, d);
    }
    if d.mounted {
        add_entry(&mut out, ActionKind::Copy, d);
    }
    assert(entry_kinds(out@) =~= device_entries_spec(d@));
    out
}

/// The row text of an action.
pub open spec fn action_label_spec(kind: ActionKind) -> Seq<char> {
    match kind {
        ActionKind::Open => "Open"@,
        ActionKind::Mount => "Mount"@,
        ActionKind::Unmount => "Unmount"@,
        ActionKind::Eject => "Eject"@,
        ActionKind::PowerOff => "Power Off"@,
        ActionKind::Lock => "Lock"@,
        ActionKind::Unlock => "Unlock"@,
        ActionKind::Copy => "Copy path"@,
    }
}

/// The row text of an action.
pub fn action_label(kind: ActionKind) -> (r: &'static str)
    ensures
        r@ == action_label_spec(kind),
{
    match kind {
        ActionKind::Open => "Open",
        ActionKind::Mount => "Mount",
        ActionKind::Unmount => "Unmount",
        ActionKind::Eject => "Eject",
        ActionKind::PowerOff => "Power Off",
        ActionKind::Lock => "Lock",
        ActionKind::Unlock => "Unlock",
        ActionKind::Copy => "Copy path",
    }
}

/// The tooltip of an action row.
pub open spec fn action_tooltip_spec(kind: ActionKind) -> Seq<char> {
    match kind {
        ActionKind::Open => "Open in the configured file manager"@,
        ActionKind::Mount => "Mount this device"@,
        ActionKind::Unmount => "Unmount this device"@,
        ActionKind::Eject => "Unmount and eject this device"@,
        ActionKind::PowerOff => "Safely power off this drive"@,
        ActionKind::Lock => "Lock this encrypted volume"@,
        ActionKind::Unlock => "Unlock this encrypted volume"@,
        ActionKind::Copy => "Copy the mount path"@,
    }
}

/// The tooltip of an action row.
pub fn action_tooltip(kind: ActionKind) -> (r: &'static str)
    ensures
        r@ == action_tooltip_spec(kind),
{
    match kind {
        ActionKind::Open => "Open in the configured file manager",
        ActionKind::Mount => "Mount this device",
        ActionKind::Unmount => "Unmount this device",
        ActionKind::Eject => "Unmount and eject this device",
        ActionKind::PowerOff => "Safely power off this drive",
        ActionKind::Lock => "Lock this encrypted volume",
        ActionKind::Unlock => "Unlock this encrypted volume",
        ActionKind::Copy => "Copy the mount path",
    }
}

/// A device's state word: locked, mounted or available.
pub open spec fn state_word(d: DeviceView) -> Seq<char> {
    if d.encrypted && d.locked {
        "locked"@
    } else if d.mounted {
        "mounted"@
    } else {
        "available"@
    }
}

fn state_word_exec(d: &Device) -> (r: &'static str)
    ensures
        r@ == state_word(d@),
{
    if d.encrypted && d.locked {
        "locked"
    } else if d.mounted {
        "mounted"
    } else {
        "available"
    }
}

/// The title of a device row: name, size when known, and state, separated
/// by ` · `.
pub open spec fn device_title_spec(d: DeviceView, capacity_text: Seq<char>) -> Seq<char> {
    if d.capacity > 0 {
        d.name + " \u{b7} "@ + capacity_text + " \u{b7} "@ + state_word(d)
    } else {
        d.name + " \u{b7} "@ + state_word(d)
    }
}

/// The title of a device row; `capacity_text` is the formatted capacity.
pub fn device_title(d: &Device, capacity_text: &str) -> (r: String)
    ensures
        r@ == device_title_spec(d@, capacity_text@),
{
    let mut s = d.name.clone();
    push_str(&mut s, " \u{b7} ");
    if d.capacity > 0 {
        push_str(&mut s, capacity_text);
        push_str(&mut s, " \u{b7} ");
    }
    push_str(&mut s, state_word_exec(d));
    s
}

/// A monitor's geometry: position and size.
#[derive(Clone, Copy)]
pub struct Geometry {
    pub x: i32,
    pub y: i32,
    pub width: i32,
    pub height: i32,
}

/// Where the popup menu goes, relative to its monitor.
#[derive(Clone, Copy)]
pub struct Placement {
    pub x: i32,
    pub y: i32,
    pub width: i32,
    pub origin_x: i32,
    pub origin_y: i32,
}

/// `v` limited to `[lo, hi]` (with `lo <= hi`).
pub open spec fn clamp_spec(v: int, lo: int, hi: int) -> int {
    if v < lo {
        lo
    } else if v > hi {
        hi
    } else {
        v
    }
}

/// The larger of two numbers.
pub open spec fn max_spec(a: int, b: int) -> int {
    if a >= b {
        a
    } else {
        b
    }
}

/// The popup placement: beside the pointer, kept on the monitor with a
/// margin; the menu height is estimated from the number of devices. Without
/// a monitor the popup goes near the top-left corner of a 1920-pixel screen.
pub open spec fn placement_spec(device_count: int, pointer: (i32, i32), monitor: Option<Geometry>) -> (
    int,
    int,
    int,
    int,
    int,
) {
    match monitor {
        None => (SCREEN_MARGIN as int, 32, 1920, 0, 0),
        Some(g) => {
            let local_x = pointer.0 - g.x;
            let local_y = pointer.1 - g.y;
            let estimated_height = max_spec((device_count + 3) * 32, 128);
            let max_x = max_spec(g.width - MENU_WIDTH - SCREEN_MARGIN, SCREEN_MARGIN as int);
            let max_y = max_spec(g.height - estimated_height - SCREEN_MARGIN, SCREEN_MARGIN as int);
            (
                clamp_spec(local_x, SCREEN_MARGIN as int, max_x),
                clamp_spec(local_y + MENU_GAP_Y, SCREEN_MARGIN as int, max_y),
                g.width as int,
                g.x as int,
                g.y as int,
            )
        },
    }
}

/// The view of a placement.
pub open spec fn placement_view(p: Placement) -> (int, int, int, int, int) {
    (p.x as int, p.y as int, p.width as int, p.origin_x as int, p.origin_y as int)
}

/// The arithmetic of a placement stays within `i32`.
pub open spec fn placement_fits(device_count: int, pointer: (i32, i32), g: Geometry) -> bool {
    &&& i32::MIN <= pointer.0 - g.x <= i32::MAX
    &&& i32::MIN <= pointer.1 - g.y <= i32::MAX
    &&& i32::MIN <= pointer.1 - g.y + MENU_GAP_Y <= i32::MAX
    &&& (device_count + 3) * 32 <= i32::MAX
    &&& i32::MIN <= g.width - MENU_WIDTH - SCREEN_MARGIN
    &&& i32::MIN <= g.height - max_spec((device_count + 3) * 32, 128) - SCREEN_MARGIN
}

/// Places the popup for `device_count` devices near `pointer` on `monitor`.
pub fn popup_placement(device_count: usize, pointer: (i32, i32), monitor: Option<Geometry>) -> (r:
    Placement)
    requires
        match monitor {
            Some(g) => placement_fits(device_count as int, pointer, g),
            None => true,
        },
    ensures
        placement_view(r) == placement_spec(device_count as int, pointer, monitor),
{
    match monitor {
        None => Placement { x: SCREEN_MARGIN, y: 32, width: 1920, origin_x: 0, origin_y: 0 },
        Some(g) => {
            let local_x = pointer.0 - g.x;
            let local_y = pointer.1 - g.y;
            let rows = (device_count as i32 + 3) * 32;
            let estimated_height = if rows >= 128 {
                rows
            } else {
                128
            };
            let wx = g.width - MENU_WIDTH - SCREEN_MARGIN;
            let max_x = if wx >= SCREEN_MARGIN {
                wx
            } else {
                SCREEN_MARGIN
            };
            let hy = g.height - estimated_height - SCREEN_MARGIN;
            let max_y = if hy >= SCREEN_MARGIN {
                hy
            } else {
                SCREEN_MARGIN
            };
            let y0 = local_y + MENU_GAP_Y;
            let x = if local_x < SCREEN_MARGIN {
                SCREEN_MARGIN
            } else if local_x > max_x {
                max_x
            } else {
                local_x
            };
            let y = if y0 < SCREEN_MARGIN {
                SCREEN_MARGIN
            } else if y0 > max_y {
                max_y
            } else {
                y0
            };
            Placement { x, y, width: g.width, origin_x: g.x, origin_y: g.y }
        },
    }
}

/// Where the action submenu goes: right of the menu when it fits on the
/// screen, else left of it (kept off the left edge).
pub open spec fn submenu_x_spec(menu_x: int, width: int) -> int {
    if menu_x + MENU_WIDTH + ACTION_MENU_WIDTH <= width - SCREEN_MARGIN {
        menu_x + MENU_WIDTH
    } else {
        max_spec(menu_x - ACTION_MENU_WIDTH, SCREEN_MARGIN as int)
    }
}

/// The horizontal position of the action submenu.
pub fn submenu_x(menu_x: i32, width: i32) -> (r: i32)
    requires
        menu_x + MENU_WIDTH + ACTION_MENU_WIDTH <= i32::MAX,
        i32::MIN <= width - SCREEN_MARGIN,
        i32::MIN <= menu_x - ACTION_MENU_WIDTH,
    ensures
        r == submenu_x_spec(menu_x as int, width as int),
{
    if menu_x + MENU_WIDTH + ACTION_MENU_WIDTH <= width - SCREEN_MARGIN {
        menu_x + MENU_WIDTH
    } else {
        let left = menu_x - ACTION_MENU_WIDTH;
        if left >= SCREEN_MARGIN {
            left
        } else {
            SCREEN_MARGIN
        }
    }
}

/// The vertical position of the submenu of the device in row `index`.
pub fn submenu_y(menu_y: i32, index: usize) -> (r: i32)
    requires
        i32::MIN <= menu_y + index * MENU_ROW_HEIGHT <= i32::MAX,
        index * MENU_ROW_HEIGHT <= i32::MAX,
    ensures
        r == menu_y + index * MENU_ROW_HEIGHT,
{
    menu_y + index as i32 * MENU_ROW_HEIGHT
}

/// Whether the point `(x, y)` lies in the rectangle at `(left, top)` of the
/// given size (right and bottom edges excluded).
pub open spec fn rect_contains_spec(x: int, y: int, left: int, top: int, w: int, h: int) -> bool {
    x >= left && x < left + w && y >= top && y < top + h
}

/// Whether a point lies in a widget's rectangle.
pub fn rect_contains(x: i32, y: i32, left: i32, top: i32, w: i32, h: i32) -> (r: bool)
    requires
        left + w <= i32::MAX,
        top + h <= i32::MAX,
        i32::MIN <= left + w,
        i32::MIN <= top + h,
    ensures
        r == rect_contains_spec(x as int, y as int, left as int, top as int, w as int, h as int),
{
    x >= left && x < left + w && y >= top && y < top + h
}

/// The pointer position in the compositor's JSON reply: the integer
/// members `x` and `y` of an object, each cut to `i32`.
pub open spec fn pointer_spec(j: Option<JsonValue>) -> Option<(i32, i32)> {
    match j {
        Some(v) => match (get_spec(v, "x"@), get_spec(v, "y"@)) {
            (Some(JsonValue::Number(Some(x))), Some(JsonValue::Number(Some(y)))) => Some(
                (x as i32, y as i32),
            ),
            _ => None,
        },
        None => None,
    }
}

/// The pointer position that the cursor query printed.
pub fn pointer_from_json(stdout: &Vec<u8>) -> (r: Option<(i32, i32)>)
    ensures
        r == pointer_spec(json_parse_bytes(stdout@)),
{
    let parsed = parse_json_bytes(stdout);
    match &parsed {
        Some(v) => match (get(v, "x"), get(v, "y")) {
            (Some(JsonValue::Number(Some(x))), Some(JsonValue::Number(Some(y)))) => {
                let px = *x as i32;
                let py = *y as i32;
                Some((px, py))
            },
            _ => None,
        },
        None => None,
    }
}

} // verus!
