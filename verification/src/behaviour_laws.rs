//! What each operation is for, stated over its inputs and results: which
//! configuration key sets which setting, which bus calls each action makes,
//! which property fills which field, which word names which command, and
//! when the bar carries each CSS class.
use vstd::prelude::*;

use crate::actions::{applies, step_spec, ActionKind, Outcome, Stage, StepView};
use crate::cli::{action_of_spec, command_spec, Command};
use crate::config::{apply_spec, get_spec, member, ConfigView, JsonValue};
use crate::device::DeviceView;
use crate::renderer::{classes_spec, icon_spec, render_fields, shown_count};
use crate::device::{sort_mode_spec, SortMode};
use crate::cli::{menu_choice_spec, no_args, parse_from, MenuChoice, ParsedView, ValueFlag};
use crate::i18n::Lang;
use crate::text::shell_quote_spec;
use crate::udisks::{
    apply_block, apply_drive, prop, strip_nuls, utf8_lossy, BlockSource, PropValue, RawBlockView,
    RawDriveView,
};

verus! {

// ---------------------------------------------------------------------------
// Configuration keys
// ---------------------------------------------------------------------------
/// Each boolean key of a configuration object sets its setting to the
/// member's value, and leaves it alone when the key is absent.
pub proof fn law_boolean_keys_set_settings(c: ConfigView, j: JsonValue)
    requires
        j is Object,
    ensures
        (get_spec(j, "show_hidden"@) matches Some(JsonValue::Bool(v)) ==> apply_spec(c, j).show_hidden == v),
        (get_spec(j, "show_name"@) matches Some(JsonValue::Bool(v)) ==> apply_spec(c, j).show_name == v),
        (get_spec(j, "show_capacity"@) matches Some(JsonValue::Bool(v)) ==> apply_spec(c, j).show_capacity
            == v),
        (get_spec(j, "hide_when_empty"@) matches Some(JsonValue::Bool(v)) ==> apply_spec(
            c,
            j,
        ).hide_when_empty == v),
        get_spec(j, "show_hidden"@) is None ==> apply_spec(c, j).show_hidden == c.show_hidden,
        get_spec(j, "show_name"@) is None ==> apply_spec(c, j).show_name == c.show_name,
        get_spec(j, "show_capacity"@) is None ==> apply_spec(c, j).show_capacity == c.show_capacity,
        get_spec(j, "hide_when_empty"@) is None ==> apply_spec(c, j).hide_when_empty
            == c.hide_when_empty,
{
}

/// Each string key of a configuration object sets its setting to the
/// member's text (`file_manager_command` over `open_command`), and an
/// integer `max_devices` sets the device limit, cut to `i32`.
pub proof fn law_string_keys_set_settings(c: ConfigView, j: JsonValue)
    requires
        j is Object,
    ensures
        (get_spec(j, "sort"@) matches Some(JsonValue::Str(s)) ==> apply_spec(c, j).sort == s@),
        (get_spec(j, "separator"@) matches Some(JsonValue::Str(s)) ==> apply_spec(c, j).separator
            == s@),
        (get_spec(j, "format"@) matches Some(JsonValue::Str(s)) ==> apply_spec(c, j).format == s@),
        (get_spec(j, "tooltip_format"@) matches Some(JsonValue::Str(s)) ==> apply_spec(
            c,
            j,
        ).tooltip_format == s@),
        (get_spec(j, "open_command"@) matches Some(JsonValue::Str(s)) ==> apply_spec(c, j).open_command
            == s@),
        (get_spec(j, "file_manager_command"@) matches Some(JsonValue::Str(s)) ==> apply_spec(
            c,
            j,
        ).file_manager_command == s@),
        (get_spec(j, "copy_command"@) matches Some(JsonValue::Str(s)) ==> apply_spec(c, j).copy_command
            == s@),
        (get_spec(j, "unlock_command"@) matches Some(JsonValue::Str(s)) ==> apply_spec(
            c,
            j,
        ).unlock_command == s@),
        (get_spec(j, "mode"@) matches Some(JsonValue::Str(s)) ==> apply_spec(c, j).mode == s@),
        (get_spec(j, "menu"@) matches Some(JsonValue::Str(s)) ==> apply_spec(c, j).menu == s@),
        (get_spec(j, "menu_flags"@) matches Some(JsonValue::Str(s)) ==> apply_spec(c, j).menu_flags
            == s@),
        (get_spec(j, "max_devices"@) matches Some(JsonValue::Number(Some(n))) ==> apply_spec(
            c,
            j,
        ).max_devices == n as i32),
        get_spec(j, "sort"@) is None ==> apply_spec(c, j).sort == c.sort,
        get_spec(j, "mode"@) is None ==> apply_spec(c, j).mode == c.mode,
        get_spec(j, "max_devices"@) is None ==> apply_spec(c, j).max_devices == c.max_devices,
{
}

/// The members of an `icons` object set the four icons.
pub proof fn law_icon_keys_set_icons(c: ConfigView, j: JsonValue)
    requires
        j is Object,
    ensures
        (get_spec(j, "icons"@) matches Some(JsonValue::Object(f)) ==> {
            &&& (member(f@, "mounted"@) matches Some(JsonValue::Str(s)) ==> apply_spec(
                c,
                j,
            ).icons_mounted == s@)
            &&& (member(f@, "unmounted"@) matches Some(JsonValue::Str(s)) ==> apply_spec(
                c,
                j,
            ).icons_unmounted == s@)
            &&& (member(f@, "encrypted"@) matches Some(JsonValue::Str(s)) ==> apply_spec(
                c,
                j,
            ).icons_encrypted == s@)
            &&& (member(f@, "read_only"@) matches Some(JsonValue::Str(s)) ==> apply_spec(
                c,
                j,
            ).icons_read_only == s@)
        }),
        get_spec(j, "icons"@) is None ==> apply_spec(c, j).icons_mounted == c.icons_mounted
            && apply_spec(c, j).icons_unmounted == c.icons_unmounted && apply_spec(
            c,
            j,
        ).icons_encrypted == c.icons_encrypted && apply_spec(c, j).icons_read_only
            == c.icons_read_only,
{
}

// ---------------------------------------------------------------------------
// Actions: the bus calls of a run whose every step succeeds
// ---------------------------------------------------------------------------
/// A call on the UDisks2 drive interface of `d`'s drive, without user
/// interaction.
pub open spec fn drive_method(d: DeviceView, method: Seq<char>) -> StepView {
    StepView::Call {
        object_path: d.drive_path,
        interface: "org.freedesktop.UDisks2.Drive"@,
        method: method,
        no_user_interaction: true,
    }
}

/// A call on the UDisks2 filesystem interface of the object holding `d`'s
/// filesystem (its cleartext device when unlocked), without user
/// interaction.
pub open spec fn filesystem_method(d: DeviceView, method: Seq<char>) -> StepView {
    StepView::Call {
        object_path: if d.cleartext.len() > 0 && d.cleartext != seq!['/'] {
            d.cleartext
        } else {
            d.object_path
        },
        interface: "org.freedesktop.UDisks2.Filesystem"@,
        method: method,
        no_user_interaction: true,
    }
}

/// The step after `s` when the outcome is `o`.
pub open spec fn next(
    c: ConfigView,
    kind: ActionKind,
    d: DeviceView,
    s: (Stage, StepView),
    o: Outcome,
) -> (Stage, StepView) {
    step_spec(c, kind, d, s.0, o)
}

/// The first step of an action.
pub open spec fn first(c: ConfigView, kind: ActionKind, d: DeviceView) -> (Stage, StepView) {
    step_spec(c, kind, d, Stage::Start, Outcome::Begin)
}

/// Powering off a drive connects, calls `PowerOff` on the drive, and ends
/// with code 0: it neither ejects nor unmounts.
pub proof fn law_power_off_calls_power_off(c: ConfigView, d: DeviceView)
    requires
        d.can_power_off,
        d.drive_path.len() > 0,
    ensures
        ({
            let k = ActionKind::PowerOff;
            let s1 = first(c, k, d);
            let s2 = next(c, k, d, s1, Outcome::Connected(Ok(())));
            let s3 = next(c, k, d, s2, Outcome::Called(Ok(())));
            &&& s1.1 == StepView::Connect
            &&& s2.1 == drive_method(d, "PowerOff"@)
            &&& s3.1 == StepView::Finish(0)
        }),
{
}

/// Ejecting connects, unmounts the filesystem first when mounted, calls
/// `Eject` on the drive, and ends with code 0.
pub proof fn law_eject_calls_eject(c: ConfigView, d: DeviceView)
    requires
        d.ejectable,
        d.drive_path.len() > 0,
    ensures
        ({
            let k = ActionKind::Eject;
            let s1 = first(c, k, d);
            let s2 = next(c, k, d, s1, Outcome::Connected(Ok(())));
            let s3 = next(c, k, d, s2, Outcome::Called(Ok(())));
            let s4 = next(c, k, d, s3, Outcome::Called(Ok(())));
            &&& s1.1 == StepView::Connect
            &&& (!d.mounted ==> s2.1 == drive_method(d, "Eject"@) && s3.1 == StepView::Finish(0))
            &&& (d.mounted ==> s2.1 == filesystem_method(d, "Unmount"@) && s3.1 == drive_method(
                d,
                "Eject"@,
            ) && s4.1 == StepView::Finish(0))
        }),
{
}

/// Unmounting connects, calls `Unmount` on the filesystem and ends with 0.
pub proof fn law_unmount_calls_unmount(c: ConfigView, d: DeviceView)
    requires
        d.mounted,
    ensures
        ({
            let k = ActionKind::Unmount;
            let s1 = first(c, k, d);
            let s2 = next(c, k, d, s1, Outcome::Connected(Ok(())));
            let s3 = next(c, k, d, s2, Outcome::Called(Ok(())));
            &&& s1.1 == StepView::Connect
            &&& s2.1 == filesystem_method(d, "Unmount"@)
            &&& s3.1 == StepView::Finish(0)
        }),
{
}

/// Mounting an unmounted volume that is not locked connects, calls `Mount`
/// on the filesystem and ends with 0.
pub proof fn law_mount_calls_mount(c: ConfigView, d: DeviceView)
    requires
        !d.mounted,
        !(d.encrypted && d.locked),
    ensures
        ({
            let k = ActionKind::Mount;
            let s1 = first(c, k, d);
            let s2 = next(c, k, d, s1, Outcome::Connected(Ok(())));
            let s3 = next(c, k, d, s2, Outcome::Called(Ok(())));
            &&& s1.1 == StepView::Connect
            &&& s2.1 == filesystem_method(d, "Mount"@)
            &&& s3.1 == StepView::Finish(0)
        }),
{
}

/// Locking an unlocked volume connects, calls `Lock` on the encrypted
/// interface of the block (allowing interaction) and ends with 0.
pub proof fn law_lock_calls_lock(c: ConfigView, d: DeviceView)
    requires
        d.encrypted,
        !d.locked,
    ensures
        ({
            let k = ActionKind::Lock;
            let s1 = first(c, k, d);
            let s2 = next(c, k, d, s1, Outcome::Connected(Ok(())));
            let s3 = next(c, k, d, s2, Outcome::Called(Ok(())));
            &&& s1.1 == StepView::Connect
            &&& s2.1 == StepView::Call {
                object_path: d.object_path,
                interface: "org.freedesktop.UDisks2.Encrypted"@,
                method: "Lock"@,
                no_user_interaction: false,
            }
            &&& s3.1 == StepView::Finish(0)
        }),
{
}

/// Unlocking a locked volume launches the unlock command on the quoted
/// block node and ends with 0 once it started.
pub proof fn law_unlock_launches_terminal(c: ConfigView, d: DeviceView, pid: i32)
    requires
        d.encrypted,
        d.locked,
        pid >= 0,
    ensures
        ({
            let k = ActionKind::Unlock;
            let s1 = first(c, k, d);
            let s2 = next(c, k, d, s1, Outcome::Launched(pid));
            &&& s1.1 == StepView::Launch(
                c.unlock_command + " udisksctl unlock --block-device "@ + shell_quote_spec(d.block),
            )
            &&& s2.1 == StepView::Finish(0)
        }),
{
}

/// Opening a mounted device launches the file manager on its quoted mount
/// point; copying it puts the mount point on the clipboard; both end with
/// 0.
pub proof fn law_open_and_copy_use_mount_point(c: ConfigView, d: DeviceView, pid: i32)
    requires
        d.mount_point.len() > 0,
        pid >= 0,
    ensures
        ({
            let o1 = first(c, ActionKind::Open, d);
            let o2 = next(c, ActionKind::Open, d, o1, Outcome::Launched(pid));
            let c1 = first(c, ActionKind::Copy, d);
            let c2 = next(c, ActionKind::Copy, d, c1, Outcome::Copied(Ok(())));
            &&& o1.1 == StepView::Launch(c.file_manager_command + seq![' '] + shell_quote_spec(
                d.mount_point,
            ))
            &&& o2.1 == StepView::Finish(0)
            &&& c1.1 == StepView::CopyText(d.mount_point)
            &&& c2.1 == StepView::Finish(0)
        }),
{
}

// ---------------------------------------------------------------------------
// UDisks2 properties
// ---------------------------------------------------------------------------
/// Each drive property fills the drive field of the same name when it has
/// the D-Bus type the field needs (a string or object path, or a boolean),
/// and an absent property leaves the field alone.
pub proof fn law_drive_properties_fill_fields(d: RawDriveView, props: Seq<(String, PropValue)>)
    ensures
        ({
            let r = apply_drive(d, props);
            &&& r.object_path == d.object_path
            &&& (prop(props, "Vendor"@) matches Some(PropValue::Str(s)) ==> r.vendor == s@)
            &&& (prop(props, "Model"@) matches Some(PropValue::Str(s)) ==> r.model == s@)
            &&& (prop(props, "ConnectionBus"@) matches Some(PropValue::Str(s)) ==> r.connection_bus
                == s@)
            &&& (prop(props, "Removable"@) matches Some(PropValue::Bool(b)) ==> r.removable == b)
            &&& (prop(props, "Ejectable"@) matches Some(PropValue::Bool(b)) ==> r.ejectable == b)
            &&& (prop(props, "MediaRemovable"@) matches Some(PropValue::Bool(b)) ==> r.media_removable
                == b)
            &&& (prop(props, "Optical"@) matches Some(PropValue::Bool(b)) ==> r.optical == b)
            &&& (prop(props, "Vendor"@) is None ==> r.vendor == d.vendor)
            &&& (prop(props, "Model"@) is None ==> r.model == d.model)
            &&& (prop(props, "Removable"@) is None ==> r.removable == d.removable)
            &&& (prop(props, "Ejectable"@) is None ==> r.ejectable == d.ejectable)
            &&& (prop(props, "MediaRemovable"@) is None ==> r.media_removable == d.media_removable)
            &&& (prop(props, "Optical"@) is None ==> r.optical == d.optical)
        }),
{
}

/// Each property of the block interface fills the block field of the same
/// name: the device node from its NUL-terminated bytes, the drive from an
/// object path, the strings, the size and the flags.
pub proof fn law_block_properties_fill_fields(b: RawBlockView, props: Seq<(String, PropValue)>)
    ensures
        ({
            let r = apply_block(b, props, BlockSource::Block);
            &&& r.object_path == b.object_path
            &&& (prop(props, "Device"@) matches Some(PropValue::Bytes(v)) ==> r.device
                == utf8_lossy(strip_nuls(v@)))
            &&& (prop(props, "Drive"@) matches Some(PropValue::ObjectPath(s)) ==> r.drive == s@)
            &&& (prop(props, "IdLabel"@) matches Some(PropValue::Str(s)) ==> r.id_label == s@)
            &&& (prop(props, "IdType"@) matches Some(PropValue::Str(s)) ==> r.id_type == s@)
            &&& (prop(props, "HintName"@) matches Some(PropValue::Str(s)) ==> r.hint_name == s@)
            &&& (prop(props, "PreferredDevice"@) matches Some(PropValue::Str(s)) ==> r.preferred_device
                == s@)
            &&& (prop(props, "PartitionType"@) matches Some(PropValue::Str(s)) ==> r.partition_type
                == s@)
            &&& (prop(props, "HintEncryptionType"@) matches Some(PropValue::Str(s)) ==> r.encryption_type
                == s@)
            &&& (prop(props, "Size"@) matches Some(PropValue::U64(n)) ==> r.size == n)
            &&& (prop(props, "ReadOnly"@) matches Some(PropValue::Bool(v)) ==> r.read_only == v)
            &&& (prop(props, "HintIgnore"@) matches Some(PropValue::Bool(v)) ==> r.hint_ignore == v)
            &&& (prop(props, "Size"@) is None ==> r.size == b.size)
            &&& (prop(props, "ReadOnly"@) is None ==> r.read_only == b.read_only)
            &&& (prop(props, "IdLabel"@) is None ==> r.id_label == b.id_label)
            &&& r.mount_points == b.mount_points
            &&& r.has_filesystem == b.has_filesystem
            &&& r.has_encrypted == b.has_encrypted
        }),
{
}

/// The filesystem interface marks a block as holding a filesystem exactly
/// when it carries `MountPoints`; the encrypted interface marks it as
/// encrypted and gives its cleartext device.
pub proof fn law_filesystem_and_encrypted_interfaces(b: RawBlockView, props: Seq<(String, PropValue)>)
    ensures
        apply_block(b, props, BlockSource::Filesystem).has_filesystem == (prop(props, "MountPoints"@) is Some),
        apply_block(b, props, BlockSource::Filesystem).device == b.device,
        apply_block(b, props, BlockSource::Encrypted).has_encrypted,
        (prop(props, "CleartextDevice"@) matches Some(PropValue::ObjectPath(s)) ==> apply_block(
            b,
            props,
            BlockSource::Encrypted,
        ).cleartext == s@),
        apply_block(b, props, BlockSource::Encrypted).has_filesystem == b.has_filesystem,
{
}

// ---------------------------------------------------------------------------
// Command words
// ---------------------------------------------------------------------------
/// The command word of each action, as the help text lists it.
pub open spec fn action_word(k: ActionKind) -> Seq<char> {
    match k {
        ActionKind::Open => "open"@,
        ActionKind::Mount => "mount"@,
        ActionKind::Unmount => "unmount"@,
        ActionKind::Eject => "eject"@,
        ActionKind::PowerOff => "poweroff"@,
        ActionKind::Lock => "lock"@,
        ActionKind::Unlock => "unlock"@,
        ActionKind::Copy => "copy"@,
    }
}

proof fn lemma_words_distinct()
    ensures
        forall|a: ActionKind, b: ActionKind| a != b ==> action_word(a) != action_word(b),
{
    reveal_strlit("open");
    reveal_strlit("mount");
    reveal_strlit("unmount");
    reveal_strlit("eject");
    reveal_strlit("poweroff");
    reveal_strlit("lock");
    reveal_strlit("unlock");
    reveal_strlit("copy");
    assert forall|a: ActionKind, b: ActionKind| a != b implies action_word(a) != action_word(b) by {
        if action_word(a) == action_word(b) {
            assert(action_word(a).len() == action_word(b).len());
            assert(action_word(a)[0] == action_word(b)[0]);
            assert(action_word(a)[1] == action_word(b)[1]);
            assert(action_word(a)[2] == action_word(b)[2]);
        }
    }
}

/// A word names an action exactly when it is that action's word, so each
/// action has one word and no two actions share one; the command of an
/// action's word runs that action.
pub proof fn law_action_words(w: Seq<char>, k: ActionKind)
    ensures
        action_of_spec(w) == Some(k) <==> w == action_word(k),
        command_spec(action_word(k)) == Command::Action(k),
{
    lemma_words_distinct();
    reveal_strlit("watch");
    reveal_strlit("once");
    reveal_strlit("list");
    reveal_strlit("menu");
    reveal_strlit("devices");
    reveal_strlit("open");
    reveal_strlit("mount");
    reveal_strlit("unmount");
    reveal_strlit("eject");
    reveal_strlit("poweroff");
    reveal_strlit("lock");
    reveal_strlit("unlock");
    reveal_strlit("copy");
    assert(action_word(ActionKind::Open) == "open"@);
    assert(action_word(ActionKind::Mount) == "mount"@);
    assert(action_word(ActionKind::Unmount) == "unmount"@);
    assert(action_word(ActionKind::Eject) == "eject"@);
    assert(action_word(ActionKind::PowerOff) == "poweroff"@);
    assert(action_word(ActionKind::Lock) == "lock"@);
    assert(action_word(ActionKind::Unlock) == "unlock"@);
    assert(action_word(ActionKind::Copy) == "copy"@);
    assert(action_of_spec(action_word(k)) == Some(k));
    let aw = action_word(k);
    assert(aw != "watch"@ && aw != "once"@ && aw != "list"@ && aw != "menu"@ && aw != "devices"@) by {
        if aw == "watch"@ || aw == "once"@ || aw == "list"@ || aw == "menu"@ || aw == "devices"@ {
            assert(aw.len() >= 4);
            assert(aw[0] == "watch"@[0] || aw[0] == "once"@[0] || aw[0] == "list"@[0] || aw[0]
                == "menu"@[0] || aw[0] == "devices"@[0]);
            assert(aw[1] == "watch"@[1] || aw[1] == "once"@[1] || aw[1] == "list"@[1] || aw[1]
                == "menu"@[1] || aw[1] == "devices"@[1]);
        }
    }
}

// ---------------------------------------------------------------------------
// CSS classes of the bar
// ---------------------------------------------------------------------------
/// The bar's classes describe the shown devices: `storage` always;
/// `empty` exactly when none is shown; `mounted` exactly when one is
/// mounted, `unmounted` exactly when some are shown and none is mounted;
/// `readonly` exactly when one is read-only; `encrypted` exactly when one is
/// an encrypted volume that is locked.
pub proof fn law_classes_describe_devices(devs: Seq<DeviceView>)
    ensures
        classes_spec(devs)[0] == "storage"@,
        classes_spec(devs).contains("empty"@) <==> devs.len() == 0,
        classes_spec(devs).contains("mounted"@) <==> exists|i: int|
            0 <= i < devs.len() && #[trigger] devs[i].mounted,
        classes_spec(devs).contains("unmounted"@) <==> devs.len() > 0 && !exists|i: int|
            0 <= i < devs.len() && #[trigger] devs[i].mounted,
        classes_spec(devs).contains("readonly"@) <==> exists|i: int|
            0 <= i < devs.len() && #[trigger] devs[i].read_only,
        classes_spec(devs).contains("encrypted"@) <==> exists|i: int|
            0 <= i < devs.len() && #[trigger] devs[i].encrypted && devs[i].locked,
{
    reveal_strlit("storage");
    reveal_strlit("empty");
    reveal_strlit("mounted");
    reveal_strlit("unmounted");
    reveal_strlit("readonly");
    reveal_strlit("encrypted");
    let names = seq!["storage"@, "empty"@, "mounted"@, "unmounted"@, "readonly"@, "encrypted"@];
    assert forall|a: int, b: int| 0 <= a < b < 6 implies #[trigger] names[a] != #[trigger] names[b] by {
        if names[a] == names[b] {
            assert(names[a].len() == names[b].len());
            assert(names[a][0] == names[b][0]);
            assert(names[a][1] == names[b][1]);
        }
    }
    assert(names[0] == "storage"@ && names[1] == "empty"@ && names[2] == "mounted"@ && names[3]
        == "unmounted"@ && names[4] == "readonly"@ && names[5] == "encrypted"@);
    let cs = classes_spec(devs);
    assert(cs.len() <= 5);
    if devs.len() > 0 {
        let m = crate::renderer::any_mounted(devs);
        let ro = exists|i: int| 0 <= i < devs.len() && #[trigger] devs[i].read_only;
        let enc = exists|i: int| 0 <= i < devs.len() && (#[trigger] devs[i].encrypted && devs[i].locked);
        let c1 = seq!["storage"@];
        let c2 = if m { c1.push("mounted"@) } else { c1 };
        let c3 = if ro { c2.push("readonly"@) } else { c2 };
        let c4 = if enc { c3.push("encrypted"@) } else { c3 };
        let c5 = if !m { c4.push("unmounted"@) } else { c4 };
        assert(cs == c5);
        if ro {
            assert(cs[c2.len() as int] == "readonly"@);
            assert(cs.contains("readonly"@));
        } else {
            assert forall|i: int| 0 <= i < cs.len() implies cs[i] != "readonly"@ by {
                assert(cs[i] == "storage"@ || cs[i] == "mounted"@ || cs[i] == "unmounted"@ || cs[i]
                    == "encrypted"@);
            }
        }
        if enc {
            assert(cs[c3.len() as int] == "encrypted"@);
            assert(cs.contains("encrypted"@));
        } else {
            assert forall|i: int| 0 <= i < cs.len() implies cs[i] != "encrypted"@ by {
                assert(cs[i] == "storage"@ || cs[i] == "mounted"@ || cs[i] == "unmounted"@ || cs[i]
                    == "readonly"@);
            }
        }
        if m {
            assert(cs[1] == "mounted"@);
            assert(cs.contains("mounted"@));
            assert forall|i: int| 0 <= i < cs.len() implies cs[i] != "unmounted"@ by {
                assert(cs[i] == "storage"@ || cs[i] == "mounted"@ || cs[i] == "readonly"@ || cs[i]
                    == "encrypted"@);
            }
        } else {
            assert(cs[cs.len() - 1] == "unmounted"@);
            assert(cs.contains("unmounted"@));
            assert forall|i: int| 0 <= i < cs.len() implies cs[i] != "mounted"@ by {
                assert(cs[i] == "storage"@ || cs[i] == "unmounted"@ || cs[i] == "readonly"@ || cs[i]
                    == "encrypted"@);
            }
        }
    }
    assert forall|x: Seq<char>| cs.contains(x) implies (x == "storage"@ || x == "empty"@ || x
        == "mounted"@ || x == "unmounted"@ || x == "readonly"@ || x == "encrypted"@) by {
        let i = choose|i: int| 0 <= i < cs.len() && cs[i] == x;
    }
}

// ---------------------------------------------------------------------------
// Icons and bar fields
// ---------------------------------------------------------------------------
/// A device's icon: the encrypted icon when locked, else the read-only icon
/// when read-only, else the mounted icon when mounted, else the unmounted
/// icon.
pub proof fn law_icon_follows_state(c: ConfigView, d: DeviceView)
    ensures
        d.encrypted && d.locked ==> icon_spec(c, d) == c.icons_encrypted,
        !(d.encrypted && d.locked) && d.read_only ==> icon_spec(c, d) == c.icons_read_only,
        !(d.encrypted && d.locked) && !d.read_only && d.mounted ==> icon_spec(c, d)
            == c.icons_mounted,
        !(d.encrypted && d.locked) && !d.read_only && !d.mounted ==> icon_spec(c, d)
            == c.icons_unmounted,
{
}

/// The bar with nothing to show has an empty tooltip, the alternative
/// `storage-empty`, and the unmounted icon as text unless hidden; with
/// devices shown its text is the unmounted icon and its alternative says
/// whether one of the shown devices is mounted.
pub proof fn law_bar_fields(
    c: ConfigView,
    devs: Seq<DeviceView>,
    sizes: Seq<(Seq<char>, Seq<char>, Seq<char>)>,
    lang: Lang,
)
    ensures
        ({
            let n = shown_count(c, devs.len() as int);
            let (text, tooltip, alt, cls) = render_fields(c, devs, sizes, lang);
            &&& 0 <= n <= devs.len()
            &&& (n == 0 ==> tooltip.len() == 0 && alt == "storage-empty"@ && cls == "storage empty"@
                && text == (if c.hide_when_empty {
                Seq::<char>::empty()
            } else {
                c.icons_unmounted
            }))
            &&& (n > 0 ==> text == c.icons_unmounted)
            &&& (n > 0 && (exists|i: int| 0 <= i < n && #[trigger] devs[i].mounted) ==> alt
                == "storage-mounted"@ && cls == "storage mounted"@)
            &&& (n > 0 && !(exists|i: int| 0 <= i < n && #[trigger] devs[i].mounted) ==> alt
                == "storage-unmounted"@ && cls == "storage unmounted"@)
            &&& (c.max_devices <= 0 ==> n == devs.len())
        }),
{
    let n = shown_count(c, devs.len() as int);
    let shown = devs.take(n);
    assert forall|i: int| 0 <= i < n implies #[trigger] shown[i] == devs[i] by {}
    if exists|i: int| 0 <= i < n && #[trigger] devs[i].mounted {
        let i = choose|i: int| 0 <= i < n && #[trigger] devs[i].mounted;
        assert(shown[i].mounted);
    }
    if exists|i: int| 0 <= i < shown.len() && #[trigger] shown[i].mounted {
        let i = choose|i: int| 0 <= i < shown.len() && #[trigger] shown[i].mounted;
        assert(devs[i].mounted);
    }
}

// ---------------------------------------------------------------------------
// Sort keys, menu mode and options
// ---------------------------------------------------------------------------
/// The `sort` values select the orders of the same names; any other value
/// orders by mount time.
pub proof fn law_sort_words(w: Seq<char>)
    ensures
        sort_mode_spec("name"@) == SortMode::Name,
        sort_mode_spec("size"@) == SortMode::Size,
        sort_mode_spec("insertion"@) == SortMode::Insertion,
        w != "name"@ && w != "size"@ && w != "insertion"@ ==> sort_mode_spec(w) == SortMode::MountTime,
{
    reveal_strlit("name");
    reveal_strlit("size");
    reveal_strlit("insertion");
    assert("name"@ != "size"@) by {
        assert("name"@[0] != "size"@[0]);
    }
    assert("insertion"@.len() == 9 && "name"@.len() == 4 && "size"@.len() == 4);
}

/// The `menu` command opens the popup at the given position only in `gui`
/// mode with both coordinates, does nothing in `gui` mode without them, and
/// uses the launcher in every other mode.
pub proof fn law_menu_mode(mode: Seq<char>, x: Option<i32>, y: Option<i32>)
    ensures
        mode == "gui"@ && x is Some && y is Some ==> menu_choice_spec(mode, x, y)
            == MenuChoice::Popup(x.unwrap(), y.unwrap()),
        mode == "gui"@ && (x is None || y is None) ==> menu_choice_spec(mode, x, y)
            == MenuChoice::Nothing,
        mode != "gui"@ ==> menu_choice_spec(mode, x, y) == MenuChoice::Launcher,
{
}

/// Options: `--config` takes the next argument as the configuration path,
/// `-h` or `--help` asks for help, `-v` or `--version` for the version, and
/// `--config` without a value is refused; a plain word is a positional
/// argument.
pub proof fn law_options(p: Seq<char>, word: Seq<char>)
    ensures
        parse_from(seq!["--config"@, p], 0, no_args()) matches ParsedView::Run(a) && a.config_path
            == p && a.positional.len() == 0,
        parse_from(seq!["-h"@], 0, no_args()) == ParsedView::Help,
        parse_from(seq!["--help"@], 0, no_args()) == ParsedView::Help,
        parse_from(seq!["-v"@], 0, no_args()) == ParsedView::Version,
        parse_from(seq!["--version"@], 0, no_args()) == ParsedView::Version,
        parse_from(seq!["--config"@], 0, no_args()) == ParsedView::Missing(ValueFlag::Config),
        parse_from(seq!["--x"@], 0, no_args()) == ParsedView::Missing(ValueFlag::X),
        word.len() > 0 && word[0] != '-' ==> (parse_from(seq![word], 0, no_args()) matches ParsedView::Run(
            a,
        ) && a.positional == seq![word]),
{
    reveal_strlit("--config");
    reveal_strlit("--x");
    reveal_strlit("--y");
    reveal_strlit("-h");
    reveal_strlit("--help");
    reveal_strlit("-v");
    reveal_strlit("--version");
    assert("--config"@.len() == 8 && "--x"@.len() == 3 && "--y"@.len() == 3 && "-h"@.len() == 2
        && "--help"@.len() == 6 && "-v"@.len() == 2 && "--version"@.len() == 9);
    assert("-v"@ != "-h"@) by {
        assert("-v"@[1] != "-h"@[1]);
    }
    assert("--x"@ != "--y"@) by {
        assert("--x"@[2] != "--y"@[2]);
    }
    let s = seq!["--config"@, p];
    assert(parse_from(s, 2, crate::cli::CliArgsView { config_path: p, ..no_args() }) == ParsedView::Run(
        crate::cli::CliArgsView { config_path: p, ..no_args() },
    ));
    if word.len() > 0 && word[0] != '-' {
        assert(word != "--config"@ && word != "--x"@ && word != "--y"@ && word != "-h"@ && word
            != "--help"@ && word != "-v"@ && word != "--version"@) by {
            assert("--config"@[0] == '-');
        }
        let w = seq![word];
        let acc = crate::cli::CliArgsView { positional: no_args().positional.push(word), ..no_args() };
        assert(parse_from(w, 1, acc) == ParsedView::Run(acc));
        assert(acc.positional =~= seq![word]);
    }
}

/// A bus action that applies starts by connecting, and a failed connection
/// or a failed call ends it reporting the bus's error text; a drive action
/// on a device without a drive reports that instead of calling.
pub proof fn law_bus_failures_reported(c: ConfigView, kind: ActionKind, d: DeviceView, e: String)
    requires
        applies(kind, d),
        kind == ActionKind::Mount ==> !(d.encrypted && d.locked),
        kind == ActionKind::Mount || kind == ActionKind::Unmount || kind == ActionKind::Eject
            || kind == ActionKind::PowerOff || kind == ActionKind::Lock,
    ensures
        ({
            let s1 = first(c, kind, d);
            let s2 = next(c, kind, d, s1, Outcome::Connected(Ok(())));
            &&& s1.1 == StepView::Connect
            &&& next(c, kind, d, s1, Outcome::Connected(Err(e))) == (Stage::Finished, StepView::Fail(e@))
            &&& (s2.1 is Call ==> next(c, kind, d, s2, Outcome::Called(Err(e))) == (
                Stage::Finished,
                StepView::Fail(e@),
            ))
            &&& (kind == ActionKind::PowerOff && d.drive_path.len() == 0 ==> s2.1 == StepView::Fail(
                "device has no drive to power off"@,
            ))
            &&& (kind == ActionKind::Eject && !d.mounted && d.drive_path.len() == 0 ==> s2.1
                == StepView::Fail("device has no drive to eject"@))
        }),
{
}

} // verus!
