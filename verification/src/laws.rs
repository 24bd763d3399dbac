//! Properties of the library as a whole, stated over the specifications of
//! its functions and proved.
use vstd::prelude::*;

use crate::actions::{applies, filesystem_object, step_spec, ActionKind, Outcome, Stage, StepView};
use crate::config::{
    apply_spec, default_config, get_str, load_spec, or_else, strip_block, strip_code, strip_line,
    strip_string, ConfigView, JsonValue,
};
use crate::device::{
    arranged_stably, candidate_spec, candidates_spec, is_permutation, precedes, stably_sorted, track,
    track_one, DeviceView, History, SortMode, Usage,
};
use crate::udisks::{RawBlock, RawDrive};
use crate::gui::device_entries_spec;
use crate::i18n::{detect_spec, locale_rule_spec, Lang};
use crate::cli::{pick_exact, pick_spec, usage_spec, USAGE_EN, USAGE_PT};
use crate::menu::{device_rows, first_match, menu_entries_spec, menu_kinds, select_spec};
use crate::monitor::{watch_step_spec, WatchAction, WatchEvent};
use crate::renderer::{classes_spec, render_fields, shown_count};
use crate::text::{is_blank, trim_end_spec, trim_spec, trim_start_spec};

verus! {

// ---------------------------------------------------------------------------
// Configuration
// ---------------------------------------------------------------------------
/// The value of string key `key` that the last document setting it gives,
/// if any.
pub open spec fn last_str(docs: Seq<JsonValue>, key: Seq<char>) -> Option<Seq<char>>
    decreases docs.len(),
{
    if docs.len() == 0 {
        None
    } else {
        match get_str(docs.last(), key) {
            Some(v) if docs.last() is Object => Some(v),
            _ => last_str(docs.drop_last(), key),
        }
    }
}

/// Precedence of configuration files: for the keys `mode`, `sort`, `menu`,
/// `menu_flags`, `format`, `tooltip_format` and `unlock_command`, the
/// loaded configuration holds the value of the last document that sets the
/// key as a string, or the default when none does.
pub proof fn law_config_last_document_wins(docs: Seq<JsonValue>)
    ensures
        load_spec(docs).mode == or_else(last_str(docs, "mode"@), default_config().mode),
        load_spec(docs).sort == or_else(last_str(docs, "sort"@), default_config().sort),
        load_spec(docs).menu == or_else(last_str(docs, "menu"@), default_config().menu),
        load_spec(docs).menu_flags == or_else(
            last_str(docs, "menu_flags"@),
            default_config().menu_flags,
        ),
        load_spec(docs).format == or_else(last_str(docs, "format"@), default_config().format),
        load_spec(docs).tooltip_format == or_else(
            last_str(docs, "tooltip_format"@),
            default_config().tooltip_format,
        ),
        load_spec(docs).unlock_command == or_else(
            last_str(docs, "unlock_command"@),
            default_config().unlock_command,
        ),
    decreases docs.len(),
{
    if docs.len() > 0 {
        law_config_last_document_wins(docs.drop_last());
    }
}

/// `open_command` also sets the file manager command, but an explicit
/// `file_manager_command` in the same document wins.
pub proof fn law_open_command_sets_file_manager(c: ConfigView, j: JsonValue)
    requires
        j is Object,
    ensures
        get_str(j, "file_manager_command"@) is None && get_str(j, "open_command"@) is Some
            ==> apply_spec(c, j).file_manager_command == get_str(j, "open_command"@).unwrap(),
        get_str(j, "file_manager_command"@) is Some ==> apply_spec(c, j).file_manager_command
            == get_str(j, "file_manager_command"@).unwrap(),
{
}

/// A document that is not a JSON object changes nothing.
pub proof fn law_non_object_ignored(c: ConfigView, j: JsonValue)
    requires
        !(j is Object),
    ensures
        apply_spec(c, j) == c,
{
}

/// The comment stripper never lengthens a text, in any of its states.
proof fn lemma_strip_not_longer(s: Seq<char>)
    ensures
        strip_code(s).len() <= s.len(),
        strip_line(s).len() <= s.len(),
        strip_block(s).len() <= s.len(),
        strip_string(s, false).len() <= s.len(),
        strip_string(s, true).len() <= s.len(),
    decreases s.len(),
{
    if s.len() > 0 {
        let rest = s.drop_first();
        lemma_strip_not_longer(rest);
        if s.len() >= 2 {
            lemma_strip_not_longer(s.skip(2));
        }
    }
}

/// Stripping comments never makes a text longer.
pub proof fn law_strip_never_longer(s: Seq<char>)
    ensures
        strip_code(s).len() <= s.len(),
{
    lemma_strip_not_longer(s);
}

/// Code that does not start with `/` keeps its first character.
proof fn lemma_strip_first_char(s: Seq<char>)
    requires
        s.len() > 0,
        s[0] != '/',
    ensures
        strip_code(s).len() > 0,
        strip_code(s)[0] == s[0],
{
}

/// What the stripper gives back passes it unchanged, in every state: code,
/// the rest of a line comment, the rest of a block comment and the rest of
/// a string literal.
proof fn lemma_strip_idempotent(s: Seq<char>)
    ensures
        strip_code(strip_code(s)) == strip_code(s),
        strip_code(strip_line(s)) == strip_line(s),
        strip_code(strip_block(s)) == strip_block(s),
        strip_string(strip_string(s, false), false) == strip_string(s, false),
        strip_string(strip_string(s, true), true) == strip_string(s, true),
    decreases s.len(),
{
    if s.len() > 0 {
        let rest = s.drop_first();
        lemma_strip_idempotent(rest);
        if s.len() >= 2 {
            lemma_strip_idempotent(s.skip(2));
        }
        // Code.
        if s[0] == '"' {
            let t = strip_code(s);
            let ss = strip_string(rest, false);
            assert(t == seq!['"'] + ss);
            assert(t.drop_first() =~= ss);
        } else if s[0] == '/' && s.len() > 1 && (s[1] == '/' || s[1] == '*') {
        } else {
            let r = strip_code(rest);
            let t = strip_code(s);
            assert(t == seq![s[0]] + r);
            assert(t.drop_first() =~= r);
            if s[0] == '/' && rest.len() > 0 {
                lemma_strip_first_char(rest);
            }
            if s[0] == '/' && t.len() > 1 {
                assert(t[1] == r[0]);
                assert(r[0] == rest[0]);
            }
        }
        lemma_string_step(s, false);
        lemma_string_step(s, true);
    }
}

/// One character of a string literal: the stripper, run again on what it
/// gave, takes the same branch and gives the same.
proof fn lemma_string_step(s: Seq<char>, e: bool)
    requires
        s.len() > 0,
        strip_code(strip_code(s.drop_first())) == strip_code(s.drop_first()),
        strip_string(strip_string(s.drop_first(), false), false) == strip_string(
            s.drop_first(),
            false,
        ),
        strip_string(strip_string(s.drop_first(), true), true) == strip_string(
            s.drop_first(),
            true,
        ),
    ensures
        strip_string(strip_string(s, e), e) == strip_string(s, e),
{
    let c = s[0];
    let rest = s.drop_first();
    let a = strip_string(s, e);
    let y = if (c as u32) >= 128 {
        strip_string(rest, e)
    } else if e {
        strip_string(rest, false)
    } else if c == '\\' {
        strip_string(rest, true)
    } else if c == '"' {
        strip_code(rest)
    } else {
        strip_string(rest, false)
    };
    assert(a == seq![c] + y);
    assert(a.len() > 0 && a[0] == c);
    assert(a.drop_first() =~= y);
}

/// Stripping comments twice strips no more than stripping once.
pub proof fn law_strip_idempotent(s: Seq<char>)
    ensures
        strip_code(strip_code(s)) == strip_code(s),
{
    lemma_strip_idempotent(s);
}

/// Without `/`, the stripper copies a text whole, in code and in strings.
proof fn lemma_strip_no_slash(s: Seq<char>)
    requires
        forall|i: int| 0 <= i < s.len() ==> s[i] != '/',
    ensures
        strip_code(s) == s,
        strip_string(s, false) == s,
        strip_string(s, true) == s,
    decreases s.len(),
{
    if s.len() > 0 {
        let rest = s.drop_first();
        lemma_strip_no_slash(rest);
        assert(s =~= seq![s[0]] + rest);
    }
}

/// Text without `/` passes the comment stripper unchanged, string literals
/// included.
pub proof fn law_strip_without_slash_unchanged(s: Seq<char>)
    requires
        forall|i: int| 0 <= i < s.len() ==> s[i] != '/',
    ensures
        strip_code(s) == s,
{
    lemma_strip_no_slash(s);
}

/// The rest of a string literal without quotes or backslashes is copied
/// unchanged up to and including its closing quote.
proof fn lemma_string_body(body: Seq<char>, rest: Seq<char>)
    requires
        forall|i: int| 0 <= i < body.len() ==> body[i] != '"' && body[i] != '\\',
    ensures
        strip_string(body + seq!['"'] + rest, false) == body + seq!['"'] + strip_code(rest),
    decreases body.len(),
{
    if body.len() == 0 {
        assert((body + seq!['"'] + rest).drop_first() =~= rest);
        assert(body + seq!['"'] + strip_code(rest) =~= seq!['"'] + strip_code(rest));
    } else {
        let t = body + seq!['"'] + rest;
        assert(t.drop_first() =~= body.drop_first() + seq!['"'] + rest);
        lemma_string_body(body.drop_first(), rest);
        assert(body + seq!['"'] + strip_code(rest) =~= seq![body[0]] + (body.drop_first()
            + seq!['"'] + strip_code(rest)));
    }
}

/// Comment markers inside a string literal are kept: a literal whose body
/// has no quote or backslash is copied whole.
pub proof fn law_strip_keeps_string_literals(body: Seq<char>, rest: Seq<char>)
    requires
        forall|i: int| 0 <= i < body.len() ==> body[i] != '"' && body[i] != '\\',
    ensures
        strip_code(seq!['"'] + body + seq!['"'] + rest) == seq!['"'] + body + seq!['"']
            + strip_code(rest),
{
    let s = seq!['"'] + body + seq!['"'] + rest;
    assert(s.drop_first() =~= body + seq!['"'] + rest);
    lemma_string_body(body, rest);
    assert(seq!['"'] + (body + seq!['"'] + strip_code(rest)) =~= seq!['"'] + body + seq!['"']
        + strip_code(rest));
}

proof fn lemma_line_comment_body(c: Seq<char>, rest: Seq<char>)
    requires
        forall|i: int| 0 <= i < c.len() ==> c[i] != '\n',
    ensures
        strip_line(c + seq!['\n'] + rest) == seq!['\n'] + strip_code(rest),
    decreases c.len(),
{
    let t = c + seq!['\n'] + rest;
    if c.len() == 0 {
        assert(t[0] == '\n');
        assert(t.drop_first() =~= rest);
        assert(strip_line(t) == strip_code(t));
    } else {
        assert(t.drop_first() =~= c.drop_first() + seq!['\n'] + rest);
        lemma_line_comment_body(c.drop_first(), rest);
    }
}

/// A `//` comment is removed up to, not including, the end of its line.
pub proof fn law_strip_line_comment(c: Seq<char>, rest: Seq<char>)
    requires
        forall|i: int| 0 <= i < c.len() ==> c[i] != '\n',
    ensures
        strip_code(seq!['/', '/'] + c + seq!['\n'] + rest) == seq!['\n'] + strip_code(rest),
{
    let s = seq!['/', '/'] + c + seq!['\n'] + rest;
    assert(s.skip(2) =~= c + seq!['\n'] + rest);
    lemma_line_comment_body(c, rest);
}

proof fn lemma_block_comment_body(c: Seq<char>, rest: Seq<char>)
    requires
        forall|i: int| 0 <= i < c.len() ==> c[i] != '*',
    ensures
        strip_block(c + seq!['*', '/'] + rest) == strip_code(rest),
    decreases c.len(),
{
    let t = c + seq!['*', '/'] + rest;
    if c.len() == 0 {
        assert(t.skip(2) =~= rest);
    } else {
        assert(t.drop_first() =~= c.drop_first() + seq!['*', '/'] + rest);
        lemma_block_comment_body(c.drop_first(), rest);
    }
}

/// A `/* */` comment is removed whole.
pub proof fn law_strip_block_comment(c: Seq<char>, rest: Seq<char>)
    requires
        forall|i: int| 0 <= i < c.len() ==> c[i] != '*',
    ensures
        strip_code(seq!['/', '*'] + c + seq!['*', '/'] + rest) == strip_code(rest),
{
    let s = seq!['/', '*'] + c + seq!['*', '/'] + rest;
    assert(s.skip(2) =~= c + seq!['*', '/'] + rest);
    lemma_block_comment_body(c, rest);
}

// ---------------------------------------------------------------------------
// Text
// ---------------------------------------------------------------------------
proof fn lemma_trim_start_no_blank_first(s: Seq<char>)
    ensures
        trim_start_spec(s).len() == 0 || !is_blank(trim_start_spec(s)[0]),
    decreases s.len(),
{
    if s.len() > 0 && is_blank(s[0]) {
        lemma_trim_start_no_blank_first(s.drop_first());
    }
}

proof fn lemma_trim_end_keeps_start(s: Seq<char>)
    requires
        s.len() == 0 || !is_blank(s[0]),
    ensures
        trim_end_spec(s).len() == 0 || (!is_blank(trim_end_spec(s)[0]) && !is_blank(
            trim_end_spec(s).last(),
        )),
    decreases s.len(),
{
    if s.len() > 0 && is_blank(s.last()) {
        if s.len() > 1 {
            assert(s.drop_last()[0] == s[0]);
        }
        lemma_trim_end_keeps_start(s.drop_last());
    }
}

/// Trimming twice trims no more than trimming once.
pub proof fn law_trim_idempotent(s: Seq<char>)
    ensures
        trim_spec(trim_spec(s)) == trim_spec(s),
{
    lemma_trim_start_no_blank_first(s);
    lemma_trim_end_keeps_start(trim_start_spec(s));
    let t = trim_spec(s);
    assert(trim_start_spec(t) == t);
    assert(trim_end_spec(t) == t);
}

// ---------------------------------------------------------------------------
// Language
// ---------------------------------------------------------------------------
/// With no locale variable set, the language is English.
pub proof fn law_unset_locale_is_english(values: Seq<Option<String>>)
    requires
        forall|i: int| 0 <= i < values.len() ==> values[i] is None,
    ensures
        detect_spec(values) == Lang::En,
    decreases values.len(),
{
    if values.len() > 0 {
        law_unset_locale_is_english(values.drop_first());
    }
}

/// The first locale variable that decides wins over the later ones.
pub proof fn law_first_deciding_locale_wins(values: Seq<Option<String>>, i: int)
    requires
        0 <= i < values.len(),
        values[i] is Some,
        locale_rule_spec(values[i].unwrap()@) is Some,
        forall|j: int|
            0 <= j < i ==> (#[trigger] values[j] is None || locale_rule_spec(
                values[j].unwrap()@,
            ) is None),
    ensures
        detect_spec(values) == locale_rule_spec(values[i].unwrap()@).unwrap(),
    decreases i,
{
    if i > 0 {
        assert(values[0] is None || locale_rule_spec(values[0].unwrap()@) is None);
        let rest = values.drop_first();
        assert forall|j: int| 0 <= j < i - 1 implies (#[trigger] rest[j] is None
            || locale_rule_spec(rest[j].unwrap()@) is None) by {
            assert(rest[j] == values[j + 1]);
        }
        law_first_deciding_locale_wins(rest, i - 1);
    }
}

// ---------------------------------------------------------------------------
// Devices
// ---------------------------------------------------------------------------
/// Partition tables, cleartext devices, loop devices and blocks without a
/// device node are never listed, nor blocks on drives that are not
/// removable.
pub proof fn law_candidates_are_removable_volumes(
    b: RawBlock,
    drives: Seq<RawDrive>,
    show_hidden: bool,
    usage: Option<Usage>,
)
    requires
        candidate_spec(b, drives, show_hidden, usage) is Some,
    ensures
        !b.is_partition_table,
        !b.is_cleartext,
        !b.is_loop,
        b.device@.len() > 0,
        b.has_filesystem || b.has_encrypted,
        b.drive@.len() > 0,
        candidate_spec(b, drives, show_hidden, usage).unwrap().hidden ==> show_hidden,
{
}

/// Every listed device comes from one of the blocks.
pub(crate) proof fn lemma_candidate_origin(
    blocks: Seq<RawBlock>,
    drives: Seq<RawDrive>,
    show_hidden: bool,
    usage: Seq<Option<Usage>>,
    k: int,
) -> (i: int)
    requires
        0 <= k < candidates_spec(blocks, drives, show_hidden, usage).len(),
    ensures
        0 <= i < blocks.len(),
        candidate_spec(blocks[i], drives, show_hidden, usage[i]) == Some(
            candidates_spec(blocks, drives, show_hidden, usage)[k],
        ),
    decreases blocks.len(),
{
    let prev = candidates_spec(blocks.drop_last(), drives, show_hidden, usage);
    if k < prev.len() {
        let i = lemma_candidate_origin(blocks.drop_last(), drives, show_hidden, usage, k);
        assert(blocks.drop_last()[i] == blocks[i]);
        i
    } else {
        blocks.len() - 1
    }
}

/// Hidden devices are listed only when the configuration shows them.
pub proof fn law_hidden_listed_only_when_shown(
    blocks: Seq<RawBlock>,
    drives: Seq<RawDrive>,
    show_hidden: bool,
    usage: Seq<Option<Usage>>,
    k: int,
)
    requires
        0 <= k < candidates_spec(blocks, drives, show_hidden, usage).len(),
        candidates_spec(blocks, drives, show_hidden, usage)[k].hidden,
    ensures
        show_hidden,
{
    let i = lemma_candidate_origin(blocks, drives, show_hidden, usage, k);
    law_candidates_are_removable_volumes(blocks[i], drives, show_hidden, usage[i]);
}

/// Every index below `n` occurs in a permutation of `0..n`.
pub(crate) proof fn lemma_permutation_onto(p: Seq<int>, n: int, k: int)
    requires
        is_permutation(p, n),
        0 <= k < n,
    ensures
        exists|i: int| 0 <= i < n && p[i] == k,
{
    assert(p.no_duplicates()) by {
        assert forall|i: int, j: int| 0 <= i < p.len() && 0 <= j < p.len() && i != j implies p[i]
            != p[j] by {
            if i < j {
                assert(p[i] != p[j]);
            } else {
                assert(p[j] != p[i]);
            }
        }
    }
    p.unique_seq_to_set();
    vstd::set_lib::lemma_int_range(0, n);
    let range = vstd::set_lib::set_int_range(0, n);
    assert(p.to_set().subset_of(range)) by {
        assert forall|x: int| p.to_set().contains(x) implies range.contains(x) by {
            let i = choose|i: int| 0 <= i < p.len() && p[i] == x;
            assert(0 <= p[i] < n);
        }
    }
    vstd::set_lib::lemma_len_subset(p.to_set(), range);
    vstd::set_lib::lemma_subset_equality(p.to_set(), range);
    assert(range.contains(k));
    assert(p.to_set().contains(k));
}

/// Two stable arrangements of the same devices agree below `k`.
proof fn lemma_arrangements_agree(
    mode: SortMode,
    inp: Seq<DeviceView>,
    o1: Seq<DeviceView>,
    o2: Seq<DeviceView>,
    p1: Seq<int>,
    p2: Seq<int>,
    k: int,
)
    requires
        arranged_stably(mode, inp, o1, p1),
        arranged_stably(mode, inp, o2, p2),
        0 <= k <= inp.len(),
    ensures
        forall|i: int| 0 <= i < k ==> p1[i] == p2[i],
    decreases k,
{
    if k > 0 {
        let n = inp.len() as int;
        let m = k - 1;
        lemma_arrangements_agree(mode, inp, o1, o2, p1, p2, m);
        let a = p1[m];
        let b = p2[m];
        if a != b {
            lemma_permutation_onto(p2, n, a);
            let j = choose|j: int| 0 <= j < n && p2[j] == a;
            lemma_permutation_onto(p1, n, b);
            let jj = choose|j: int| 0 <= j < n && p1[j] == b;
            if j < m {
                assert(p1[j] == p2[j]);
                assert(p1[j] != p1[m]);
            }
            if jj < m {
                assert(p1[jj] == p2[jj]);
                assert(p2[jj] != p2[m]);
            }
            assert(j > m && jj > m);
            assert(o2[j] == inp[a] && o2[m] == inp[b]);
            assert(o1[m] == inp[a] && o1[jj] == inp[b]);
            assert(!precedes(mode, o2[j], o2[m]));
            assert(!precedes(mode, o1[jj], o1[m]));
            assert(false);
        }
    }
}

/// Sorting is deterministic: two stable arrangements of the same devices by
/// the same order are the same list, so the order of the device list is
/// fixed by the mode and the order in which the blocks were read.
pub proof fn law_sort_is_deterministic(
    mode: SortMode,
    inp: Seq<DeviceView>,
    o1: Seq<DeviceView>,
    o2: Seq<DeviceView>,
)
    requires
        stably_sorted(mode, inp, o1),
        stably_sorted(mode, inp, o2),
    ensures
        o1 == o2,
{
    let p1 = choose|p: Seq<int>| arranged_stably(mode, inp, o1, p);
    let p2 = choose|p: Seq<int>| arranged_stably(mode, inp, o2, p);
    lemma_arrangements_agree(mode, inp, o1, o2, p1, p2, inp.len() as int);
    assert forall|i: int| 0 <= i < o1.len() implies o1[i] == o2[i] by {
        assert(o1[i] == inp[p1[i]]);
        assert(o2[i] == inp[p2[i]]);
    }
    assert(o1 =~= o2);
}

/// Tracking keeps the number of devices.
pub(crate) proof fn lemma_track_len(devs: Seq<DeviceView>, h: History, now: i64)
    ensures
        track(devs, h, now).0.len() == devs.len(),
    decreases devs.len(),
{
    if devs.len() > 0 {
        lemma_track_len(devs.drop_last(), h, now);
    }
}

/// A device keeps the insertion number first given to it: the history never
/// forgets or changes one, and a device already known is listed with it.
pub proof fn law_insertion_number_kept(devs: Seq<DeviceView>, h: History, now: i64, p: Seq<char>)
    requires
        h.insertion_seq.dom().contains(p),
    ensures
        track(devs, h, now).1.insertion_seq.dom().contains(p),
        track(devs, h, now).1.insertion_seq[p] == h.insertion_seq[p],
        forall|k: int|
            0 <= k < devs.len() && #[trigger] track(devs, h, now).0[k].object_path == p
                ==> track(devs, h, now).0[k].insertion_seq == h.insertion_seq[p],
    decreases devs.len(),
{
    if devs.len() > 0 {
        law_insertion_number_kept(devs.drop_last(), h, now, p);
        lemma_track_len(devs.drop_last(), h, now);
        let (prev, h1) = track(devs.drop_last(), h, now);
        assert forall|k: int|
            0 <= k < devs.len() && #[trigger] track(devs, h, now).0[k].object_path == p
                implies track(devs, h, now).0[k].insertion_seq == h.insertion_seq[p] by {
            if k < devs.len() - 1 {
                assert(track(devs, h, now).0[k] == prev[k]);
            }
        }
    }
}

/// A mounted device keeps the mount time first recorded for it; an
/// unmounted device has none.
pub proof fn law_mount_time_kept(d: DeviceView, h: History, now: i64)
    ensures
        !d.mounted ==> track_one(d, h, now).0.mount_time == 0,
        d.mounted && h.mount_time.dom().contains(d.object_path) && h.mount_time[d.object_path]
            > 0 ==> track_one(d, h, now).0.mount_time == h.mount_time[d.object_path],
        d.mounted && !(h.mount_time.dom().contains(d.object_path) && h.mount_time[d.object_path]
            > 0) ==> track_one(d, h, now).0.mount_time == now,
{
}

// ---------------------------------------------------------------------------
// Enumeration and the device model together
// ---------------------------------------------------------------------------
/// A block that another block names as its cleartext device is marked by
/// the enumeration, and a marked block is never listed: only the encrypted
/// container is shown.
pub proof fn law_cleartext_blocks_not_listed(
    b: RawBlock,
    drives: Seq<RawDrive>,
    show_hidden: bool,
    usage: Option<Usage>,
)
    requires
        b.is_cleartext,
    ensures
        candidate_spec(b, drives, show_hidden, usage) is None,
{
}

// ---------------------------------------------------------------------------
// Actions
// ---------------------------------------------------------------------------
/// How many steps at most an action still takes from a stage.
pub open spec fn stage_rank(s: Stage) -> int {
    match s {
        Stage::Start => 5,
        Stage::MountConnect => 4,
        Stage::Mounting => 3,
        Stage::UnmountConnect => 2,
        Stage::EjectConnect => 3,
        Stage::EjectUnmounting => 2,
        Stage::PowerOffConnect => 2,
        Stage::LockConnect => 2,
        Stage::Refreshing => 2,
        Stage::Unmounting => 1,
        Stage::Ejecting => 1,
        Stage::PoweringOff => 1,
        Stage::Locking => 1,
        Stage::Launching => 1,
        Stage::Copying => 1,
        Stage::Finished => 0,
    }
}

/// Every action finishes: each step from an unfinished stage leads to a
/// stage of lower rank, and the action is finished exactly when the step is
/// to exit or to report an error.
pub proof fn law_actions_finish(
    c: ConfigView,
    kind: ActionKind,
    d: DeviceView,
    stage: Stage,
    outcome: Outcome,
)
    ensures
        ({
            let (next, step) = step_spec(c, kind, d, stage, outcome);
            &&& stage != Stage::Finished ==> stage_rank(next) < stage_rank(stage)
            &&& (next == Stage::Finished) <==> (step is Finish || step is Fail)
        }),
{
}

/// An action that does not apply to the device exits with 2 before doing
/// anything; one that applies does not.
pub proof fn law_inapplicable_action_exits_2(c: ConfigView, kind: ActionKind, d: DeviceView)
    ensures
        (step_spec(c, kind, d, Stage::Start, Outcome::Begin).1 == StepView::Finish(2)) <==> !applies(
            kind,
            d,
        ),
{
}

/// A locked volume is never mounted: mounting, opening or copying the path
/// of a locked volume without a mount point fails before any bus work.
pub proof fn law_locked_volume_not_mounted(c: ConfigView, kind: ActionKind, d: DeviceView)
    requires
        d.encrypted && d.locked,
        d.mount_point.len() == 0,
        !d.mounted,
        kind == ActionKind::Mount || kind == ActionKind::Open || kind == ActionKind::Copy,
    ensures
        step_spec(c, kind, d, Stage::Start, Outcome::Begin) == (
            Stage::Finished,
            StepView::Fail("device is locked; unlock it first"@),
        ),
{
}

/// Mounting an unlocked volume mounts its cleartext device.
pub proof fn law_mount_targets_cleartext(c: ConfigView, kind: ActionKind, d: DeviceView)
    requires
        d.cleartext.len() > 0,
        d.cleartext != seq!['/'],
    ensures
        step_spec(c, kind, d, Stage::MountConnect, Outcome::Connected(Ok(()))).1
            matches StepView::Call { object_path, .. } && object_path == d.cleartext,
        filesystem_object(d) == d.cleartext,
{
}

// ---------------------------------------------------------------------------
// Menus
// ---------------------------------------------------------------------------
/// Every action the popup offers applies to its device.
pub proof fn law_popup_actions_apply(d: DeviceView, k: int)
    requires
        0 <= k < device_entries_spec(d).len(),
    ensures
        applies(device_entries_spec(d)[k], d),
{
}

/// Every action the launcher menu offers applies to its device.
pub proof fn law_menu_actions_apply(d: DeviceView, k: int)
    requires
        0 <= k < menu_kinds(d).len(),
    ensures
        applies(menu_kinds(d)[k], d),
{
}

/// The popup offers the same actions as the launcher menu, in the same
/// order.
pub proof fn law_popup_mirrors_launcher(d: DeviceView)
    ensures
        device_entries_spec(d) == menu_kinds(d),
{
}

/// Every launcher-menu row names a listed device and an action that applies
/// to it.
pub proof fn law_menu_rows_valid(devs: Seq<DeviceView>, k: int)
    requires
        0 <= k < menu_entries_spec(devs).len(),
    ensures
        0 <= menu_entries_spec(devs)[k].1 < devs.len(),
        applies(menu_entries_spec(devs)[k].0, devs[menu_entries_spec(devs)[k].1]),
    decreases devs.len(),
{
    let prev = menu_entries_spec(devs.drop_last());
    let rows = device_rows(devs.last(), devs.len() - 1);
    assert(menu_entries_spec(devs) == prev + rows);
    if k < prev.len() {
        law_menu_rows_valid(devs.drop_last(), k);
        assert(devs.drop_last()[prev[k].1] == devs[prev[k].1]);
    } else {
        let q = k - prev.len();
        assert(rows[q].0 == menu_kinds(devs.last())[q]);
        law_menu_actions_apply(devs.last(), q);
    }
}

/// Searching from `k` finds a row at or before `i` with the label of row
/// `i`, when `k <= i`.
proof fn lemma_first_match_reaches(labels: Seq<Seq<char>>, i: int, k: int)
    requires
        0 <= k <= i < labels.len(),
    ensures
        first_match(labels, labels[i], k) matches Some(j) && k <= j <= i && labels[j]
            == labels[i],
    decreases i - k,
{
    if labels[k] != labels[i] {
        lemma_first_match_reaches(labels, i, k + 1);
    }
}

/// The row the user picks is the row that runs: when the menu program
/// prints a row's label (up to surrounding blanks) and the label is not
/// blank, the selection is that row, or an earlier row with the same label.
pub proof fn law_selected_row_is_chosen(labels: Seq<Seq<char>>, i: int, output: Seq<char>)
    requires
        0 <= i < labels.len(),
        trim_spec(output) == labels[i],
        labels[i].len() > 0,
    ensures
        select_spec(labels, output) matches Some(j) && j <= i && labels[j] == labels[i],
{
    lemma_first_match_reaches(labels, i, 0);
}

// ---------------------------------------------------------------------------
// Help text
// ---------------------------------------------------------------------------
/// The help text starts with the program name and the version, followed by
/// the fixed text of the language.
pub proof fn law_usage_names_program_and_version(lang: Lang, version: Seq<char>)
    ensures
        usage_spec(lang, version).take(15 + version.len() as int) == "argvus-storage "@ + version,
        usage_spec(lang, version).skip(15 + version.len() as int) == (match lang {
            Lang::En => USAGE_EN@,
            Lang::Pt => USAGE_PT@,
        }),
{
    reveal_strlit("argvus-storage ");
    let head = "argvus-storage "@ + version;
    assert(head.len() == 15 + version.len());
    assert(usage_spec(lang, version).take(head.len() as int) =~= head);
    assert(usage_spec(lang, version).skip(head.len() as int) =~= (match lang {
        Lang::En => USAGE_EN@,
        Lang::Pt => USAGE_PT@,
    }));
}

// ---------------------------------------------------------------------------
// Device selection
// ---------------------------------------------------------------------------
/// A device found by exact match carries the token as its block node, name
/// or object path.
proof fn lemma_pick_exact_matches(devs: Seq<DeviceView>, token: Seq<char>, k: int)
    ensures
        pick_exact(devs, token, k) matches Some(i) ==> k <= i < devs.len() && (devs[i].block
            == token || devs[i].name == token || devs[i].object_path == token),
    decreases devs.len() - k,
{
    if 0 <= k < devs.len() {
        lemma_pick_exact_matches(devs, token, k + 1);
    }
}

/// Searching by exact match from `k` finds a device at or before `i` when
/// device `i` matches.
proof fn lemma_pick_exact_reaches(devs: Seq<DeviceView>, token: Seq<char>, i: int, k: int)
    requires
        0 <= k <= i < devs.len(),
        devs[i].block == token || devs[i].name == token || devs[i].object_path == token,
    ensures
        pick_exact(devs, token, k) matches Some(j) && j <= i,
    decreases i - k,
{
    if !(devs[k].block == token || devs[k].name == token || devs[k].object_path == token) {
        lemma_pick_exact_reaches(devs, token, i, k + 1);
    }
}

/// An action always finds a device when there is one, and only then; a
/// token that is some device's block node, name or object path selects a
/// device that carries it, the first such.
pub proof fn law_pick_finds_named_device(devs: Seq<DeviceView>, token: Seq<char>, i: int)
    ensures
        (pick_spec(devs, token) is Some) <==> devs.len() > 0,
        pick_spec(devs, token) matches Some(k) ==> 0 <= k < devs.len(),
        token.len() > 0 && 0 <= i < devs.len() && (devs[i].block == token || devs[i].name
            == token || devs[i].object_path == token) ==> (pick_spec(devs, token) matches Some(
            k,
        ) && k <= i && (devs[k].block == token || devs[k].name == token || devs[k].object_path
            == token)),
{
    lemma_pick_exact_matches(devs, token, 0);
    lemma_pick_base_in_range(devs, token, 0);
    if token.len() > 0 && 0 <= i < devs.len() && (devs[i].block == token || devs[i].name == token
        || devs[i].object_path == token) {
        lemma_pick_exact_reaches(devs, token, i, 0);
    }
}

/// A device found by the last component of its path is one of the devices.
proof fn lemma_pick_base_in_range(devs: Seq<DeviceView>, token: Seq<char>, k: int)
    ensures
        crate::cli::pick_base(devs, token, k) matches Some(i) ==> k <= i < devs.len(),
    decreases devs.len() - k,
{
    if 0 <= k < devs.len() {
        lemma_pick_base_in_range(devs, token, k + 1);
    }
}

// ---------------------------------------------------------------------------
// Bar output
// ---------------------------------------------------------------------------
/// The bar always carries the `storage` class and one more, so the class is
/// always written as an array.
pub proof fn law_classes_start_with_storage(devs: Seq<DeviceView>)
    ensures
        classes_spec(devs).len() >= 2,
        classes_spec(devs)[0] == "storage"@,
{
}

/// The tooltip is empty exactly when no device is shown, so the JSON line
/// carries a tooltip exactly when there is a device to list.
pub proof fn law_tooltip_iff_devices_shown(
    c: ConfigView,
    devs: Seq<DeviceView>,
    sizes: Seq<(Seq<char>, Seq<char>, Seq<char>)>,
    lang: Lang,
)
    ensures
        (render_fields(c, devs, sizes, lang).1.len() == 0) <==> (shown_count(c, devs.len() as int)
            == 0),
{
    reveal_strlit("Removable devices");
    reveal_strlit("Dispositivos remov\u{ed}veis");
}

// ---------------------------------------------------------------------------
// Watching
// ---------------------------------------------------------------------------
/// A change signal never refreshes at once: it only makes a refresh
/// pending, and a refresh happens only once the bus was quiet while one was
/// pending; a signal always stops the loop.
pub proof fn law_watch_debounce(pending: bool, event: WatchEvent)
    ensures
        watch_step_spec(pending, event).1 == WatchAction::Refresh <==> (pending && event
            == WatchEvent::Quiet),
        event == WatchEvent::Signal ==> watch_step_spec(pending, event).1 == WatchAction::Stop,
        event == WatchEvent::Message(true) ==> watch_step_spec(pending, event).0,
{
}

} // verus!
