//! Small computations around process launching and filesystem statistics.
use vstd::prelude::*;

use crate::text::{owned, push_str, shell_quote, shell_quote_spec};

verus! {

/// The desktop notification command for a summary and body.
pub open spec fn notify_command_spec(summary: Seq<char>, body: Seq<char>, critical: bool) -> Seq<
    char,
> {
    "notify-send --app-name=argvus-storage "@ + (if critical {
        "-u critical "@
    } else {
        "-u normal "@
    }) + shell_quote_spec(summary) + if body.len() > 0 {
        seq![' '] + shell_quote_spec(body)
    } else {
        Seq::empty()
    }
}

/// The `notify-send` command line for a notification (the body is left out
/// when empty).
pub fn notify_command(summary: &str, body: &str, critical: bool) -> (r: String)
    ensures
        r@ == notify_command_spec(summary@, body@, critical),
{
    let mut cmd = owned("notify-send --app-name=argvus-storage ");
    if critical {
        push_str(&mut cmd, "-u critical ");
    } else {
        push_str(&mut cmd, "-u normal ");
    }
    let s = shell_quote(summary);
    push_str(&mut cmd, s.as_str());
    let ghost head = cmd@;
    if !body.is_empty() {
        cmd.push(' ');
        let b = shell_quote(body);
        push_str(&mut cmd, b.as_str());
        assert(cmd@ =~= head + (seq![' '] + shell_quote_spec(body@)));
    } else {
        assert(cmd@ =~= head + Seq::<char>::empty());
    }
    cmd
}

/// Filesystem usage from `statvfs` fields: total and free bytes from the
/// block counts and fragment size (512 when the size is 0), with wrapping
/// multiplication; used is total minus free, not below 0; read-only when the
/// read-only bit of the flags is set.
pub open spec fn statvfs_usage_spec(frsize: u64, blocks: u64, bavail: u64, flags: u64, rdonly_bit: u64) -> (
    u64,
    u64,
    u64,
    bool,
) {
    let fr: u64 = if frsize > 0 {
        frsize
    } else {
        512
    };
    let total = blocks.wrapping_mul(fr);
    let free = bavail.wrapping_mul(fr);
    (total, total.saturating_sub(free), free, (flags & rdonly_bit) != 0)
}

/// Total, used and free bytes and the read-only state, from the fields of
/// a `statvfs` result.
pub fn statvfs_usage(frsize: u64, blocks: u64, bavail: u64, flags: u64, rdonly_bit: u64) -> (r: (
    u64,
    u64,
    u64,
    bool,
))
    ensures
        r == statvfs_usage_spec(frsize, blocks, bavail, flags, rdonly_bit),
{
    let fr: u64 = if frsize > 0 {
        frsize
    } else {
        512
    };
    let total = blocks.wrapping_mul(fr);
    let free = bavail.wrapping_mul(fr);
    let used = total.saturating_sub(free);
    (total, used, free, (flags & rdonly_bit) != 0)
}

} // verus!
