//! Device actions (mount, unmount, eject, power off, lock, unlock, open,
//! copy path) as a state machine: the driver performs each step (bus
//! connection, UDisks2 call, process launch, clipboard) and hands back what
//! it produced.
use vstd::prelude::*;

use crate::config::Config;
use crate::device::{Device, DeviceView};
use crate::text::{owned, push_str, shell_quote, shell_quote_spec, str_eq};

verus! {

/// An action on a device.
#[derive(Clone, Copy, PartialEq, Eq, Debug, Structural)]
pub enum ActionKind {
    Mount,
    Unmount,
    Eject,
    PowerOff,
    Lock,
    Unlock,
    Open,
    Copy,
}

/// Performs actions with a configuration.
pub struct Actions<'a> {
    config: &'a Config,
}

/// Where an action stands, between two steps.
#[derive(Clone, Copy, PartialEq, Eq, Debug, Structural)]
pub enum Stage {
    /// Nothing done yet.
    Start,
    /// Connecting in order to mount.
    MountConnect,
    /// Mounting.
    Mounting,
    /// Connecting in order to unmount.
    UnmountConnect,
    /// Unmounting.
    Unmounting,
    /// Connecting in order to eject.
    EjectConnect,
    /// Unmounting before an eject.
    EjectUnmounting,
    /// Ejecting.
    Ejecting,
    /// Connecting in order to power off.
    PowerOffConnect,
    /// Powering off.
    PoweringOff,
    /// Connecting in order to lock.
    LockConnect,
    /// Locking.
    Locking,
    /// Reading the device again after mounting it, for its mount point.
    Refreshing,
    /// Launching a command.
    Launching,
    /// Setting the clipboard.
    Copying,
    /// Finished.
    Finished,
}

/// Why the clipboard could not be set.
pub enum CopyError {
    /// The clipboard could not be opened; the error's text.
    Unavailable(String),
    /// The text could not be set; the error's text.
    SetFailed(String),
}

/// What the driver produced for the previous step.
pub enum Outcome {
    /// Nothing yet: the action begins.
    Begin,
    /// The bus connection: the error text when it failed.
    Connected(Result<(), String>),
    /// A UDisks2 method call: the error text when it failed.
    Called(Result<(), String>),
    /// A launch: the process id, negative when it failed.
    Launched(i32),
    /// The devices read again (`None` when the bus could not be reached).
    Refreshed(Option<Vec<Device>>),
    /// The clipboard.
    Copied(Result<(), CopyError>),
}

/// The next thing for the driver to do.
#[derive(Debug, PartialEq, Eq)]
pub enum Step {
    /// Connect to the system bus.
    Connect,
    /// Call `method` of `interface` on `object_path`, with the option
    /// `auth.no_user_interaction` set when `no_user_interaction` holds.
    Call { object_path: String, interface: String, method: String, no_user_interaction: bool },
    /// Start a shell command without waiting.
    Launch(String),
    /// Read the devices again.
    Refresh,
    /// Put a text on the clipboard.
    CopyText(String),
    /// Report the error (notification and standard error) and exit with 1.
    Fail(String),
    /// Exit with this code.
    Finish(i32),
}

/// The view of a [`Step`].
pub enum StepView {
    Connect,
    Call { object_path: Seq<char>, interface: Seq<char>, method: Seq<char>, no_user_interaction: bool },
    Launch(Seq<char>),
    Refresh,
    CopyText(Seq<char>),
    Fail(Seq<char>),
    Finish(i32),
}

/// The view of a step.
pub open spec fn step_view(s: Step) -> StepView {
    match s {
        Step::Connect => StepView::Connect,
        Step::Call { object_path, interface, method, no_user_interaction } => StepView::Call {
            object_path: object_path@,
            interface: interface@,
            method: method@,
            no_user_interaction,
        },
        Step::Launch(c) => StepView::Launch(c@),
        Step::Refresh => StepView::Refresh,
        Step::CopyText(t) => StepView::CopyText(t@),
        Step::Fail(m) => StepView::Fail(m@),
        Step::Finish(c) => StepView::Finish(c),
    }
}

/// Whether an action applies to a device in its state; when it does not,
/// the action finishes with code 2 and does nothing. Open and copy always
/// apply.
pub open spec fn applies(kind: ActionKind, d: DeviceView) -> bool {
    match kind {
        ActionKind::Mount => !d.mounted,
        ActionKind::Unmount => d.mounted,
        ActionKind::Eject => d.ejectable,
        ActionKind::PowerOff => d.can_power_off,
        ActionKind::Lock => d.encrypted && !d.locked,
        ActionKind::Unlock => d.encrypted && d.locked,
        ActionKind::Open => true,
        ActionKind::Copy => true,
    }
}

/// The object holding a device's filesystem: the cleartext device of an
/// unlocked volume, else the block itself.
pub open spec fn filesystem_object(d: DeviceView) -> Seq<char> {
    if d.cleartext.len() > 0 && d.cleartext != seq!['/'] {
        d.cleartext
    } else {
        d.object_path
    }
}

/// A call on the filesystem interface, without user interaction.
pub open spec fn fs_call(d: DeviceView, method: Seq<char>) -> StepView {
    StepView::Call {
        object_path: filesystem_object(d),
        interface: "org.freedesktop.UDisks2.Filesystem"@,
        method: method,
        no_user_interaction: true,
    }
}

/// A call on the drive interface, without user interaction.
pub open spec fn drive_call(d: DeviceView, method: Seq<char>) -> StepView {
    StepView::Call {
        object_path: d.drive_path,
        interface: "org.freedesktop.UDisks2.Drive"@,
        method: method,
        no_user_interaction: true,
    }
}

/// The step that mounting starts with: refused for a locked volume.
pub open spec fn mount_start(d: DeviceView) -> (Stage, StepView) {
    if d.encrypted && d.locked {
        (Stage::Finished, StepView::Fail("device is locked; unlock it first"@))
    } else {
        (Stage::MountConnect, StepView::Connect)
    }
}

/// The step that resolving a mount point starts with: the mount point when
/// there is one (`None`), else mounting first.
pub open spec fn resolve_start(d: DeviceView) -> Option<(Stage, StepView)> {
    if d.mount_point.len() > 0 {
        None
    } else {
        Some(mount_start(d))
    }
}

/// The terminal command that asks for the passphrase and unlocks the block.
pub open spec fn unlock_command_spec(c: Seq<char>, d: DeviceView) -> Seq<char> {
    c + " udisksctl unlock --block-device "@ + shell_quote_spec(d.block)
}

/// The file manager command for a mount point.
pub open spec fn open_command_spec(c: Seq<char>, target: Seq<char>) -> Seq<char> {
    c + seq![' '] + shell_quote_spec(target)
}

/// What follows once the mount point `target` is known: launch the file
/// manager on it (open) or copy it (copy).
pub open spec fn use_target(kind: ActionKind, fm: Seq<char>, target: Seq<char>) -> (
    Stage,
    StepView,
) {
    if kind == ActionKind::Copy {
        (Stage::Copying, StepView::CopyText(target))
    } else {
        (Stage::Launching, StepView::Launch(open_command_spec(fm, target)))
    }
}

/// The first device with the given object path.
pub open spec fn find_by_path(devs: Seq<Device>, path: Seq<char>) -> Option<Device>
    decreases devs.len(),
{
    if devs.len() == 0 {
        None
    } else if devs[0].object_path@ == path {
        Some(devs[0])
    } else {
        find_by_path(devs.drop_first(), path)
    }
}

/// The error text for a connection or call failure.
pub open spec fn failed(e: Seq<char>) -> (Stage, StepView) {
    (Stage::Finished, StepView::Fail(e))
}

/// The transition function: from the stage and the outcome of the previous
/// step to the next stage and step. An outcome that does not belong to the
/// stage ends the action with code 1.
pub open spec fn step_spec(
    c: crate::config::ConfigView,
    kind: ActionKind,
    d: DeviceView,
    stage: Stage,
    outcome: Outcome,
) -> (Stage, StepView) {
    let done = (Stage::Finished, StepView::Finish(0));
    let stray = (Stage::Finished, StepView::Finish(1));
    match (stage, outcome) {
        (Stage::Start, Outcome::Begin) => if !applies(kind, d) {
            (Stage::Finished, StepView::Finish(2))
        } else {
            match kind {
                ActionKind::Mount => mount_start(d),
                ActionKind::Unmount => (Stage::UnmountConnect, StepView::Connect),
                ActionKind::Eject => (Stage::EjectConnect, StepView::Connect),
                ActionKind::PowerOff => (Stage::PowerOffConnect, StepView::Connect),
                ActionKind::Lock => (Stage::LockConnect, StepView::Connect),
                ActionKind::Unlock => (
                    Stage::Launching,
                    StepView::Launch(unlock_command_spec(c.unlock_command, d)),
                ),
                _ => match resolve_start(d) {
                    Some(s) => s,
                    None => use_target(kind, c.file_manager_command, d.mount_point),
                },
            }
        },
        (Stage::MountConnect, Outcome::Connected(r)) => match r {
            Ok(_) => (Stage::Mounting, fs_call(d, "Mount"@)),
            Err(e) => failed(e@),
        },
        (Stage::Mounting, Outcome::Called(r)) => match r {
            Ok(_) => if kind == ActionKind::Mount {
                done
            } else {
                (Stage::Refreshing, StepView::Refresh)
            },
            Err(e) => failed(e@),
        },
        (Stage::Refreshing, Outcome::Refreshed(devs)) => {
            let fresh = match devs {
                Some(v) => find_by_path(v@, d.object_path),
                None => None,
            };
            match fresh {
                Some(f) if f.mount_point@.len() > 0 => use_target(
                    kind,
                    c.file_manager_command,
                    f.mount_point@,
                ),
                _ => failed("device mounted but mount point could not be resolved"@),
            }
        },
        (Stage::UnmountConnect, Outcome::Connected(r)) => match r {
            Ok(_) => (Stage::Unmounting, fs_call(d, "Unmount"@)),
            Err(e) => failed(e@),
        },
        (Stage::Unmounting, Outcome::Called(r)) => match r {
            Ok(_) => done,
            Err(e) => failed(e@),
        },
        (Stage::EjectConnect, Outcome::Connected(r)) => match r {
            Ok(_) => if d.mounted {
                (Stage::EjectUnmounting, fs_call(d, "Unmount"@))
            } else if d.drive_path.len() == 0 {
                failed("device has no drive to eject"@)
            } else {
                (Stage::Ejecting, drive_call(d, "Eject"@))
            },
            Err(e) => failed(e@),
        },
        (Stage::EjectUnmounting, Outcome::Called(r)) => match r {
            Ok(_) => if d.drive_path.len() == 0 {
                failed("device has no drive to eject"@)
            } else {
                (Stage::Ejecting, drive_call(d, "Eject"@))
            },
            Err(e) => failed(e@),
        },
        (Stage::Ejecting, Outcome::Called(r)) => match r {
            Ok(_) => done,
            Err(e) => failed(e@),
        },
        (Stage::PowerOffConnect, Outcome::Connected(r)) => match r {
            Ok(_) => if d.drive_path.len() == 0 {
                failed("device has no drive to power off"@)
            } else {
                (Stage::PoweringOff, drive_call(d, "PowerOff"@))
            },
            Err(e) => failed(e@),
        },
        (Stage::PoweringOff, Outcome::Called(r)) => match r {
            Ok(_) => done,
            Err(e) => failed(e@),
        },
        (Stage::LockConnect, Outcome::Connected(r)) => match r {
            Ok(_) => (
                Stage::Locking,
                StepView::Call {
                    object_path: d.object_path,
                    interface: "org.freedesktop.UDisks2.Encrypted"@,
                    method: "Lock"@,
                    no_user_interaction: false,
                },
            ),
            Err(e) => failed(e@),
        },
        (Stage::Locking, Outcome::Called(r)) => match r {
            Ok(_) => done,
            Err(e) => failed(e@),
        },
        (Stage::Launching, Outcome::Launched(pid)) => if pid < 0 {
            if kind == ActionKind::Unlock {
                failed("failed to launch unlock terminal"@)
            } else {
                failed("failed to launch "@ + c.file_manager_command)
            }
        } else {
            done
        },
        (Stage::Copying, Outcome::Copied(r)) => match r {
            Ok(_) => done,
            Err(CopyError::Unavailable(e)) => failed("clipboard unavailable: "@ + e@),
            Err(CopyError::SetFailed(e)) => failed("failed to set clipboard: "@ + e@),
        },
        _ => stray,
    }
}

fn lit(s: &str) -> (r: String)
    ensures
        r@ == s@,
{
    owned(s)
}

fn concat(a: &str, b: &str) -> (r: String)
    ensures
        r@ == a@ + b@,
{
    let mut s = owned(a);
    push_str(&mut s, b);
    s
}

fn fs_call_exec(d: &Device, method: &str) -> (r: Step)
    ensures
        step_view(r) == fs_call(d@, method@),
{
    let target = if !d.cleartext.is_empty() && !str_eq(d.cleartext.as_str(), "/") {
        d.cleartext.clone()
    } else {
        d.object_path.clone()
    };
    proof {
        reveal_strlit("/");
        assert("/"@ =~= seq!['/']);
    }
    Step::Call {
        object_path: target,
        interface: lit("org.freedesktop.UDisks2.Filesystem"),
        method: lit(method),
        no_user_interaction: true,
    }
}

fn drive_call_exec(d: &Device, method: &str) -> (r: Step)
    ensures
        step_view(r) == drive_call(d@, method@),
{
    Step::Call {
        object_path: d.drive_path.clone(),
        interface: lit("org.freedesktop.UDisks2.Drive"),
        method: lit(method),
        no_user_interaction: true,
    }
}

fn fail(e: &str) -> (r: (Stage, Step))
    ensures
        r.0 == failed(e@).0,
        step_view(r.1) == failed(e@).1,
{
    (Stage::Finished, Step::Fail(owned(e)))
}

fn find_fresh(devs: &Vec<Device>, path: &str) -> (r: Option<usize>)
    ensures
        match r {
            Some(k) => k < devs@.len() && find_by_path(devs@, path@) == Some(devs@[k as int]),
            None => find_by_path(devs@, path@) is None,
        },
{
    let mut i: usize = 0;
    assert(devs@.skip(0) =~= devs@);
    while i < devs.len()
        invariant
            i <= devs@.len(),
            find_by_path(devs@, path@) == find_by_path(devs@.skip(i as int), path@),
        decreases devs.len() - i,
    {
        assert(devs@.skip(i as int)[0] == devs@[i as int]);
        if str_eq(devs[i].object_path.as_str(), path) {
            return Some(i);
        }
        assert(devs@.skip(i as int).drop_first() =~= devs@.skip(i + 1));
        i += 1;
    }
    None
}

impl<'a> Actions<'a> {
    /// Actions with `config`.
    pub fn new(config: &'a Config) -> (r: Self)
        ensures
            r.config() == *config,
    {
        Actions { config }
    }

    /// The configuration.
    pub closed spec fn config(&self) -> Config {
        *self.config
    }

    /// Whether `kind` applies to `d`.
    pub fn applies(kind: ActionKind, d: &Device) -> (r: bool)
        ensures
            r == applies(kind, d@),
    {
        match kind {
            ActionKind::Mount => !d.mounted,
            ActionKind::Unmount => d.mounted,
            ActionKind::Eject => d.ejectable,
            ActionKind::PowerOff => d.can_power_off,
            ActionKind::Lock => d.encrypted && !d.locked,
            ActionKind::Unlock => d.encrypted && d.locked,
            ActionKind::Open => true,
            ActionKind::Copy => true,
        }
    }

    fn mount_start(d: &Device) -> (r: (Stage, Step))
        ensures
            r.0 == mount_start(d@).0,
            step_view(r.1) == mount_start(d@).1,
    {
        if d.encrypted && d.locked {
            fail("device is locked; unlock it first")
        } else {
            (Stage::MountConnect, Step::Connect)
        }
    }

    fn use_target(&self, kind: ActionKind, target: &str) -> (r: (Stage, Step))
        ensures
            r.0 == use_target(kind, self.config()@.file_manager_command, target@).0,
            step_view(r.1) == use_target(kind, self.config()@.file_manager_command, target@).1,
    {
        if kind == ActionKind::Copy {
            (Stage::Copying, Step::CopyText(owned(target)))
        } else {
            let mut cmd = self.config.file_manager_command.clone();
            cmd.push(' ');
            let quoted = shell_quote(target);
            push_str(&mut cmd, quoted.as_str());
            assert(cmd@ =~= open_command_spec(self.config()@.file_manager_command, target@));
            (Stage::Launching, Step::Launch(cmd))
        }
    }

    /// The step that starts `kind` on `d`.
    fn begin(&self, kind: ActionKind, d: &Device) -> (r: (Stage, Step))
        ensures
            r.0 == step_spec(self.config()@, kind, d@, Stage::Start, Outcome::Begin).0,
            step_view(r.1) == step_spec(self.config()@, kind, d@, Stage::Start, Outcome::Begin).1,
    {
        if !Actions::applies(kind, d) {
            return (Stage::Finished, Step::Finish(2));
        }
        match kind {
            ActionKind::Mount => Actions::mount_start(d),
            ActionKind::Unmount => (Stage::UnmountConnect, Step::Connect),
            ActionKind::Eject => (Stage::EjectConnect, Step::Connect),
            ActionKind::PowerOff => (Stage::PowerOffConnect, Step::Connect),
            ActionKind::Lock => (Stage::LockConnect, Step::Connect),
            ActionKind::Unlock => {
                let mut cmd = self.config.unlock_command.clone();
                push_str(&mut cmd, " udisksctl unlock --block-device ");
                let quoted = shell_quote(d.block.as_str());
                push_str(&mut cmd, quoted.as_str());
                (Stage::Launching, Step::Launch(cmd))
            },
            _ => {
                if !d.mount_point.is_empty() {
                    self.use_target(kind, d.mount_point.as_str())
                } else {
                    Actions::mount_start(d)
                }
            },
        }
    }

    /// The next stage and step of `kind` on `d`, from the current stage and
    /// what the previous step produced.
    pub fn step(&self, kind: ActionKind, d: &Device, stage: Stage, outcome: Outcome) -> (r: (
        Stage,
        Step,
    ))
        ensures
            r.0 == step_spec(self.config()@, kind, d@, stage, outcome).0,
            step_view(r.1) == step_spec(self.config()@, kind, d@, stage, outcome).1,
    {
        let ghost o = outcome;
        match (stage, outcome) {
            (Stage::Start, Outcome::Begin) => self.begin(kind, d),
            (Stage::MountConnect, Outcome::Connected(r)) => match r {
                Ok(_) => (Stage::Mounting, fs_call_exec(d, "Mount")),
                Err(e) => (Stage::Finished, Step::Fail(e)),
            },
            (Stage::Mounting, Outcome::Called(r)) => match r {
                Ok(_) => if kind == ActionKind::Mount {
                    (Stage::Finished, Step::Finish(0))
                } else {
                    (Stage::Refreshing, Step::Refresh)
                },
                Err(e) => (Stage::Finished, Step::Fail(e)),
            },
            (Stage::Refreshing, Outcome::Refreshed(devs)) => {
                match devs {
                    Some(v) => match find_fresh(&v, d.object_path.as_str()) {
                        Some(k) => {
                            if !v[k].mount_point.is_empty() {
                                self.use_target(kind, v[k].mount_point.as_str())
                            } else {
                                fail("device mounted but mount point could not be resolved")
                            }
                        },
                        None => fail("device mounted but mount point could not be resolved"),
                    },
                    None => fail("device mounted but mount point could not be resolved"),
                }
            },
            (Stage::UnmountConnect, Outcome::Connected(r)) => match r {
                Ok(_) => (Stage::Unmounting, fs_call_exec(d, "Unmount")),
                Err(e) => (Stage::Finished, Step::Fail(e)),
            },
            (Stage::Unmounting, Outcome::Called(r)) => match r {
                Ok(_) => (Stage::Finished, Step::Finish(0)),
                Err(e) => (Stage::Finished, Step::Fail(e)),
            },
            (Stage::EjectConnect, Outcome::Connected(r)) => match r {
                Ok(_) => if d.mounted {
                    (Stage::EjectUnmounting, fs_call_exec(d, "Unmount"))
                } else if d.drive_path.is_empty() {
                    fail("device has no drive to eject")
                } else {
                    (Stage::Ejecting, drive_call_exec(d, "Eject"))
                },
                Err(e) => (Stage::Finished, Step::Fail(e)),
            },
            (Stage::EjectUnmounting, Outcome::Called(r)) => match r {
                Ok(_) => if d.drive_path.is_empty() {
                    fail("device has no drive to eject")
                } else {
                    (Stage::Ejecting, drive_call_exec(d, "Eject"))
                },
                Err(e) => (Stage::Finished, Step::Fail(e)),
            },
            (Stage::Ejecting, Outcome::Called(r)) => match r {
                Ok(_) => (Stage::Finished, Step::Finish(0)),
                Err(e) => (Stage::Finished, Step::Fail(e)),
            },
            (Stage::PowerOffConnect, Outcome::Connected(r)) => match r {
                Ok(_) => if d.drive_path.is_empty() {
                    fail("device has no drive to power off")
                } else {
                    (Stage::PoweringOff, drive_call_exec(d, "PowerOff"))
                },
                Err(e) => (Stage::Finished, Step::Fail(e)),
            },
            (Stage::PoweringOff, Outcome::Called(r)) => match r {
                Ok(_) => (Stage::Finished, Step::Finish(0)),
                Err(e) => (Stage::Finished, Step::Fail(e)),
            },
            (Stage::LockConnect, Outcome::Connected(r)) => match r {
                Ok(_) => (
                    Stage::Locking,
                    Step::Call {
                        object_path: d.object_path.clone(),
                        interface: lit("org.freedesktop.UDisks2.Encrypted"),
                        method: lit("Lock"),
                        no_user_interaction: false,
                    },
                ),
                Err(e) => (Stage::Finished, Step::Fail(e)),
            },
            (Stage::Locking, Outcome::Called(r)) => match r {
                Ok(_) => (Stage::Finished, Step::Finish(0)),
                Err(e) => (Stage::Finished, Step::Fail(e)),
            },
            (Stage::Launching, Outcome::Launched(pid)) => if pid < 0 {
                if kind == ActionKind::Unlock {
                    fail("failed to launch unlock terminal")
                } else {
                    (
                        Stage::Finished,
                        Step::Fail(
                            concat("failed to launch ", self.config.file_manager_command.as_str()),
                        ),
                    )
                }
            } else {
                (Stage::Finished, Step::Finish(0))
            },
            (Stage::Copying, Outcome::Copied(r)) => match r {
                Ok(_) => (Stage::Finished, Step::Finish(0)),
                Err(CopyError::Unavailable(e)) => (
                    Stage::Finished,
                    Step::Fail(concat("clipboard unavailable: ", e.as_str())),
                ),
                Err(CopyError::SetFailed(e)) => (
                    Stage::Finished,
                    Step::Fail(concat("failed to set clipboard: ", e.as_str())),
                ),
            },
            _ => (Stage::Finished, Step::Finish(1)),
        }
    }
}

} // verus!
