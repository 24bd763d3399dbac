//! The command line: arguments, commands, device selection and messages.
use vstd::prelude::*;

use crate::actions::ActionKind;
use crate::config::{string_views, Config};
use crate::device::{Device, DeviceView};
use crate::i18n::{tr, Lang};
use crate::renderer::tr_spec;
use crate::text::{basename, basename_spec, owned, push_str, str_eq};

verus! {

/// The help text in English after the program name and version.
pub const USAGE_EN: &'static str = " - removable storage module for waybar (UDisks2)\n\
        \n\
        Usage: argvus-storage [options] <command> [device]\n\
        \n\
        Commands:\n\
        \x20 watch        emit a JSON line for waybar whenever devices change (default)\n\
        \x20 once         emit a single JSON line and exit\n\
        \x20 list         print removable storage devices\n\
        \x20 devices      choose a device and open it in the file manager\n\
        \x20 menu         interactive context menu (gui or rofi mode)\n\
        \x20 open         open the device (mounts it first if needed)\n\
        \x20 mount        mount the device\n\
        \x20 unmount      unmount the device\n\
        \x20 eject        eject the media\n\
        \x20 poweroff     power off the drive\n\
        \x20 lock         lock an unlocked LUKS volume\n\
        \x20 unlock       unlock a locked LUKS volume (passphrase in terminal)\n\
        \x20 copy         copy the mount path to the clipboard\n\
        \n\
        [device] selects a device by block node (/dev/sdb1), label, name or\n\
        object path; defaults to the first device when omitted.\n\
        \n\
        Options:\n\
        \x20 --config <path>  use an explicit config file\n\
        \x20 --x <px>        pin the menu X to a position (gui mode)\n\
        \x20 --y <px>        pin the menu Y to a position (gui mode)\n\
        \x20 -h, --help       show this help\n\
        \x20 -v, --version    print the version";

/// The help text in Portuguese after the program name and version.
pub const USAGE_PT: &'static str = " - m\u{f3}dulo de armazenamento remov\u{ed}vel para waybar (UDisks2)\n\
        \n\
        Uso: argvus-storage [op\u{e7}\u{f5}es] <comando> [dispositivo]\n\
        \n\
        Comandos:\n\
        \x20 watch        emite uma linha JSON para a waybar quando os dispositivos mudam (padr\u{e3}o)\n\
        \x20 once         emite uma \u{fa}nica linha JSON e sai\n\
        \x20 list         lista os dispositivos de armazenamento remov\u{ed}veis\n\
        \x20 devices      escolhe um dispositivo e abre no gerenciador de arquivos\n\
        \x20 menu         menu de contexto interativo (modo gui ou rofi)\n\
        \x20 open         abre o dispositivo (montando antes, se necess\u{e1}rio)\n\
        \x20 mount        monta o dispositivo\n\
        \x20 unmount      desmonta o dispositivo\n\
        \x20 eject        ejeta a m\u{ed}dia\n\
        \x20 poweroff     desliga a unidade\n\
        \x20 lock         bloqueia um volume LUKS desbloqueado\n\
        \x20 unlock       desbloqueia um volume LUKS bloqueado (senha no terminal)\n\
        \x20 copy         copia o ponto de montagem para a \u{e1}rea de transfer\u{ea}ncia\n\
        \n\
        [dispositivo] seleciona um dispositivo por n\u{f3} de bloco (/dev/sdb1), r\u{f3}tulo,\n\
        nome ou caminho de objeto; usa o primeiro dispositivo quando omitido.\n\
        \n\
        Op\u{e7}\u{f5}es:\n\
        \x20 --config <caminho>  usa um arquivo de configura\u{e7}\u{e3}o expl\u{ed}cito\n\
        \x20 --x <px>        fixa o X do menu em uma posi\u{e7}\u{e3}o (modo gui)\n\
        \x20 --y <px>        fixa o Y do menu em uma posi\u{e7}\u{e3}o (modo gui)\n\
        \x20 -h, --help       mostra esta ajuda\n\
        \x20 -v, --version    imprime a vers\u{e3}o";

/// The help text for `lang` and `version`: the program name and the
/// version, then the text in that language.
pub open spec fn usage_spec(lang: Lang, version: Seq<char>) -> Seq<char> {
    "argvus-storage "@ + version + tr_spec(lang, USAGE_EN@, USAGE_PT@)
}

/// The help text, with the version filled in.
pub fn usage_text(lang: Lang, version: &str) -> (r: String)
    ensures
        r@ == usage_spec(lang, version@),
{
    let mut s = owned("argvus-storage ");
    push_str(&mut s, version);
    push_str(&mut s, tr(lang, USAGE_EN, USAGE_PT));
    s
}

/// Whether `c` is an ASCII decimal digit.
pub open spec fn is_digit(c: char) -> bool {
    '0' <= c && c <= '9'
}

/// The value of a string of decimal digits.
pub open spec fn digits_value(s: Seq<char>) -> int
    decreases s.len(),
{
    if s.len() == 0 {
        0
    } else {
        digits_value(s.drop_last()) * 10 + (s.last() as int - '0' as int)
    }
}

/// A string of one or more decimal digits.
pub open spec fn all_digits(s: Seq<char>) -> bool {
    s.len() > 0 && forall|i: int| 0 <= i < s.len() ==> is_digit(#[trigger] s[i])
}

/// The decimal reading of an `i32`: an optional `+` or `-`, then one or
/// more digits, the value within the range of `i32`; anything else (blanks
/// included) reads as nothing.
pub open spec fn parse_i32(s: Seq<char>) -> Option<i32> {
    let negative = s.len() > 0 && s[0] == '-';
    let body = if s.len() > 0 && (s[0] == '-' || s[0] == '+') {
        s.drop_first()
    } else {
        s
    };
    let v = if negative {
        -digits_value(body)
    } else {
        digits_value(body)
    };
    if all_digits(body) && i32::MIN <= v <= i32::MAX {
        Some(v as i32)
    } else {
        None
    }
}

/// Calls `str::parse::<i32>`, keeping the value when it parses. Its
/// documentation gives the accepted form: an optional `+` or `-` sign
/// followed by digits, any other character being an error, and an error
/// for a value out of range.
#[verifier::external_body]
fn parse_i32_exec(s: &str) -> (r: Option<i32>)
    ensures
        r == parse_i32(s@),
{
    s.parse::<i32>().ok()
}

/// The options and positional arguments read so far.
pub struct CliArgs {
    pub config_path: String,
    pub positional: Vec<String>,
    pub fixed_x: Option<i32>,
    pub fixed_y: Option<i32>,
}

/// The view of [`CliArgs`].
pub struct CliArgsView {
    pub config_path: Seq<char>,
    pub positional: Seq<Seq<char>>,
    pub fixed_x: Option<i32>,
    pub fixed_y: Option<i32>,
}

/// The view of parsed arguments.
pub open spec fn cli_view(a: CliArgs) -> CliArgsView {
    CliArgsView {
        config_path: a.config_path@,
        positional: string_views(a.positional@),
        fixed_x: a.fixed_x,
        fixed_y: a.fixed_y,
    }
}

/// An option that needs a value.
#[derive(Clone, Copy, PartialEq, Eq, Debug, Structural)]
pub enum ValueFlag {
    Config,
    X,
    Y,
}

/// What the command line asks for.
pub enum Parsed {
    /// Run with these arguments.
    Run(CliArgs),
    /// Print the help text.
    Help,
    /// Print the version.
    Version,
    /// An option is missing its value.
    Missing(ValueFlag),
}

/// The view of [`Parsed`].
pub enum ParsedView {
    Run(CliArgsView),
    Help,
    Version,
    Missing(ValueFlag),
}

/// The view of a parse result.
pub open spec fn parsed_view(p: Parsed) -> ParsedView {
    match p {
        Parsed::Run(a) => ParsedView::Run(cli_view(a)),
        Parsed::Help => ParsedView::Help,
        Parsed::Version => ParsedView::Version,
        Parsed::Missing(f) => ParsedView::Missing(f),
    }
}

/// Reads the arguments from `i` on: `--config <path>`, `--x <px>` and
/// `--y <px>` take a value (a pixel value that does not parse counts as
/// absent); `-h`/`--help` and `-v`/`--version` stop the reading; anything
/// else is positional.
pub open spec fn parse_from(args: Seq<Seq<char>>, i: int, acc: CliArgsView) -> ParsedView
    decreases args.len() - i,
{
    if i < 0 || i >= args.len() {
        ParsedView::Run(acc)
    } else {
        let a = args[i];
        if a == "--config"@ {
            if i + 1 >= args.len() {
                ParsedView::Missing(ValueFlag::Config)
            } else {
                parse_from(args, i + 2, CliArgsView { config_path: args[i + 1], ..acc })
            }
        } else if a == "--x"@ {
            if i + 1 >= args.len() {
                ParsedView::Missing(ValueFlag::X)
            } else {
                parse_from(args, i + 2, CliArgsView { fixed_x: parse_i32(args[i + 1]), ..acc })
            }
        } else if a == "--y"@ {
            if i + 1 >= args.len() {
                ParsedView::Missing(ValueFlag::Y)
            } else {
                parse_from(args, i + 2, CliArgsView { fixed_y: parse_i32(args[i + 1]), ..acc })
            }
        } else if a == "-h"@ || a == "--help"@ {
            ParsedView::Help
        } else if a == "-v"@ || a == "--version"@ {
            ParsedView::Version
        } else {
            parse_from(args, i + 1, CliArgsView { positional: acc.positional.push(a), ..acc })
        }
    }
}

/// No options and no positional arguments.
pub open spec fn no_args() -> CliArgsView {
    CliArgsView {
        config_path: Seq::empty(),
        positional: Seq::empty(),
        fixed_x: None,
        fixed_y: None,
    }
}

/// Reads the command-line arguments (without the program name).
pub fn parse_args(args: &Vec<String>) -> (r: Parsed)
    ensures
        parsed_view(r) == parse_from(string_views(args@), 0, no_args()),
{
    let ghost av = string_views(args@);
    let mut acc = CliArgs {
        config_path: String::new(),
        positional: Vec::new(),
        fixed_x: None,
        fixed_y: None,
    };
    assert(cli_view(acc) == no_args()) by {
        assert(string_views(acc.positional@) =~= Seq::<Seq<char>>::empty());
    }
    let mut i: usize = 0;
    while i < args.len()
        invariant
            i <= args@.len(),
            av == string_views(args@),
            av.len() == args@.len(),
            parse_from(av, i as int, cli_view(acc)) == parse_from(av, 0, no_args()),
        decreases args.len() - i,
    {
        let a = args[i].as_str();
        assert(av[i as int] == a@);
        if str_eq(a, "--config") {
            if i + 1 >= args.len() {
                return Parsed::Missing(ValueFlag::Config);
            }
            assert(av[i + 1] == args@[i + 1]@);
            acc.config_path = args[i + 1].clone();
            i += 2;
        } else if str_eq(a, "--x") {
            if i + 1 >= args.len() {
                return Parsed::Missing(ValueFlag::X);
            }
            assert(av[i + 1] == args@[i + 1]@);
            acc.fixed_x = parse_i32_exec(args[i + 1].as_str());
            i += 2;
        } else if str_eq(a, "--y") {
            if i + 1 >= args.len() {
                return Parsed::Missing(ValueFlag::Y);
            }
            assert(av[i + 1] == args@[i + 1]@);
            acc.fixed_y = parse_i32_exec(args[i + 1].as_str());
            i += 2;
        } else if str_eq(a, "-h") || str_eq(a, "--help") {
            return Parsed::Help;
        } else if str_eq(a, "-v") || str_eq(a, "--version") {
            return Parsed::Version;
        } else {
            let ghost before = cli_view(acc);
            acc.positional.push(args[i].clone());
            assert(string_views(acc.positional@) =~= before.positional.push(a@));
            i += 1;
        }
    }
    Parsed::Run(acc)
}

/// The command: the first positional argument, `watch` when there is none.
pub open spec fn command_word(a: CliArgsView) -> Seq<char> {
    if a.positional.len() > 0 {
        a.positional[0]
    } else {
        "watch"@
    }
}

/// The device token: the second positional argument, empty when absent.
pub open spec fn token_word(a: CliArgsView) -> Seq<char> {
    if a.positional.len() > 1 {
        a.positional[1]
    } else {
        Seq::empty()
    }
}

impl CliArgs {
    /// The command word.
    pub fn command(&self) -> (r: String)
        ensures
            r@ == command_word(cli_view(*self)),
    {
        if self.positional.len() > 0 {
            self.positional[0].clone()
        } else {
            owned("watch")
        }
    }

    /// The device token.
    pub fn token(&self) -> (r: String)
        ensures
            r@ == token_word(cli_view(*self)),
    {
        if self.positional.len() > 1 {
            self.positional[1].clone()
        } else {
            String::new()
        }
    }
}

/// What a command word selects.
#[derive(Clone, Copy, PartialEq, Eq, Debug, Structural)]
pub enum Command {
    Watch,
    Once,
    List,
    Menu,
    Devices,
    Action(ActionKind),
    Unknown,
}

/// The action a command word names, if any.
pub open spec fn action_of_spec(w: Seq<char>) -> Option<ActionKind> {
    if w == "open"@ {
        Some(ActionKind::Open)
    } else if w == "mount"@ {
        Some(ActionKind::Mount)
    } else if w == "unmount"@ {
        Some(ActionKind::Unmount)
    } else if w == "eject"@ {
        Some(ActionKind::Eject)
    } else if w == "poweroff"@ {
        Some(ActionKind::PowerOff)
    } else if w == "lock"@ {
        Some(ActionKind::Lock)
    } else if w == "unlock"@ {
        Some(ActionKind::Unlock)
    } else if w == "copy"@ {
        Some(ActionKind::Copy)
    } else {
        None
    }
}

/// The command a word selects.
pub open spec fn command_spec(w: Seq<char>) -> Command {
    if w == "watch"@ {
        Command::Watch
    } else if w == "once"@ {
        Command::Once
    } else if w == "list"@ {
        Command::List
    } else if w == "menu"@ {
        Command::Menu
    } else if w == "devices"@ {
        Command::Devices
    } else {
        match action_of_spec(w) {
            Some(k) => Command::Action(k),
            None => Command::Unknown,
        }
    }
}

/// The action a command word names.
pub fn action_of(w: &str) -> (r: Option<ActionKind>)
    ensures
        r == action_of_spec(w@),
{
    if str_eq(w, "open") {
        Some(ActionKind::Open)
    } else if str_eq(w, "mount") {
        Some(ActionKind::Mount)
    } else if str_eq(w, "unmount") {
        Some(ActionKind::Unmount)
    } else if str_eq(w, "eject") {
        Some(ActionKind::Eject)
    } else if str_eq(w, "poweroff") {
        Some(ActionKind::PowerOff)
    } else if str_eq(w, "lock") {
        Some(ActionKind::Lock)
    } else if str_eq(w, "unlock") {
        Some(ActionKind::Unlock)
    } else if str_eq(w, "copy") {
        Some(ActionKind::Copy)
    } else {
        None
    }
}

impl Command {
    /// The command a word selects.
    pub fn parse(w: &str) -> (r: Command)
        ensures
            r == command_spec(w@),
    {
        if str_eq(w, "watch") {
            Command::Watch
        } else if str_eq(w, "once") {
            Command::Once
        } else if str_eq(w, "list") {
            Command::List
        } else if str_eq(w, "menu") {
            Command::Menu
        } else if str_eq(w, "devices") {
            Command::Devices
        } else {
            match action_of(w) {
                Some(k) => Command::Action(k),
                None => Command::Unknown,
            }
        }
    }
}

/// How the `menu` command shows its menu.
#[derive(Clone, Copy, PartialEq, Eq, Debug, Structural)]
pub enum MenuChoice {
    /// The native popup, pinned at this position.
    Popup(i32, i32),
    /// Nothing: the native popup only opens at a pinned position.
    Nothing,
    /// The launcher menu.
    Launcher,
}

/// The `menu` command: the native popup in `gui` mode when both pixel
/// values are given, nothing in `gui` mode otherwise, else the launcher.
pub open spec fn menu_choice_spec(mode: Seq<char>, x: Option<i32>, y: Option<i32>) -> MenuChoice {
    if mode == "gui"@ {
        match (x, y) {
            (Some(a), Some(b)) => MenuChoice::Popup(a, b),
            _ => MenuChoice::Nothing,
        }
    } else {
        MenuChoice::Launcher
    }
}

/// How the `menu` command shows its menu.
pub fn menu_choice(cfg: &Config, x: Option<i32>, y: Option<i32>) -> (r: MenuChoice)
    ensures
        r == menu_choice_spec(cfg.mode@, x, y),
{
    if str_eq(cfg.mode.as_str(), "gui") {
        match (x, y) {
            (Some(a), Some(b)) => MenuChoice::Popup(a, b),
            _ => MenuChoice::Nothing,
        }
    } else {
        MenuChoice::Launcher
    }
}

/// The first device whose block node, name or object path is `token`.
pub open spec fn pick_exact(devs: Seq<DeviceView>, token: Seq<char>, i: int) -> Option<int>
    decreases devs.len() - i,
{
    if i < 0 || i >= devs.len() {
        None
    } else if devs[i].block == token || devs[i].name == token || devs[i].object_path == token {
        Some(i)
    } else {
        pick_exact(devs, token, i + 1)
    }
}

/// The first device whose object path ends in `/token`.
pub open spec fn pick_base(devs: Seq<DeviceView>, token: Seq<char>, i: int) -> Option<int>
    decreases devs.len() - i,
{
    if i < 0 || i >= devs.len() {
        None
    } else if basename_spec(devs[i].object_path) == token {
        Some(i)
    } else {
        pick_base(devs, token, i + 1)
    }
}

/// The device a token selects: by block node, name or object path, else by
/// the last component of the object path, else the first device.
pub open spec fn pick_spec(devs: Seq<DeviceView>, token: Seq<char>) -> Option<int> {
    let first = if devs.len() > 0 {
        Some(0int)
    } else {
        None
    };
    if token.len() > 0 {
        match pick_exact(devs, token, 0) {
            Some(i) => Some(i),
            None => match pick_base(devs, token, 0) {
                Some(i) => Some(i),
                None => first,
            },
        }
    } else {
        first
    }
}

/// The views of a list of devices.
pub open spec fn device_views(devs: Seq<Device>) -> Seq<DeviceView> {
    devs.map_values(|d: Device| d@)
}

/// The index of the device a token selects.
pub fn pick(devs: &Vec<Device>, token: &str) -> (r: Option<usize>)
    ensures
        match r {
            Some(i) => pick_spec(device_views(devs@), token@) == Some(i as int),
            None => pick_spec(device_views(devs@), token@) is None,
        },
{
    let ghost dv = device_views(devs@);
    if !token.is_empty() {
        let mut i: usize = 0;
        while i < devs.len()
            invariant
                i <= devs@.len(),
                dv == device_views(devs@),
                dv.len() == devs@.len(),
                token@.len() > 0,
                pick_exact(dv, token@, 0) == pick_exact(dv, token@, i as int),
            decreases devs.len() - i,
        {
            let d = &devs[i];
            assert(dv[i as int] == d@);
            if str_eq(d.block.as_str(), token) || str_eq(d.name.as_str(), token) || str_eq(
                d.object_path.as_str(),
                token,
            ) {
                assert(pick_exact(dv, token@, i as int) == Some(i as int));
                return Some(i);
            }
            i += 1;
        }
        let mut j: usize = 0;
        while j < devs.len()
            invariant
                j <= devs@.len(),
                dv == device_views(devs@),
                dv.len() == devs@.len(),
                pick_exact(dv, token@, 0) is None,
                token@.len() > 0,
                pick_base(dv, token@, 0) == pick_base(dv, token@, j as int),
            decreases devs.len() - j,
        {
            let d = &devs[j];
            assert(dv[j as int] == d@);
            if str_eq(basename(d.object_path.as_str()), token) {
                assert(pick_base(dv, token@, j as int) == Some(j as int));
                return Some(j);
            }
            j += 1;
        }
    }
    if devs.len() > 0 {
        Some(0)
    } else {
        None
    }
}

/// The message for an option missing its value.
pub open spec fn missing_value_spec(lang: Lang, flag: ValueFlag) -> Seq<char> {
    match flag {
        ValueFlag::Config => tr_spec(lang, "--config requires a path"@, "--config exige um caminho"@),
        ValueFlag::X => tr_spec(lang, "--x requires a value"@, "--x exige um valor"@),
        ValueFlag::Y => tr_spec(lang, "--y requires a value"@, "--y exige um valor"@),
    }
}

/// The message for an option missing its value.
pub fn missing_value_message(lang: Lang, flag: ValueFlag) -> (r: &'static str)
    ensures
        r@ == missing_value_spec(lang, flag),
{
    match flag {
        ValueFlag::Config => tr(lang, "--config requires a path", "--config exige um caminho"),
        ValueFlag::X => tr(lang, "--x requires a value", "--x exige um valor"),
        ValueFlag::Y => tr(lang, "--y requires a value", "--y exige um valor"),
    }
}

/// The message when an action finds no device.
pub fn no_devices_message(lang: Lang) -> (r: &'static str)
    ensures
        r@ == tr_spec(
            lang,
            "no removable storage devices"@,
            "nenhum dispositivo de armazenamento remov\u{ed}vel"@,
        ),
{
    tr(lang, "no removable storage devices", "nenhum dispositivo de armazenamento remov\u{ed}vel")
}

/// The message for an unknown command word.
pub open spec fn unknown_command_spec(lang: Lang, cmd: Seq<char>) -> Seq<char> {
    tr_spec(lang, "unknown command '"@, "comando desconhecido '"@) + cmd + seq!['\'']
}

/// The message for an unknown command word.
pub fn unknown_command_message(lang: Lang, cmd: &str) -> (r: String)
    ensures
        r@ == unknown_command_spec(lang, cmd@),
{
    let mut s = owned(tr(lang, "unknown command '", "comando desconhecido '"));
    push_str(&mut s, cmd);
    s.push('\'');
    s
}

/// One line of the `list` command: block node, name, filesystem, mount
/// point (`-` when not mounted) and size, separated by tabs.
pub open spec fn list_line_spec(d: DeviceView, capacity_text: Seq<char>) -> Seq<char> {
    d.block + seq!['\t'] + d.name + seq!['\t'] + d.filesystem + seq!['\t'] + (if d.mounted {
        d.mount_point
    } else {
        seq!['-']
    }) + seq!['\t'] + capacity_text
}

/// One line of the `list` command; `capacity_text` is the formatted size.
pub fn list_line(d: &Device, capacity_text: &str) -> (r: String)
    ensures
        r@ == list_line_spec(d@, capacity_text@),
{
    let mut s = d.block.clone();
    s.push('\t');
    push_str(&mut s, d.name.as_str());
    s.push('\t');
    push_str(&mut s, d.filesystem.as_str());
    s.push('\t');
    if d.mounted {
        push_str(&mut s, d.mount_point.as_str());
    } else {
        s.push('-');
    }
    s.push('\t');
    push_str(&mut s, capacity_text);
    assert(s@ =~= list_line_spec(d@, capacity_text@));
    s
}

} // verus!
