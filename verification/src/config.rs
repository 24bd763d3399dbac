//! User configuration: defaults, the JSON documents that override them, and
//! the comment-tolerant JSON reader's comment stripper.
use vstd::prelude::*;

use crate::text::{chars_of, owned, push_str, str_eq, string_of};

verus! {

/// Module configuration.
#[derive(Clone)]
pub struct Config {
    pub show_name: bool,
    pub show_capacity: bool,
    pub hide_when_empty: bool,
    pub show_hidden: bool,
    pub max_devices: i32,
    pub sort: String,
    pub separator: String,
    pub format: String,
    pub tooltip_format: String,
    pub open_command: String,
    pub file_manager_command: String,
    pub copy_command: String,
    pub unlock_command: String,
    pub mode: String,
    pub menu: String,
    pub menu_flags: String,
    pub icons_mounted: String,
    pub icons_unmounted: String,
    pub icons_encrypted: String,
    pub icons_read_only: String,
}

/// The mathematical model of a [`Config`].
pub struct ConfigView {
    pub show_name: bool,
    pub show_capacity: bool,
    pub hide_when_empty: bool,
    pub show_hidden: bool,
    pub max_devices: i32,
    pub sort: Seq<char>,
    pub separator: Seq<char>,
    pub format: Seq<char>,
    pub tooltip_format: Seq<char>,
    pub open_command: Seq<char>,
    pub file_manager_command: Seq<char>,
    pub copy_command: Seq<char>,
    pub unlock_command: Seq<char>,
    pub mode: Seq<char>,
    pub menu: Seq<char>,
    pub menu_flags: Seq<char>,
    pub icons_mounted: Seq<char>,
    pub icons_unmounted: Seq<char>,
    pub icons_encrypted: Seq<char>,
    pub icons_read_only: Seq<char>,
}

impl View for Config {
    type V = ConfigView;

    open spec fn view(&self) -> ConfigView {
        ConfigView {
            show_name: self.show_name,
            show_capacity: self.show_capacity,
            hide_when_empty: self.hide_when_empty,
            show_hidden: self.show_hidden,
            max_devices: self.max_devices,
            sort: self.sort@,
            separator: self.separator@,
            format: self.format@,
            tooltip_format: self.tooltip_format@,
            open_command: self.open_command@,
            file_manager_command: self.file_manager_command@,
            copy_command: self.copy_command@,
            unlock_command: self.unlock_command@,
            mode: self.mode@,
            menu: self.menu@,
            menu_flags: self.menu_flags@,
            icons_mounted: self.icons_mounted@,
            icons_unmounted: self.icons_unmounted@,
            icons_encrypted: self.icons_encrypted@,
            icons_read_only: self.icons_read_only@,
        }
    }
}

/// The built-in defaults.
pub open spec fn default_config() -> ConfigView {
    ConfigView {
        show_name: false,
        show_capacity: false,
        hide_when_empty: true,
        show_hidden: false,
        max_devices: 0,
        sort: "mount_time"@,
        separator: "  "@,
        format: "{icon}"@,
        tooltip_format: "{name}\n{state}\n{fs} \u{b7} {capacity}\n{used} used \u{b7} {free} free\n{mount}"@,
        open_command: "xdg-open"@,
        file_manager_command: "xdg-open"@,
        copy_command: "wl-copy"@,
        unlock_command: "kitty -e"@,
        mode: "rofi"@,
        menu: "rofi"@,
        menu_flags: "-dmenu -i -p Storage"@,
        icons_mounted: "\u{f0a0}"@,
        icons_unmounted: "\u{f0a0}"@,
        icons_encrypted: "\u{f023}"@,
        icons_read_only: "\u{f023}"@,
    }
}

impl Default for Config {
    fn default() -> (r: Config)
        ensures
            r@ == default_config(),
    {
        Config {
            show_name: false,
            show_capacity: false,
            hide_when_empty: true,
            show_hidden: false,
            max_devices: 0,
            sort: owned("mount_time"),
            separator: owned("  "),
            format: owned("{icon}"),
            tooltip_format: owned(
                "{name}\n{state}\n{fs} \u{b7} {capacity}\n{used} used \u{b7} {free} free\n{mount}",
            ),
            open_command: owned("xdg-open"),
            file_manager_command: owned("xdg-open"),
            copy_command: owned("wl-copy"),
            unlock_command: owned("kitty -e"),
            mode: owned("rofi"),
            menu: owned("rofi"),
            menu_flags: owned("-dmenu -i -p Storage"),
            icons_mounted: owned("\u{f0a0}"),
            icons_unmounted: owned("\u{f0a0}"),
            icons_encrypted: owned("\u{f023}"),
            icons_read_only: owned("\u{f023}"),
        }
    }
}

/// A parsed JSON value.
pub enum JsonValue {
    Null,
    Bool(bool),
    /// A number, with its value when it is an integer that fits in `i64`.
    Number(Option<i64>),
    Str(String),
    Array(Vec<JsonValue>),
    /// An object's members in order, each key once.
    Object(Vec<(String, JsonValue)>),
}

/// The first member of an object named `key`.
pub open spec fn member(fields: Seq<(String, JsonValue)>, key: Seq<char>) -> Option<JsonValue>
    decreases fields.len(),
{
    if fields.len() == 0 {
        None
    } else if fields[0].0@ == key {
        Some(fields[0].1)
    } else {
        member(fields.drop_first(), key)
    }
}

/// The member `key` of `j` when `j` is an object that has it.
pub open spec fn get_spec(j: JsonValue, key: Seq<char>) -> Option<JsonValue> {
    match j {
        JsonValue::Object(fields) => member(fields@, key),
        _ => None,
    }
}

/// The member `key` of `j` when it is a boolean.
pub open spec fn get_bool(j: JsonValue, key: Seq<char>) -> Option<bool> {
    match get_spec(j, key) {
        Some(JsonValue::Bool(b)) => Some(b),
        _ => None,
    }
}

/// The member `key` of `j` when it is a string.
pub open spec fn get_str(j: JsonValue, key: Seq<char>) -> Option<Seq<char>> {
    match get_spec(j, key) {
        Some(JsonValue::Str(s)) => Some(s@),
        _ => None,
    }
}

/// The member `key` of `j` when it is an integer that fits in `i64`.
pub open spec fn get_i64(j: JsonValue, key: Seq<char>) -> Option<i64> {
    match get_spec(j, key) {
        Some(JsonValue::Number(Some(n))) => Some(n),
        _ => None,
    }
}

/// `o`'s value, or `d` when there is none.
pub open spec fn or_else<T>(o: Option<T>, d: T) -> T {
    match o {
        Some(v) => v,
        None => d,
    }
}

/// The icon strings of the `icons` object of `j`.
pub open spec fn icons_spec(j: JsonValue) -> JsonValue {
    match get_spec(j, "icons"@) {
        Some(JsonValue::Object(f)) => JsonValue::Object(f),
        _ => JsonValue::Null,
    }
}

/// `c` with the keys that `j` sets, when `j` is an object. A key whose value
/// has the wrong type is ignored. `open_command` also sets
/// `file_manager_command`, unless that key is present too.
pub open spec fn apply_spec(c: ConfigView, j: JsonValue) -> ConfigView {
    if !(j is Object) {
        c
    } else {
        let icons = icons_spec(j);
        let open = get_str(j, "open_command"@);
        ConfigView {
            show_name: or_else(get_bool(j, "show_name"@), c.show_name),
            show_capacity: or_else(get_bool(j, "show_capacity"@), c.show_capacity),
            hide_when_empty: or_else(get_bool(j, "hide_when_empty"@), c.hide_when_empty),
            show_hidden: or_else(get_bool(j, "show_hidden"@), c.show_hidden),
            max_devices: match get_i64(j, "max_devices"@) {
                Some(v) => v as i32,
                None => c.max_devices,
            },
            sort: or_else(get_str(j, "sort"@), c.sort),
            separator: or_else(get_str(j, "separator"@), c.separator),
            format: or_else(get_str(j, "format"@), c.format),
            tooltip_format: or_else(get_str(j, "tooltip_format"@), c.tooltip_format),
            open_command: or_else(open, c.open_command),
            file_manager_command: or_else(
                get_str(j, "file_manager_command"@),
                or_else(open, c.file_manager_command),
            ),
            copy_command: or_else(get_str(j, "copy_command"@), c.copy_command),
            unlock_command: or_else(get_str(j, "unlock_command"@), c.unlock_command),
            mode: or_else(get_str(j, "mode"@), c.mode),
            menu: or_else(get_str(j, "menu"@), c.menu),
            menu_flags: or_else(get_str(j, "menu_flags"@), c.menu_flags),
            icons_mounted: or_else(get_str(icons, "mounted"@), c.icons_mounted),
            icons_unmounted: or_else(get_str(icons, "unmounted"@), c.icons_unmounted),
            icons_encrypted: or_else(get_str(icons, "encrypted"@), c.icons_encrypted),
            icons_read_only: or_else(get_str(icons, "read_only"@), c.icons_read_only),
        }
    }
}

/// The defaults with each document applied in turn.
pub open spec fn load_spec(docs: Seq<JsonValue>) -> ConfigView
    decreases docs.len(),
{
    if docs.len() == 0 {
        default_config()
    } else {
        apply_spec(load_spec(docs.drop_last()), docs.last())
    }
}

/// The member `key` of `j` when `j` is an object.
pub fn get<'a>(j: &'a JsonValue, key: &str) -> (r: Option<&'a JsonValue>)
    ensures
        match r {
            Some(v) => get_spec(*j, key@) == Some(*v),
            None => get_spec(*j, key@) is None,
        },
{
    match j {
        JsonValue::Object(fields) => {
            let mut i: usize = 0;
            assert(fields@.skip(0) =~= fields@);
            while i < fields.len()
                invariant
                    i <= fields@.len(),
                    get_spec(*j, key@) == member(fields@, key@),
                    member(fields@, key@) == member(fields@.skip(i as int), key@),
                decreases fields.len() - i,
            {
                assert(fields@.skip(i as int)[0] == fields@[i as int]);
                if str_eq(fields[i].0.as_str(), key) {
                    return Some(&fields[i].1);
                }
                assert(fields@.skip(i as int).drop_first() =~= fields@.skip(i + 1));
                i += 1;
            }
            None
        },
        _ => None,
    }
}

fn get_bool_exec(j: &JsonValue, key: &str) -> (r: Option<bool>)
    ensures
        r == get_bool(*j, key@),
{
    match get(j, key) {
        Some(JsonValue::Bool(b)) => Some(*b),
        _ => None,
    }
}

fn get_str_exec(j: &JsonValue, key: &str) -> (r: Option<String>)
    ensures
        match r {
            Some(s) => get_str(*j, key@) == Some(s@),
            None => get_str(*j, key@) is None,
        },
{
    match get(j, key) {
        Some(JsonValue::Str(s)) => Some(s.clone()),
        _ => None,
    }
}

fn set_str(target: &mut String, j: &JsonValue, key: &str)
    ensures
        final(target)@ == or_else(get_str(*j, key@), old(target)@),
{
    if let Some(v) = get_str_exec(j, key) {
        *target = v;
    }
}

/// Applies one configuration document to `cfg`.
pub fn apply_json(cfg: &mut Config, j: &JsonValue)
    ensures
        final(cfg)@ == apply_spec(old(cfg)@, *j),
{
    if !(match j {
        JsonValue::Object(_) => true,
        _ => false,
    }) {
        return;
    }
    if let Some(v) = get_bool_exec(j, "show_name") {
        cfg.show_name = v;
    }
    if let Some(v) = get_bool_exec(j, "show_capacity") {
        cfg.show_capacity = v;
    }
    if let Some(v) = get_bool_exec(j, "hide_when_empty") {
        cfg.hide_when_empty = v;
    }
    if let Some(v) = get_bool_exec(j, "show_hidden") {
        cfg.show_hidden = v;
    }
    if let Some(JsonValue::Number(Some(v))) = get(j, "max_devices") {
        cfg.max_devices = *v as i32;
    }
    set_str(&mut cfg.sort, j, "sort");
    set_str(&mut cfg.separator, j, "separator");
    set_str(&mut cfg.format, j, "format");
    set_str(&mut cfg.tooltip_format, j, "tooltip_format");
    if let Some(v) = get_str_exec(j, "open_command") {
        cfg.open_command = v;
        cfg.file_manager_command = cfg.open_command.clone();
    }
    set_str(&mut cfg.file_manager_command, j, "file_manager_command");
    set_str(&mut cfg.copy_command, j, "copy_command");
    set_str(&mut cfg.unlock_command, j, "unlock_command");
    set_str(&mut cfg.mode, j, "mode");
    set_str(&mut cfg.menu, j, "menu");
    set_str(&mut cfg.menu_flags, j, "menu_flags");
    if let Some(icons) = get(j, "icons") {
        if let JsonValue::Object(_) = icons {
            set_str(&mut cfg.icons_mounted, icons, "mounted");
            set_str(&mut cfg.icons_unmounted, icons, "unmounted");
            set_str(&mut cfg.icons_encrypted, icons, "encrypted");
            set_str(&mut cfg.icons_read_only, icons, "read_only");
        }
    }
}

impl Config {
    /// The configuration that the given documents produce, applied in order
    /// over the defaults (system defaults, user file, explicit file).
    pub fn load(documents: &Vec<JsonValue>) -> (r: Config)
        ensures
            r@ == load_spec(documents@),
    {
        let mut cfg = Config::default();
        let mut i: usize = 0;
        assert(documents@.take(0) =~= Seq::<JsonValue>::empty());
        while i < documents.len()
            invariant
                i <= documents@.len(),
                cfg@ == load_spec(documents@.take(i as int)),
            decreases documents.len() - i,
        {
            assert(documents@.take(i + 1).drop_last() =~= documents@.take(i as int));
            apply_json(&mut cfg, &documents[i]);
            i += 1;
        }
        assert(documents@.take(documents@.len() as int) =~= documents@);
        cfg
    }
}

/// JSON text outside string literals: `//` comments are dropped up to the
/// end of their line, `/* */` comments up to their close (or to the end of
/// the text), everything else is kept.
pub open spec fn strip_code(s: Seq<char>) -> Seq<char>
    decreases s.len(), 0int,
{
    if s.len() == 0 {
        s
    } else if s[0] == '"' {
        seq!['"'] + strip_string(s.drop_first(), false)
    } else if s[0] == '/' && s.len() > 1 && s[1] == '/' {
        strip_line(s.skip(2))
    } else if s[0] == '/' && s.len() > 1 && s[1] == '*' {
        strip_block(s.skip(2))
    } else {
        seq![s[0]] + strip_code(s.drop_first())
    }
}

/// The rest of a `//` comment: dropped up to the newline, which is kept.
pub open spec fn strip_line(s: Seq<char>) -> Seq<char>
    decreases s.len(), 1int,
{
    if s.len() == 0 {
        s
    } else if s[0] == '\n' {
        strip_code(s)
    } else {
        strip_line(s.drop_first())
    }
}

/// The rest of a `/*` comment: dropped through the first `*/`.
pub open spec fn strip_block(s: Seq<char>) -> Seq<char>
    decreases s.len(), 0int,
{
    if s.len() < 2 {
        Seq::empty()
    } else if s[0] == '*' && s[1] == '/' {
        strip_code(s.skip(2))
    } else {
        strip_block(s.drop_first())
    }
}

/// The rest of a string literal, kept whole. A backslash escapes the next
/// ASCII character; a non-ASCII character leaves the escape pending; an
/// unescaped `"` ends the literal.
pub open spec fn strip_string(s: Seq<char>, escaped: bool) -> Seq<char>
    decreases s.len(), 0int,
{
    if s.len() == 0 {
        s
    } else {
        let c = s[0];
        let rest = s.drop_first();
        seq![c] + if (c as u32) >= 128 {
            strip_string(rest, escaped)
        } else if escaped {
            strip_string(rest, false)
        } else if c == '\\' {
            strip_string(rest, true)
        } else if c == '"' {
            strip_code(rest)
        } else {
            strip_string(rest, false)
        }
    }
}

/// Removes `//` and `/* */` comments that stand outside string literals.
pub fn strip_comments(input: &str) -> (r: String)
    ensures
        r@ == strip_code(input@),
{
    let cs = chars_of(input);
    let n = cs.len();
    let ghost s = input@;
    let mut out: Vec<char> = Vec::new();
    let mut in_string = false;
    let mut escaped = false;
    let mut i: usize = 0;
    assert(s.skip(0) =~= s);
    assert(Seq::<char>::empty() + strip_code(s) =~= strip_code(s));
    while i < n
        invariant
            i <= n,
            n == s.len(),
            cs@ == s,
            in_string ==> out@ + strip_string(s.skip(i as int), escaped) == strip_code(s),
            !in_string ==> out@ + strip_code(s.skip(i as int)) == strip_code(s),
            !in_string ==> !escaped,
        decreases n - i,
    {
        let c = cs[i];
        let ghost rest = s.skip(i as int);
        assert(rest[0] == c);
        assert(rest.drop_first() =~= s.skip(i + 1));
        if in_string {
            let ghost old_out = out@;
            let ghost old_esc = escaped;
            out.push(c);
            if (c as u32) < 128 {
                if escaped {
                    escaped = false;
                } else if c == '\\' {
                    escaped = true;
                } else if c == '"' {
                    in_string = false;
                }
            }
            i += 1;
            proof {
                let x = if in_string {
                    strip_string(s.skip(i as int), escaped)
                } else {
                    strip_code(s.skip(i as int))
                };
                assert(strip_string(rest, old_esc) == seq![c] + x);
                assert(out@ + x =~= old_out + (seq![c] + x));
            }
            continue;
        }
        if c == '"' {
            let ghost old_out = out@;
            in_string = true;
            out.push('"');
            i += 1;
            assert(out@ + strip_string(s.skip(i as int), false) =~= old_out + (seq!['"']
                + strip_string(s.skip(i as int), false)));
        } else if c == '/' && i + 1 < n && cs[i + 1] == '/' {
            assert(rest.skip(2) =~= s.skip(i + 2));
            let mut j: usize = i + 2;
            while j < n && cs[j] != '\n'
                invariant
                    i + 2 <= j <= n,
                    n == s.len(),
                    cs@ == s,
                    strip_line(s.skip(i + 2)) == strip_line(s.skip(j as int)),
                decreases n - j,
            {
                assert(s.skip(j as int).drop_first() =~= s.skip(j + 1));
                j += 1;
            }
            if j == n {
                assert(s.skip(j as int).len() == 0);
            } else {
                assert(s.skip(j as int)[0] == '\n');
            }
            i = j;
        } else if c == '/' && i + 1 < n && cs[i + 1] == '*' {
            assert(rest.skip(2) =~= s.skip(i + 2));
            let mut j: usize = i + 2;
            while j < n - 1 && !(cs[j] == '*' && cs[j + 1] == '/')
                invariant
                    i + 2 <= j <= n,
                    n == s.len(),
                    cs@ == s,
                    strip_block(s.skip(i + 2)) == strip_block(s.skip(j as int)),
                decreases n - j,
            {
                assert(s.skip(j as int).drop_first() =~= s.skip(j + 1));
                j += 1;
            }
            if j < n - 1 {
                assert(s.skip(j as int).skip(2) =~= s.skip(j + 2));
                i = j + 2;
            } else {
                assert(strip_block(s.skip(j as int)) =~= Seq::<char>::empty());
                assert(s.skip(n as int) =~= Seq::<char>::empty());
                i = n;
            }
        } else {
            let ghost old_out = out@;
            out.push(c);
            i += 1;
            assert(out@ + strip_code(s.skip(i as int)) =~= old_out + (seq![c] + strip_code(
                s.skip(i as int),
            )));
        }
    }
    assert(s.skip(n as int) =~= Seq::<char>::empty());
    assert(out@ + Seq::<char>::empty() =~= out@);
    string_of(&out)
}

/// The per-user configuration directory: `$XDG_CONFIG_HOME/argvus-storage`,
/// else `$HOME/.config/argvus-storage`; unset and empty variables are skipped.
pub open spec fn user_config_dir_spec(xdg: Option<Seq<char>>, home: Option<Seq<char>>) -> Option<
    Seq<char>,
> {
    match xdg {
        Some(x) if x.len() > 0 => Some(x + "/argvus-storage"@),
        _ => match home {
            Some(h) if h.len() > 0 => Some(h + "/.config/argvus-storage"@),
            _ => None,
        },
    }
}

/// The view of an optional string.
pub open spec fn opt_view(o: Option<String>) -> Option<Seq<char>> {
    match o {
        Some(s) => Some(s@),
        None => None,
    }
}

/// The views of a list of strings.
pub open spec fn string_views(v: Seq<String>) -> Seq<Seq<char>> {
    v.map_values(|s: String| s@)
}

fn joined(a: &str, b: &str) -> (r: String)
    ensures
        r@ == a@ + b@,
{
    let mut s = owned(a);
    push_str(&mut s, b);
    s
}

/// The per-user configuration directory, from the values of
/// `XDG_CONFIG_HOME` and `HOME`.
pub fn user_config_dir(xdg: &Option<String>, home: &Option<String>) -> (r: Option<String>)
    ensures
        opt_view(r) == user_config_dir_spec(opt_view(*xdg), opt_view(*home)),
{
    if let Some(x) = xdg {
        if !x.is_empty() {
            return Some(joined(x.as_str(), "/argvus-storage"));
        }
    }
    if let Some(h) = home {
        if !h.is_empty() {
            return Some(joined(h.as_str(), "/.config/argvus-storage"));
        }
    }
    None
}

/// The configuration files, in increasing precedence: system defaults, the
/// user's file, an explicitly given file.
pub open spec fn config_paths_spec(user_dir: Option<Seq<char>>, explicit_path: Seq<char>) -> Seq<
    Seq<char>,
> {
    let system = seq!["/etc/argvus-storage/config.json"@];
    let with_user = match user_dir {
        Some(d) => system.push(d + "/config.json"@),
        None => system,
    };
    if explicit_path.len() > 0 {
        with_user.push(explicit_path)
    } else {
        with_user
    }
}

/// The configuration files to read, in increasing precedence.
pub fn config_paths(user_dir: &Option<String>, explicit_path: &str) -> (r: Vec<String>)
    ensures
        string_views(r@) == config_paths_spec(opt_view(*user_dir), explicit_path@),
{
    let mut paths: Vec<String> = Vec::new();
    paths.push(owned("/etc/argvus-storage/config.json"));
    if let Some(d) = user_dir {
        paths.push(joined(d.as_str(), "/config.json"));
    }
    if !explicit_path.is_empty() {
        paths.push(owned(explicit_path));
    }
    assert(string_views(paths@) =~= config_paths_spec(opt_view(*user_dir), explicit_path@));
    paths
}

/// What `std::path::Path::parent` returns for a path given as a string.
pub uninterp spec fn path_parent(path: Seq<char>) -> Option<Seq<char>>;

/// Calls `std::path::Path::parent` and reads the parent back as a string
/// (always possible for a path that came from a string); the result is
/// named by [`path_parent`], a function of the argument alone.
#[verifier::external_body]
fn parent_of(path: &str) -> (r: Option<String>)
    ensures
        opt_view(r) == path_parent(path@),
{
    std::path::Path::new(path).parent().and_then(|d| d.to_str()).map(|d| d.to_string())
}

/// Candidate theme files, in increasing precedence: system defaults, the
/// user's override, and one beside an explicitly given configuration file
/// in directory `config_dir` (when that directory is not empty).
pub open spec fn theme_paths_spec(user_dir: Option<Seq<char>>, config_dir: Option<Seq<char>>) -> Seq<
    Seq<char>,
> {
    let system = seq!["/etc/argvus-storage/theme.css"@];
    let with_user = match user_dir {
        Some(d) => system.push(d + "/theme.css"@),
        None => system,
    };
    match config_dir {
        Some(c) if c.len() > 0 => with_user.push(c + "/theme.css"@),
        _ => with_user,
    }
}

impl Config {
    /// Candidate `theme.css` files, given the user directory and the
    /// directory of the explicit configuration file.
    pub fn theme_css_paths_in(user_dir: &Option<String>, config_dir: &Option<String>) -> (r: Vec<
        String,
    >)
        ensures
            string_views(r@) == theme_paths_spec(opt_view(*user_dir), opt_view(*config_dir)),
    {
        let mut paths: Vec<String> = Vec::new();
        paths.push(owned("/etc/argvus-storage/theme.css"));
        if let Some(d) = user_dir {
            paths.push(joined(d.as_str(), "/theme.css"));
        }
        if let Some(c) = config_dir {
            if !c.is_empty() {
                paths.push(joined(c.as_str(), "/theme.css"));
            }
        }
        assert(string_views(paths@) =~= theme_paths_spec(
            opt_view(*user_dir),
            opt_view(*config_dir),
        ));
        paths
    }

    /// Candidate `theme.css` files, in the same precedence order as the
    /// configuration files; the third sits beside an explicit `--config` file.
    pub fn theme_css_paths(user_dir: &Option<String>, explicit_config_path: &str) -> (r: Vec<
        String,
    >)
        ensures
            string_views(r@) == theme_paths_spec(
                opt_view(*user_dir),
                if explicit_config_path@.len() > 0 {
                    path_parent(explicit_config_path@)
                } else {
                    None
                },
            ),
    {
        let config_dir = if explicit_config_path.is_empty() {
            None
        } else {
            parent_of(explicit_config_path)
        };
        Config::theme_css_paths_in(user_dir, &config_dir)
    }
}

/// `serde_json::Value`, carried only inside the JSON reading functions.
#[verifier::external_type_specification]
#[verifier::external_body]
pub struct ExSerdeJsonValue(serde_json::Value);

/// What `serde_json::from_str::<serde_json::Value>` makes of a text, read as
/// a [`JsonValue`], or the text of its error; a function of the text alone.
pub uninterp spec fn json_parse(text: Seq<char>) -> Result<JsonValue, Seq<char>>;

/// What `serde_json::from_slice::<serde_json::Value>` makes of bytes, read
/// as a [`JsonValue`] (`None` when they are not JSON); a function of the
/// bytes alone.
pub uninterp spec fn json_parse_bytes(bytes: Seq<u8>) -> Option<JsonValue>;

/// Turns a `serde_json::Value` into a [`JsonValue`], variant by variant:
/// numbers keep their value when `as_i64` gives one, object members keep
/// the map's order.
#[verifier::external_body]
fn json_value_of(v: serde_json::Value) -> JsonValue {
    match v {
        serde_json::Value::Null => JsonValue::Null,
        serde_json::Value::Bool(b) => JsonValue::Bool(b),
        serde_json::Value::Number(n) => JsonValue::Number(n.as_i64()),
        serde_json::Value::String(t) => JsonValue::Str(t),
        serde_json::Value::Array(a) => JsonValue::Array(a.into_iter().map(json_value_of).collect()),
        serde_json::Value::Object(m) => JsonValue::Object(
            m.into_iter().map(|(k, x)| (k, json_value_of(x))).collect(),
        ),
    }
}

/// Calls `serde_json::from_str::<serde_json::Value>`; the value, or the
/// error's text, is named by [`json_parse`].
#[verifier::external_body]
pub fn parse_json(text: &str) -> (r: Result<JsonValue, String>)
    ensures
        match r {
            Ok(v) => json_parse(text@) == Ok::<JsonValue, Seq<char>>(v),
            Err(e) => json_parse(text@) == Err::<JsonValue, Seq<char>>(e@),
        },
{
    serde_json::from_str::<serde_json::Value>(text).map(json_value_of).map_err(|e| e.to_string())
}

/// Calls `serde_json::from_slice::<serde_json::Value>`; the value is named
/// by [`json_parse_bytes`].
#[verifier::external_body]
pub fn parse_json_bytes(bytes: &Vec<u8>) -> (r: Option<JsonValue>)
    ensures
        r == json_parse_bytes(bytes@),
{
    serde_json::from_slice::<serde_json::Value>(bytes.as_slice()).ok().map(json_value_of)
}

/// A configuration file's text read as JSON once its comments are removed.
pub fn parse_config_text(content: &str) -> (r: Result<JsonValue, String>)
    ensures
        match r {
            Ok(v) => json_parse(strip_code(content@)) == Ok::<JsonValue, Seq<char>>(v),
            Err(e) => json_parse(strip_code(content@)) == Err::<JsonValue, Seq<char>>(e@),
        },
{
    let stripped = strip_comments(content);
    parse_json(stripped.as_str())
}

/// The document a file's text gives: none for a missing file or one that is
/// not JSON.
pub open spec fn text_document(t: Option<String>) -> Option<JsonValue> {
    match t {
        Some(s) => match json_parse(strip_code(s@)) {
            Ok(v) => Some(v),
            Err(_) => None,
        },
        None => None,
    }
}

/// The documents of the files that are present and hold JSON, in order.
pub open spec fn documents_spec(texts: Seq<Option<String>>) -> Seq<JsonValue>
    decreases texts.len(),
{
    if texts.len() == 0 {
        Seq::empty()
    } else {
        let prev = documents_spec(texts.drop_last());
        match text_document(texts.last()) {
            Some(v) => prev.push(v),
            None => prev,
        }
    }
}

/// The files that are present but not JSON: their index and the error text.
pub open spec fn errors_spec(texts: Seq<Option<String>>) -> Seq<(int, Seq<char>)>
    decreases texts.len(),
{
    if texts.len() == 0 {
        Seq::empty()
    } else {
        let prev = errors_spec(texts.drop_last());
        match texts.last() {
            Some(s) => match json_parse(strip_code(s@)) {
                Err(e) => prev.push((texts.len() - 1, e)),
                Ok(_) => prev,
            },
            None => prev,
        }
    }
}

/// The views of a list of errors.
pub open spec fn errors_view(v: Seq<(usize, String)>) -> Seq<(int, Seq<char>)> {
    v.map_values(|e: (usize, String)| (e.0 as int, e.1@))
}

impl Config {
    /// The configuration that the files' texts give (`None` for a missing
    /// file), in increasing precedence, with the files that are not JSON and
    /// their errors.
    pub fn load_texts(texts: &Vec<Option<String>>) -> (r: (Config, Vec<(usize, String)>))
        ensures
            r.0@ == load_spec(documents_spec(texts@)),
            errors_view(r.1@) == errors_spec(texts@),
    {
        let mut docs: Vec<JsonValue> = Vec::new();
        let mut errors: Vec<(usize, String)> = Vec::new();
        let mut i: usize = 0;
        assert(texts@.take(0) =~= Seq::<Option<String>>::empty());
        assert(errors_view(errors@) =~= Seq::<(int, Seq<char>)>::empty());
        while i < texts.len()
            invariant
                i <= texts@.len(),
                docs@ == documents_spec(texts@.take(i as int)),
                errors_view(errors@) == errors_spec(texts@.take(i as int)),
            decreases texts.len() - i,
        {
            let ghost t = texts@.take(i + 1);
            assert(t.drop_last() =~= texts@.take(i as int));
            assert(t.last() == texts@[i as int]);
            match &texts[i] {
                Some(content) => match parse_config_text(content.as_str()) {
                    Ok(v) => {
                        docs.push(v);
                    },
                    Err(e) => {
                        let ghost before = errors@;
                        errors.push((i, e));
                        assert(errors_view(errors@) =~= errors_view(before).push(
                            (i as int, errors@[errors@.len() - 1].1@),
                        ));
                    },
                },
                None => {},
            }
            i += 1;
        }
        assert(texts@.take(texts@.len() as int) =~= texts@);
        (Config::load(&docs), errors)
    }
}

} // verus!
