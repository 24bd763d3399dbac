//! The Waybar output: bar text, tooltip, CSS classes and the JSON line.
use vstd::prelude::*;

use crate::config::{Config, ConfigView};
use crate::device::{Device, DeviceView};
use crate::i18n::{tr, Lang};
use crate::text::{
    chars_of, decimal, owned, push_decimal, push_str, replace_all, replace_spec, string_of, trim,
    trim_spec,
};

verus! {

/// Human-readable sizes of one device (`capacity`, `used`, `free`), as the
/// byte formatter writes them.
pub struct SizeText {
    pub capacity: String,
    pub used: String,
    pub free: String,
}

/// The views of a device's size texts.
pub open spec fn size_views(s: SizeText) -> (Seq<char>, Seq<char>, Seq<char>) {
    (s.capacity@, s.used@, s.free@)
}

/// What one render produces.
pub struct RenderResult {
    pub json: String,
    pub text: String,
    pub tooltip: String,
    pub cls: String,
    pub alt: String,
}

/// Renders device lists with a configuration, in a language.
pub struct Renderer<'a> {
    config: &'a Config,
    lang: Lang,
}

/// `en` or `pt` as `lang` selects.
pub open spec fn tr_spec(lang: Lang, en: Seq<char>, pt: Seq<char>) -> Seq<char> {
    match lang {
        Lang::Pt => pt,
        Lang::En => en,
    }
}

/// The icon of a device: locked, then read-only when mounted, then mounted,
/// then read-only, else unmounted.
pub open spec fn icon_spec(c: ConfigView, d: DeviceView) -> Seq<char> {
    if d.encrypted && d.locked {
        c.icons_encrypted
    } else if d.mounted && d.read_only {
        c.icons_read_only
    } else if d.mounted {
        c.icons_mounted
    } else if d.read_only {
        c.icons_read_only
    } else {
        c.icons_unmounted
    }
}

/// The `{state}` text of a device.
pub open spec fn state_spec(d: DeviceView, lang: Lang) -> Seq<char> {
    let base = if d.encrypted && d.locked {
        tr_spec(lang, "Encrypted \u{b7} Locked"@, "Criptografado \u{b7} Bloqueado"@)
    } else if d.encrypted {
        tr_spec(lang, "Encrypted"@, "Criptografado"@)
    } else {
        Seq::empty()
    };
    if d.read_only {
        (if base.len() > 0 {
            base + " \u{b7} "@
        } else {
            base
        }) + tr_spec(lang, "Read-only"@, "Somente leitura"@)
    } else {
        base
    }
}

/// `t` with each token replaced in turn by the device's value.
pub open spec fn expand_spec(
    t: Seq<char>,
    d: DeviceView,
    sizes: (Seq<char>, Seq<char>, Seq<char>),
    lang: Lang,
) -> Seq<char> {
    let t1 = replace_spec(t, "{name}"@, d.name);
    let t2 = replace_spec(t1, "{capacity}"@, sizes.0);
    let t3 = replace_spec(t2, "{used}"@, sizes.1);
    let t4 = replace_spec(t3, "{free}"@, sizes.2);
    let t5 = replace_spec(t4, "{fs}"@, d.filesystem);
    let t6 = replace_spec(t5, "{block}"@, d.block);
    let t7 = replace_spec(t6, "{mount}"@, d.mount_point);
    let t8 = replace_spec(t7, "{vendor}"@, d.vendor);
    let t9 = replace_spec(t8, "{model}"@, d.model);
    replace_spec(t9, "{state}"@, state_spec(d, lang))
}

/// `s` split at each `c` (`n` occurrences give `n + 1` pieces).
pub open spec fn split_spec(s: Seq<char>, c: char) -> Seq<Seq<char>>
    decreases s.len(),
{
    if s.len() == 0 {
        seq![Seq::empty()]
    } else {
        let init = split_spec(s.drop_last(), c);
        if s.last() == c {
            init.push(Seq::empty())
        } else {
            init.update(init.len() - 1, init.last().push(s.last()))
        }
    }
}

/// The trimmed non-empty lines, joined by newlines.
pub open spec fn tidy_spec(lines: Seq<Seq<char>>) -> Seq<char>
    decreases lines.len(),
{
    if lines.len() == 0 {
        Seq::empty()
    } else {
        let acc = tidy_spec(lines.drop_last());
        let l = trim_spec(lines.last());
        if l.len() == 0 {
            acc
        } else if acc.len() == 0 {
            l
        } else {
            acc + seq!['\n'] + l
        }
    }
}

/// The tooltip of one device: the tooltip format with `{icon}` and the
/// device tokens expanded, without blank lines.
pub open spec fn tooltip_spec(
    c: ConfigView,
    d: DeviceView,
    sizes: (Seq<char>, Seq<char>, Seq<char>),
    lang: Lang,
) -> Seq<char> {
    let t = replace_spec(c.tooltip_format, "{icon}"@, icon_spec(c, d));
    tidy_spec(split_spec(expand_spec(t, d, sizes, lang), '\n'))
}

/// Whether some device is mounted.
pub open spec fn any_mounted(devs: Seq<DeviceView>) -> bool {
    exists|i: int| 0 <= i < devs.len() && #[trigger] devs[i].mounted
}

/// The CSS classes for the shown devices.
pub open spec fn classes_spec(devs: Seq<DeviceView>) -> Seq<Seq<char>> {
    if devs.len() == 0 {
        seq!["storage"@, "empty"@]
    } else {
        let m = any_mounted(devs);
        let ro = exists|i: int| 0 <= i < devs.len() && #[trigger] devs[i].read_only;
        let enc = exists|i: int| 0 <= i < devs.len() && (#[trigger] devs[i].encrypted && devs[i].locked);
        let c1 = seq!["storage"@];
        let c2 = if m {
            c1.push("mounted"@)
        } else {
            c1
        };
        let c3 = if ro {
            c2.push("readonly"@)
        } else {
            c2
        };
        let c4 = if enc {
            c3.push("encrypted"@)
        } else {
            c3
        };
        if !m {
            c4.push("unmounted"@)
        } else {
            c4
        }
    }
}

/// A JSON member value: a string or an array of strings.
pub enum JsonText {
    Str(String),
    List(Vec<String>),
}

/// The view of a [`JsonText`].
pub enum JsonTextView {
    Str(Seq<char>),
    List(Seq<Seq<char>>),
}

/// The view of a [`JsonText`].
pub open spec fn json_text_view(t: JsonText) -> JsonTextView {
    match t {
        JsonText::Str(s) => JsonTextView::Str(s@),
        JsonText::List(v) => JsonTextView::List(v@.map_values(|s: String| s@)),
    }
}

/// What `serde_json` writes for an object with these members (a function of
/// the members alone).
pub uninterp spec fn json_object_text(members: Seq<(Seq<char>, JsonTextView)>) -> Seq<char>;

/// The views of a list of members.
pub open spec fn members_view(m: Seq<(String, JsonText)>) -> Seq<(Seq<char>, JsonTextView)> {
    m.map_values(|e: (String, JsonText)| (e.0@, json_text_view(e.1)))
}

/// Builds a `serde_json::Value` object from the members and serializes it
/// with `to_string`; the text is named by [`json_object_text`].
#[verifier::external_body]
fn json_object(members: &Vec<(String, JsonText)>) -> (r: String)
    ensures
        r@ == json_object_text(members_view(members@)),
{
    let map: serde_json::Map<String, serde_json::Value> = members.iter().map(|(k, v)| {
        let value = match v {
            JsonText::Str(s) => serde_json::Value::String(s.clone()),
            JsonText::List(l) => serde_json::Value::Array(
                l.iter().map(|s| serde_json::Value::String(s.clone())).collect(),
            ),
        };
        (k.clone(), value)
    }).collect();
    serde_json::Value::Object(map).to_string()
}

/// The number of devices shown: at most `max_devices` when that is positive.
pub open spec fn shown_count(c: ConfigView, n: int) -> int {
    if c.max_devices > 0 && (n as i32) > c.max_devices {
        c.max_devices as int
    } else {
        n
    }
}

/// The tooltip lines of the first `n` devices.
pub open spec fn list_spec(
    c: ConfigView,
    devs: Seq<DeviceView>,
    sizes: Seq<(Seq<char>, Seq<char>, Seq<char>)>,
    lang: Lang,
    n: int,
) -> Seq<char>
    decreases n,
{
    if n <= 0 {
        Seq::empty()
    } else {
        list_spec(c, devs, sizes, lang, n - 1) + seq!['\n'] + "\u{2022} "@ + replace_spec(
            tooltip_spec(c, devs[n - 1], sizes[n - 1], lang),
            "\n"@,
            " \u{b7} "@,
        )
    }
}

/// The bar text, tooltip, alt and class for a list of devices.
pub open spec fn render_fields(
    c: ConfigView,
    devs: Seq<DeviceView>,
    sizes: Seq<(Seq<char>, Seq<char>, Seq<char>)>,
    lang: Lang,
) -> (Seq<char>, Seq<char>, Seq<char>, Seq<char>) {
    let n = shown_count(c, devs.len() as int);
    let shown = devs.take(n);
    if n == 0 {
        (
            if c.hide_when_empty {
                Seq::empty()
            } else {
                c.icons_unmounted
            },
            Seq::empty(),
            "storage-empty"@,
            "storage empty"@,
        )
    } else {
        let overflow = devs.len() - n;
        let tooltip = tr_spec(lang, "Removable devices"@, "Dispositivos remov\u{ed}veis"@)
            + list_spec(c, devs, sizes, lang, n) + if overflow > 0 {
            seq!['\n', '+'] + decimal(overflow as nat) + tr_spec(lang, " more"@, " mais"@)
        } else {
            Seq::empty()
        };
        let m = any_mounted(shown);
        (
            c.icons_unmounted,
            tooltip,
            if m {
                "storage-mounted"@
            } else {
                "storage-unmounted"@
            },
            if m {
                "storage mounted"@
            } else {
                "storage unmounted"@
            },
        )
    }
}

/// The members of the JSON line: text, tooltip when not empty, alt, and the
/// class (an array when there is more than one class).
pub open spec fn json_members(
    text: Seq<char>,
    tooltip: Seq<char>,
    alt: Seq<char>,
    classes: Seq<Seq<char>>,
) -> Seq<(Seq<char>, JsonTextView)> {
    let m1 = seq![("text"@, JsonTextView::Str(text))];
    let m2 = if tooltip.len() > 0 {
        m1.push(("tooltip"@, JsonTextView::Str(tooltip)))
    } else {
        m1
    };
    let m3 = m2.push(("alt"@, JsonTextView::Str(alt)));
    m3.push(
        (
            "class"@,
            if classes.len() > 1 {
                JsonTextView::List(classes)
            } else {
                JsonTextView::Str(classes[0])
            },
        ),
    )
}

/// The views of a list of devices.
pub open spec fn device_views(devs: Seq<Device>) -> Seq<DeviceView> {
    devs.map_values(|d: Device| d@)
}

/// The views of a list of size texts.
pub open spec fn sizes_views(s: Seq<SizeText>) -> Seq<(Seq<char>, Seq<char>, Seq<char>)> {
    s.map_values(|t: SizeText| size_views(t))
}

/// Lowercase-free tooltip tidying: trimmed non-empty lines joined by `\n`.
fn tidy_lines(s: &str) -> (r: String)
    ensures
        r@ == tidy_spec(split_spec(s@, '\n')),
{
    let cs = chars_of(s);
    let mut out = String::new();
    let mut cur: Vec<char> = Vec::new();
    let ghost mut done: Seq<Seq<char>> = Seq::empty();
    let mut i: usize = 0;
    assert(s@.take(0) =~= Seq::<char>::empty());
    assert(split_spec(Seq::<char>::empty(), '\n') =~= seq![Seq::<char>::empty()]);
    assert(done.push(cur@) =~= seq![Seq::<char>::empty()]);
    while i < cs.len()
        invariant
            i <= cs@.len(),
            cs@ == s@,
            split_spec(s@.take(i as int), '\n') == done.push(cur@),
            out@ == tidy_spec(done),
        decreases cs.len() - i,
    {
        let c = cs[i];
        assert(s@.take(i + 1).drop_last() =~= s@.take(i as int));
        assert(s@.take(i + 1).last() == c);
        if c == '\n' {
            let line = string_of(&cur);
            let t = trim(line.as_str());
            proof {
                assert(done.push(cur@).drop_last() =~= done);
            }
            if !t.is_empty() {
                if !out.is_empty() {
                    out.push('\n');
                }
                push_str(&mut out, t);
            }
            proof {
                done = done.push(cur@);
            }
            cur = Vec::new();
            assert(split_spec(s@.take(i + 1), '\n') =~= done.push(cur@));
        } else {
            let ghost old_cur = cur@;
            cur.push(c);
            assert(split_spec(s@.take(i + 1), '\n') =~= done.push(cur@));
        }
        i += 1;
    }
    assert(s@.take(cs@.len() as int) =~= s@);
    let line = string_of(&cur);
    let t = trim(line.as_str());
    assert(done.push(cur@).drop_last() =~= done);
    if !t.is_empty() {
        if !out.is_empty() {
            out.push('\n');
        }
        push_str(&mut out, t);
    }
    out
}

impl<'a> Renderer<'a> {
    /// A renderer for `config`, writing texts in `lang`.
    pub fn new(config: &'a Config, lang: Lang) -> (r: Self)
        ensures
            r.config() == *config,
            r.lang() == lang,
    {
        Renderer { config, lang }
    }

    /// The configuration.
    pub closed spec fn config(&self) -> Config {
        *self.config
    }

    /// The language.
    pub closed spec fn lang(&self) -> Lang {
        self.lang
    }

    /// The icon for a device.
    pub fn icon_for(&self, d: &Device) -> (r: &str)
        ensures
            r@ == icon_spec(self.config()@, d@),
    {
        if d.encrypted && d.locked {
            return self.config.icons_encrypted.as_str();
        }
        if d.mounted && d.read_only {
            return self.config.icons_read_only.as_str();
        }
        if d.mounted {
            return self.config.icons_mounted.as_str();
        }
        if d.read_only {
            return self.config.icons_read_only.as_str();
        }
        self.config.icons_unmounted.as_str()
    }

    /// Replaces the device tokens of a tooltip format.
    pub fn expand_tokens(&self, out: &mut String, d: &Device, sizes: &SizeText)
        ensures
            final(out)@ == expand_spec(old(out)@, d@, size_views(*sizes), self.lang()),
    {
        let mut state = String::new();
        if d.encrypted && d.locked {
            push_str(
                &mut state,
                tr(self.lang, "Encrypted \u{b7} Locked", "Criptografado \u{b7} Bloqueado"),
            );
        } else if d.encrypted {
            push_str(&mut state, tr(self.lang, "Encrypted", "Criptografado"));
        }
        if d.read_only {
            if !state.is_empty() {
                push_str(&mut state, " \u{b7} ");
            }
            push_str(&mut state, tr(self.lang, "Read-only", "Somente leitura"));
        }
        assert(state@ == state_spec(d@, self.lang()));
        proof {
            reveal_strlit("{name}");
            reveal_strlit("{capacity}");
            reveal_strlit("{used}");
            reveal_strlit("{free}");
            reveal_strlit("{fs}");
            reveal_strlit("{block}");
            reveal_strlit("{mount}");
            reveal_strlit("{vendor}");
            reveal_strlit("{model}");
            reveal_strlit("{state}");
        }
        replace_all(out, "{name}", d.name.as_str());
        replace_all(out, "{capacity}", sizes.capacity.as_str());
        replace_all(out, "{used}", sizes.used.as_str());
        replace_all(out, "{free}", sizes.free.as_str());
        replace_all(out, "{fs}", d.filesystem.as_str());
        replace_all(out, "{block}", d.block.as_str());
        replace_all(out, "{mount}", d.mount_point.as_str());
        replace_all(out, "{vendor}", d.vendor.as_str());
        replace_all(out, "{model}", d.model.as_str());
        replace_all(out, "{state}", state.as_str());
    }

    /// The tooltip of one device.
    pub fn tooltip_for(&self, d: &Device, sizes: &SizeText) -> (r: String)
        ensures
            r@ == tooltip_spec(self.config()@, d@, size_views(*sizes), self.lang()),
    {
        let mut tip = self.config.tooltip_format.clone();
        proof {
            reveal_strlit("{icon}");
        }
        replace_all(&mut tip, "{icon}", self.icon_for(d));
        self.expand_tokens(&mut tip, d, sizes);
        tidy_lines(tip.as_str())
    }

    /// The CSS classes for the shown devices.
    pub fn classes_for(&self, visible: &Vec<Device>) -> (r: Vec<String>)
        ensures
            r@.map_values(|s: String| s@) == classes_spec(device_views(visible@)),
    {
        let ghost dv = device_views(visible@);
        let mut classes: Vec<String> = Vec::new();
        classes.push(owned("storage"));
        if visible.len() == 0 {
            classes.push(owned("empty"));
            assert(classes@.map_values(|s: String| s@) =~= classes_spec(dv));
            return classes;
        }
        let mut any_mounted_flag = false;
        let mut any_readonly = false;
        let mut any_encrypted = false;
        let mut i: usize = 0;
        while i < visible.len()
            invariant
                i <= visible@.len(),
                dv == device_views(visible@),
                any_mounted_flag == exists|k: int| 0 <= k < i && #[trigger] dv[k].mounted,
                any_readonly == exists|k: int| 0 <= k < i && #[trigger] dv[k].read_only,
                any_encrypted == exists|k: int|
                    0 <= k < i && (#[trigger] dv[k].encrypted && dv[k].locked),
            decreases visible.len() - i,
        {
            let d = &visible[i];
            assert(dv[i as int] == d@);
            assert(dv[i as int].mounted == d.mounted);
            assert(dv[i as int].read_only == d.read_only);
            assert(dv[i as int].encrypted == d.encrypted && dv[i as int].locked == d.locked);
            any_mounted_flag = any_mounted_flag || d.mounted;
            any_readonly = any_readonly || d.read_only;
            any_encrypted = any_encrypted || (d.encrypted && d.locked);
            i += 1;
        }
        if any_mounted_flag {
            classes.push(owned("mounted"));
        }
        if any_readonly {
            classes.push(owned("readonly"));
        }
        if any_encrypted {
            classes.push(owned("encrypted"));
        }
        if !any_mounted_flag {
            classes.push(owned("unmounted"));
        }
        assert(classes@.map_values(|s: String| s@) =~= classes_spec(dv));
        classes
    }

    /// The first `n` devices.
    fn first_devices(devices: &Vec<Device>, n: usize) -> (r: Vec<Device>)
        requires
            n <= devices@.len(),
        ensures
            device_views(r@) == device_views(devices@).take(n as int),
    {
        let ghost devs = device_views(devices@);
        let mut visible: Vec<Device> = Vec::new();
        let mut i: usize = 0;
        while i < n
            invariant
                i <= n <= devices@.len(),
                devs == device_views(devices@),
                visible@.len() == i,
                forall|q: int| 0 <= q < i ==> #[trigger] visible@[q]@ == devs[q],
            decreases n - i,
        {
            let d = devices[i].duplicate();
            assert(devs[i as int] == devices@[i as int]@);
            visible.push(d);
            i += 1;
        }
        assert(device_views(visible@) =~= devs.take(n as int));
        visible
    }

    /// The tooltip of a non-empty list: a header line, one line per shown
    /// device, and a count of the devices left out.
    fn list_tooltip(&self, devices: &Vec<Device>, sizes: &Vec<SizeText>, shown: usize) -> (r:
        String)
        requires
            sizes@.len() == devices@.len(),
            shown <= devices@.len(),
        ensures
            r@ == tr_spec(self.lang(), "Removable devices"@, "Dispositivos remov\u{ed}veis"@)
                + list_spec(
                self.config()@,
                device_views(devices@),
                sizes_views(sizes@),
                self.lang(),
                shown as int,
            ) + if devices@.len() - shown > 0 {
                seq!['\n', '+'] + decimal((devices@.len() - shown) as nat) + tr_spec(
                    self.lang(),
                    " more"@,
                    " mais"@,
                )
            } else {
                Seq::empty()
            },
    {
        let ghost c = self.config()@;
        let ghost devs = device_views(devices@);
        let ghost szs = sizes_views(sizes@);
        let n = devices.len();
        let mut tooltip = String::new();
        push_str(&mut tooltip, tr(self.lang, "Removable devices", "Dispositivos remov\u{ed}veis"));
        let ghost head = tooltip@;
        proof {
            reveal_strlit("\n");
            assert("\n"@ =~= seq!['\n']);
        }
        let mut k: usize = 0;
        assert(head + list_spec(c, devs, szs, self.lang(), 0) =~= head);
        while k < shown
            invariant
                k <= shown <= n,
                n == devices@.len(),
                sizes@.len() == n,
                devs == device_views(devices@),
                szs == sizes_views(sizes@),
                c == self.config()@,
                "\n"@ =~= seq!['\n'],
                tooltip@ == head + list_spec(c, devs, szs, self.lang(), k as int),
            decreases shown - k,
        {
            tooltip.push('\n');
            push_str(&mut tooltip, "\u{2022} ");
            let mut t = self.tooltip_for(&devices[k], &sizes[k]);
            assert(devs[k as int] == devices@[k as int]@);
            assert(szs[k as int] == size_views(sizes@[k as int]));
            replace_all(&mut t, "\n", " \u{b7} ");
            push_str(&mut tooltip, t.as_str());
            k += 1;
            assert(tooltip@ =~= head + list_spec(c, devs, szs, self.lang(), k as int));
        }
        let overflow = n - shown;
        let ghost listed = tooltip@;
        if overflow > 0 {
            tooltip.push('\n');
            tooltip.push('+');
            push_decimal(&mut tooltip, overflow);
            push_str(&mut tooltip, tr(self.lang, " more", " mais"));
            assert(tooltip@ =~= listed + (seq!['\n', '+'] + decimal(overflow as nat) + tr_spec(
                self.lang(),
                " more"@,
                " mais"@,
            )));
        } else {
            assert(tooltip@ =~= listed + Seq::<char>::empty());
        }
        tooltip
    }

    /// Whether some device is mounted.
    fn any_mounted_exec(visible: &Vec<Device>) -> (r: bool)
        ensures
            r == any_mounted(device_views(visible@)),
    {
        let mut mounted = false;
        let mut j: usize = 0;
        while j < visible.len()
            invariant
                j <= visible@.len(),
                mounted == exists|q: int|
                    0 <= q < j && #[trigger] device_views(visible@)[q].mounted,
            decreases visible.len() - j,
        {
            assert(device_views(visible@)[j as int].mounted == visible@[j as int].mounted);
            mounted = mounted || visible[j].mounted;
            j += 1;
        }
        mounted
    }

    /// The JSON line for the given fields.
    fn json_line(text: &String, tooltip: &String, alt: &String, classes: Vec<String>) -> (r: String)
        requires
            classes@.len() >= 1,
        ensures
            r@ == json_object_text(
                json_members(text@, tooltip@, alt@, classes@.map_values(|s: String| s@)),
            ),
    {
        let ghost class_views = classes@.map_values(|s: String| s@);
        let mut members: Vec<(String, JsonText)> = Vec::new();
        members.push((owned("text"), JsonText::Str(text.clone())));
        if !tooltip.is_empty() {
            members.push((owned("tooltip"), JsonText::Str(tooltip.clone())));
        }
        members.push((owned("alt"), JsonText::Str(alt.clone())));
        if classes.len() > 1 {
            members.push((owned("class"), JsonText::List(classes)));
        } else {
            let first = classes[0].clone();
            members.push((owned("class"), JsonText::Str(first)));
        }
        assert(members_view(members@) =~= json_members(text@, tooltip@, alt@, class_views));
        json_object(&members)
    }

    /// The Waybar output for a list of devices; `sizes[i]` holds the size
    /// texts of `devices[i]`.
    pub fn render(&self, devices: &Vec<Device>, sizes: &Vec<SizeText>) -> (r: RenderResult)
        requires
            sizes@.len() == devices@.len(),
        ensures
            ({
                let c = self.config()@;
                let devs = device_views(devices@);
                let (text, tooltip, alt, cls) = render_fields(
                    c,
                    devs,
                    sizes_views(sizes@),
                    self.lang(),
                );
                &&& r.text@ == text
                &&& r.tooltip@ == tooltip
                &&& r.alt@ == alt
                &&& r.cls@ == cls
                &&& r.json@ == json_object_text(
                    json_members(
                        text,
                        tooltip,
                        alt,
                        classes_spec(devs.take(shown_count(c, devs.len() as int))),
                    ),
                )
            }),
    {
        let ghost c = self.config()@;
        let max = self.config.max_devices;
        let n = devices.len();
        let shown: usize = if max > 0 && (n as i32) > max {
            max as usize
        } else {
            n
        };
        assert(shown as int == shown_count(c, n as int));
        let visible = Renderer::first_devices(devices, shown);
        let text;
        let tooltip;
        let alt;
        let cls;
        if shown == 0 {
            alt = owned("storage-empty");
            tooltip = String::new();
            if self.config.hide_when_empty {
                text = String::new();
            } else {
                text = self.config.icons_unmounted.clone();
            }
            cls = owned("storage empty");
        } else {
            text = self.config.icons_unmounted.clone();
            tooltip = self.list_tooltip(devices, sizes, shown);
            if Renderer::any_mounted_exec(&visible) {
                alt = owned("storage-mounted");
                cls = owned("storage mounted");
            } else {
                alt = owned("storage-unmounted");
                cls = owned("storage unmounted");
            }
        }
        let classes = self.classes_for(&visible);
        assert(classes@.len() == classes@.map_values(|s: String| s@).len());
        let json = Renderer::json_line(&text, &tooltip, &alt, classes);
        RenderResult { json, text, tooltip, cls, alt }
    }
}

} // verus!
