//! User-interface language: chosen from the locale variables, English unless
//! the locale asks for Portuguese.
use vstd::prelude::*;

use crate::text::{
    chars_of, lowercase, starts_with_spec, starts_with_str, str_eq, string_of, to_lowercase,
};

verus! {

/// A user-interface language.
#[derive(Clone, Copy, PartialEq, Eq, Debug, Structural)]
pub enum Lang {
    En,
    Pt,
}

impl Default for Lang {
    /// English, the language used until the locale has been read.
    fn default() -> (r: Lang)
        ensures
            r == Lang::En,
    {
        Lang::En
    }
}

/// The text for `lang`: `en` in English, `pt` in Portuguese.
pub fn tr<'a>(lang: Lang, en: &'a str, pt: &'a str) -> (r: &'a str)
    ensures
        r@ == (match lang {
            Lang::Pt => pt@,
            Lang::En => en@,
        }),
{
    match lang {
        Lang::Pt => pt,
        Lang::En => en,
    }
}

/// The part of `s` before the first `c` (all of `s` when there is none).
pub open spec fn before_char(s: Seq<char>, c: char) -> Seq<char>
    decreases s.len(),
{
    if s.len() == 0 {
        s
    } else if s[0] == c {
        Seq::empty()
    } else {
        seq![s[0]] + before_char(s.drop_first(), c)
    }
}

fn before_char_exec(s: &str, c: char) -> (r: String)
    ensures
        r@ == before_char(s@, c),
{
    let cs = chars_of(s);
    let mut out: Vec<char> = Vec::new();
    let mut i: usize = 0;
    assert(s@.skip(0) =~= s@);
    assert(out@ + before_char(s@, c) =~= before_char(s@, c));
    while i < cs.len() && cs[i] != c
        invariant
            i <= cs@.len(),
            cs@ == s@,
            out@ + before_char(s@.skip(i as int), c) == before_char(s@, c),
        decreases cs.len() - i,
    {
        let ghost old_out = out@;
        assert(s@.skip(i as int).drop_first() =~= s@.skip(i + 1));
        out.push(cs[i]);
        i += 1;
        assert(out@ + before_char(s@.skip(i as int), c) =~= old_out + (seq![cs@[i - 1]]
            + before_char(s@.skip(i as int), c)));
    }
    assert(before_char(s@.skip(i as int), c) =~= Seq::<char>::empty());
    assert(out@ + Seq::<char>::empty() =~= out@);
    string_of(&out)
}

/// The language code of a locale value: its first `:`-separated entry, up to
/// the encoding suffix after `.`, in lowercase.
pub open spec fn locale_code(value: Seq<char>) -> Seq<char> {
    lowercase(before_char(before_char(value, ':'), '.'))
}

/// What a locale value says: Portuguese for a code starting with `pt`,
/// English for any other code but `c` and `posix`, nothing for those or an
/// empty code.
pub open spec fn locale_rule_spec(value: Seq<char>) -> Option<Lang> {
    let code = locale_code(value);
    if starts_with_spec(code, "pt"@) {
        Some(Lang::Pt)
    } else if code.len() > 0 && code != "c"@ && code != "posix"@ {
        Some(Lang::En)
    } else {
        None
    }
}

/// Reads one locale value.
pub fn locale_rule(value: &str) -> (r: Option<Lang>)
    ensures
        r == locale_rule_spec(value@),
{
    let first = before_char_exec(value, ':');
    let raw = before_char_exec(first.as_str(), '.');
    let code = to_lowercase(raw.as_str());
    if starts_with_str(code.as_str(), "pt") {
        return Some(Lang::Pt);
    }
    if !code.is_empty() && !str_eq(code.as_str(), "c") && !str_eq(code.as_str(), "posix") {
        return Some(Lang::En);
    }
    None
}

/// The language the locale variables select: the first set variable whose
/// value decides, else English.
pub open spec fn detect_spec(values: Seq<Option<String>>) -> Lang
    decreases values.len(),
{
    if values.len() == 0 {
        Lang::En
    } else {
        match values[0] {
            Some(v) => match locale_rule_spec(v@) {
                Some(l) => l,
                None => detect_spec(values.drop_first()),
            },
            None => detect_spec(values.drop_first()),
        }
    }
}

/// Picks the language from the values of `LC_ALL`, `LC_MESSAGES`, `LANG` and
/// `LANGUAGE`, in that order (`None` for an unset variable).
pub fn detect(values: &Vec<Option<String>>) -> (r: Lang)
    ensures
        r == detect_spec(values@),
{
    let mut i: usize = 0;
    assert(values@.skip(0) =~= values@);
    while i < values.len()
        invariant
            i <= values@.len(),
            detect_spec(values@) == detect_spec(values@.skip(i as int)),
        decreases values.len() - i,
    {
        assert(values@.skip(i as int)[0] == values@[i as int]);
        assert(values@.skip(i as int).drop_first() =~= values@.skip(i + 1));
        if let Some(v) = &values[i] {
            if let Some(l) = locale_rule(v.as_str()) {
                return l;
            }
        }
        i += 1;
    }
    Lang::En
}

} // verus!
