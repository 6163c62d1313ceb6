//! The languages of the user interface.
//!
//! A message is named by its English text. A message without a translation is
//! shown in English.
use vstd::prelude::*;

use crate::text;

pub mod catalog;

use crate::i18n::catalog::{CATALOG, CATALOG_LEN};

verus! {

/// A language of the user interface.
#[derive(Debug, Clone, Copy, PartialEq, Eq, Structural)]
pub enum Language {
    En,
    Ko,
    Ja,
}

impl Default for Language {
    fn default() -> (r: Self)
        ensures
            r == Language::En,
    {
        Language::En
    }
}

/// The language that a name in lower case stands for.
pub open spec fn language_named(s: Seq<char>) -> Option<Language> {
    if s == "en"@ || s == "english"@ {
        Some(Language::En)
    } else if s == "ko"@ || s == "kr"@ || s == "korean"@ {
        Some(Language::Ko)
    } else if s == "ja"@ || s == "jp"@ || s == "japanese"@ {
        Some(Language::Ja)
    } else {
        None
    }
}

/// The language that a name in lower case stands for.
pub fn language_from_lower(s: &str) -> (r: Option<Language>)
    ensures
        r == language_named(s@),
{
    if text::str_eq(s, "en") || text::str_eq(s, "english") {
        Some(Language::En)
    } else if text::str_eq(s, "ko") || text::str_eq(s, "kr") || text::str_eq(s, "korean") {
        Some(Language::Ko)
    } else if text::str_eq(s, "ja") || text::str_eq(s, "jp") || text::str_eq(s, "japanese") {
        Some(Language::Ja)
    } else {
        None
    }
}

impl Language {
    /// All languages, in the order in which they are shown.
    pub const ALL: [Language; 3] = [Language::En, Language::Ko, Language::Ja];

    /// The code of a language.
    pub open spec fn code_text(self) -> Seq<char> {
        match self {
            Language::En => "en"@,
            Language::Ko => "ko"@,
            Language::Ja => "ja"@,
        }
    }

    /// The code of the language.
    pub fn code(self) -> (r: &'static str)
        ensures
            r@ == self.code_text(),
    {
        match self {
            Language::En => "en",
            Language::Ko => "ko",
            Language::Ja => "ja",
        }
    }

    /// The language of a code or an English name, whatever its case and the
    /// white space around it.
    pub fn from_code(s: &str) -> (r: Option<Self>)
        ensures
            r == language_named(text::lowercase(text::trimmed(s@))),
            text::plain(text::trimmed(s@)) ==> r == language_named(
                text::ascii_lower(text::trimmed(s@)),
            ),
    {
        let t = text::to_lowercase(text::trim(s));
        language_from_lower(t.as_str())
    }

    /// The name of a language in itself.
    pub open spec fn name_text(self) -> Seq<char> {
        match self {
            Language::En => "English"@,
            Language::Ko => "한국어"@,
            Language::Ja => "日本語"@,
        }
    }

    /// The name of the language in itself.
    pub fn native_name(self) -> (r: &'static str)
        ensures
            r@ == self.name_text(),
    {
        match self {
            Language::En => "English",
            Language::Ko => "한국어",
            Language::Ja => "日本語",
        }
    }

    /// The instruction to answer in a language.
    pub open spec fn instruction_text(self) -> Seq<char> {
        match self {
            Language::En => "Respond to the user in English."@,
            Language::Ko => "Respond to the user in Korean (한국어)."@,
            Language::Ja => "Respond to the user in Japanese (日本語)."@,
        }
    }

    /// The instruction to answer in the language.
    pub fn response_instruction(self) -> (r: &'static str)
        ensures
            r@ == self.instruction_text(),
    {
        match self {
            Language::En => "Respond to the user in English.",
            Language::Ko => "Respond to the user in Korean (한국어).",
            Language::Ja => "Respond to the user in Japanese (日本語).",
        }
    }
}

// ---------------------------------------------------------------------------
// The current language
// ---------------------------------------------------------------------------

/// The language that the user interface is shown in, held as a number that
/// may be read and written at once.
#[derive(Debug, Clone, Copy)]
pub struct CurrentLanguage {
    pub index: u8,
}

/// The language that a number stands for; any unknown number is English.
pub open spec fn language_at(index: u8) -> Language {
    if index == 1 {
        Language::Ko
    } else if index == 2 {
        Language::Ja
    } else {
        Language::En
    }
}

impl Default for CurrentLanguage {
    fn default() -> (r: Self)
        ensures
            language_at(r.index) == Language::En,
    {
        CurrentLanguage { index: 0 }
    }
}

/// The current language.
pub fn current(cell: &CurrentLanguage) -> (r: Language)
    ensures
        r == language_at(cell.index),
{
    if cell.index == 1 {
        Language::Ko
    } else if cell.index == 2 {
        Language::Ja
    } else {
        Language::En
    }
}

/// Sets the current language.
pub fn set_language(cell: &mut CurrentLanguage, lang: Language)
    ensures
        language_at(final(cell).index) == lang,
        final(cell).index <= 2,
{
    cell.index = match lang {
        Language::En => 0,
        Language::Ko => 1,
        Language::Ja => 2,
    };
}

// ---------------------------------------------------------------------------
// Messages
// ---------------------------------------------------------------------------

/// The first place from `i` on at which a message stands in the catalog.
pub open spec fn entry_from(key: Seq<char>, i: int) -> Option<int>
    decreases CATALOG_LEN - i,
{
    if i >= CATALOG_LEN {
        None
    } else if CATALOG@[i].0@ == key {
        Some(i)
    } else {
        entry_from(key, i + 1)
    }
}

/// A message in a language: its translation, or itself where there is none.
pub open spec fn message(lang: Language, key: Seq<char>) -> Seq<char> {
    match (lang, entry_from(key, 0)) {
        (Language::Ko, Some(i)) => CATALOG@[i].1@,
        (Language::Ja, Some(i)) => CATALOG@[i].2@,
        _ => key,
    }
}

/// The translation of a message that stands in the given column.
fn lookup(key: &'static str, lang: Language) -> (r: &'static str)
    ensures
        r@ == message(lang, key@),
{
    let mut i: usize = 0;
    while i < CATALOG_LEN
        invariant
            i <= CATALOG_LEN,
            entry_from(key@, i as int) == entry_from(key@, 0),
        decreases CATALOG_LEN - i,
    {
        let e = CATALOG[i];
        if text::str_eq(e.0, key) {
            return match lang {
                Language::En => key,
                Language::Ko => e.1,
                Language::Ja => e.2,
            };
        }
        i = i + 1;
    }
    key
}

/// A message in a language.
pub fn translate(lang: Language, key: &'static str) -> (r: &'static str)
    ensures
        r@ == message(lang, key@),
{
    match lang {
        Language::En => key,
        Language::Ko => lookup(key, Language::Ko),
        Language::Ja => lookup(key, Language::Ja),
    }
}

/// A message in the current language.
pub fn tr(cell: &CurrentLanguage, key: &'static str) -> (r: &'static str)
    ensures
        r@ == message(language_at(cell.index), key@),
{
    translate(current(cell), key)
}

/// The argument for the placeholder with the given number, empty where there
/// is none.
pub open spec fn argument(args: Seq<Seq<char>>, k: int) -> Seq<char> {
    if 0 <= k < args.len() {
        args[k]
    } else {
        Seq::empty()
    }
}

/// A template with its placeholders, each in braces, replaced by the arguments
/// from number `k` on. A brace that is never closed stands for itself.
pub open spec fn filled(template: Seq<char>, args: Seq<Seq<char>>, k: int) -> Seq<char>
    decreases template.len(),
{
    match text::find(template, seq!['{']) {
        Some(o) if 0 <= o < template.len() => {
            let after = template.skip(o + 1);
            match text::find(after, seq!['}']) {
                Some(c) if 0 <= c < after.len() => template.take(o) + argument(args, k) + filled(
                    after.skip(c + 1),
                    args,
                    k + 1,
                ),
                _ => template.take(o) + seq!['{'] + filled(after, args, k),
            }
        },
        _ => template,
    }
}

/// The views of arguments.
pub open spec fn arg_views(args: Seq<&str>) -> Seq<Seq<char>> {
    args.map_values(|s: &str| s@)
}

/// Fills the placeholders of a template.
pub fn fill(template: &str, args: &[&str]) -> (r: String)
    ensures
        r@ == filled(template@, arg_views(args@), 0),
{
    let v = text::chars_of(template);
    let open: [char; 1] = ['{'];
    let close: [char; 1] = ['}'];
    let ghost all = arg_views(args@);
    let mut out = String::new();
    let mut pos: usize = 0;
    let mut k: usize = 0;
    proof {
        assert(open@ =~= seq!['{']);
        assert(close@ =~= seq!['}']);
        assert(v@.skip(0) =~= v@);
        assert(Seq::<char>::empty() + filled(template@, all, 0) =~= filled(template@, all, 0));
    }
    loop
        invariant
            v@ == template@,
            open@ == seq!['{'],
            close@ == seq!['}'],
            all == arg_views(args@),
            pos <= v.len(),
            k <= pos,
            out@ + filled(v@.skip(pos as int), all, k as int) == filled(template@, all, 0),
        decreases v.len() - pos,
    {
        let ghost rest = v@.skip(pos as int);
        let ghost before = out@;
        proof {
            text::lemma_find_shift(v@, open@, pos as int, pos as int);
            text::lemma_find_from(rest, open@, 0);
        }
        match text::search(&v, &open, pos) {
            Some(i) => {
                text::push_chars(&mut out, &v[pos..i]);
                let ghost o = i - pos;
                let ghost after = rest.skip(o + 1);
                proof {
                    assert(v@.subrange(pos as int, i as int) =~= rest.take(o));
                    assert(after =~= v@.skip(i + 1));
                    text::lemma_find_shift(v@, close@, i + 1, i + 1);
                    text::lemma_find_from(after, close@, 0);
                }
                match text::search(&v, &close, i + 1) {
                    Some(c) => {
                        if k < args.len() {
                            out.append(args[k]);
                        }
                        proof {
                            assert(out@ =~= before + rest.take(o) + argument(all, k as int));
                            assert(after.skip(c - i - 1 + 1) =~= v@.skip(c + 1));
                            let tail = filled(v@.skip(c + 1), all, k + 1);
                            assert(out@ + tail =~= before + (rest.take(o) + argument(
                                all,
                                k as int,
                            ) + tail));
                        }
                        k = k + 1;
                        pos = c + 1;
                    },
                    None => {
                        out.push('{');
                        proof {
                            let tail = filled(after, all, k as int);
                            assert(out@ + tail =~= before + (rest.take(o) + seq!['{'] + tail));
                        }
                        pos = i + 1;
                    },
                }
            },
            None => {
                text::push_chars(&mut out, &v[pos..v.len()]);
                proof {
                    assert(v@.subrange(pos as int, v@.len() as int) =~= rest);
                }
                return out;
            },
        }
    }
}

/// A message in a language, with its placeholders filled.
pub open spec fn message_fmt(lang: Language, key: Seq<char>, args: Seq<Seq<char>>) -> Seq<char> {
    filled(message(lang, key), args, 0)
}

/// A message in a language, with its placeholders filled in order. A
/// placeholder without an argument is left empty.
pub fn translate_fmt(lang: Language, key: &'static str, args: &[&str]) -> (r: String)
    ensures
        r@ == message_fmt(lang, key@, arg_views(args@)),
{
    let template = translate(lang, key);
    fill(template, args)
}

/// A message with one argument in the places of its placeholders.
pub fn say1(lang: Language, key: &'static str, a: &str) -> (r: String)
    ensures
        r@ == message_fmt(lang, key@, seq![a@]),
{
    let args: [&str; 1] = [a];
    proof {
        assert(arg_views(args@) =~= seq![a@]);
    }
    translate_fmt(lang, key, &args)
}

/// A message with two arguments in the places of its placeholders.
pub fn say2(lang: Language, key: &'static str, a: &str, b: &str) -> (r: String)
    ensures
        r@ == message_fmt(lang, key@, seq![a@, b@]),
{
    let args: [&str; 2] = [a, b];
    proof {
        assert(arg_views(args@) =~= seq![a@, b@]);
    }
    translate_fmt(lang, key, &args)
}

/// A message with three arguments in the places of its placeholders.
pub fn say3(lang: Language, key: &'static str, a: &str, b: &str, c: &str) -> (r: String)
    ensures
        r@ == message_fmt(lang, key@, seq![a@, b@, c@]),
{
    let args: [&str; 3] = [a, b, c];
    proof {
        assert(arg_views(args@) =~= seq![a@, b@, c@]);
    }
    translate_fmt(lang, key, &args)
}

/// A message with four arguments in the places of its placeholders.
pub fn say4(lang: Language, key: &'static str, a: &str, b: &str, c: &str, d: &str) -> (r: String)
    ensures
        r@ == message_fmt(lang, key@, seq![a@, b@, c@, d@]),
{
    let args: [&str; 4] = [a, b, c, d];
    proof {
        assert(arg_views(args@) =~= seq![a@, b@, c@, d@]);
    }
    translate_fmt(lang, key, &args)
}

/// A message in the current language, with its placeholders filled.
pub fn tr_fmt(cell: &CurrentLanguage, key: &'static str, args: &[&str]) -> (r: String)
    ensures
        r@ == message_fmt(language_at(cell.index), key@, arg_views(args@)),
{
    translate_fmt(current(cell), key, args)
}

// ---------------------------------------------------------------------------
// Laws
// ---------------------------------------------------------------------------

/// Trimming a text and writing it in lower case first changes nothing: the text
/// that comes of it stands for the same language as the text itself, and where
/// the one is plain, so is the other.
pub proof fn law_lowering_first_changes_nothing(s: Seq<char>)
    ensures
        ({
            let t = text::ascii_lower(text::trimmed(s));
            &&& language_named(text::ascii_lower(text::trimmed(t))) == language_named(t)
            &&& text::plain(text::trimmed(s)) ==> text::plain(text::trimmed(t))
            &&& text::all_ascii(text::trimmed(s)) ==> text::all_ascii(text::trimmed(t))
        }),
{
    text::law_ascii_lower_idempotent(s);
}

/// A text in lower case that stands for a language, whatever it was made from,
/// is found again: it stands for the same language when it is trimmed and
/// written in lower case once more.
pub proof fn law_named_language_is_found_again(l: Seq<char>)
    requires
        language_named(l) is Some,
    ensures
        text::plain(text::trimmed(l)),
        language_named(text::ascii_lower(text::trimmed(l))) == language_named(l),
{
    reveal_strlit("en");
    reveal_strlit("english");
    reveal_strlit("ko");
    reveal_strlit("kr");
    reveal_strlit("korean");
    reveal_strlit("ja");
    reveal_strlit("jp");
    reveal_strlit("japanese");
    assert forall|i: int| 0 <= i < l.len() implies 'a' <= #[trigger] l[i] <= 'z' by {}
    text::lemma_tight(l);
    assert(text::trimmed(l) == l);
    assert(text::ascii_lower(l) =~= l);
}

/// The code of a language names it, also when it is trimmed and written in lower
/// case.
pub proof fn law_codes_roundtrip(lang: Language)
    ensures
        language_named(lang.code_text()) == Some(lang),
        text::plain(text::trimmed(lang.code_text())),
        language_named(text::ascii_lower(text::trimmed(lang.code_text()))) == Some(lang),
{
    reveal_strlit("en");
    reveal_strlit("ko");
    reveal_strlit("ja");
    reveal_strlit("kr");
    reveal_strlit("jp");
    reveal_strlit("english");
    reveal_strlit("korean");
    reveal_strlit("japanese");
    assert("en"@[0] == 'e');
    assert("ko"@[0] == 'k');
    assert("ja"@[0] == 'j');
    assert("kr"@[0] == 'k');
    assert("english"@.len() == 7);
    assert("korean"@.len() == 6);
    law_named_language_is_found_again(lang.code_text());
}

/// In English every message is its own text.
pub proof fn law_english_is_the_key(key: Seq<char>)
    ensures
        message(Language::En, key) == key,
{
}

/// A message that is not in the catalog is shown as it is in every language.
pub proof fn law_unknown_message_is_kept(lang: Language, key: Seq<char>)
    requires
        forall|i: int| 0 <= i < CATALOG_LEN ==> (#[trigger] CATALOG@[i]).0@ != key,
    ensures
        message(lang, key) == key,
{
    lemma_no_entry(key, 0);
}

proof fn lemma_no_entry(key: Seq<char>, i: int)
    requires
        0 <= i,
        forall|k: int| 0 <= k < CATALOG_LEN ==> (#[trigger] CATALOG@[k]).0@ != key,
    ensures
        entry_from(key, i) is None,
    decreases CATALOG_LEN - i,
{
    if i < CATALOG_LEN {
        lemma_no_entry(key, i + 1);
    }
}

/// The first placeholder of a template is filled with the next argument, or with
/// nothing where there is none left; what stands before it stays, and the rest is
/// filled with the arguments that follow.
pub proof fn law_placeholders_are_filled_in_order(
    before: Seq<char>,
    name: Seq<char>,
    rest: Seq<char>,
    args: Seq<Seq<char>>,
    k: int,
)
    requires
        !before.contains('{'),
        !name.contains('}'),
        0 <= k,
    ensures
        k < args.len() ==> filled(before + seq!['{'] + name + seq!['}'] + rest, args, k) == before
            + args[k] + filled(rest, args, k + 1),
        k >= args.len() ==> filled(before + seq!['{'] + name + seq!['}'] + rest, args, k) == before
            + filled(rest, args, k + 1),
{
    let t = before + seq!['{'] + name + seq!['}'] + rest;
    let o = before.len() as int;
    crate::text_laws::lemma_find_char(t, '{');
    assert(t[o] == '{');
    let i = text::find(t, seq!['{'])->0;
    if i < o {
        assert(t[i] == before[i]);
        assert(before.contains(before[i]));
    }
    assert(i == o);
    let after = t.skip(o + 1);
    let c = name.len() as int;
    crate::text_laws::lemma_find_char(after, '}');
    assert(after[c] == '}');
    let j = text::find(after, seq!['}'])->0;
    if j < c {
        assert(after[j] == name[j]);
        assert(name.contains(name[j]));
    }
    assert(j == c);
    assert(t.take(o) =~= before);
    assert(after.skip(c + 1) =~= rest);
    if k >= args.len() {
        assert(before + Seq::<char>::empty() =~= before);
    }
}

/// A template without braces is shown as it is, whatever the arguments.
pub proof fn law_no_placeholder_no_change(template: Seq<char>, args: Seq<Seq<char>>, k: int)
    requires
        !template.contains('{'),
    ensures
        filled(template, args, k) == template,
{
    text::lemma_find_from(template, seq!['{'], 0);
    match text::find(template, seq!['{']) {
        Some(o) => {
            assert(template.subrange(o, o + 1)[0] == template[o]);
            assert(template.contains(template[o]));
        },
        None => {},
    }
}

} // verus!
