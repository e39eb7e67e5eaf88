//! Languages, locale-code resolution, the menu-label table and the
//! locale-selected comment block for the seeded config file.

use vstd::prelude::*;
use vstd::string::*;
use crate::defaults;
use crate::ini_doc::{IniSection, ini_sections_of, load_ini_sections};
use crate::text::{
    join_nl, join_nl_spec, lines, lines_spec, lower_spec, starts_with_char, ends_with_char,
    starts_with_str, str_eq, to_lowercase, trim, trim_spec,
};

verus! {

#[derive(Debug, PartialEq, Eq, Hash, Clone, Copy, Structural)]
pub enum Language {
    Chinese,
    English,
    Japanese,
}

// ---------------------------------------------------------------------------
// Locale codes
// ---------------------------------------------------------------------------

/// The language named by a lower-cased locale code, if recognized: Chinese
/// and Japanese by their exact subtags, English by its "en" prefix.
pub open spec fn language_of_code(t: Seq<char>) -> Option<Language> {
    if t == "zh-cn"@ || t == "zh"@ || t == "zh-tw"@ || t == "zh-hant"@ {
        Some(Language::Chinese)
    } else if t == "ja-jp"@ || t == "ja"@ {
        Some(Language::Japanese)
    } else if t.len() >= 2 && t.take(2) == "en"@ {
        Some(Language::English)
    } else {
        None
    }
}

fn language_code(text: &str) -> (r: Option<Language>)
    ensures
        r == language_of_code(lower_spec(text@)),
{
    let low = to_lowercase(text);
    let t = low.as_str();
    proof {
        reveal_strlit("en");
    }
    if str_eq(t, "zh-cn") || str_eq(t, "zh") || str_eq(t, "zh-tw") || str_eq(t, "zh-hant") {
        Some(Language::Chinese)
    } else if str_eq(t, "ja-jp") || str_eq(t, "ja") {
        Some(Language::Japanese)
    } else if starts_with_str(t, "en") {
        Some(Language::English)
    } else {
        None
    }
}

/// Relies on sys_locale::get_locale: asks the system for its preferred
/// locale. The outcome depends on the environment, so nothing more is
/// promised of it.
#[verifier::external_body]
fn system_locale() -> (r: Option<String>) {
    sys_locale::get_locale()
}

/// Resolve a language-selection text. A recognized code decides by itself;
/// anything else falls back to the system locale, and to English where that
/// does not decide either.
pub fn text_as_language(text: &str) -> (r: Language)
    ensures
        language_of_code(lower_spec(text@)) matches Some(l) ==> r == l,
{
    match language_code(text) {
        Some(l) => l,
        None => match system_locale() {
            Some(loc) => match language_code(loc.as_str()) {
                Some(l) => l,
                None => Language::English,
            },
            None => Language::English,
        },
    }
}

// ---------------------------------------------------------------------------
// The menu-label table
// ---------------------------------------------------------------------------

/// The language a section of the label table belongs to; unrecognized names
/// fall back to English.
pub open spec fn language_of_section(n: Seq<char>) -> Language {
    if n == "Chinese"@ {
        Language::Chinese
    } else if n == "Japanese"@ {
        Language::Japanese
    } else {
        Language::English
    }
}

pub open spec fn props_view(props: Seq<(String, String)>) -> Seq<(Seq<char>, Seq<char>)> {
    props.map_values(|p: (String, String)| (p.0@, p.1@))
}

/// The label table built from the parsed sections: named sections in order,
/// the unnamed general section skipped.
pub open spec fn table_of(secs: Seq<IniSection>, i: int) -> Seq<
    (Language, Seq<(Seq<char>, Seq<char>)>),
>
    decreases secs.len() - i,
{
    if i < 0 || i >= secs.len() {
        Seq::empty()
    } else {
        let rest = table_of(secs, i + 1);
        match secs[i].name {
            Some(n) => seq![(language_of_section(n@), props_view(secs[i].props@))] + rest,
            None => rest,
        }
    }
}

/// The value of the last entry with the given key; a later entry overwrites
/// an earlier one.
pub open spec fn assoc_last(entries: Seq<(Seq<char>, Seq<char>)>, k: Seq<char>) -> Option<
    Seq<char>,
>
    decreases entries.len(),
{
    if entries.len() == 0 {
        None
    } else if entries.last().0 == k {
        Some(entries.last().1)
    } else {
        assoc_last(entries.drop_last(), k)
    }
}

/// The properties of the last section of the given language.
pub open spec fn table_last(
    table: Seq<(Language, Seq<(Seq<char>, Seq<char>)>)>,
    l: Language,
) -> Option<Seq<(Seq<char>, Seq<char>)>>
    decreases table.len(),
{
    if table.len() == 0 {
        None
    } else if table.last().0 == l {
        Some(table.last().1)
    } else {
        table_last(table.drop_last(), l)
    }
}

pub struct I18nText {
    pub language: Language,
    pub data: Vec<(Language, Vec<(String, String)>)>,
}

pub open spec fn data_view(data: Seq<(Language, Vec<(String, String)>)>) -> Seq<
    (Language, Seq<(Seq<char>, Seq<char>)>),
> {
    data.map_values(|p: (Language, Vec<(String, String)>)| (p.0, props_view(p.1@)))
}

/// The label for a key in the table's current language.
pub open spec fn i18n_lookup(t: I18nText, key: Seq<char>) -> Option<Seq<char>> {
    match table_last(data_view(t.data@), t.language) {
        Some(props) => assoc_last(props, key),
        None => None,
    }
}

impl I18nText {
    /// Build the table from the compiled-in label table, for the given
    /// language.
    #[verifier::loop_isolation(false)]
    pub fn new(language: Language) -> (r: I18nText)
        ensures
            r.language == language,
            match ini_sections_of(defaults::language_table_spec()) {
                Some(secs) => data_view(r.data@) == table_of(secs, 0),
                None => data_view(r.data@) == Seq::<(Language, Seq<(Seq<char>, Seq<char>)>)>::empty(),
            },
    {
        let mut data: Vec<(Language, Vec<(String, String)>)> = Vec::new();
        match load_ini_sections(defaults::language_table_text()) {
            Ok(mut secs) => {
                let ghost all: Seq<IniSection> = secs@;
                let n: usize = secs.len();
                proof {
                    assert(all.len() == n);
                }
                let mut i: usize = 0;
                proof {
                    assert(data_view(data@) + table_of(all, 0) =~= table_of(all, 0));
                }
                while secs.len() > 0
                    invariant
                        all.len() <= usize::MAX,
                        i + secs@.len() == all.len(),
                        secs@ == all.skip(i as int),
                        data_view(data@) + table_of(all, i as int) == table_of(all, 0),
                    decreases secs@.len(),
                {
                    let sec = secs.remove(0);
                    proof {
                        assert(sec == all[i as int]);
                        assert(all.skip(i as int).drop_first() =~= all.skip(i + 1));
                    }
                    match sec.name {
                        Some(n) => {
                            let lang = if str_eq(n.as_str(), "Chinese") {
                                Language::Chinese
                            } else if str_eq(n.as_str(), "Japanese") {
                                Language::Japanese
                            } else {
                                Language::English
                            };
                            data.push((lang, sec.props));
                            proof {
                                assert(data_view(data@) =~= data_view(data@.drop_last()) + seq![
                                    (language_of_section(n@), props_view(all[i as int].props@)),
                                ]) by {
                                    assert(data_view(data@).drop_last() =~= data_view(
                                        data@.drop_last(),
                                    ));
                                }
                                assert(data_view(data@) + table_of(all, i + 1) =~= data_view(
                                    data@.drop_last(),
                                ) + table_of(all, i as int));
                            }
                        },
                        None => {},
                    }
                    i = i + 1;
                }
                proof {
                    assert(table_of(all, all.len() as int) =~= Seq::empty());
                    assert(data_view(data@) + table_of(all, all.len() as int) =~= data_view(
                        data@,
                    ));
                }
                I18nText { language, data }
            },
            Err(_) => {
                proof {
                    assert(data_view(data@) =~= Seq::<
                        (Language, Seq<(Seq<char>, Seq<char>)>),
                    >::empty());
                }
                I18nText { language, data }
            },
        }
    }

    /// The label for a key in the current language, where the table has one.
    #[verifier::loop_isolation(false)]
    pub fn get(&self, key: &str) -> (r: Option<&String>)
        ensures
            match r {
                Some(s) => i18n_lookup(*self, key@) == Some(s@),
                None => i18n_lookup(*self, key@) is None,
            },
    {
        let mut i: usize = self.data.len();
        proof {
            assert(data_view(self.data@).take(i as int) =~= data_view(self.data@));
        }
        while i > 0
            invariant
                i <= self.data@.len(),
                table_last(data_view(self.data@), self.language) == table_last(
                    data_view(self.data@).take(i as int),
                    self.language,
                ),
            decreases i,
        {
            proof {
                let t = data_view(self.data@).take(i as int);
                assert(t.last() == data_view(self.data@)[i - 1]);
                assert(t.drop_last() =~= data_view(self.data@).take(i - 1));
            }
            if language_eq(&self.data[i - 1].0, &self.language) {
                return self.prop_get(i - 1, key);
            }
            i = i - 1;
        }
        None
    }

    /// The value of the last property with this key in section i.
    #[verifier::loop_isolation(false)]
    fn prop_get(&self, i: usize, key: &str) -> (r: Option<&String>)
        requires
            i < self.data@.len(),
        ensures
            match r {
                Some(s) => assoc_last(props_view(self.data@[i as int].1@), key@) == Some(s@),
                None => assoc_last(props_view(self.data@[i as int].1@), key@) is None,
            },
    {
        let props = &self.data[i].1;
        let mut j: usize = props.len();
        proof {
            assert(props_view(props@).take(j as int) =~= props_view(props@));
        }
        while j > 0
            invariant
                j <= props@.len(),
                assoc_last(props_view(props@), key@) == assoc_last(
                    props_view(props@).take(j as int),
                    key@,
                ),
            decreases j,
        {
            proof {
                let t = props_view(props@).take(j as int);
                assert(t.last() == props_view(props@)[j - 1]);
                assert(t.drop_last() =~= props_view(props@).take(j - 1));
            }
            if str_eq(props[j - 1].0.as_str(), key) {
                return Some(&props[j - 1].1);
            }
            j = j - 1;
        }
        None
    }

    /// The quit menu label.
    pub fn quit(&self) -> (r: Option<&String>)
        ensures
            match r {
                Some(s) => i18n_lookup(*self, "quit"@) == Some(s@),
                None => i18n_lookup(*self, "quit"@) is None,
            },
    {
        self.get("quit")
    }

    /// The reload menu label.
    pub fn reload(&self) -> (r: Option<&String>)
        ensures
            match r {
                Some(s) => i18n_lookup(*self, "reload"@) == Some(s@),
                None => i18n_lookup(*self, "reload"@) is None,
            },
    {
        self.get("reload")
    }

    /// Switch the table to another language, keeping the data.
    pub fn set_language(&mut self, language: Language)
        ensures
            final(self).language == language,
            final(self).data == old(self).data,
    {
        self.language = language;
    }
}

fn language_eq(a: &Language, b: &Language) -> (r: bool)
    ensures
        r == (a == b),
{
    match (a, b) {
        (Language::Chinese, Language::Chinese) => true,
        (Language::English, Language::English) => true,
        (Language::Japanese, Language::Japanese) => true,
        _ => false,
    }
}

// ---------------------------------------------------------------------------
// The comment block for the seeded config file
// ---------------------------------------------------------------------------

/// Whether a line marks the start of a language section.
pub open spec fn marking_of(line: Seq<char>) -> Option<Language> {
    if line.len() > 0 && line[0] == '[' && line[line.len() - 1] == ']' {
        if trim_spec(line) == "[Chinese]"@ {
            Some(Language::Chinese)
        } else if trim_spec(line) == "[English]"@ {
            Some(Language::English)
        } else {
            None
        }
    } else {
        None
    }
}

/// Emitting a finished section: Chinese goes to the first slot, everything
/// else to the second.
pub open spec fn comment_flush(
    l: Language,
    buf: Seq<Seq<char>>,
    ch: Seq<char>,
    en: Seq<char>,
) -> (Seq<char>, Seq<char>) {
    match l {
        Language::Chinese => (join_nl_spec(buf), en),
        _ => (ch, join_nl_spec(buf)),
    }
}

/// The walk over the comment source's lines: content lines are collected
/// with a "# " prefix under the language marked last, a section is emitted
/// when the next marker arrives, and whatever is collected when the walk
/// reaches the final line is emitted before that line is handled.
pub open spec fn comment_fold(
    ls: Seq<Seq<char>>,
    i: int,
    record: Option<Language>,
    buf: Seq<Seq<char>>,
    ch: Seq<char>,
    en: Seq<char>,
) -> (Seq<char>, Seq<char>)
    decreases ls.len() - i,
{
    if i < 0 || i >= ls.len() {
        (ch, en)
    } else {
        let line = ls[i];
        let flushed = if i == ls.len() - 1 && record is Some {
            comment_flush(record->0, buf, ch, en)
        } else {
            (ch, en)
        };
        match marking_of(line) {
            Some(l) => {
                if record is Some {
                    let emitted = comment_flush(record->0, buf, flushed.0, flushed.1);
                    comment_fold(ls, i + 1, Some(l), Seq::empty(), emitted.0, emitted.1)
                } else {
                    comment_fold(ls, i + 1, Some(l), buf, flushed.0, flushed.1)
                }
            },
            None => {
                if record is Some {
                    comment_fold(ls, i + 1, record, buf.push("# "@ + line), flushed.0, flushed.1)
                } else {
                    comment_fold(ls, i + 1, record, buf, flushed.0, flushed.1)
                }
            },
        }
    }
}

/// What the comment source yields: the Chinese and English comment blocks,
/// trimmed.
pub open spec fn comment_result(src: Seq<char>) -> (Seq<char>, Seq<char>) {
    let folded = comment_fold(
        lines_spec(src),
        0,
        None,
        Seq::empty(),
        Seq::empty(),
        Seq::empty(),
    );
    (trim_spec(folded.0), trim_spec(folded.1))
}

/// The comment block texts, one per supported comment language.
pub struct ConfigCommentText {
    pub chinese: String,
    pub english: String,
}

fn line_marking(line: &str) -> (r: Option<Language>)
    ensures
        r == marking_of(line@),
{
    if starts_with_char(line, '[') && ends_with_char(line, ']') {
        let t = trim(line);
        if str_eq(t.as_str(), "[Chinese]") {
            Some(Language::Chinese)
        } else if str_eq(t.as_str(), "[English]") {
            Some(Language::English)
        } else {
            None
        }
    } else {
        None
    }
}

impl ConfigCommentText {
    /// Build the comment blocks from the compiled-in source.
    #[verifier::loop_isolation(false)]
    pub fn global() -> (r: ConfigCommentText)
        ensures
            r.chinese@ == comment_result(defaults::config_comment_source_spec()).0,
            r.english@ == comment_result(defaults::config_comment_source_spec()).1,
    {
        let src = defaults::config_comment_source_text();
        let ls = lines(src);
        let ghost lsv: Seq<Seq<char>> = lines_spec(src@);
        let mut record: Option<Language> = None;
        let mut buf: Vec<String> = Vec::new();
        let mut chinese = String::new();
        let mut english = String::new();
        let mut i: usize = 0;
        proof {
            assert(buf.deep_view() =~= Seq::<Seq<char>>::empty());
        }
        while i < ls.len()
            invariant
                i <= ls@.len(),
                ls.deep_view() == lsv,
                comment_fold(lsv, i as int, record, buf.deep_view(), chinese@, english@)
                    == comment_fold(
                    lsv,
                    0,
                    None,
                    Seq::empty(),
                    Seq::empty(),
                    Seq::empty(),
                ),
            decreases ls@.len() - i,
        {
            let ghost rec0 = record;
            let ghost buf0 = buf.deep_view();
            let ghost ch0 = chinese@;
            let ghost en0 = english@;
            let line = &ls[i];
            proof {
                assert(line.deep_view() == lsv[i as int]);
            }
            if i == ls.len() - 1 && record.is_some() {
                match record {
                    Some(Language::Chinese) => {
                        chinese = join_nl(&buf);
                    },
                    _ => {
                        english = join_nl(&buf);
                    },
                }
            }
            let ghost flushed = if i as int == lsv.len() - 1 && rec0 is Some {
                comment_flush(rec0->0, buf0, ch0, en0)
            } else {
                (ch0, en0)
            };
            proof {
                assert(chinese@ == flushed.0 && english@ == flushed.1);
            }
            match line_marking(line.as_str()) {
                Some(l) => {
                    if record.is_some() {
                        match record {
                            Some(Language::Chinese) => {
                                chinese = join_nl(&buf);
                            },
                            _ => {
                                english = join_nl(&buf);
                            },
                        }
                        buf = Vec::new();
                        record = Some(l);
                        proof {
                            let emitted = comment_flush(rec0->0, buf0, flushed.0, flushed.1);
                            assert(chinese@ == emitted.0 && english@ == emitted.1);
                            assert(buf.deep_view() =~= Seq::<Seq<char>>::empty());
                        }
                    } else {
                        record = Some(l);
                    }
                },
                None => {
                    if record.is_some() {
                        let mut entry = String::from_str("# ");
                        entry.append(line.as_str());
                        buf.push(entry);
                        proof {
                            assert(entry@ == "# "@ + lsv[i as int]);
                            assert(buf.deep_view() =~= buf0.push("# "@ + lsv[i as int]));
                        }
                    }
                },
            }
            proof {
                assert(comment_fold(lsv, i as int, rec0, buf0, ch0, en0) == comment_fold(
                    lsv,
                    i + 1,
                    record,
                    buf.deep_view(),
                    chinese@,
                    english@,
                ));
            }
            i = i + 1;
        }
        let chinese_out = trim(chinese.as_str());
        let english_out = trim(english.as_str());
        ConfigCommentText { chinese: chinese_out, english: english_out }
    }

    /// The Chinese comment block.
    pub fn chinese() -> (r: String)
        ensures
            r@ == comment_result(defaults::config_comment_source_spec()).0,
    {
        let g = Self::global();
        g.chinese
    }

    /// The English comment block.
    pub fn english() -> (r: String)
        ensures
            r@ == comment_result(defaults::config_comment_source_spec()).1,
    {
        let g = Self::global();
        g.english
    }

    /// The comment block for the given language: Chinese for Chinese,
    /// English for everything else.
    pub fn auto_select_language(language: Language) -> (r: String)
        ensures
            language == Language::Chinese ==> r@ == comment_result(
                defaults::config_comment_source_spec(),
            ).0,
            language != Language::Chinese ==> r@ == comment_result(
                defaults::config_comment_source_spec(),
            ).1,
    {
        match language {
            Language::Chinese => Self::chinese(),
            _ => Self::english(),
        }
    }
}

} // verus!
