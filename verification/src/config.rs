//! The key/modifier model, the shortcut text parser, and the loaders of the
//! two configuration documents.

use vstd::prelude::*;
use vstd::string::*;
use crate::defaults;
use crate::feature::{InputKey, InputKeyAction, InputTextAction, MultifunctionalAction};
use crate::i18n::{Language, language_of_code, text_as_language};
use crate::ini_doc::{IniSection, ini_sections_of, load_ini_sections};
use crate::json_doc::{
    JsonValue, get_field_spec, json_of, parse_json_text, render_spec, spec_as_u64,
};
use crate::keys::{Key, key_of_str};
use crate::replace::{
    ReplacementMap, build_from, collisions_from, kv_view, lemma_build_lookup,
    lemma_insert_keeps_unique, lemma_last_pair_unique, spec_get, spec_insert,
};
use crate::text::{
    ends_with_char, lower_spec, split_char, split_spec, starts_with_char, str_eq, to_lowercase,
    trim, trim_spec,
};
use crate::units::{
    trim_end_char_matches, trim_prefix_spec, trim_start_char_matches, trim_suffix_spec,
};
use crate::yaml_doc::{doc_field, load_yaml_docs, yaml_docs_of};

verus! {

// ---------------------------------------------------------------------------
// The modifier set
// ---------------------------------------------------------------------------

/// Four independent modifier flags. Two modifier sets are equal iff all four
/// flags match exactly; there are no wildcard bits.
#[derive(Debug, Clone, Copy, PartialEq, Eq, Structural)]
pub struct ModifierKey {
    pub ctrl: bool,
    pub shift: bool,
    pub alt: bool,
    pub meta: bool,
}

/// The default modifier set: all four flags off.
pub open spec fn modifier_none() -> ModifierKey {
    ModifierKey { ctrl: false, shift: false, alt: false, meta: false }
}

impl ModifierKey {
    /// Exact-equality matching of an observed modifier state.
    pub fn match_key(&self, ctrl: bool, shift: bool, alt: bool, meta: bool) -> (r: bool)
        ensures
            r == (self.ctrl == ctrl && self.shift == shift && self.alt == alt && self.meta
                == meta),
    {
        self.ctrl == ctrl && self.shift == shift && self.alt == alt && self.meta == meta
    }

    pub fn new() -> (r: Self)
        ensures
            r == modifier_none(),
    {
        Self { ctrl: false, shift: false, alt: false, meta: false }
    }
}

// ---------------------------------------------------------------------------
// Errors of the shortcut-rule document
// ---------------------------------------------------------------------------

/// A semantically invalid rule field, carrying the offending raw text.
#[derive(Debug, Clone, PartialEq, Eq)]
pub enum ShortcutKeyConfigFileFormatError {
    JsonError(String),
    KeyError(String),
    ValueError(String),
    FeatureError(String),
}

impl ShortcutKeyConfigFileFormatError {
    /// The one-line description every kind shares.
    pub fn message(&self) -> (r: String)
        ensures
            r@ == "config file illegal"@,
    {
        String::from_str("config file illegal")
    }
}

/// The spec-level image of a format error.
pub enum FormatErrModel {
    Json(Seq<char>),
    Key(Seq<char>),
    Value(Seq<char>),
    Feature(Seq<char>),
}

pub open spec fn err_matches(e: ShortcutKeyConfigFileFormatError, m: FormatErrModel) -> bool {
    match (e, m) {
        (ShortcutKeyConfigFileFormatError::JsonError(s), FormatErrModel::Json(t)) => s@ == t,
        (ShortcutKeyConfigFileFormatError::KeyError(s), FormatErrModel::Key(t)) => s@ == t,
        (ShortcutKeyConfigFileFormatError::ValueError(s), FormatErrModel::Value(t)) => s@ == t,
        (ShortcutKeyConfigFileFormatError::FeatureError(s), FormatErrModel::Feature(t)) => s@
            == t,
        _ => false,
    }
}

// ---------------------------------------------------------------------------
// The shortcut text parser
// ---------------------------------------------------------------------------

/// The trimmed segments of a combo string, split on '+'.
pub open spec fn segs_of(s: Seq<char>) -> Seq<Seq<char>> {
    split_spec(s, '+').map_values(|t: Seq<char>| trim_spec(t))
}

/// Whether a segment is one of the four modifier tokens, case-insensitively.
pub open spec fn is_modifier_token(t: Seq<char>) -> bool {
    lower_spec(t) == "ctrl"@ || lower_spec(t) == "shift"@ || lower_spec(t) == "alt"@
        || lower_spec(t) == "meta"@
}

/// The modifier set collected from the first i segments.
pub open spec fn mods_of_prefix(segs: Seq<Seq<char>>, i: int) -> ModifierKey
    decreases i,
{
    if i <= 0 {
        modifier_none()
    } else {
        let m = mods_of_prefix(segs, i - 1);
        let t = lower_spec(segs[i - 1]);
        ModifierKey {
            ctrl: m.ctrl || t == "ctrl"@,
            shift: m.shift || t == "shift"@,
            alt: m.alt || t == "alt"@,
            meta: m.meta || t == "meta"@,
        }
    }
}

/// The first segment that is not a modifier token, from position i on.
pub open spec fn first_non_modifier(segs: Seq<Seq<char>>, i: int) -> Option<int>
    decreases segs.len() - i,
{
    if i < 0 || i >= segs.len() {
        None
    } else if !is_modifier_token(segs[i]) {
        Some(i)
    } else {
        first_non_modifier(segs, i + 1)
    }
}

/// What parsing a combo string yields. A single segment is the key itself; in
/// a multi-segment string the first non-modifier segment is the key and ends
/// modifier scanning (later segments are ignored). The error carries the
/// diagnostic text: the trimmed segment for a single-segment string, the
/// whole original string otherwise.
pub open spec fn parse_shortcut_spec(s: Seq<char>) -> Result<(Key, ModifierKey), Seq<char>> {
    let segs = segs_of(s);
    if segs.len() == 1 {
        match key_of_str(lower_spec(segs[0])) {
            Some(k) => Ok((k, modifier_none())),
            None => Err(segs[0]),
        }
    } else {
        match first_non_modifier(segs, 0) {
            Some(i) => match key_of_str(lower_spec(segs[i])) {
                Some(k) => Ok((k, mods_of_prefix(segs, i))),
                None => Err(s),
            },
            None => Err(s),
        }
    }
}

proof fn lemma_first_non_modifier(segs: Seq<Seq<char>>, i: int)
    requires
        0 <= i <= segs.len(),
        forall|j: int| 0 <= j < i ==> is_modifier_token(#[trigger] segs[j]),
    ensures
        first_non_modifier(segs, 0) == first_non_modifier(segs, i),
    decreases i,
{
    if i > 0 {
        lemma_first_non_modifier(segs, i - 1);
    }
}

/// Parse a combo string into its key and modifier set.
#[verifier::loop_isolation(false)]
pub fn parse_shortcut_key_text(s: &str) -> (r: Result<
    (Key, ModifierKey),
    ShortcutKeyConfigFileFormatError,
>)
    ensures
        match r {
            Ok(p) => parse_shortcut_spec(s@) == Ok::<(Key, ModifierKey), Seq<char>>(p),
            Err(e) => match e {
                ShortcutKeyConfigFileFormatError::KeyError(t) => parse_shortcut_spec(s@)
                    == Err::<(Key, ModifierKey), Seq<char>>(t@),
                _ => false,
            },
        },
{
    let raw = split_char(s, '+');
    proof {
        crate::text::lemma_split_len(s@, '+');
    }
    let mut segs: Vec<String> = Vec::new();
    let mut i: usize = 0;
    while i < raw.len()
        invariant
            i <= raw@.len(),
            segs.deep_view() == segs_of(s@).take(i as int),
        decreases raw@.len() - i,
    {
        let piece = trim(raw[i].as_str());
        segs.push(piece);
        proof {
            assert(segs_of(s@).take(i + 1) =~= segs_of(s@).take(i as int).push(
                segs_of(s@)[i as int],
            ));
        }
        i = i + 1;
    }
    proof {
        assert(segs_of(s@).take(segs_of(s@).len() as int) =~= segs_of(s@));
    }
    let ghost sv = segs_of(s@);
    if segs.len() == 1 {
        match Key::from_str(segs[0].as_str()) {
            Some(k) => Ok((k, ModifierKey::new())),
            None => Err(
                ShortcutKeyConfigFileFormatError::KeyError(String::from_str(segs[0].as_str())),
            ),
        }
    } else {
        let mut m = ModifierKey::new();
        proof {
            reveal_strlit("ctrl");
            reveal_strlit("shift");
            reveal_strlit("alt");
            reveal_strlit("meta");
        }
        let mut j: usize = 0;
        while j < segs.len()
            invariant
                j <= segs@.len(),
                segs.deep_view() == sv,
                forall|q: int| 0 <= q < j ==> is_modifier_token(#[trigger] sv[q]),
                m == mods_of_prefix(sv, j as int),
            decreases segs@.len() - j,
        {
            proof {
                reveal_strlit("ctrl");
                reveal_strlit("shift");
                reveal_strlit("alt");
                reveal_strlit("meta");
            }
            let ghost m0 = m;
            let low = to_lowercase(segs[j].as_str());
            let t = low.as_str();
            proof {
                assert(t@ == lower_spec(sv[j as int]));
                assert(mods_of_prefix(sv, j + 1) == ModifierKey {
                    ctrl: m0.ctrl || t@ == "ctrl"@,
                    shift: m0.shift || t@ == "shift"@,
                    alt: m0.alt || t@ == "alt"@,
                    meta: m0.meta || t@ == "meta"@,
                });
            }
            if str_eq(t, "ctrl") {
                m.ctrl = true;
                proof {
                    assert("ctrl"@.len() == 4 && "shift"@.len() == 5 && "alt"@.len() == 3
                        && "meta"@.len() == 4);
                    assert("meta"@[0] == 'm' && "ctrl"@[0] == 'c');
                    assert(m == mods_of_prefix(sv, j + 1));
                }
            } else if str_eq(t, "shift") {
                m.shift = true;
            } else if str_eq(t, "alt") {
                m.alt = true;
            } else if str_eq(t, "meta") {
                m.meta = true;
            } else {
                proof {
                    lemma_first_non_modifier(sv, j as int);
                    assert(first_non_modifier(sv, j as int) == Some(j as int));
                }
                match Key::from_str(segs[j].as_str()) {
                    Some(k) => {
                        return Ok((k, m));
                    },
                    None => {
                        return Err(
                            ShortcutKeyConfigFileFormatError::KeyError(String::from_str(s)),
                        );
                    },
                }
            }
            j = j + 1;
        }
        proof {
            lemma_first_non_modifier(sv, sv.len() as int);
        }
        Err(ShortcutKeyConfigFileFormatError::KeyError(String::from_str(s)))
    }
}

// ---------------------------------------------------------------------------
// String-or-array coercion
// ---------------------------------------------------------------------------

/// One leading and one trailing double quote removed.
pub open spec fn quote_trim(t: Seq<char>) -> Seq<char> {
    trim_suffix_spec(trim_prefix_spec(t, "\""@), "\""@)
}

/// What the string-or-array coercion yields: the elements of a non-empty
/// array, each rendered and stripped of one pair of quotes; a single string
/// as itself; anything else is an error carrying the value's rendering.
pub open spec fn string_list_spec(v: JsonValue) -> Result<Seq<Seq<char>>, Seq<char>> {
    match v {
        JsonValue::Arr(items) => if items@.len() == 0 {
            Err(render_spec(v))
        } else {
            Ok(items@.map_values(|e: JsonValue| quote_trim(render_spec(e))))
        },
        JsonValue::Str(s) => Ok(seq![s@]),
        _ => Err(render_spec(v)),
    }
}

/// The string-or-array coercion helper.
#[verifier::loop_isolation(false)]
fn to_string_list(value: &JsonValue) -> (r: Result<Vec<String>, ShortcutKeyConfigFileFormatError>)
    ensures
        match r {
            Ok(list) => string_list_spec(*value) == Ok::<Seq<Seq<char>>, Seq<char>>(
                list.deep_view(),
            ) && list@.len() > 0,
            Err(e) => match e {
                ShortcutKeyConfigFileFormatError::ValueError(t) => string_list_spec(*value)
                    == Err::<Seq<Seq<char>>, Seq<char>>(t@),
                _ => false,
            },
        },
{
    match value {
        JsonValue::Arr(items) => {
            if items.len() == 0 {
                return Err(ShortcutKeyConfigFileFormatError::ValueError(value.render()));
            }
            let ghost target = items@.map_values(|e: JsonValue| quote_trim(render_spec(e)));
            let mut out: Vec<String> = Vec::new();
            let mut i: usize = 0;
            while i < items.len()
                invariant
                    i <= items@.len(),
                    value is Arr,
                    items == value->Arr_0,
                    out.deep_view() == target.take(i as int),
                decreases items@.len() - i,
            {
                let rendered = items[i].render();
                let t1 = trim_start_char_matches(rendered.as_str(), "\"");
                let t2 = trim_end_char_matches(t1, "\"");
                out.push(String::from_str(t2));
                proof {
                    assert(target.take(i + 1) =~= target.take(i as int).push(target[i as int]));
                }
                i = i + 1;
            }
            proof {
                assert(target.take(target.len() as int) =~= target);
            }
            Ok(out)
        },
        JsonValue::Str(s) => {
            let mut out: Vec<String> = Vec::new();
            out.push(String::from_str(s.as_str()));
            proof {
                assert(out.deep_view() =~= seq![s@]);
            }
            Ok(out)
        },
        _ => Err(ShortcutKeyConfigFileFormatError::ValueError(value.render())),
    }
}

// ---------------------------------------------------------------------------
// Rule features
// ---------------------------------------------------------------------------

/// The three action kinds a rule can bind.
#[derive(Debug)]
pub enum CapslockForgetFeature {
    InputText(InputTextAction),
    Input(InputKeyAction),
    Multifunctional(MultifunctionalAction),
}

/// The spec-level image of a parsed feature.
pub enum FeatureModel {
    InputText(Seq<Seq<char>>),
    Input(Seq<InputKey>),
    Multifunctional,
}

pub open spec fn feature_matches(f: CapslockForgetFeature, m: FeatureModel) -> bool {
    match (f, m) {
        (CapslockForgetFeature::InputText(a), FeatureModel::InputText(list)) => a.text_list.deep_view()
            == list && a.index == 0,
        (CapslockForgetFeature::Input(a), FeatureModel::Input(steps)) => a.input_key_list@
            == steps,
        (CapslockForgetFeature::Multifunctional(_), FeatureModel::Multifunctional) => true,
        _ => false,
    }
}

/// A field of a rule object, or null where the object has none: how JSON
/// indexing behaves.
pub open spec fn field_or_null(v: JsonValue, k: Seq<char>) -> JsonValue {
    match get_field_spec(v, k) {
        Some(f) => f,
        None => JsonValue::Null,
    }
}

/// The macro step a shortcut text parses to, under a given delay.
pub open spec fn step_of(t: Seq<char>, delay: u64) -> InputKey {
    match parse_shortcut_spec(t) {
        Ok(p) => InputKey { key: p.0, modifier_key: p.1, delay },
        Err(_) => InputKey { key: Key::Alt, modifier_key: modifier_none(), delay },
    }
}

pub open spec fn steps_of(list: Seq<Seq<char>>, delay: u64) -> Seq<InputKey> {
    list.map_values(|t: Seq<char>| step_of(t, delay))
}

/// The first step text that does not parse as a shortcut key.
pub open spec fn first_bad_step(list: Seq<Seq<char>>, i: int) -> Option<int>
    decreases list.len() - i,
{
    if i < 0 || i >= list.len() {
        None
    } else if parse_shortcut_spec(list[i]) is Err {
        Some(i)
    } else {
        first_bad_step(list, i + 1)
    }
}

proof fn lemma_first_bad_step(list: Seq<Seq<char>>, i: int)
    requires
        0 <= i <= list.len(),
        forall|j: int| 0 <= j < i ==> parse_shortcut_spec(#[trigger] list[j]) is Ok,
    ensures
        first_bad_step(list, 0) == first_bad_step(list, i),
    decreases i,
{
    if i > 0 {
        lemma_first_bad_step(list, i - 1);
    }
}

/// What the feature field of a rule object yields: the feature named by the
/// discriminator with its payload parsed, or the matching error.
pub open spec fn feature_of_value(v: JsonValue) -> Result<FeatureModel, FormatErrModel> {
    match field_or_null(v, "feature"@) {
        JsonValue::Str(name) => {
            if name@ == "input_text"@ {
                match string_list_spec(field_or_null(v, "text"@)) {
                    Ok(list) => Ok(FeatureModel::InputText(list)),
                    Err(t) => Err(FormatErrModel::Value(t)),
                }
            } else if name@ == "input"@ {
                match string_list_spec(field_or_null(v, "action"@)) {
                    Ok(list) => {
                        let delay = match spec_as_u64(field_or_null(v, "delay"@)) {
                            Some(d) => d,
                            None => 0u64,
                        };
                        match first_bad_step(list, 0) {
                            None => Ok(FeatureModel::Input(steps_of(list, delay))),
                            Some(i) => Err(FormatErrModel::Value(list[i])),
                        }
                    },
                    Err(t) => Err(FormatErrModel::Value(t)),
                }
            } else if name@ == "multifunctional"@ {
                Ok(FeatureModel::Multifunctional)
            } else {
                Err(FormatErrModel::Feature(name@))
            }
        },
        _ => Err(FormatErrModel::Json(render_spec(v))),
    }
}

impl CapslockForgetFeature {
    /// Parse the feature of one rule object.
    #[verifier::loop_isolation(false)]
    pub fn from_value(value: &JsonValue) -> (r: Result<Self, ShortcutKeyConfigFileFormatError>)
        ensures
            match r {
                Ok(f) => feature_of_value(*value) matches Ok(m) && feature_matches(f, m),
                Err(e) => feature_of_value(*value) matches Err(m) && err_matches(e, m),
            },
    {
        let feature_field = match value.get_field("feature") {
            Some(f) => f,
            None => {
                return Err(ShortcutKeyConfigFileFormatError::JsonError(value.render()));
            },
        };
        let name = match feature_field.as_str() {
            Some(n) => n,
            None => {
                return Err(ShortcutKeyConfigFileFormatError::JsonError(value.render()));
            },
        };
        if str_eq(name.as_str(), "input_text") {
            let text_field = value.get_field("text");
            let list = match field_string_list(value, text_field) {
                Ok(list) => list,
                Err(e) => {
                    return Err(e);
                },
            };
            Ok(Self::InputText(InputTextAction::new(list)))
        } else if str_eq(name.as_str(), "input") {
            let action_field = value.get_field("action");
            let action_list = match field_string_list(value, action_field) {
                Ok(list) => list,
                Err(e) => {
                    return Err(e);
                },
            };
            let delay = match value.get_field("delay") {
                Some(d) => match d.as_u64() {
                    Some(n) => n,
                    None => 0,
                },
                None => 0,
            };
            let ghost listv = action_list.deep_view();
            let mut list: Vec<InputKey> = Vec::new();
            let mut i: usize = 0;
            while i < action_list.len()
                invariant
                    i <= listv.len(),
                    action_list.deep_view() == listv,
                    forall|q: int| 0 <= q < i ==> parse_shortcut_spec(
                        #[trigger] listv[q],
                    ) is Ok,
                    list@ == steps_of(listv, delay).take(i as int),
                decreases listv.len() - i,
            {
                let action = &action_list[i];
                let mut action_key = match InputKey::with_str(action.as_str()) {
                    Ok(k) => k,
                    Err(_) => {
                        proof {
                            lemma_first_bad_step(listv, i as int);
                        }
                        return Err(
                            ShortcutKeyConfigFileFormatError::ValueError(
                                String::from_str(action.as_str()),
                            ),
                        );
                    },
                };
                action_key.delay = delay;
                list.push(action_key);
                proof {
                    assert(steps_of(listv, delay).take(i + 1) =~= steps_of(listv, delay).take(
                        i as int,
                    ).push(step_of(listv[i as int], delay)));
                }
                i = i + 1;
            }
            proof {
                lemma_first_bad_step(listv, listv.len() as int);
                assert(steps_of(listv, delay).take(listv.len() as int) =~= steps_of(
                    listv,
                    delay,
                ));
            }
            Ok(Self::Input(InputKeyAction::new(list)))
        } else if str_eq(name.as_str(), "multifunctional") {
            Ok(Self::Multifunctional(MultifunctionalAction))
        } else {
            Err(ShortcutKeyConfigFileFormatError::FeatureError(String::from_str(name.as_str())))
        }
    }
}

/// The string-or-array coercion applied to a field's value, with absence
/// read as null.
fn field_string_list(value: &JsonValue, field: Option<&JsonValue>) -> (r: Result<
    Vec<String>,
    ShortcutKeyConfigFileFormatError,
>)
    ensures
        ({
            let f = match field {
                Some(f) => *f,
                None => JsonValue::Null,
            };
            match r {
                Ok(list) => string_list_spec(f) == Ok::<Seq<Seq<char>>, Seq<char>>(
                    list.deep_view(),
                ) && list@.len() > 0,
                Err(e) => match e {
                    ShortcutKeyConfigFileFormatError::ValueError(t) => string_list_spec(f)
                        == Err::<Seq<Seq<char>>, Seq<char>>(t@),
                    _ => false,
                },
            }
        }),
{
    match field {
        Some(f) => to_string_list(f),
        None => to_string_list(&JsonValue::Null),
    }
}

// ---------------------------------------------------------------------------
// One rule entry
// ---------------------------------------------------------------------------

/// One parsed rule: the binding and its action.
#[derive(Debug)]
pub struct ShortcutKeyConfig {
    pub key: Key,
    pub modifier_key: ModifierKey,
    pub feature: CapslockForgetFeature,
}

pub open spec fn config_matches(
    c: ShortcutKeyConfig,
    k: Key,
    m: ModifierKey,
    fm: FeatureModel,
) -> bool {
    c.key == k && c.modifier_key == m && feature_matches(c.feature, fm)
}

/// What one rule object yields: its binding and feature, or the first error
/// among the key field, the key text, and the feature.
pub open spec fn entry_spec(v: JsonValue) -> Result<
    (Key, ModifierKey, FeatureModel),
    FormatErrModel,
> {
    match field_or_null(v, "key"@) {
        JsonValue::Str(s) => match parse_shortcut_spec(s@) {
            Ok(p) => match feature_of_value(v) {
                Ok(fm) => Ok((p.0, p.1, fm)),
                Err(e) => Err(e),
            },
            Err(t) => Err(FormatErrModel::Key(t)),
        },
        _ => Err(FormatErrModel::Json(render_spec(v))),
    }
}

impl ShortcutKeyConfig {
    /// Parse one rule object.
    pub fn from_entry(entry: &JsonValue) -> (r: Result<Self, ShortcutKeyConfigFileFormatError>)
        ensures
            match r {
                Ok(c) => entry_spec(*entry) matches Ok(t) && config_matches(c, t.0, t.1, t.2),
                Err(e) => entry_spec(*entry) matches Err(m) && err_matches(e, m),
            },
    {
        let key_field = match entry.get_field("key") {
            Some(f) => f,
            None => {
                return Err(ShortcutKeyConfigFileFormatError::JsonError(entry.render()));
            },
        };
        let key_text = match key_field.as_str() {
            Some(s) => s,
            None => {
                return Err(ShortcutKeyConfigFileFormatError::JsonError(entry.render()));
            },
        };
        let (key, modifier_key) = match parse_shortcut_key_text(key_text.as_str()) {
            Ok(p) => p,
            Err(e) => {
                return match e {
                    ShortcutKeyConfigFileFormatError::KeyError(t) => Err(
                        ShortcutKeyConfigFileFormatError::KeyError(t),
                    ),
                    other => Err(other),
                };
            },
        };
        let feature = match CapslockForgetFeature::from_value(entry) {
            Ok(f) => f,
            Err(e) => {
                return Err(e);
            },
        };
        Ok(Self { key, modifier_key, feature })
    }
}

// ---------------------------------------------------------------------------
// The replacement-pairs document
// ---------------------------------------------------------------------------

/// Whether a value is syntactically a bracketed list.
pub open spec fn is_bracket_list(v: Seq<char>) -> bool {
    v.len() > 0 && v[0] == '[' && v[v.len() - 1] == ']'
}

/// The trimmed comma-separated elements between the brackets.
pub open spec fn list_elems(v: Seq<char>) -> Seq<Seq<char>> {
    split_spec(v.subrange(1, v.len() - 1), ',').map_values(|t: Seq<char>| trim_spec(t))
}

/// The insertion pairs of a rotation group: the key maps to the first
/// element, each element to the next, and the last back to the first.
pub open spec fn rotation_pairs(k: Seq<char>, elems: Seq<Seq<char>>) -> Seq<
    (Seq<char>, Seq<char>),
> {
    seq![(k, elems[0])] + Seq::new(
        elems.len(),
        |i: int|
            (
                elems[i],
                elems[if i + 1 == elems.len() {
                    0int
                } else {
                    i + 1
                }],
            ),
    )
}

/// The insertion pairs one property yields: a rotation group for a
/// bracketed list of more than one element, a single direct pair otherwise.
pub open spec fn pairs_of_prop(k: Seq<char>, v: Seq<char>) -> Seq<(Seq<char>, Seq<char>)> {
    if is_bracket_list(v) && list_elems(v).len() > 1 {
        rotation_pairs(k, list_elems(v))
    } else {
        seq![(k, v)]
    }
}

/// The insertion pairs of a whole property list, in document order.
pub open spec fn pairs_of_props(props: Seq<(String, String)>, i: int) -> Seq<
    (Seq<char>, Seq<char>),
>
    decreases props.len() - i,
{
    if i < 0 || i >= props.len() {
        Seq::<(Seq<char>, Seq<char>)>::empty()
    } else {
        pairs_of_prop(props[i].0@, props[i].1@) + pairs_of_props(props, i + 1)
    }
}

/// The first section named for context substitution; scanning stops there.
pub open spec fn find_mf(secs: Seq<IniSection>, i: int) -> Option<int>
    decreases secs.len() - i,
{
    if i < 0 || i >= secs.len() {
        None
    } else if secs[i].name is Some && secs[i].name->0@ == "Multifunctional"@ {
        Some(i)
    } else {
        find_mf(secs, i + 1)
    }
}

/// All insertion pairs of the document: those of the designated section, or
/// none where the document has no such section.
pub open spec fn doc_pairs(secs: Seq<IniSection>) -> Seq<(Seq<char>, Seq<char>)> {
    match find_mf(secs, 0) {
        Some(i) => pairs_of_props(secs[i].props@, 0),
        None => Seq::<(Seq<char>, Seq<char>)>::empty(),
    }
}

/// The insertion pairs one property yields, as values.
#[verifier::loop_isolation(false)]
fn prop_pairs(k: &str, v: &str) -> (r: Vec<(String, String)>)
    ensures
        kv_view(r@) == pairs_of_prop(k@, v@),
{
    proof {
        reveal_strlit("[");
        reveal_strlit("]");
        assert("["@.len() == 1 && "["@[0] == '[');
        assert("]"@.len() == 1 && "]"@[0] == ']');
    }
    if starts_with_char(v, '[') && ends_with_char(v, ']') {
        let t1 = trim_start_char_matches(v, "[");
        proof {
            assert(v@.take(1) =~= "["@);
            assert(t1@ =~= v@.skip(1));
        }
        let inner = trim_end_char_matches(t1, "]");
        proof {
            assert(t1@[t1@.len() - 1] == v@[v@.len() - 1]);
            assert(t1@.skip(t1@.len() - 1) =~= "]"@);
            assert(inner@ =~= v@.subrange(1, v@.len() - 1));
        }
        let raw = split_char(inner, ',');
        let mut elems: Vec<String> = Vec::new();
        let mut i: usize = 0;
        while i < raw.len()
            invariant
                i <= raw@.len(),
                elems.deep_view() == list_elems(v@).take(i as int),
            decreases raw@.len() - i,
        {
            let piece = trim(raw[i].as_str());
            elems.push(piece);
            proof {
                assert(list_elems(v@).take(i + 1) =~= list_elems(v@).take(i as int).push(
                    list_elems(v@)[i as int],
                ));
            }
            i = i + 1;
        }
        proof {
            assert(list_elems(v@).take(list_elems(v@).len() as int) =~= list_elems(v@));
        }
        if elems.len() > 1 {
            let ghost ev = list_elems(v@);
            let n = elems.len();
            let mut out: Vec<(String, String)> = Vec::new();
            out.push((String::from_str(k), String::from_str(elems[0].as_str())));
            let mut j: usize = 0;
            proof {
                assert(kv_view(out@) =~= rotation_pairs(k@, ev).take(1));
            }
            while j < n
                invariant
                    j <= n,
                    n == ev.len(),
                    elems.deep_view() == ev,
                    kv_view(out@) == rotation_pairs(k@, ev).take(1 + j),
                decreases n - j,
            {
                let nxt: usize = if j + 1 == n {
                    0
                } else {
                    j + 1
                };
                out.push(
                    (String::from_str(elems[j].as_str()), String::from_str(elems[nxt].as_str())),
                );
                proof {
                    assert(rotation_pairs(k@, ev)[1 + j as int] == (ev[j as int], ev[nxt as int]));
                    assert(rotation_pairs(k@, ev).take(1 + (j + 1)) =~= rotation_pairs(
                        k@,
                        ev,
                    ).take(1 + j as int).push(rotation_pairs(k@, ev)[1 + j as int]));
                    assert(kv_view(out@) =~= kv_view(out@.drop_last()).push(
                        (ev[j as int], ev[nxt as int]),
                    ));
                }
                j = j + 1;
            }
            proof {
                assert(rotation_pairs(k@, ev).take(1 + n as int) =~= rotation_pairs(k@, ev));
            }
            out
        } else {
            let mut out: Vec<(String, String)> = Vec::new();
            out.push((String::from_str(k), String::from_str(v)));
            proof {
                assert(kv_view(out@) =~= seq![(k@, v@)]);
            }
            out
        }
    } else {
        let mut out: Vec<(String, String)> = Vec::new();
        out.push((String::from_str(k), String::from_str(v)));
        proof {
            assert(kv_view(out@) =~= seq![(k@, v@)]);
        }
        out
    }
}

/// The first section named for context substitution.
#[verifier::loop_isolation(false)]
fn find_mf_section(secs: &Vec<IniSection>) -> (r: Option<usize>)
    ensures
        match r {
            Some(i) => find_mf(secs@, 0) == Some(i as int) && i < secs@.len(),
            None => find_mf(secs@, 0) is None,
        },
{
    let mut i: usize = 0;
    while i < secs.len()
        invariant
            i <= secs@.len(),
            find_mf(secs@, 0) == find_mf(secs@, i as int),
        decreases secs@.len() - i,
    {
        match &secs[i].name {
            Some(n) => {
                if str_eq(n.as_str(), "Multifunctional") {
                    return Some(i);
                }
            },
            None => {},
        }
        i = i + 1;
    }
    None
}

/// Load the replacement-pairs document: the map built from the designated
/// section's pairs, and the overwritten values as diagnostics, in order.
#[verifier::loop_isolation(false)]
pub fn replace_text_config(text: &str) -> (r: Result<(ReplacementMap, Vec<String>), String>)
    ensures
        match r {
            Ok(p) => ini_sections_of(text@) matches Some(secs) && p.0@ == build_from(
                Seq::<(Seq<char>, Seq<char>)>::empty(),
                doc_pairs(secs),
            ) && p.0.wf() && p.1.deep_view() == collisions_from(
                Seq::<(Seq<char>, Seq<char>)>::empty(),
                doc_pairs(secs),
            ),
            Err(_) => ini_sections_of(text@) is None,
        },
{
    let secs = match load_ini_sections(text) {
        Ok(s) => s,
        Err(e) => {
            return Err(e);
        },
    };
    let ghost sv = secs@;
    let ghost empty_map = Seq::<(Seq<char>, Seq<char>)>::empty();
    let mut map = ReplacementMap::new();
    let mut diags: Vec<String> = Vec::new();
    let si = match find_mf_section(&secs) {
        Some(si) => si,
        None => {
            proof {
                assert(doc_pairs(sv) =~= empty_map);
                assert(diags.deep_view() =~= Seq::<Seq<char>>::empty());
                assert(diags.deep_view() =~= collisions_from(empty_map, doc_pairs(sv)));
            }
            return Ok((map, diags));
        },
    };
    let props = &secs[si].props;
    let ghost allpairs = doc_pairs(sv);
    let mut j: usize = 0;
    while j < props.len()
        invariant
            j <= props@.len(),
            map.wf(),
            build_from(empty_map, allpairs) == build_from(
                map@,
                pairs_of_props(props@, j as int),
            ),
            collisions_from(empty_map, allpairs) == diags.deep_view() + collisions_from(
                map@,
                pairs_of_props(props@, j as int),
            ),
        decreases props@.len() - j,
    {
        let pv = prop_pairs(props[j].0.as_str(), props[j].1.as_str());
        let ghost rest = pairs_of_props(props@, j + 1);
        proof {
            assert(pairs_of_props(props@, j as int) == pairs_of_prop(
                props@[j as int].0@,
                props@[j as int].1@,
            ) + rest);
            assert(kv_view(pv@).skip(0) + rest =~= pairs_of_props(props@, j as int));
        }
        let mut t: usize = 0;
        while t < pv.len()
            invariant
                t <= pv@.len(),
                map.wf(),
                build_from(empty_map, allpairs) == build_from(
                    map@,
                    kv_view(pv@).skip(t as int) + rest,
                ),
                collisions_from(empty_map, allpairs) == diags.deep_view() + collisions_from(
                    map@,
                    kv_view(pv@).skip(t as int) + rest,
                ),
            decreases pv@.len() - t,
        {
            let ghost m0 = map@;
            let ghost cur = kv_view(pv@).skip(t as int) + rest;
            proof {
                assert(cur[0] == (pv@[t as int].0@, pv@[t as int].1@));
                assert(cur.drop_first() =~= kv_view(pv@).skip(t + 1) + rest);
            }
            let pk = pv[t].0.clone();
            let pval = pv[t].1.clone();
            let old_v = map.insert(pk, pval);
            proof {
                lemma_insert_keeps_unique(m0, cur[0].0, cur[0].1);
            }
            match old_v {
                Some(o) => {
                    diags.push(o);
                    proof {
                        assert(diags.deep_view() =~= diags.deep_view().drop_last().push(
                            spec_get(m0, cur[0].0)->0,
                        ));
                        assert(diags.deep_view() + collisions_from(map@, cur.drop_first())
                            =~= diags.deep_view().drop_last() + collisions_from(m0, cur));
                    }
                },
                None => {
                    proof {
                        assert(diags.deep_view() + collisions_from(map@, cur.drop_first())
                            =~= diags.deep_view() + collisions_from(m0, cur));
                    }
                },
            }
            t = t + 1;
        }
        proof {
            assert(kv_view(pv@).skip(pv@.len() as int) + rest =~= rest);
        }
        j = j + 1;
    }
    proof {
        assert(pairs_of_props(props@, props@.len() as int) =~= Seq::<
            (Seq<char>, Seq<char>),
        >::empty());
        assert(diags.deep_view() + collisions_from(map@, pairs_of_props(props@, props@.len() as int))
            =~= diags.deep_view());
    }
    Ok((map, diags))
}

// ---------------------------------------------------------------------------
// The shortcut-rule document
// ---------------------------------------------------------------------------

/// A document-level failure of the shortcut-rule document.
#[derive(Debug, Clone, PartialEq, Eq)]
pub enum ShortcutConfigDocError {
    /// The document's markup does not scan.
    Scan(String),
    /// The embedded rule payload does not decode as JSON.
    Json(String),
}

/// The spec-level image of what the shortcut-rule document holds.
pub enum ShortcutDocModel {
    /// The markup does not scan.
    ScanFail,
    /// No document, or no rule field: nothing is configured.
    NotConfigured,
    /// The embedded payload does not decode.
    JsonFail,
    /// The payload decodes but is not an array.
    NotArray,
    /// The rule objects, in order.
    Entries(Seq<JsonValue>),
}

pub open spec fn shortcut_doc_model(text: Seq<char>) -> ShortcutDocModel {
    match yaml_docs_of(text) {
        None => ShortcutDocModel::ScanFail,
        Some(docs) => if docs.len() == 0 {
            ShortcutDocModel::NotConfigured
        } else {
            match doc_field(docs[0], "capslock_shortcut"@) {
                None => ShortcutDocModel::NotConfigured,
                Some(jt) => match json_of(jt@) {
                    None => ShortcutDocModel::JsonFail,
                    Some(v) => match v {
                        JsonValue::Arr(items) => ShortcutDocModel::Entries(items@),
                        _ => ShortcutDocModel::NotArray,
                    },
                },
            }
        },
    }
}

pub open spec fn result_matches(
    res: Result<ShortcutKeyConfig, ShortcutKeyConfigFileFormatError>,
    model: Result<(Key, ModifierKey, FeatureModel), FormatErrModel>,
) -> bool {
    match (res, model) {
        (Ok(c), Ok(t)) => config_matches(c, t.0, t.1, t.2),
        (Err(e), Err(m)) => err_matches(e, m),
        _ => false,
    }
}

/// Load the shortcut-rule document from its text. `Ok(None)` means nothing
/// is configured (no document, or no rule field) — a distinct condition from
/// the two failures. A decoded payload that is not an array yields no rules;
/// otherwise every rule object gets its own result, in order.
#[verifier::loop_isolation(false)]
pub fn shortcut_key_config(text: &str) -> (r: Result<
    Option<Vec<Result<ShortcutKeyConfig, ShortcutKeyConfigFileFormatError>>>,
    ShortcutConfigDocError,
>)
    ensures
        match r {
            Err(ShortcutConfigDocError::Scan(_)) => shortcut_doc_model(text@) is ScanFail,
            Err(ShortcutConfigDocError::Json(_)) => shortcut_doc_model(text@) is JsonFail,
            Ok(None) => shortcut_doc_model(text@) is NotConfigured,
            Ok(Some(list)) => match shortcut_doc_model(text@) {
                ShortcutDocModel::Entries(items) => list@.len() == items.len() && forall|i: int|
                    0 <= i < items.len() ==> result_matches(
                        #[trigger] list@[i],
                        entry_spec(items[i]),
                    ),
                ShortcutDocModel::NotArray => list@.len() == 0,
                _ => false,
            },
        },
{
    let docs = match load_yaml_docs(text) {
        Ok(d) => d,
        Err(e) => {
            return Err(ShortcutConfigDocError::Scan(e));
        },
    };
    if docs.len() == 0 {
        return Ok(None);
    }
    let json_text = match docs[0].get_str("capslock_shortcut") {
        Some(s) => s,
        None => {
            return Ok(None);
        },
    };
    let json = match parse_json_text(json_text.as_str()) {
        Ok(v) => v,
        Err(e) => {
            return Err(ShortcutConfigDocError::Json(e));
        },
    };
    let items = match json.as_array() {
        Some(items) => items,
        None => {
            return Ok(Some(Vec::new()));
        },
    };
    let mut list: Vec<Result<ShortcutKeyConfig, ShortcutKeyConfigFileFormatError>> = Vec::new();
    let mut i: usize = 0;
    while i < items.len()
        invariant
            i <= items@.len(),
            json is Arr,
            items == json->Arr_0,
            list@.len() == i,
            forall|q: int| 0 <= q < i ==> result_matches(
                #[trigger] list@[q],
                entry_spec(items@[q]),
            ),
        decreases items@.len() - i,
    {
        let entry_result = ShortcutKeyConfig::from_entry(&items[i]);
        list.push(entry_result);
        i = i + 1;
    }
    Ok(Some(list))
}

// ---------------------------------------------------------------------------
// Language selection
// ---------------------------------------------------------------------------

/// The language-selection field of the shortcut-rule document, where the
/// document scans, has at least one record and carries the field as a
/// string.
pub open spec fn language_field(text: Seq<char>) -> Option<Seq<char>> {
    match yaml_docs_of(text) {
        None => None,
        Some(docs) => if docs.len() == 0 {
            None
        } else {
            match doc_field(docs[0], "language"@) {
                Some(s) => Some(s@),
                None => None,
            }
        },
    }
}

/// The configured language. An unreadable, unscannable, empty or fieldless
/// document yields the error; otherwise the field's text is resolved, with
/// the system locale as fallback for unrecognized codes.
pub fn language(text: Option<&str>) -> (r: Result<Language, ()>)
    ensures
        match text {
            None => r is Err,
            Some(t) => match language_field(t@) {
                None => r is Err,
                Some(code) => r is Ok && (language_of_code(lower_spec(code)) matches Some(l)
                    ==> r == Ok::<Language, ()>(l)),
            },
        },
{
    let t = match text {
        Some(t) => t,
        None => {
            return Err(());
        },
    };
    let docs = match load_yaml_docs(t) {
        Ok(d) => d,
        Err(_) => {
            return Err(());
        },
    };
    if docs.len() == 0 {
        return Err(());
    }
    match docs[0].get_str("language") {
        Some(code) => Ok(text_as_language(code.as_str())),
        None => Err(()),
    }
}

/// The configured language, with automatic selection where none is
/// configured.
pub fn language_or_auto(text: Option<&str>) -> (r: Language)
    ensures
        match text {
            Some(t) => match language_field(t@) {
                Some(code) => language_of_code(lower_spec(code)) matches Some(l) ==> r == l,
                None => true,
            },
            None => true,
        },
{
    match language(text) {
        Ok(l) => l,
        Err(_) => text_as_language("auto"),
    }
}

// ---------------------------------------------------------------------------
// First-run seeding
// ---------------------------------------------------------------------------

/// What first-run seeding writes: the content for each document that is
/// absent, and nothing for one that exists.
#[derive(Debug)]
pub struct InitPlan {
    pub shortcut_write: Option<String>,
    pub replace_write: Option<String>,
}

/// Decide the first-run seeding. Seeding is write-once: a document that is
/// already present is never overwritten. An absent shortcut-rule document
/// gets the comment block, a newline and the default payload; an absent
/// replacement-pairs document gets its default payload.
pub fn init(shortcut_present: bool, replace_present: bool, comment: &str) -> (r: InitPlan)
    ensures
        shortcut_present ==> r.shortcut_write is None,
        !shortcut_present ==> (r.shortcut_write matches Some(c) && c@ == comment@ + "\n"@
            + defaults::default_shortcut_config_spec()),
        replace_present ==> r.replace_write is None,
        !replace_present ==> (r.replace_write matches Some(c) && c@
            == defaults::default_replace_text_spec()),
{
    let shortcut_write = if shortcut_present {
        None
    } else {
        let mut content = String::from_str(comment);
        content.append("\n");
        content.append(defaults::default_shortcut_config_text());
        Some(content)
    };
    let replace_write = if replace_present {
        None
    } else {
        Some(String::from_str(defaults::default_replace_text_text()))
    };
    InitPlan { shortcut_write, replace_write }
}

// ---------------------------------------------------------------------------
// Laws of the parser and the rotation groups
// ---------------------------------------------------------------------------

/// Every valid single-key string parses to that key with all four modifier
/// flags false.
pub proof fn lemma_single_key_parse(s: Seq<char>, k: Key)
    requires
        segs_of(s).len() == 1,
        key_of_str(lower_spec(segs_of(s)[0])) == Some(k),
    ensures
        parse_shortcut_spec(s) == Ok::<(Key, ModifierKey), Seq<char>>((k, modifier_none())),
{
}

proof fn lemma_mods_of_prefix_exists(segs: Seq<Seq<char>>, i: int)
    requires
        0 <= i <= segs.len(),
    ensures
        mods_of_prefix(segs, i).ctrl <==> exists|j: int|
            0 <= j < i && lower_spec(#[trigger] segs[j]) == "ctrl"@,
        mods_of_prefix(segs, i).shift <==> exists|j: int|
            0 <= j < i && lower_spec(#[trigger] segs[j]) == "shift"@,
        mods_of_prefix(segs, i).alt <==> exists|j: int|
            0 <= j < i && lower_spec(#[trigger] segs[j]) == "alt"@,
        mods_of_prefix(segs, i).meta <==> exists|j: int|
            0 <= j < i && lower_spec(#[trigger] segs[j]) == "meta"@,
    decreases i,
{
    if i > 0 {
        lemma_mods_of_prefix_exists(segs, i - 1);
    }
}

/// In a combo whose segments are modifier tokens followed by a recognized
/// key segment, parsing yields that key, and each modifier flag is set
/// exactly where its token occurs among the leading segments — in whatever
/// order they stand.
pub proof fn lemma_modifier_prefix_parse(s: Seq<char>, n: int, k: Key)
    requires
        segs_of(s).len() > 1,
        0 <= n < segs_of(s).len(),
        forall|j: int| 0 <= j < n ==> is_modifier_token(#[trigger] segs_of(s)[j]),
        !is_modifier_token(segs_of(s)[n]),
        key_of_str(lower_spec(segs_of(s)[n])) == Some(k),
    ensures
        parse_shortcut_spec(s) matches Ok(p) && p.0 == k && (p.1.ctrl <==> exists|j: int|
            0 <= j < n && lower_spec(#[trigger] segs_of(s)[j]) == "ctrl"@) && (p.1.shift
            <==> exists|j: int| 0 <= j < n && lower_spec(#[trigger] segs_of(s)[j]) == "shift"@)
            && (p.1.alt <==> exists|j: int|
            0 <= j < n && lower_spec(#[trigger] segs_of(s)[j]) == "alt"@) && (p.1.meta
            <==> exists|j: int| 0 <= j < n && lower_spec(#[trigger] segs_of(s)[j]) == "meta"@),
{
    let segs = segs_of(s);
    lemma_first_non_modifier(segs, n);
    assert(first_non_modifier(segs, n) == Some(n));
    lemma_mods_of_prefix_exists(segs, n);
}

/// A rotation group built from a key and a bracketed list of distinct
/// elements maps the key to the first element, each element to the next,
/// and the last element back to the first — the cycle closes at the first
/// element, not at the key.
pub proof fn lemma_rotation_group_cycle(k: Seq<char>, elems: Seq<Seq<char>>, i: int)
    requires
        elems.len() > 1,
        0 <= i < elems.len(),
        forall|a: int, b: int| 0 <= a < b < elems.len() ==> elems[a] != elems[b],
        forall|a: int| 0 <= a < elems.len() ==> k != #[trigger] elems[a],
    ensures
        spec_get(build_from(Seq::<(Seq<char>, Seq<char>)>::empty(), rotation_pairs(k, elems)), k)
            == Some(elems[0]),
        spec_get(
            build_from(Seq::<(Seq<char>, Seq<char>)>::empty(), rotation_pairs(k, elems)),
            elems[i],
        ) == Some(
            elems[if i + 1 == elems.len() {
                0int
            } else {
                i + 1
            }],
        ),
{
    let empty_map = Seq::<(Seq<char>, Seq<char>)>::empty();
    let pairs = rotation_pairs(k, elems);
    assert(pairs.len() == 1 + elems.len());
    assert(pairs[0] == (k, elems[0]));
    assert(forall|a: int| 0 <= a < elems.len() ==> #[trigger] pairs[1 + a] == (
        elems[a],
        elems[if a + 1 == elems.len() {
            0int
        } else {
            a + 1
        }],
    ));
    lemma_build_lookup(empty_map, pairs, k);
    assert(forall|j: int| 0 <= j < pairs.len() && j != 0 ==> (#[trigger] pairs[j]).0 != k) by {
        assert(forall|j: int| 1 <= j < pairs.len() ==> (#[trigger] pairs[j]).0 == elems[j - 1]);
    }
    lemma_last_pair_unique(pairs, k, 0);
    lemma_build_lookup(empty_map, pairs, elems[i]);
    assert(forall|j: int|
        0 <= j < pairs.len() && j != i + 1 ==> (#[trigger] pairs[j]).0 != elems[i]) by {
        assert(pairs[0].0 == k);
        assert(forall|j: int| 1 <= j < pairs.len() ==> (#[trigger] pairs[j]).0 == elems[j - 1]);
    }
    lemma_last_pair_unique(pairs, elems[i], i + 1);
}

/// A plain pair yields exactly the single mapping from its key to its
/// value.
pub proof fn lemma_plain_pair(k: Seq<char>, v: Seq<char>)
    requires
        !(is_bracket_list(v) && list_elems(v).len() > 1),
    ensures
        build_from(Seq::<(Seq<char>, Seq<char>)>::empty(), pairs_of_prop(k, v)) =~= seq![(k, v)],
        spec_get(build_from(Seq::<(Seq<char>, Seq<char>)>::empty(), pairs_of_prop(k, v)), k)
            == Some(v),
{
    let empty_map = Seq::<(Seq<char>, Seq<char>)>::empty();
    let pairs = pairs_of_prop(k, v);
    assert(pairs =~= seq![(k, v)]);
    assert(spec_insert(empty_map, k, v) =~= seq![(k, v)]);
    assert(pairs.drop_first() =~= empty_map);
    assert(build_from(spec_insert(empty_map, k, v), pairs.drop_first()) == spec_insert(
        empty_map,
        k,
        v,
    ));
}

} // verus!
