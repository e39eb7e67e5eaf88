//! The library's model of a parsed JSON document, the verified compact
//! renderer for it, and the trusted boundary to serde_json.
//!
//! The shortcut-rule document embeds a JSON-encoded array of rule objects;
//! parsing that text is serde_json's job, everything after it is verified
//! logic over this model.

use vstd::prelude::*;
use vstd::string::*;
use crate::text::{push_char, str_eq};

verus! {

/// A JSON value. Numbers keep their rendered text (so the value can be
/// re-rendered exactly) together with their unsigned-integer reading, if any.
#[derive(Debug)]
pub enum JsonValue {
    Null,
    Bool(bool),
    Num { text: String, uint: Option<u64> },
    Str(String),
    Arr(Vec<JsonValue>),
    Obj(Vec<(String, JsonValue)>),
}

// ---------------------------------------------------------------------------
// Rendering (compact form, as serde_json's to_string produces)
// ---------------------------------------------------------------------------

pub open spec fn hex_digit(d: int) -> char {
    if d == 0 {
        '0'
    } else if d == 1 {
        '1'
    } else if d == 2 {
        '2'
    } else if d == 3 {
        '3'
    } else if d == 4 {
        '4'
    } else if d == 5 {
        '5'
    } else if d == 6 {
        '6'
    } else if d == 7 {
        '7'
    } else if d == 8 {
        '8'
    } else if d == 9 {
        '9'
    } else if d == 10 {
        'a'
    } else if d == 11 {
        'b'
    } else if d == 12 {
        'c'
    } else if d == 13 {
        'd'
    } else if d == 14 {
        'e'
    } else {
        'f'
    }
}

/// How one character appears inside a JSON string literal.
pub open spec fn escape_char(c: char) -> Seq<char> {
    if c == '"' {
        seq!['\\', '"']
    } else if c == '\\' {
        seq!['\\', '\\']
    } else if c == '\u{8}' {
        seq!['\\', 'b']
    } else if c == '\u{c}' {
        seq!['\\', 'f']
    } else if c == '\n' {
        seq!['\\', 'n']
    } else if c == '\r' {
        seq!['\\', 'r']
    } else if c == '\t' {
        seq!['\\', 't']
    } else if (c as int) < 32 {
        seq!['\\', 'u', '0', '0', hex_digit((c as int) / 16), hex_digit((c as int) % 16)]
    } else {
        seq![c]
    }
}

pub open spec fn escape_spec(s: Seq<char>) -> Seq<char>
    decreases s.len(),
{
    if s.len() == 0 {
        Seq::<char>::empty()
    } else {
        escape_char(s[0]) + escape_spec(s.drop_first())
    }
}

proof fn lemma_escape_push(s: Seq<char>, c: char)
    ensures
        escape_spec(s.push(c)) == escape_spec(s) + escape_char(c),
    decreases s.len(),
{
    if s.len() == 0 {
        assert(s.push(c)[0] == c);
        assert(s.push(c).drop_first() =~= Seq::<char>::empty());
        assert(escape_spec(Seq::<char>::empty()) == Seq::<char>::empty());
        assert(escape_spec(s.push(c)) =~= escape_spec(s) + escape_char(c));
    } else {
        assert(s.push(c)[0] == s[0]);
        assert(s.push(c).drop_first() =~= s.drop_first().push(c));
        lemma_escape_push(s.drop_first(), c);
        assert(escape_spec(s.push(c)) =~= escape_spec(s) + escape_char(c));
    }
}

/// The compact rendering of a JSON value: no whitespace, strings escaped,
/// numbers as their captured text.
pub open spec fn render_spec(v: JsonValue) -> Seq<char>
    decreases v, 0int,
{
    match v {
        JsonValue::Null => "null"@,
        JsonValue::Bool(b) => if b {
            "true"@
        } else {
            "false"@
        },
        JsonValue::Num { text, uint } => text@,
        JsonValue::Str(s) => seq!['"'] + escape_spec(s@) + seq!['"'],
        JsonValue::Arr(items) => seq!['['] + render_items_from(items@, 0) + seq![']'],
        JsonValue::Obj(fields) => seq!['{'] + render_fields_from(fields@, 0) + seq!['}'],
    }
}

pub open spec fn render_items_from(items: Seq<JsonValue>, i: int) -> Seq<char>
    decreases items, items.len() - i,
{
    if i < 0 || i >= items.len() {
        Seq::<char>::empty()
    } else if i == items.len() - 1 {
        render_spec(items[i])
    } else {
        render_spec(items[i]).push(',') + render_items_from(items, i + 1)
    }
}

pub open spec fn render_fields_from(fields: Seq<(String, JsonValue)>, i: int) -> Seq<char>
    decreases fields, fields.len() - i,
{
    if i < 0 || i >= fields.len() {
        Seq::<char>::empty()
    } else {
        let one = seq!['"'] + escape_spec(fields[i].0@) + seq!['"', ':'] + render_spec(
            fields[i].1,
        );
        if i == fields.len() - 1 {
            one
        } else {
            one.push(',') + render_fields_from(fields, i + 1)
        }
    }
}

fn hex_digit_exec(d: u32) -> (r: char)
    ensures
        r == hex_digit(d as int),
{
    if d == 0 {
        '0'
    } else if d == 1 {
        '1'
    } else if d == 2 {
        '2'
    } else if d == 3 {
        '3'
    } else if d == 4 {
        '4'
    } else if d == 5 {
        '5'
    } else if d == 6 {
        '6'
    } else if d == 7 {
        '7'
    } else if d == 8 {
        '8'
    } else if d == 9 {
        '9'
    } else if d == 10 {
        'a'
    } else if d == 11 {
        'b'
    } else if d == 12 {
        'c'
    } else if d == 13 {
        'd'
    } else if d == 14 {
        'e'
    } else {
        'f'
    }
}

/// Append the escaped form of one character to the output.
fn push_escaped(out: &mut String, c: char)
    ensures
        final(out)@ == old(out)@ + escape_char(c),
{
    if c == '"' {
        push_char(out, '\\');
        push_char(out, '"');
    } else if c == '\\' {
        push_char(out, '\\');
        push_char(out, '\\');
    } else if c == '\u{8}' {
        push_char(out, '\\');
        push_char(out, 'b');
    } else if c == '\u{c}' {
        push_char(out, '\\');
        push_char(out, 'f');
    } else if c == '\n' {
        push_char(out, '\\');
        push_char(out, 'n');
    } else if c == '\r' {
        push_char(out, '\\');
        push_char(out, 'r');
    } else if c == '\t' {
        push_char(out, '\\');
        push_char(out, 't');
    } else if (c as u32) < 32 {
        let u = c as u32;
        push_char(out, '\\');
        push_char(out, 'u');
        push_char(out, '0');
        push_char(out, '0');
        push_char(out, hex_digit_exec(u / 16));
        push_char(out, hex_digit_exec(u % 16));
    } else {
        push_char(out, c);
    }
    proof {
        assert(final(out)@ =~= old(out)@ + escape_char(c));
    }
}

#[verifier::loop_isolation(false)]
fn push_escaped_str(out: &mut String, s: &str)
    ensures
        final(out)@ == old(out)@ + escape_spec(s@),
{
    let n = s.unicode_len();
    let mut i: usize = 0;
    proof {
        assert(old(out)@ + escape_spec(s@.take(0)) =~= old(out)@);
    }
    while i < n
        invariant
            i <= n,
            out@ == old(out)@ + escape_spec(s@.take(i as int)),
        decreases n - i,
    {
        let c = s.get_char(i);
        push_escaped(out, c);
        proof {
            assert(s@.take(i + 1) =~= s@.take(i as int).push(c));
            lemma_escape_push(s@.take(i as int), c);
            assert(old(out)@ + escape_spec(s@.take(i + 1)) =~= (old(out)@ + escape_spec(
                s@.take(i as int),
            )) + escape_char(c));
        }
        i = i + 1;
    }
    proof {
        assert(s@.take(n as int) =~= s@);
    }
}

impl JsonValue {
    /// Render this value in compact JSON form, exactly as specified by
    /// render_spec.
    pub fn render(&self) -> (r: String)
        ensures
            r@ == render_spec(*self),
        decreases *self, 0int,
    {
        let mut out = String::new();
        match self {
            JsonValue::Null => {
                out.append("null");
            },
            JsonValue::Bool(b) => {
                if *b {
                    out.append("true");
                } else {
                    out.append("false");
                }
            },
            JsonValue::Num { text, uint } => {
                out.append(text.as_str());
            },
            JsonValue::Str(s) => {
                push_char(&mut out, '"');
                push_escaped_str(&mut out, s.as_str());
                push_char(&mut out, '"');
                proof {
                    assert(out@ =~= render_spec(*self));
                }
            },
            JsonValue::Arr(items) => {
                push_char(&mut out, '[');
                let mut i: usize = 0;
                proof {
                    assert(decreases_to!(*self => *items));
                }
                while i < items.len()
                    invariant
                        i <= items@.len(),
                        *self is Arr,
                        items == self->Arr_0,
                        out@ == seq!['['] + render_items_upto(items@, i as int),
                    decreases items@.len() - i,
                {
                    proof {
                        assert(decreases_to!(*self => *items));
                        assert(decreases_to!(*items => items@));
                        assert(decreases_to!(items@ => items@[i as int]));
                    }
                    if i > 0 {
                        push_char(&mut out, ',');
                    }
                    let piece = items[i].render();
                    out.append(piece.as_str());
                    proof {
                        lemma_render_items_upto_push(items@, i as int);
                        assert(out@ =~= seq!['['] + render_items_upto(items@, i + 1));
                    }
                    i = i + 1;
                }
                push_char(&mut out, ']');
                proof {
                    lemma_render_items_upto_all(items@);
                    assert(out@ =~= render_spec(*self));
                }
            },
            JsonValue::Obj(fields) => {
                push_char(&mut out, '{');
                let mut i: usize = 0;
                while i < fields.len()
                    invariant
                        i <= fields@.len(),
                        *self is Obj,
                        fields == self->Obj_0,
                        out@ == seq!['{'] + render_fields_upto(fields@, i as int),
                    decreases fields@.len() - i,
                {
                    proof {
                        assert(decreases_to!(*self => *fields));
                        assert(decreases_to!(*fields => fields@));
                        assert(decreases_to!(fields@ => fields@[i as int]));
                        assert(decreases_to!(fields@[i as int] => fields@[i as int].1));
                    }
                    if i > 0 {
                        push_char(&mut out, ',');
                    }
                    push_char(&mut out, '"');
                    push_escaped_str(&mut out, fields[i].0.as_str());
                    push_char(&mut out, '"');
                    push_char(&mut out, ':');
                    let piece = fields[i].1.render();
                    out.append(piece.as_str());
                    proof {
                        lemma_render_fields_upto_push(fields@, i as int);
                        assert(out@ =~= seq!['{'] + render_fields_upto(fields@, i + 1));
                    }
                    i = i + 1;
                }
                push_char(&mut out, '}');
                proof {
                    lemma_render_fields_upto_all(fields@);
                    assert(out@ =~= render_spec(*self));
                }
            },
        }
        out
    }
}

/// The rendering of the first i items, commas included, as a loop builds it.
pub open spec fn render_items_upto(items: Seq<JsonValue>, i: int) -> Seq<char>
    decreases i,
{
    if i <= 0 || i > items.len() {
        Seq::<char>::empty()
    } else if i == 1 {
        render_spec(items[0])
    } else {
        render_items_upto(items, i - 1).push(',') + render_spec(items[i - 1])
    }
}

pub open spec fn render_fields_upto(fields: Seq<(String, JsonValue)>, i: int) -> Seq<char>
    decreases i,
{
    if i <= 0 || i > fields.len() {
        Seq::<char>::empty()
    } else {
        let one = seq!['"'] + escape_spec(fields[i - 1].0@) + seq!['"', ':'] + render_spec(
            fields[i - 1].1,
        );
        if i == 1 {
            one
        } else {
            render_fields_upto(fields, i - 1).push(',') + one
        }
    }
}

proof fn lemma_render_items_upto_push(items: Seq<JsonValue>, i: int)
    requires
        0 <= i < items.len(),
    ensures
        i == 0 ==> render_items_upto(items, i + 1) == render_spec(items[0]),
        i > 0 ==> render_items_upto(items, i + 1) == render_items_upto(items, i).push(',')
            + render_spec(items[i]),
{
}

proof fn lemma_render_fields_upto_push(fields: Seq<(String, JsonValue)>, i: int)
    requires
        0 <= i < fields.len(),
    ensures
        i == 0 ==> render_fields_upto(fields, i + 1) == seq!['"'] + escape_spec(fields[0].0@)
            + seq!['"', ':'] + render_spec(fields[0].1),
        i > 0 ==> render_fields_upto(fields, i + 1) == render_fields_upto(fields, i).push(',') + (
        seq!['"'] + escape_spec(fields[i].0@) + seq!['"', ':'] + render_spec(fields[i].1)),
{
}

/// The two renderings of an item list agree.
proof fn lemma_render_items_agree(items: Seq<JsonValue>, i: int)
    requires
        0 <= i <= items.len(),
    ensures
        render_items_upto(items, items.len() as int) == render_items_upto(items, i)
            + comma_prefix(i, items.len() as int) + render_items_from(items, i),
    decreases items.len() - i,
{
    let len = items.len() as int;
    if i == items.len() {
        assert(render_items_upto(items, i) + comma_prefix(i, len) + render_items_from(items, i)
            =~= render_items_upto(items, i));
    } else {
        lemma_render_items_agree(items, i + 1);
        if i == items.len() - 1 {
            assert(render_items_upto(items, i) + comma_prefix(i, len) + render_items_from(
                items,
                i,
            ) =~= render_items_upto(items, i + 1));
        } else {
            assert(render_items_upto(items, i) + comma_prefix(i, len) + render_items_from(
                items,
                i,
            ) =~= (render_items_upto(items, i + 1) + comma_prefix(i + 1, len)
            + render_items_from(items, i + 1)));
        }
    }
}

pub open spec fn comma_prefix(i: int, len: int) -> Seq<char> {
    if 0 < i < len {
        seq![',']
    } else {
        Seq::<char>::empty()
    }
}

proof fn lemma_render_items_upto_all(items: Seq<JsonValue>)
    ensures
        render_items_upto(items, items.len() as int) == render_items_from(items, 0),
{
    lemma_render_items_agree(items, 0);
    assert(render_items_upto(items, 0) + comma_prefix(0, items.len() as int)
        + render_items_from(items, 0) =~= render_items_from(items, 0));
}

proof fn lemma_render_fields_agree(fields: Seq<(String, JsonValue)>, i: int)
    requires
        0 <= i <= fields.len(),
    ensures
        render_fields_upto(fields, fields.len() as int) == render_fields_upto(fields, i)
            + comma_prefix(i, fields.len() as int) + render_fields_from(fields, i),
    decreases fields.len() - i,
{
    let len = fields.len() as int;
    if i == fields.len() {
        assert(render_fields_upto(fields, i) + comma_prefix(i, len) + render_fields_from(
            fields,
            i,
        ) =~= render_fields_upto(fields, i));
    } else {
        lemma_render_fields_agree(fields, i + 1);
        if i == fields.len() - 1 {
            assert(render_fields_upto(fields, i) + comma_prefix(i, len) + render_fields_from(
                fields,
                i,
            ) =~= render_fields_upto(fields, i + 1));
        } else {
            assert(render_fields_upto(fields, i) + comma_prefix(i, len) + render_fields_from(
                fields,
                i,
            ) =~= (render_fields_upto(fields, i + 1) + comma_prefix(i + 1, len)
            + render_fields_from(fields, i + 1)));
        }
    }
}

proof fn lemma_render_fields_upto_all(fields: Seq<(String, JsonValue)>)
    ensures
        render_fields_upto(fields, fields.len() as int) == render_fields_from(fields, 0),
{
    lemma_render_fields_agree(fields, 0);
    assert(render_fields_upto(fields, 0) + comma_prefix(0, fields.len() as int)
        + render_fields_from(fields, 0) =~= render_fields_from(fields, 0));
}

// ---------------------------------------------------------------------------
// Field lookup
// ---------------------------------------------------------------------------

/// Lookup of a key among an object's fields; keys are unique, so the first
/// match is the only one.
pub open spec fn obj_get_spec(fields: Seq<(String, JsonValue)>, k: Seq<char>) -> Option<
    JsonValue,
>
    decreases fields.len(),
{
    if fields.len() == 0 {
        None
    } else if fields[0].0@ == k {
        Some(fields[0].1)
    } else {
        obj_get_spec(fields.drop_first(), k)
    }
}

/// What indexing a JSON value by a field name yields: a field of an object,
/// nothing anywhere else.
pub open spec fn get_field_spec(v: JsonValue, k: Seq<char>) -> Option<JsonValue> {
    match v {
        JsonValue::Obj(fields) => obj_get_spec(fields@, k),
        _ => None,
    }
}

impl JsonValue {
    #[verifier::loop_isolation(false)]
    pub fn get_field(&self, k: &str) -> (r: Option<&JsonValue>)
        ensures
            match r {
                Some(f) => get_field_spec(*self, k@) == Some(*f),
                None => get_field_spec(*self, k@) is None,
            },
    {
        match self {
            JsonValue::Obj(fields) => {
                let mut i: usize = 0;
                proof {
                    assert(fields@.skip(0) =~= fields@);
                }
                while i < fields.len()
                    invariant
                        i <= fields@.len(),
                        obj_get_spec(fields@, k@) == obj_get_spec(fields@.skip(i as int), k@),
                        forall|j: int| 0 <= j < i ==> fields@[j].0@ != k@,
                    decreases fields@.len() - i,
                {
                    proof {
                        assert(fields@.skip(i as int)[0] == fields@[i as int]);
                    }
                    if str_eq(fields[i].0.as_str(), k) {
                        return Some(&fields[i].1);
                    }
                    proof {
                        assert(fields@.skip(i as int).drop_first() =~= fields@.skip(i + 1));
                    }
                    i = i + 1;
                }
                proof {
                    assert(fields@.skip(fields@.len() as int).len() == 0);
                }
                None
            },
            _ => None,
        }
    }

    /// The string inside a JSON string value.
    pub fn as_str(&self) -> (r: Option<&String>)
        ensures
            match *self {
                JsonValue::Str(_) => r is Some && *self == JsonValue::Str(*r->0),
                _ => r is None,
            },
    {
        match self {
            JsonValue::Str(s) => Some(s),
            _ => None,
        }
    }

    /// The items of a JSON array value.
    pub fn as_array(&self) -> (r: Option<&Vec<JsonValue>>)
        ensures
            match *self {
                JsonValue::Arr(_) => r is Some && *self == JsonValue::Arr(*r->0),
                _ => r is None,
            },
    {
        match self {
            JsonValue::Arr(items) => Some(items),
            _ => None,
        }
    }

    /// The unsigned-integer reading of a JSON number value, if it has one.
    pub fn as_u64(&self) -> (r: Option<u64>)
        ensures
            r == spec_as_u64(*self),
    {
        match self {
            JsonValue::Num { text, uint } => *uint,
            _ => None,
        }
    }
}

pub open spec fn spec_as_u64(v: JsonValue) -> Option<u64> {
    match v {
        JsonValue::Num { text, uint } => uint,
        _ => None,
    }
}

// ---------------------------------------------------------------------------
// The trusted boundary to serde_json
// ---------------------------------------------------------------------------

/// What serde_json's parser makes of a piece of text: the parsed value, or
/// nothing where the text is not valid JSON. The parse is a function of the
/// text alone.
pub uninterp spec fn json_of(text: Seq<char>) -> Option<JsonValue>;

#[verifier::external_type_specification]
#[verifier::external_body]
pub struct ExJsonValue(serde_json::Value);

/// Relies on serde_json::Value: converts the parsed tree into the library's
/// model, one variant arm at a time; numbers keep serde_json's rendering and
/// unsigned reading, objects keep serde_json's (sorted) field order.
#[verifier::external_body]
fn value_tree(v: &serde_json::Value) -> JsonValue {
    match v {
        serde_json::Value::Null => JsonValue::Null,
        serde_json::Value::Bool(b) => JsonValue::Bool(*b),
        serde_json::Value::Number(n) => JsonValue::Num { text: n.to_string(), uint: n.as_u64() },
        serde_json::Value::String(s) => JsonValue::Str(s.clone()),
        serde_json::Value::Array(a) => JsonValue::Arr(a.iter().map(value_tree).collect()),
        serde_json::Value::Object(o) => JsonValue::Obj(
            o.iter().map(|(k, x)| (k.clone(), value_tree(x))).collect(),
        ),
    }
}

/// Relies on serde_json::from_str::<Value>: parses JSON text into a value
/// tree, or reports a decode error; the outcome depends on the text alone.
#[verifier::external_body]
pub fn parse_json_text(text: &str) -> (r: Result<JsonValue, String>)
    ensures
        match r {
            Ok(v) => json_of(text@) == Some(v),
            Err(_) => json_of(text@) is None,
        },
{
    match serde_json::from_str::<serde_json::Value>(text) {
        Ok(v) => Ok(value_tree(&v)),
        Err(e) => Err(format!("{}", e)),
    }
}

} // verus!
