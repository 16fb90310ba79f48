//! JSON values as the library reads and stores them: a payload is parsed by
//! the program around the library and handed over as a [`JsonValue`]; the
//! library writes a value back as compact JSON text.

use vstd::prelude::*;

use crate::embeddings::hex_digit;
use crate::text::{char_from_ascii, chars_eq, chars_of, push_all, string_from_chars};

verus! {

broadcast use {vstd::std_specs::vec::axiom_vec_decreases_to_view, vstd::std_specs::vec::axiom_vec_index_decreases};

/// The mathematical value of a JSON document.
pub enum Json {
    Null,
    Bool(bool),
    /// A number, by its JSON text.
    Number(Seq<char>),
    Str(Seq<char>),
    Array(Seq<Json>),
    /// Members in document order.
    Object(Seq<(Seq<char>, Json)>),
}

/// A JSON value.
#[derive(Debug)]
pub enum JsonValue {
    Null,
    Bool(bool),
    /// A number, by its JSON text.
    Number(String),
    String(String),
    Array(Vec<JsonValue>),
    /// Members in document order; a parsed object has no key twice.
    Object(Vec<(String, JsonValue)>),
}

/// The value of a JSON value.
pub open spec fn json_model(v: JsonValue) -> Json
    decreases v, 0nat,
{
    match v {
        JsonValue::Null => Json::Null,
        JsonValue::Bool(b) => Json::Bool(b),
        JsonValue::Number(n) => Json::Number(n@),
        JsonValue::String(s) => Json::Str(s@),
        JsonValue::Array(items) => Json::Array(json_items_model(items@)),
        JsonValue::Object(fields) => Json::Object(json_fields_model(fields@)),
    }
}

/// The values of a sequence of JSON values.
pub open spec fn json_items_model(items: Seq<JsonValue>) -> Seq<Json>
    decreases items, items.len(),
{
    if items.len() == 0 {
        Seq::empty()
    } else {
        json_items_model(items.drop_last()).push(json_model(items.last()))
    }
}

/// The values of a sequence of object members.
pub open spec fn json_fields_model(fields: Seq<(String, JsonValue)>) -> Seq<(Seq<char>, Json)>
    decreases fields, fields.len(),
{
    if fields.len() == 0 {
        Seq::empty()
    } else {
        json_fields_model(fields.drop_last()).push(
            (fields.last().0@, json_model(fields.last().1)),
        )
    }
}

/// The value of an optional JSON value.
pub open spec fn opt_json(o: Option<JsonValue>) -> Option<Json> {
    match o {
        Some(v) => Some(v@),
        None => None,
    }
}

/// The value of an optional reference to a JSON value.
pub open spec fn opt_json_ref(o: Option<&JsonValue>) -> Option<Json> {
    match o {
        Some(v) => Some(v@),
        None => None,
    }
}

/// `found` when present, else the member `key` of `value`: one step of
/// `value.get(a).or_else(|| value.get(b))`.
pub open spec fn or_member(found: Option<Json>, value: Json, key: Seq<char>) -> Option<Json> {
    match found {
        Some(v) => Some(v),
        None => value.get(key),
    }
}

/// The text of an optional string value.
pub open spec fn opt_as_str(found: Option<Json>) -> Option<Seq<char>> {
    match found {
        Some(v) => v.as_str(),
        None => None,
    }
}

impl View for JsonValue {
    type V = Json;

    open spec fn view(&self) -> Json {
        json_model(*self)
    }
}

/// The first member of `fields` named `key`.
pub open spec fn lookup_field(fields: Seq<(Seq<char>, Json)>, key: Seq<char>) -> Option<Json>
    decreases fields.len(),
{
    if fields.len() == 0 {
        None
    } else if fields[0].0 == key {
        Some(fields[0].1)
    } else {
        lookup_field(fields.drop_first(), key)
    }
}

impl Json {
    /// The member `key` of an object; `None` for other values, as
    /// `serde_json::Value::get` gives it.
    pub open spec fn get(self, key: Seq<char>) -> Option<Json> {
        match self {
            Json::Object(fields) => lookup_field(fields, key),
            _ => None,
        }
    }

    /// The text of a string value, as `serde_json::Value::as_str` gives it.
    pub open spec fn as_str(self) -> Option<Seq<char>> {
        match self {
            Json::Str(s) => Some(s),
            _ => None,
        }
    }
}

/// The member at `k` of a model of members is the model of the member at `k`.
pub proof fn lemma_fields_model_index(fields: Seq<(String, JsonValue)>, k: int)
    requires
        0 <= k < fields.len(),
    ensures
        json_fields_model(fields).len() == fields.len(),
        json_fields_model(fields)[k] == (fields[k].0@, json_model(fields[k].1)),
    decreases fields.len(),
{
    lemma_fields_model_len(fields);
    if k < fields.len() - 1 {
        lemma_fields_model_index(fields.drop_last(), k);
    }
}

/// A model of members has one entry per member.
pub proof fn lemma_fields_model_len(fields: Seq<(String, JsonValue)>)
    ensures
        json_fields_model(fields).len() == fields.len(),
    decreases fields.len(),
{
    if fields.len() > 0 {
        lemma_fields_model_len(fields.drop_last());
    }
}

impl JsonValue {
    /// The member `key` of an object; `None` for other values.
    pub fn get(&self, key: &str) -> (r: Option<&JsonValue>)
        ensures
            match r {
                Some(v) => self@.get(key@) == Some(v@),
                None => self@.get(key@) is None,
            },
    {
        match self {
            JsonValue::Object(fields) => {
                let k = chars_of(key);
                let ghost ms = json_fields_model(fields@);
                proof {
                    lemma_fields_model_len(fields@);
                    assert(ms.skip(0) =~= ms);
                    assert(self@ == Json::Object(ms));
                }
                let mut i: usize = 0;
                while i < fields.len()
                    invariant
                        i <= fields@.len() == ms.len(),
                        ms == json_fields_model(fields@),
                        k@ == key@,
                        self@ == Json::Object(ms),
                        lookup_field(ms, key@) == lookup_field(ms.skip(i as int), key@),
                    decreases fields@.len() - i,
                {
                    proof {
                        lemma_fields_model_index(fields@, i as int);
                        assert(ms.skip(i as int).drop_first() =~= ms.skip(i + 1));
                    }
                    let name = chars_of(fields[i].0.as_str());
                    if chars_eq(name.as_slice(), k.as_slice()) {
                        assert(ms.skip(i as int)[0] == ms[i as int]);
                        assert(ms[i as int].0 == key@);
                        assert(lookup_field(ms.skip(i as int), key@) == Some(ms[i as int].1));
                        assert(self@.get(key@) == lookup_field(ms, key@));
                        return Some(&fields[i].1);
                    }
                    i = i + 1;
                }
                None
            },
            _ => None,
        }
    }

    /// `found` when present, else the member `key` of `value`.
    pub fn or_get<'a>(found: Option<&'a JsonValue>, value: &'a JsonValue, key: &str) -> (r: Option<
        &'a JsonValue,
    >)
        ensures
            opt_json_ref(r) == or_member(opt_json_ref(found), value@, key@),
    {
        match found {
            Some(v) => Some(v),
            None => value.get(key),
        }
    }

    /// The text of an optional string value.
    pub fn opt_str<'a>(found: Option<&'a JsonValue>) -> (r: Option<&'a str>)
        ensures
            match r {
                Some(s) => opt_as_str(opt_json_ref(found)) == Some(s@),
                None => opt_as_str(opt_json_ref(found)) is None,
            },
    {
        match found {
            Some(v) => v.as_str(),
            None => None,
        }
    }

    /// The text of a string value.
    pub fn as_str(&self) -> (r: Option<&str>)
        ensures
            match r {
                Some(s) => self@.as_str() == Some(s@),
                None => self@.as_str() is None,
            },
    {
        match self {
            JsonValue::String(s) => Some(s.as_str()),
            _ => None,
        }
    }

    /// A copy of the value.
    #[verifier::loop_isolation(false)]
    pub fn deep_clone(&self) -> (r: JsonValue)
        ensures
            r@ == self@,
        decreases self,
    {
        match self {
            JsonValue::Null => JsonValue::Null,
            JsonValue::Bool(b) => JsonValue::Bool(*b),
            JsonValue::Number(n) => JsonValue::Number(n.clone()),
            JsonValue::String(s) => JsonValue::String(s.clone()),
            JsonValue::Array(items) => {
                let mut out: Vec<JsonValue> = Vec::new();
                let mut i: usize = 0;
                while i < items.len()
                    invariant
                        i <= items@.len(),
                        json_items_model(out@) == json_items_model(items@.take(i as int)),
                    decreases items@.len() - i,
                {
                    proof {
                        assert(decreases_to!(*self => *items));
                        assert(decreases_to!(*items => items[i as int]));
                    }
                    let c = items[i].deep_clone();
                    let ghost before = out@;
                    out.push(c);
                    assert(out@.drop_last() =~= before);
                    assert(items@.take(i + 1).drop_last() =~= items@.take(i as int));
                    i = i + 1;
                }
                assert(items@.take(items@.len() as int) =~= items@);
                JsonValue::Array(out)
            },
            JsonValue::Object(fields) => {
                let mut out: Vec<(String, JsonValue)> = Vec::new();
                let mut i: usize = 0;
                while i < fields.len()
                    invariant
                        i <= fields@.len(),
                        json_fields_model(out@) == json_fields_model(fields@.take(i as int)),
                    decreases fields@.len() - i,
                {
                    let name = fields[i].0.clone();
                    proof {
                        assert(decreases_to!(*self => *fields));
                        assert(decreases_to!(*fields => fields[i as int]));
                        assert(decreases_to!(fields[i as int] => fields[i as int].1));
                    }
                    let c = fields[i].1.deep_clone();
                    let ghost before = out@;
                    out.push((name, c));
                    assert(out@.drop_last() =~= before);
                    assert(fields@.take(i + 1).drop_last() =~= fields@.take(i as int));
                    i = i + 1;
                }
                assert(fields@.take(fields@.len() as int) =~= fields@);
                JsonValue::Object(out)
            },
        }
    }
}

impl Clone for JsonValue {
    fn clone(&self) -> (r: Self)
        ensures
            r@ == self@,
    {
        self.deep_clone()
    }
}

/// How a character is written inside a JSON string: `"` and `\` and the
/// control characters escaped (`\b`, `\f`, `\n`, `\r`, `\t`, else `\u00XX` in
/// lower-case hex), every other character as it is.
pub open spec fn escaped_char(c: char) -> Seq<char> {
    if c == '"' {
        seq!['\\', '"']
    } else if c == '\\' {
        seq!['\\', '\\']
    } else if c == '\u{8}' {
        seq!['\\', 'b']
    } else if c == '\u{c}' {
        seq!['\\', 'f']
    } else if c == '\n' {
        seq!['\\', 'n']
    } else if c == '\r' {
        seq!['\\', 'r']
    } else if c == '\t' {
        seq!['\\', 't']
    } else if (c as u32) < 32 {
        seq!['\\', 'u', '0', '0', hex_digit(((c as u32) / 16) as int), hex_digit(((c as u32) % 16) as int)]
    } else {
        seq![c]
    }
}

/// The characters of a text, each written as inside a JSON string.
pub open spec fn escaped(s: Seq<char>) -> Seq<char>
    decreases s.len(),
{
    if s.len() == 0 {
        Seq::empty()
    } else {
        escaped(s.drop_last()) + escaped_char(s.last())
    }
}

/// A text as a JSON string.
pub open spec fn quoted(s: Seq<char>) -> Seq<char> {
    seq!['"'] + escaped(s) + seq!['"']
}

/// The compact JSON text of a value: no white space, members in their order,
/// numbers by their text. This is the text `serde_json::to_string` writes.
pub open spec fn json_text(j: Json) -> Seq<char>
    decreases j, 0nat,
{
    match j {
        Json::Null => "null"@,
        Json::Bool(b) => if b {
            "true"@
        } else {
            "false"@
        },
        Json::Number(t) => t,
        Json::Str(s) => quoted(s),
        Json::Array(items) => seq!['['] + items_text(items) + seq![']'],
        Json::Object(fields) => seq!['{'] + fields_text(fields) + seq!['}'],
    }
}

/// The texts of array items, separated by commas.
pub open spec fn items_text(items: Seq<Json>) -> Seq<char>
    decreases items, items.len(),
{
    if items.len() == 0 {
        Seq::empty()
    } else if items.len() == 1 {
        json_text(items[0])
    } else {
        items_text(items.drop_last()) + seq![','] + json_text(items.last())
    }
}

/// The texts of object members (`"name":value`), separated by commas.
pub open spec fn fields_text(fields: Seq<(Seq<char>, Json)>) -> Seq<char>
    decreases fields, fields.len(),
{
    if fields.len() == 0 {
        Seq::empty()
    } else if fields.len() == 1 {
        quoted(fields[0].0) + seq![':'] + json_text(fields[0].1)
    } else {
        fields_text(fields.drop_last()) + seq![','] + quoted(fields.last().0) + seq![':'] + json_text(
            fields.last().1,
        )
    }
}

/// The lower-case hexadecimal digit for `d`.
fn hex_char(d: u32) -> (c: char)
    requires
        d < 16,
    ensures
        c == hex_digit(d as int),
{
    if d < 10 {
        char_from_ascii((d + 48) as u8)
    } else {
        char_from_ascii((d + 87) as u8)
    }
}

/// Appends `s` written as a JSON string.
fn push_quoted(out: &mut Vec<char>, s: &str)
    ensures
        final(out)@ == old(out)@ + quoted(s@),
{
    let t = chars_of(s);
    let ghost start = out@;
    out.push('"');
    let mut i: usize = 0;
    while i < t.len()
        invariant
            i <= t@.len(),
            t@ == s@,
            out@ == start + seq!['"'] + escaped(t@.take(i as int)),
        decreases t@.len() - i,
    {
        let c = t[i];
        assert(t@.take(i + 1).drop_last() =~= t@.take(i as int));
        assert(t@.take(i + 1).last() == c);
        let ghost before = out@;
        if c == '"' {
            out.push('\\');
            out.push('"');
        } else if c == '\\' {
            out.push('\\');
            out.push('\\');
        } else if c == '\u{8}' {
            out.push('\\');
            out.push('b');
        } else if c == '\u{c}' {
            out.push('\\');
            out.push('f');
        } else if c == '\n' {
            out.push('\\');
            out.push('n');
        } else if c == '\r' {
            out.push('\\');
            out.push('r');
        } else if c == '\t' {
            out.push('\\');
            out.push('t');
        } else if (c as u32) < 32 {
            let code = c as u32;
            out.push('\\');
            out.push('u');
            out.push('0');
            out.push('0');
            out.push(hex_char(code / 16));
            out.push(hex_char(code % 16));
        } else {
            out.push(c);
        }
        assert(out@ =~= before + escaped_char(c));
        i = i + 1;
    }
    assert(t@.take(t@.len() as int) =~= t@);
    out.push('"');
    assert(out@ =~= start + quoted(s@));
}

/// The model of the first `i + 1` items extends that of the first `i`.
proof fn lemma_items_take(items: Seq<JsonValue>, i: int)
    requires
        0 <= i < items.len(),
    ensures
        json_items_model(items.take(i + 1)) == json_items_model(items.take(i)).push(json_model(items[i])),
        json_items_model(items.take(i)).len() == i,
{
    assert(items.take(i + 1).drop_last() =~= items.take(i));
    lemma_items_model_len(items.take(i));
}

/// A model of items has one entry per item.
proof fn lemma_items_model_len(items: Seq<JsonValue>)
    ensures
        json_items_model(items).len() == items.len(),
    decreases items.len(),
{
    if items.len() > 0 {
        lemma_items_model_len(items.drop_last());
    }
}

/// Appends the compact JSON text of `v`.
#[verifier::loop_isolation(false)]
pub fn write_json(v: &JsonValue, out: &mut Vec<char>)
    ensures
        final(out)@ == old(out)@ + json_text(v@),
    decreases v,
{
    match v {
        JsonValue::Null => push_all(out, chars_of("null").as_slice()),
        JsonValue::Bool(b) => if *b {
            push_all(out, chars_of("true").as_slice())
        } else {
            push_all(out, chars_of("false").as_slice())
        },
        JsonValue::Number(t) => push_all(out, chars_of(t.as_str()).as_slice()),
        JsonValue::String(t) => push_quoted(out, t.as_str()),
        JsonValue::Array(items) => {
            let ghost start = out@;
            out.push('[');
            let mut i: usize = 0;
            while i < items.len()
                invariant
                    i <= items@.len(),
                    out@ == start + seq!['['] + items_text(json_items_model(items@.take(i as int))),
                decreases items@.len() - i,
            {
                proof {
                    assert(decreases_to!(*v => *items));
                    assert(decreases_to!(*items => items[i as int]));
                    lemma_items_take(items@, i as int);
                }
                let ghost before = out@;
                if i > 0 {
                    out.push(',');
                }
                write_json(&items[i], out);
                proof {
                    let m = json_items_model(items@.take(i + 1));
                    assert(m.drop_last() =~= json_items_model(items@.take(i as int)));
                    assert(m.last() == json_model(items@[i as int]));
                    if i == 0 {
                        assert(items_text(json_items_model(items@.take(0))) =~= Seq::<char>::empty());
                        assert(out@ =~= start + seq!['['] + items_text(m));
                    } else {
                        assert(out@ =~= start + seq!['['] + items_text(m));
                    }
                }
                i = i + 1;
            }
            assert(items@.take(items@.len() as int) =~= items@);
            out.push(']');
            assert(out@ =~= start + json_text(v@));
        },
        JsonValue::Object(fields) => {
            let ghost start = out@;
            out.push('{');
            let mut i: usize = 0;
            while i < fields.len()
                invariant
                    i <= fields@.len(),
                    out@ == start + seq!['{'] + fields_text(json_fields_model(fields@.take(i as int))),
                decreases fields@.len() - i,
            {
                proof {
                    assert(decreases_to!(*v => *fields));
                    assert(decreases_to!(*fields => fields[i as int]));
                    assert(decreases_to!(fields[i as int] => fields[i as int].1));
                    lemma_fields_model_len(fields@.take(i as int));
                    assert(fields@.take(i + 1).drop_last() =~= fields@.take(i as int));
                }
                if i > 0 {
                    out.push(',');
                }
                push_quoted(out, fields[i].0.as_str());
                out.push(':');
                write_json(&fields[i].1, out);
                proof {
                    let m = json_fields_model(fields@.take(i + 1));
                    assert(m.drop_last() =~= json_fields_model(fields@.take(i as int)));
                    assert(m.last() == (fields@[i as int].0@, json_model(fields@[i as int].1)));
                    if i == 0 {
                        assert(out@ =~= start + seq!['{'] + fields_text(m));
                    } else {
                        assert(out@ =~= start + seq!['{'] + fields_text(m));
                    }
                }
                i = i + 1;
            }
            assert(fields@.take(fields@.len() as int) =~= fields@);
            out.push('}');
            assert(out@ =~= start + json_text(v@));
        },
    }
}

impl JsonValue {
    /// The compact JSON text of the value, as it is stored.
    pub fn to_json_text(&self) -> (r: String)
        ensures
            r@ == json_text(self@),
    {
        let mut out: Vec<char> = Vec::new();
        write_json(self, &mut out);
        assert(out@ =~= json_text(self@));
        string_from_chars(out.as_slice())
    }
}

} // verus!
