use vstd::prelude::*;

verus! {

/// A JSON document as the registries send it. A number is kept as what the
/// library can read from it: `Some(n)` when it is a whole number in
/// `0..=u64::MAX`, `None` for any other number (negative, fractional or too large).
#[derive(Debug)]
pub enum Json {
    Null,
    Bool(bool),
    Number(Option<u64>),
    Str(String),
    Array(Vec<Json>),
    Object(Vec<(String, Json)>),
}

/// What serde_json makes of a text: the tree it reads, or the message of the
/// error it reports. It depends on the text alone.
pub uninterp spec fn json_document(text: Seq<char>) -> Result<Json, Seq<char>>;

#[verifier::external_type_specification]
#[verifier::external_body]
pub struct ExJsonValue(serde_json::Value);

/// Copies serde_json's tree into [`Json`], variant for variant; a number
/// becomes what serde_json's `Number::as_u64` gives of it.
#[verifier::external_body]
fn json_from_value(v: serde_json::Value) -> Json {
    match v {
        serde_json::Value::Null => Json::Null,
        serde_json::Value::Bool(b) => Json::Bool(b),
        serde_json::Value::Number(n) => Json::Number(n.as_u64()),
        serde_json::Value::String(s) => Json::Str(s),
        serde_json::Value::Array(a) => Json::Array(a.into_iter().map(json_from_value).collect()),
        serde_json::Value::Object(m) => Json::Object(m.into_iter().map(|(k, v)| (k, json_from_value(v))).collect()),
    }
}

/// Parses a JSON text with serde_json (`serde_json::from_str` into
/// `serde_json::Value`). The contract names the outcome [`json_document`]:
/// nothing is claimed of which texts parse or what tree comes out.
#[verifier::external_body]
pub(crate) fn parse_json(text: &str) -> (r: Result<Json, String>)
    ensures
        match r {
            Ok(j) => json_document(text@) == Ok::<Json, Seq<char>>(j),
            Err(e) => json_document(text@) == Err::<Json, Seq<char>>(e@),
        },
{
    match serde_json::from_str::<serde_json::Value>(text) {
        Ok(v) => Ok(json_from_value(v)),
        Err(e) => Err(e.to_string()),
    }
}

/// The lowercase hexadecimal digit for `n` (which is below 16).
pub open spec fn lower_hex_digit(n: u32) -> char {
    if n < 10 {
        (48 + n) as char
    } else {
        (87 + n) as char
    }
}

/// How serde_json writes one character inside a string literal: `"` and `\`
/// after a backslash; backspace, tab, line feed, form feed and carriage return
/// as `\b`, `\t`, `\n`, `\f`, `\r`; any other control character below
/// U+0020 as `\u00` and two lowercase hex digits; everything else as itself.
pub open spec fn json_escaped_char(c: char) -> Seq<char> {
    if c == '"' {
        seq!['\\', '"']
    } else if c == '\\' {
        seq!['\\', '\\']
    } else if c == '\u{8}' {
        seq!['\\', 'b']
    } else if c == '\t' {
        seq!['\\', 't']
    } else if c == '\n' {
        seq!['\\', 'n']
    } else if c == '\u{c}' {
        seq!['\\', 'f']
    } else if c == '\r' {
        seq!['\\', 'r']
    } else if (c as u32) < 0x20 {
        seq!['\\', 'u', '0', '0', lower_hex_digit((c as u32) / 16), lower_hex_digit((c as u32) % 16)]
    } else {
        seq![c]
    }
}

/// The characters of a string as serde_json writes them inside a literal.
pub open spec fn json_escaped(s: Seq<char>) -> Seq<char>
    decreases s.len(),
{
    if s.len() == 0 {
        Seq::empty()
    } else {
        json_escaped(s.drop_last()) + json_escaped_char(s.last())
    }
}

/// What serde_json writes for a string: the string as a quoted JSON literal.
pub open spec fn json_quoted(s: Seq<char>) -> Seq<char> {
    seq!['"'] + json_escaped(s) + seq!['"']
}

/// Writes a string as a JSON string literal with serde_json
/// (`serde_json::to_string` on a `&str`, which cannot fail): the text is
/// [`json_quoted`], as serde_json's escape table gives it.
#[verifier::external_body]
pub(crate) fn quote_json(s: &str) -> (r: String)
    ensures
        r@ == json_quoted(s@),
{
    serde_json::to_string(s).unwrap_or_default()
}

/// The value stored under `key` in an object's fields (the first such entry).
pub open spec fn lookup(fields: Seq<(String, Json)>, key: Seq<char>) -> Option<Json>
    decreases fields.len(),
{
    if fields.len() == 0 {
        None
    } else if fields[0].0@ == key {
        Some(fields[0].1)
    } else {
        lookup(fields.drop_first(), key)
    }
}

/// Field `name`, at position `index` of `count` fields, of a JSON value read as
/// a record: an object gives the value under the name (absent when missing);
/// an array of exactly `count` elements gives its element at `index`.
/// `None` when the value cannot be read as such a record.
pub open spec fn record_field(j: Json, name: Seq<char>, index: int, count: int) -> Option<Option<Json>> {
    match j {
        Json::Object(fields) => Some(lookup(fields@, name)),
        Json::Array(elems) => if elems@.len() == count && 0 <= index < count {
            Some(Some(elems@[index]))
        } else {
            None
        },
        _ => None,
    }
}

/// An optional text field: absent or `null` gives `None`, a string gives its
/// text, anything else cannot be read (outer `None`).
pub open spec fn text_field(f: Option<Json>) -> Option<Option<Seq<char>>> {
    match f {
        None => Some(None),
        Some(Json::Null) => Some(None),
        Some(Json::Str(s)) => Some(Some(s@)),
        Some(_) => None,
    }
}

/// An optional whole-number field that must fit in `0..=max`: absent or `null`
/// gives `None`; a fitting number gives it; anything else cannot be read.
pub open spec fn number_field(f: Option<Json>, max: u64) -> Option<Option<u64>> {
    match f {
        None => Some(None),
        Some(Json::Null) => Some(None),
        Some(Json::Number(Some(n))) => if n <= max {
            Some(Some(n))
        } else {
            None
        },
        Some(_) => None,
    }
}

/// A required list field: only an array can be read.
pub open spec fn list_field(f: Option<Json>) -> Option<Seq<Json>> {
    match f {
        Some(Json::Array(elems)) => Some(elems@),
        _ => None,
    }
}

/// An optional list field: absent or `null` gives `None`, an array its elements.
pub open spec fn optional_list_field(f: Option<Json>) -> Option<Option<Seq<Json>>> {
    match f {
        None => Some(None),
        Some(Json::Null) => Some(None),
        Some(Json::Array(elems)) => Some(Some(elems@)),
        Some(_) => None,
    }
}

/// Finds field `name` in an object's fields.
fn lookup_exec<'a>(fields: &'a Vec<(String, Json)>, name: &str) -> (r: Option<&'a Json>)
    ensures
        match r {
            Some(v) => lookup(fields@, name@) == Some(*v),
            None => lookup(fields@, name@) is None,
        },
{
    let mut i: usize = 0;
    assert(fields@.skip(0) =~= fields@);
    while i < fields.len()
        invariant
            i <= fields@.len(),
            lookup(fields@, name@) == lookup(fields@.skip(i as int), name@),
        decreases fields@.len() - i,
    {
        assert(fields@.skip(i as int).drop_first() =~= fields@.skip(i + 1));
        if crate::text::str_eq(fields[i].0.as_str(), name) {
            return Some(&fields[i].1);
        }
        i = i + 1;
    }
    None
}

/// Reads field `name` (position `index` of `count`) of a record.
pub fn record_field_exec<'a>(j: &'a Json, name: &str, index: usize, count: usize) -> (r: Result<Option<&'a Json>, ()>)
    ensures
        match r {
            Ok(Some(v)) => record_field(*j, name@, index as int, count as int) == Some(Some(*v)),
            Ok(None) => record_field(*j, name@, index as int, count as int) == Some(None::<Json>),
            Err(()) => record_field(*j, name@, index as int, count as int) is None,
        },
{
    match j {
        Json::Object(fields) => Ok(lookup_exec(fields, name)),
        Json::Array(elems) => {
            if elems.len() == count && index < count {
                Ok(Some(&elems[index]))
            } else {
                Err(())
            }
        },
        _ => Err(()),
    }
}

/// Reads an optional text field.
pub fn text_field_exec(f: Option<&Json>) -> (r: Result<Option<String>, ()>)
    ensures
        match r {
            Ok(Some(s)) => text_field(match f { Some(v) => Some(*v), None => None }) == Some(Some(s@)),
            Ok(None) => text_field(match f { Some(v) => Some(*v), None => None }) == Some(None::<Seq<char>>),
            Err(()) => text_field(match f { Some(v) => Some(*v), None => None }) is None,
        },
{
    match f {
        None => Ok(None),
        Some(Json::Null) => Ok(None),
        Some(Json::Str(s)) => Ok(Some(s.clone())),
        Some(_) => Err(()),
    }
}

/// Reads an optional whole-number field that must fit in `0..=max`.
pub fn number_field_exec(f: Option<&Json>, max: u64) -> (r: Result<Option<u64>, ()>)
    ensures
        match r {
            Ok(n) => number_field(match f { Some(v) => Some(*v), None => None }, max) == Some(n),
            Err(()) => number_field(match f { Some(v) => Some(*v), None => None }, max) is None,
        },
{
    match f {
        None => Ok(None),
        Some(Json::Null) => Ok(None),
        Some(Json::Number(Some(n))) => {
            if *n <= max {
                Ok(Some(*n))
            } else {
                Err(())
            }
        },
        Some(_) => Err(()),
    }
}


/// Optional text field `name` (position `index` of `count`) of a record;
/// outer `None` when the value is no such record or the field is no text.
pub open spec fn text_at(j: Json, name: Seq<char>, index: int, count: int) -> Option<Option<Seq<char>>> {
    match record_field(j, name, index, count) {
        Some(f) => text_field(f),
        None => None,
    }
}

/// Optional whole-number field of a record that must fit in `0..=max`.
pub open spec fn number_at(j: Json, name: Seq<char>, index: int, count: int, max: u64) -> Option<Option<u64>> {
    match record_field(j, name, index, count) {
        Some(f) => number_field(f, max),
        None => None,
    }
}

/// Required list field of a record.
pub open spec fn list_at(j: Json, name: Seq<char>, index: int, count: int) -> Option<Seq<Json>> {
    match record_field(j, name, index, count) {
        Some(f) => list_field(f),
        None => None,
    }
}

/// Optional list field of a record.
pub open spec fn optional_list_at(j: Json, name: Seq<char>, index: int, count: int) -> Option<Option<Seq<Json>>> {
    match record_field(j, name, index, count) {
        Some(f) => optional_list_field(f),
        None => None,
    }
}

/// Each element read with `read`; `None` as soon as one cannot be read.
pub open spec fn read_each<T>(elems: Seq<Json>, read: spec_fn(Json) -> Option<T>) -> Option<Seq<T>>
    decreases elems.len(),
{
    if elems.len() == 0 {
        Some(Seq::empty())
    } else {
        match (read_each(elems.drop_last(), read), read(elems.last())) {
            (Some(front), Some(x)) => Some(front.push(x)),
            _ => None,
        }
    }
}

pub fn text_at_exec(j: &Json, name: &str, index: usize, count: usize) -> (r: Result<Option<String>, ()>)
    ensures
        match r {
            Ok(Some(s)) => text_at(*j, name@, index as int, count as int) == Some(Some(s@)),
            Ok(None) => text_at(*j, name@, index as int, count as int) == Some(None::<Seq<char>>),
            Err(()) => text_at(*j, name@, index as int, count as int) is None,
        },
{
    match record_field_exec(j, name, index, count) {
        Ok(f) => text_field_exec(f),
        Err(()) => Err(()),
    }
}

pub fn number_at_exec(j: &Json, name: &str, index: usize, count: usize, max: u64) -> (r: Result<Option<u64>, ()>)
    ensures
        match r {
            Ok(n) => number_at(*j, name@, index as int, count as int, max) == Some(n),
            Err(()) => number_at(*j, name@, index as int, count as int, max) is None,
        },
        r matches Ok(Some(n)) ==> n <= max,
{
    match record_field_exec(j, name, index, count) {
        Ok(f) => number_field_exec(f, max),
        Err(()) => Err(()),
    }
}

pub fn list_at_exec<'a>(j: &'a Json, name: &str, index: usize, count: usize) -> (r: Result<&'a Vec<Json>, ()>)
    ensures
        match r {
            Ok(v) => list_at(*j, name@, index as int, count as int) == Some(v@),
            Err(()) => list_at(*j, name@, index as int, count as int) is None,
        },
{
    match record_field_exec(j, name, index, count) {
        Ok(Some(Json::Array(elems))) => Ok(elems),
        _ => Err(()),
    }
}

pub fn optional_list_at_exec<'a>(j: &'a Json, name: &str, index: usize, count: usize) -> (r: Result<Option<&'a Vec<Json>>, ()>)
    ensures
        match r {
            Ok(Some(v)) => optional_list_at(*j, name@, index as int, count as int) == Some(Some(v@)),
            Ok(None) => optional_list_at(*j, name@, index as int, count as int) == Some(None::<Seq<Json>>),
            Err(()) => optional_list_at(*j, name@, index as int, count as int) is None,
        },
{
    match record_field_exec(j, name, index, count) {
        Ok(None) => Ok(None),
        Ok(Some(Json::Null)) => Ok(None),
        Ok(Some(Json::Array(elems))) => Ok(Some(elems)),
        _ => Err(()),
    }
}

} // verus!
