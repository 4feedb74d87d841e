//! Reading data structures out of JSON values, field by field, with the
//! rules and the messages of a derived serde `Deserialize` read through
//! `serde_json::from_str`: an object whose members are read in their order
//! (members of other keys are ignored, and a missing field is reported
//! after all members were read), or an array of the fields in their
//! declared order. Two things differ: a message carries no ` at line L
//! column C` (a parsed value keeps no positions), and a key given twice is
//! read as its last value, since the parsed map keeps one entry per key,
//! where a derived `Deserialize` refuses it as a duplicate field. Data is
//! read from the parsed value, so on a text that is not JSON the parser's
//! message stands, where a derived `Deserialize` may first meet a wrong
//! value that comes before the fault.
use vstd::prelude::*;

use crate::json::{
    comma_joined, decimal_text, find_member, integer_text, items_text, json_text, lookup,
    quoted_all, quoted_text, same_text, to_json_string, views_of, JsonValue,
};

verus! {

/// How a field of a data structure is read from JSON.
#[derive(Clone, Copy, Debug)]
pub enum FieldKind {
    /// A string.
    Text,
    /// A string, or null or absent.
    OptionalText,
    /// An `i32`, or null or absent.
    OptionalInt,
    /// An array of strings.
    TextList,
    /// An array of strings, or null or absent.
    OptionalTextList,
    /// A structure of the named type, given as an object or an array.
    Record(&'static str),
    /// A structure of the named type, or null or absent.
    OptionalRecord(&'static str),
}

/// What `format!("{:?}", s)` writes for a string slice: the string between
/// double quotes, with the escapes of `str::escape_debug`.
pub uninterp spec fn debug_text(s: Seq<char>) -> Seq<char>;

/// Writes a string slice by `format!("{:?}", s)` (std's `Debug` for `str`).
/// The claim: the text is the one that `debug_text` names for the string.
#[verifier::external_body]
pub(crate) fn debug_string(s: &str) -> (r: String)
    ensures
        r@ == debug_text(s@),
{
    format!("{:?}", s)
}

/// How serde names a value that it did not expect.
pub open spec fn unexpected_text(v: JsonValue) -> Seq<char> {
    match v {
        JsonValue::Null => "null"@,
        JsonValue::Bool(b) => if b {
            "boolean `true`"@
        } else {
            "boolean `false`"@
        },
        JsonValue::Int(n) => "integer `"@ + decimal_text(n as int) + "`"@,
        JsonValue::Float(t) => "floating point `"@ + t@ + "`"@,
        JsonValue::Str(s) => "string "@ + debug_text(s@),
        JsonValue::Array(_) => "sequence"@,
        JsonValue::Object(_) => "map"@,
    }
}

/// serde's message for a value of the wrong type.
pub open spec fn invalid_type_message(v: JsonValue, expected: Seq<char>) -> Seq<char> {
    "invalid type: "@ + unexpected_text(v) + ", expected "@ + expected
}

/// serde's message for a value of the right type that is out of range.
pub open spec fn invalid_value_message(v: JsonValue, expected: Seq<char>) -> Seq<char> {
    "invalid value: "@ + unexpected_text(v) + ", expected "@ + expected
}

/// serde's message for a field that an object lacks.
pub open spec fn missing_field_message(key: Seq<char>) -> Seq<char> {
    "missing field `"@ + key + "`"@
}

/// serde's message for an array that holds too few fields.
pub open spec fn invalid_length_message(n: int, expected: Seq<char>) -> Seq<char> {
    "invalid length "@ + decimal_text(n) + ", expected "@ + expected
}

/// serde_json's message for an array that holds more than the fields.
pub open spec fn trailing_characters_message() -> Seq<char> {
    "trailing characters"@
}

/// What serde expects of a structure.
pub open spec fn struct_expecting(name: Seq<char>) -> Seq<char> {
    "struct "@ + name
}

/// What serde expects of a structure given as an array of `n` fields.
pub open spec fn seq_expecting(name: Seq<char>, n: int) -> Seq<char> {
    if n == 1 {
        struct_expecting(name) + " with 1 element"@
    } else {
        struct_expecting(name) + " with "@ + decimal_text(n) + " elements"@
    }
}

/// The error of the first element of an array that is not a string.
pub open spec fn first_non_string(items: Seq<JsonValue>) -> Option<Seq<char>>
    decreases items.len(),
{
    if items.len() == 0 {
        None
    } else {
        match items[0] {
            JsonValue::Str(_) => first_non_string(items.drop_first()),
            _ => Some(invalid_type_message(items[0], "a string"@)),
        }
    }
}

/// The error of a value that must be an array of strings.
pub open spec fn list_error(v: JsonValue) -> Option<Seq<char>> {
    match v {
        JsonValue::Array(items) => first_non_string(items@),
        _ => Some(invalid_type_message(v, "a sequence"@)),
    }
}

/// The error of a value read as a field of the given kind, if any.
pub open spec fn value_error(kind: FieldKind, v: JsonValue) -> Option<Seq<char>> {
    match kind {
        FieldKind::Text => match v {
            JsonValue::Str(_) => None,
            _ => Some(invalid_type_message(v, "a string"@)),
        },
        FieldKind::OptionalText => match v {
            JsonValue::Null => None,
            JsonValue::Str(_) => None,
            _ => Some(invalid_type_message(v, "a string"@)),
        },
        FieldKind::OptionalInt => match v {
            JsonValue::Null => None,
            JsonValue::Int(n) => if i32::MIN <= n <= i32::MAX {
                None
            } else {
                Some(invalid_value_message(v, "i32"@))
            },
            _ => Some(invalid_type_message(v, "i32"@)),
        },
        FieldKind::TextList => list_error(v),
        FieldKind::OptionalTextList => match v {
            JsonValue::Null => None,
            _ => list_error(v),
        },
        FieldKind::Record(name) => match v {
            JsonValue::Object(_) => None,
            JsonValue::Array(_) => None,
            _ => Some(invalid_type_message(v, struct_expecting(name@))),
        },
        FieldKind::OptionalRecord(name) => match v {
            JsonValue::Null => None,
            JsonValue::Object(_) => None,
            JsonValue::Array(_) => None,
            _ => Some(invalid_type_message(v, struct_expecting(name@))),
        },
    }
}

/// Whether a field of this kind must be present in an object.
pub open spec fn is_required(kind: FieldKind) -> bool {
    match kind {
        FieldKind::Text => true,
        FieldKind::TextList => true,
        FieldKind::Record(_) => true,
        _ => false,
    }
}

/// The fields of a structure, by name and kind.
pub open spec fn fields_view(fields: Seq<(&'static str, FieldKind)>) -> Seq<(Seq<char>, FieldKind)> {
    fields.map_values(|f: (&'static str, FieldKind)| (f.0@, f.1))
}

/// The kind of the first field with the given name.
pub open spec fn kind_of(fields: Seq<(Seq<char>, FieldKind)>, key: Seq<char>) -> Option<FieldKind>
    decreases fields.len(),
{
    if fields.len() == 0 {
        None
    } else if fields[0].0 == key {
        Some(fields[0].1)
    } else {
        kind_of(fields.drop_first(), key)
    }
}

/// The error of the first member, in the object's order, whose key names a
/// field and whose value that field does not accept.
pub open spec fn entries_error(members: Seq<(String, JsonValue)>, fields: Seq<(Seq<char>, FieldKind)>) -> Option<
    Seq<char>,
>
    decreases members.len(),
{
    if members.len() == 0 {
        None
    } else {
        match kind_of(fields, members[0].0@) {
            Some(k) => match value_error(k, members[0].1) {
                Some(e) => Some(e),
                None => entries_error(members.drop_first(), fields),
            },
            None => entries_error(members.drop_first(), fields),
        }
    }
}

/// The message for the first required field, in the declared order, that
/// the object lacks.
pub open spec fn missing_error(members: Seq<(String, JsonValue)>, fields: Seq<(Seq<char>, FieldKind)>) -> Option<
    Seq<char>,
>
    decreases fields.len(),
{
    if fields.len() == 0 {
        None
    } else if is_required(fields[0].1) && lookup(members, fields[0].0) is None {
        Some(missing_field_message(fields[0].0))
    } else {
        missing_error(members, fields.drop_first())
    }
}

/// The error of an array read as the fields from the `count`-th on: the
/// first element that its field does not accept, too few elements, or too
/// many.
pub open spec fn elements_error(
    items: Seq<JsonValue>,
    fields: Seq<(Seq<char>, FieldKind)>,
    count: int,
    expecting: Seq<char>,
) -> Option<Seq<char>>
    decreases fields.len(),
{
    if fields.len() == 0 {
        if items.len() > 0 {
            Some(trailing_characters_message())
        } else {
            None
        }
    } else if items.len() == 0 {
        Some(invalid_length_message(count, expecting))
    } else {
        match value_error(fields[0].1, items[0]) {
            Some(e) => Some(e),
            None => elements_error(items.drop_first(), fields.drop_first(), count + 1, expecting),
        }
    }
}

/// The error of a value read as the structure `name` with the given
/// fields, if any: an object is read member by member, then checked for
/// missing fields; an array is read element by element; any other value is
/// of the wrong type.
pub open spec fn struct_error(v: JsonValue, name: Seq<char>, fields: Seq<(Seq<char>, FieldKind)>) -> Option<
    Seq<char>,
> {
    match v {
        JsonValue::Object(ms) => match entries_error(ms@, fields) {
            Some(e) => Some(e),
            None => missing_error(ms@, fields),
        },
        JsonValue::Array(items) => elements_error(
            items@,
            fields,
            0,
            seq_expecting(name, fields.len() as int),
        ),
        _ => Some(invalid_type_message(v, struct_expecting(name))),
    }
}

/// The value of the field `key`, the `i`-th of its structure: the member of
/// that key in an object, the `i`-th element of an array.
pub open spec fn field_value(v: JsonValue, key: Seq<char>, i: int) -> Option<JsonValue> {
    match v {
        JsonValue::Object(ms) => lookup(ms@, key),
        JsonValue::Array(items) => if 0 <= i < items.len() {
            Some(items[i])
        } else {
            None
        },
        _ => None,
    }
}

/// The string that a field holds (empty when it holds none).
pub open spec fn text_in(v: Option<JsonValue>) -> Seq<char> {
    match v {
        Some(JsonValue::Str(s)) => s@,
        _ => Seq::empty(),
    }
}

/// The string that an optional field holds.
pub open spec fn optional_text_in(v: Option<JsonValue>) -> Option<Seq<char>> {
    match v {
        Some(JsonValue::Str(s)) => Some(s@),
        _ => None,
    }
}

/// The `i32` that an optional field holds.
pub open spec fn optional_int_in(v: Option<JsonValue>) -> Option<i32> {
    match v {
        Some(JsonValue::Int(n)) => if i32::MIN <= n <= i32::MAX {
            Some(n as i32)
        } else {
            None
        },
        _ => None,
    }
}

/// The strings of the string elements of an array.
pub open spec fn strings_of(items: Seq<JsonValue>) -> Seq<Seq<char>>
    decreases items.len(),
{
    if items.len() == 0 {
        Seq::empty()
    } else {
        match items.last() {
            JsonValue::Str(s) => strings_of(items.drop_last()).push(s@),
            _ => strings_of(items.drop_last()),
        }
    }
}

/// The strings that a list field holds (none when it holds no array).
pub open spec fn text_list_in(v: Option<JsonValue>) -> Seq<Seq<char>> {
    match v {
        Some(JsonValue::Array(items)) => strings_of(items@),
        _ => Seq::empty(),
    }
}

/// The strings that an optional list field holds.
pub open spec fn optional_text_list_in(v: Option<JsonValue>) -> Option<Seq<Seq<char>>> {
    match v {
        Some(JsonValue::Array(items)) => Some(strings_of(items@)),
        _ => None,
    }
}

/// The JSON text of the structure that a field holds (`null` when absent).
pub open spec fn record_in(v: Option<JsonValue>) -> Seq<char> {
    match v {
        Some(x) => json_text(x),
        None => "null"@,
    }
}

/// The JSON text of the structure that an optional field holds.
pub open spec fn optional_record_in(v: Option<JsonValue>) -> Option<Seq<char>> {
    match v {
        Some(JsonValue::Null) => None,
        Some(x) => Some(json_text(x)),
        None => None,
    }
}

/// The view of an optional message.
pub open spec fn message_view(m: Option<String>) -> Option<Seq<char>> {
    match m {
        Some(t) => Some(t@),
        None => None,
    }
}

/// The value behind an optional reference.
pub open spec fn deref_value(v: Option<&JsonValue>) -> Option<JsonValue> {
    match v {
        Some(x) => Some(*x),
        None => None,
    }
}

/// How serde names a value that it did not expect.
pub fn unexpected(v: &JsonValue) -> (r: String)
    ensures
        r@ == unexpected_text(*v),
{
    match v {
        JsonValue::Null => String::from_str("null"),
        JsonValue::Bool(b) => if *b {
            String::from_str("boolean `true`")
        } else {
            String::from_str("boolean `false`")
        },
        JsonValue::Int(n) => {
            let mut r = String::from_str("integer `");
            let t = integer_text(*n);
            r.append(t.as_str());
            r.append("`");
            r
        },
        JsonValue::Float(t) => {
            let mut r = String::from_str("floating point `");
            r.append(t.as_str());
            r.append("`");
            r
        },
        JsonValue::Str(s) => {
            let mut r = String::from_str("string ");
            let t = debug_string(s.as_str());
            r.append(t.as_str());
            r
        },
        JsonValue::Array(_) => String::from_str("sequence"),
        JsonValue::Object(_) => String::from_str("map"),
    }
}

/// serde's message for a value of the wrong type.
pub fn invalid_type(v: &JsonValue, expected: &str) -> (r: String)
    ensures
        r@ == invalid_type_message(*v, expected@),
{
    let mut r = String::from_str("invalid type: ");
    let u = unexpected(v);
    r.append(u.as_str());
    r.append(", expected ");
    r.append(expected);
    r
}

/// serde's message for a value of the right type that is out of range.
pub fn invalid_value(v: &JsonValue, expected: &str) -> (r: String)
    ensures
        r@ == invalid_value_message(*v, expected@),
{
    let mut r = String::from_str("invalid value: ");
    let u = unexpected(v);
    r.append(u.as_str());
    r.append(", expected ");
    r.append(expected);
    r
}

/// serde's message for a field that an object lacks.
pub fn missing_field(key: &str) -> (r: String)
    ensures
        r@ == missing_field_message(key@),
{
    let mut r = String::from_str("missing field `");
    r.append(key);
    r.append("`");
    r
}

/// What serde expects of a structure.
pub fn expecting_struct(name: &str) -> (r: String)
    ensures
        r@ == struct_expecting(name@),
{
    let mut r = String::from_str("struct ");
    r.append(name);
    r
}

/// What serde expects of a structure given as an array of `n` fields.
pub fn expecting_seq(name: &str, n: usize) -> (r: String)
    ensures
        r@ == seq_expecting(name@, n as int),
{
    let mut r = expecting_struct(name);
    if n == 1 {
        r.append(" with 1 element");
    } else {
        r.append(" with ");
        let t = integer_text(n as i128);
        r.append(t.as_str());
        r.append(" elements");
    }
    r
}

/// The error of the first element of an array that is not a string.
pub fn check_strings(items: &Vec<JsonValue>) -> (r: Option<String>)
    ensures
        message_view(r) == first_non_string(items@),
{
    let mut i: usize = 0;
    assert(items@.skip(0) =~= items@);
    while i < items.len()
        invariant
            i <= items.len(),
            first_non_string(items@) == first_non_string(items@.skip(i as int)),
        decreases items.len() - i,
    {
        assert(items@.skip(i as int)[0] == items@[i as int]);
        match &items[i] {
            JsonValue::Str(_) => {},
            _ => {
                return Some(invalid_type(&items[i], "a string"));
            },
        }
        assert(items@.skip(i as int).drop_first() =~= items@.skip(i + 1));
        i = i + 1;
    }
    None
}

/// The error of a value that must be an array of strings.
fn check_list(v: &JsonValue) -> (r: Option<String>)
    ensures
        message_view(r) == list_error(*v),
{
    match v {
        JsonValue::Array(items) => check_strings(items),
        _ => Some(invalid_type(v, "a sequence")),
    }
}

/// The error of a value read as a field of the given kind, if any.
pub fn check_value(kind: FieldKind, v: &JsonValue) -> (r: Option<String>)
    ensures
        message_view(r) == value_error(kind, *v),
{
    match kind {
        FieldKind::Text => match v {
            JsonValue::Str(_) => None,
            _ => Some(invalid_type(v, "a string")),
        },
        FieldKind::OptionalText => match v {
            JsonValue::Null => None,
            JsonValue::Str(_) => None,
            _ => Some(invalid_type(v, "a string")),
        },
        FieldKind::OptionalInt => match v {
            JsonValue::Null => None,
            JsonValue::Int(n) => {
                if i32::MIN as i128 <= *n && *n <= i32::MAX as i128 {
                    None
                } else {
                    Some(invalid_value(v, "i32"))
                }
            },
            _ => Some(invalid_type(v, "i32")),
        },
        FieldKind::TextList => check_list(v),
        FieldKind::OptionalTextList => match v {
            JsonValue::Null => None,
            _ => check_list(v),
        },
        FieldKind::Record(name) => match v {
            JsonValue::Object(_) => None,
            JsonValue::Array(_) => None,
            _ => {
                let e = expecting_struct(name);
                Some(invalid_type(v, e.as_str()))
            },
        },
        FieldKind::OptionalRecord(name) => match v {
            JsonValue::Null => None,
            JsonValue::Object(_) => None,
            JsonValue::Array(_) => None,
            _ => {
                let e = expecting_struct(name);
                Some(invalid_type(v, e.as_str()))
            },
        },
    }
}

/// The kind of the first field with the given name.
fn kind_for(fields: &Vec<(&'static str, FieldKind)>, key: &str) -> (r: Option<FieldKind>)
    ensures
        r == kind_of(fields_view(fields@), key@),
{
    let ghost all = fields_view(fields@);
    let mut j: usize = 0;
    assert(all.skip(0) =~= all);
    while j < fields.len()
        invariant
            j <= fields.len(),
            all == fields_view(fields@),
            kind_of(all, key@) == kind_of(all.skip(j as int), key@),
        decreases fields.len() - j,
    {
        assert(all.skip(j as int)[0] == (fields@[j as int].0@, fields@[j as int].1));
        if same_text(fields[j].0, key) {
            return Some(fields[j].1);
        }
        assert(all.skip(j as int).drop_first() =~= all.skip(j + 1));
        j = j + 1;
    }
    None
}

/// The error of the first member whose value its field does not accept.
fn check_entries(members: &Vec<(String, JsonValue)>, fields: &Vec<(&'static str, FieldKind)>) -> (r:
    Option<String>)
    ensures
        message_view(r) == entries_error(members@, fields_view(fields@)),
{
    let ghost all = fields_view(fields@);
    let mut i: usize = 0;
    assert(members@.skip(0) =~= members@);
    while i < members.len()
        invariant
            i <= members.len(),
            all == fields_view(fields@),
            entries_error(members@, all) == entries_error(members@.skip(i as int), all),
        decreases members.len() - i,
    {
        assert(members@.skip(i as int)[0] == members@[i as int]);
        match kind_for(fields, members[i].0.as_str()) {
            Some(k) => match check_value(k, &members[i].1) {
                Some(e) => {
                    return Some(e);
                },
                None => {},
            },
            None => {},
        }
        assert(members@.skip(i as int).drop_first() =~= members@.skip(i + 1));
        i = i + 1;
    }
    None
}

/// The message for the first required field that the object lacks.
fn check_missing(members: &Vec<(String, JsonValue)>, fields: &Vec<(&'static str, FieldKind)>) -> (r:
    Option<String>)
    ensures
        message_view(r) == missing_error(members@, fields_view(fields@)),
{
    let ghost all = fields_view(fields@);
    let mut j: usize = 0;
    assert(all.skip(0) =~= all);
    while j < fields.len()
        invariant
            j <= fields.len(),
            all == fields_view(fields@),
            missing_error(members@, all) == missing_error(members@, all.skip(j as int)),
        decreases fields.len() - j,
    {
        assert(all.skip(j as int)[0] == (fields@[j as int].0@, fields@[j as int].1));
        let required = match fields[j].1 {
            FieldKind::Text => true,
            FieldKind::TextList => true,
            FieldKind::Record(_) => true,
            _ => false,
        };
        if required && find_member(members, fields[j].0).is_none() {
            return Some(missing_field(fields[j].0));
        }
        assert(all.skip(j as int).drop_first() =~= all.skip(j + 1));
        j = j + 1;
    }
    None
}

/// The error of an array read as the fields of a structure.
fn check_elements(
    items: &Vec<JsonValue>,
    fields: &Vec<(&'static str, FieldKind)>,
    expecting: &str,
) -> (r: Option<String>)
    ensures
        message_view(r) == elements_error(items@, fields_view(fields@), 0, expecting@),
{
    let ghost all = fields_view(fields@);
    let mut j: usize = 0;
    assert(all.skip(0) =~= all);
    assert(items@.skip(0) =~= items@);
    while j < fields.len()
        invariant
            j <= fields.len(),
            j <= items.len(),
            all == fields_view(fields@),
            all.len() == fields.len(),
            elements_error(items@, all, 0, expecting@) == elements_error(
                items@.skip(j as int),
                all.skip(j as int),
                j as int,
                expecting@,
            ),
        decreases fields.len() - j,
    {
        if j == items.len() {
            let mut m = String::from_str("invalid length ");
            let t = integer_text(j as i128);
            m.append(t.as_str());
            m.append(", expected ");
            m.append(expecting);
            return Some(m);
        }
        assert(all.skip(j as int)[0] == (fields@[j as int].0@, fields@[j as int].1));
        assert(items@.skip(j as int)[0] == items@[j as int]);
        match check_value(fields[j].1, &items[j]) {
            Some(e) => {
                return Some(e);
            },
            None => {},
        }
        assert(all.skip(j as int).drop_first() =~= all.skip(j + 1));
        assert(items@.skip(j as int).drop_first() =~= items@.skip(j + 1));
        j = j + 1;
    }
    if items.len() > fields.len() {
        Some(String::from_str("trailing characters"))
    } else {
        None
    }
}

/// The error of a value read as the structure `name` with the given fields.
pub fn check_struct(v: &JsonValue, name: &str, fields: &Vec<(&'static str, FieldKind)>) -> (r:
    Option<String>)
    ensures
        message_view(r) == struct_error(*v, name@, fields_view(fields@)),
{
    match v {
        JsonValue::Object(ms) => match check_entries(ms, fields) {
            Some(e) => Some(e),
            None => check_missing(ms, fields),
        },
        JsonValue::Array(items) => {
            let e = expecting_seq(name, fields.len());
            check_elements(items, fields, e.as_str())
        },
        _ => {
            let e = expecting_struct(name);
            Some(invalid_type(v, e.as_str()))
        },
    }
}

/// The value of the field `key`, the `i`-th of its structure.
pub fn value_at<'a>(v: &'a JsonValue, key: &str, i: usize) -> (r: Option<&'a JsonValue>)
    ensures
        deref_value(r) == field_value(*v, key@, i as int),
{
    match v {
        JsonValue::Object(ms) => match find_member(ms, key) {
            Some(j) => Some(&ms[j].1),
            None => None,
        },
        JsonValue::Array(items) => {
            if i < items.len() {
                Some(&items[i])
            } else {
                None
            }
        },
        _ => None,
    }
}

/// The string that a field holds (empty when it holds none).
pub fn text_of(v: Option<&JsonValue>) -> (r: String)
    ensures
        r@ == text_in(deref_value(v)),
{
    match v {
        Some(JsonValue::Str(s)) => s.clone(),
        _ => String::new(),
    }
}

/// The string that an optional field holds.
pub fn optional_text_of(v: Option<&JsonValue>) -> (r: Option<String>)
    ensures
        message_view(r) == optional_text_in(deref_value(v)),
{
    match v {
        Some(JsonValue::Str(s)) => Some(s.clone()),
        _ => None,
    }
}

/// The `i32` that an optional field holds.
pub fn optional_int_of(v: Option<&JsonValue>) -> (r: Option<i32>)
    ensures
        r == optional_int_in(deref_value(v)),
{
    match v {
        Some(JsonValue::Int(n)) => {
            if i32::MIN as i128 <= *n && *n <= i32::MAX as i128 {
                Some(*n as i32)
            } else {
                None
            }
        },
        _ => None,
    }
}

/// The strings of the string elements of an array.
pub fn strings_in(items: &Vec<JsonValue>) -> (r: Vec<String>)
    ensures
        views_of(r@) == strings_of(items@),
{
    let mut r: Vec<String> = Vec::new();
    let mut i: usize = 0;
    while i < items.len()
        invariant
            i <= items.len(),
            views_of(r@) == strings_of(items@.take(i as int)),
        decreases items.len() - i,
    {
        let ghost before = r@;
        assert(items@.take(i + 1).drop_last() =~= items@.take(i as int));
        assert(items@.take(i + 1).last() == items@[i as int]);
        match &items[i] {
            JsonValue::Str(s) => {
                r.push(s.clone());
                assert(views_of(r@) =~= views_of(before).push(s@));
            },
            _ => {},
        }
        i = i + 1;
    }
    assert(items@.take(items.len() as int) =~= items@);
    r
}

/// The strings that a list field holds.
pub fn text_list_of(v: Option<&JsonValue>) -> (r: Vec<String>)
    ensures
        views_of(r@) == text_list_in(deref_value(v)),
{
    match v {
        Some(JsonValue::Array(items)) => strings_in(items),
        _ => {
            let r: Vec<String> = Vec::new();
            assert(views_of(r@) =~= Seq::<Seq<char>>::empty());
            r
        },
    }
}

/// The strings that an optional list field holds.
pub fn optional_text_list_of(v: Option<&JsonValue>) -> (r: Option<Vec<String>>)
    ensures
        match r {
            Some(l) => optional_text_list_in(deref_value(v)) == Some(
                views_of(l@),
            ),
            None => optional_text_list_in(deref_value(v)) is None,
        },
{
    match v {
        Some(JsonValue::Array(items)) => Some(strings_in(items)),
        _ => None,
    }
}

/// The JSON text of the structure that a field holds.
pub fn record_of(v: Option<&JsonValue>) -> (r: String)
    ensures
        r@ == record_in(deref_value(v)),
{
    match v {
        Some(x) => to_json_string(x),
        None => String::from_str("null"),
    }
}

/// The JSON text of the structure that an optional field holds.
pub fn optional_record_of(v: Option<&JsonValue>) -> (r: Option<String>)
    ensures
        message_view(r) == optional_record_in(deref_value(v)),
{
    match v {
        Some(JsonValue::Null) => None,
        Some(x) => Some(to_json_string(x)),
        None => None,
    }
}

/// The strings read from an array whose elements are all strings are
/// exactly those elements, in their order.
pub proof fn lemma_strings_of_all_strings(items: Seq<JsonValue>)
    requires
        forall|i: int| 0 <= i < items.len() ==> #[trigger] items[i] is Str,
    ensures
        strings_of(items).len() == items.len(),
        forall|i: int|
            0 <= i < items.len() ==> #[trigger] strings_of(items)[i] == items[i]->Str_0@,
    decreases items.len(),
{
    if items.len() > 0 {
        let rest = items.drop_last();
        assert forall|i: int| 0 <= i < rest.len() implies #[trigger] rest[i] is Str by {
            assert(rest[i] == items[i]);
        }
        lemma_strings_of_all_strings(rest);
        assert(items.last() is Str);
        assert forall|i: int| 0 <= i < items.len() implies #[trigger] strings_of(items)[i]
            == items[i]->Str_0@ by {
            if i < items.len() - 1 {
                assert(rest[i] == items[i]);
            }
        }
    }
}

/// The strings read from an array whose elements are all strings, written
/// back as JSON strings and joined with commas, are the array's own element
/// text.
pub proof fn lemma_strings_written_back(items: Seq<JsonValue>)
    requires
        forall|i: int| 0 <= i < items.len() ==> #[trigger] items[i] is Str,
    ensures
        comma_joined(quoted_all(strings_of(items))) == items_text(items),
    decreases items.len(),
{
    if items.len() > 0 {
        let rest = items.drop_last();
        assert forall|i: int| 0 <= i < rest.len() implies #[trigger] rest[i] is Str by {
            assert(rest[i] == items[i]);
        }
        lemma_strings_written_back(rest);
        lemma_strings_of_all_strings(rest);
        assert(items.last() is Str);
        let qs = quoted_all(strings_of(items));
        assert(strings_of(items) == strings_of(rest).push(items.last()->Str_0@));
        assert(qs.drop_last() =~= quoted_all(strings_of(rest)));
        assert(qs.last() == quoted_text(items.last()->Str_0@));
        assert(json_text(items.last()) == quoted_text(items.last()->Str_0@));
        if items.len() == 1 {
            assert(rest.len() == 0);
            assert(strings_of(rest).len() == 0);
            assert(qs.len() == 1);
            assert(qs[0] == qs.last());
            assert(items[0] == items.last());
        }
    }
}

/// An array with no element that is not a string holds only strings.
pub proof fn lemma_first_non_string_none(items: Seq<JsonValue>)
    requires
        first_non_string(items) is None,
    ensures
        forall|i: int| 0 <= i < items.len() ==> #[trigger] items[i] is Str,
    decreases items.len(),
{
    if items.len() > 0 {
        lemma_first_non_string_none(items.drop_first());
        assert forall|i: int| 0 <= i < items.len() implies #[trigger] items[i] is Str by {
            if i > 0 {
                assert(items[i] == items.drop_first()[i - 1]);
            }
        }
    }
}

/// When no member of an object is refused, the member that a field reads
/// (the first of its key) is accepted by that field's kind.
pub proof fn lemma_entries_error_lookup(
    members: Seq<(String, JsonValue)>,
    fields: Seq<(Seq<char>, FieldKind)>,
    key: Seq<char>,
)
    requires
        entries_error(members, fields) is None,
        kind_of(fields, key) is Some,
        lookup(members, key) is Some,
    ensures
        value_error(kind_of(fields, key)->0, lookup(members, key)->0) is None,
    decreases members.len(),
{
    if members[0].0@ != key {
        lemma_entries_error_lookup(members.drop_first(), fields, key);
    }
}

/// When an array is read as the fields without error, it holds one element
/// for each field, and each element is accepted by its field's kind.
pub proof fn lemma_elements_error_none(
    items: Seq<JsonValue>,
    fields: Seq<(Seq<char>, FieldKind)>,
    count: int,
    expecting: Seq<char>,
)
    requires
        elements_error(items, fields, count, expecting) is None,
    ensures
        items.len() == fields.len(),
        forall|j: int| 0 <= j < items.len() ==> value_error(fields[j].1, #[trigger] items[j]) is None,
    decreases fields.len(),
{
    if fields.len() > 0 {
        lemma_elements_error_none(items.drop_first(), fields.drop_first(), count + 1, expecting);
        assert forall|j: int| 0 <= j < items.len() implies value_error(
            fields[j].1,
            #[trigger] items[j],
        ) is None by {
            if j > 0 {
                assert(items[j] == items.drop_first()[j - 1]);
                assert(fields[j] == fields.drop_first()[j - 1]);
            }
        }
    }
}

/// When a value is read as a structure without error, the value that a
/// field reads (the member of its name in an object, the element at its
/// place in an array) is accepted by that field's kind.
pub proof fn lemma_struct_field_accepted(
    v: JsonValue,
    name: Seq<char>,
    fields: Seq<(Seq<char>, FieldKind)>,
    i: int,
)
    requires
        struct_error(v, name, fields) is None,
        0 <= i < fields.len(),
        kind_of(fields, fields[i].0) == Some(fields[i].1),
        field_value(v, fields[i].0, i) is Some,
    ensures
        value_error(fields[i].1, field_value(v, fields[i].0, i)->0) is None,
{
    match v {
        JsonValue::Object(ms) => {
            lemma_entries_error_lookup(ms@, fields, fields[i].0);
        },
        JsonValue::Array(items) => {
            lemma_elements_error_none(items@, fields, 0, seq_expecting(name, fields.len() as int));
        },
        _ => {},
    }
}

/// The kind of a field whose name no earlier field has is that field's own.
pub proof fn lemma_kind_of_first(fields: Seq<(Seq<char>, FieldKind)>, i: int)
    requires
        0 <= i < fields.len(),
        forall|j: int| 0 <= j < i ==> fields[j].0 != fields[i].0,
    ensures
        kind_of(fields, fields[i].0) == Some(fields[i].1),
    decreases i,
{
    if i > 0 {
        let rest = fields.drop_first();
        assert(rest[i - 1] == fields[i]);
        assert forall|j: int| 0 <= j < i - 1 implies (#[trigger] rest[j]).0 != rest[i - 1].0 by {
            assert(rest[j] == fields[j + 1]);
        }
        lemma_kind_of_first(rest, i - 1);
        assert(fields[0].0 != fields[i].0);
    }
}

} // verus!
