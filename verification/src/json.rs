//! JSON text as the ledger requests carry it: the values the library holds,
//! the text each of them is written as, and the builders that write it.
use vstd::prelude::*;
use vstd::string::*;

verus! {

broadcast use vstd::std_specs::vec::group_vec_axioms;

/// A JSON value as the library holds it. Object members keep the order in
/// which they stand; numbers are integers, or the text of any other number.
#[derive(Debug)]
pub enum JsonValue {
    Null,
    Bool(bool),
    Int(i128),
    Float(String),
    Str(String),
    Array(Vec<JsonValue>),
    Object(Vec<(String, JsonValue)>),
}

/// The digit `d` (0 to 9) as a character.
pub open spec fn digit_char(d: int) -> char {
    (d + 48) as char
}

/// A lower-case hexadecimal digit (0 to 15) as a character.
pub open spec fn hex_digit_char(d: int) -> char {
    if d < 10 {
        (d + 48) as char
    } else {
        (d + 87) as char
    }
}

/// The decimal digits of a natural number, without leading zeros.
pub open spec fn decimal_digits(n: nat) -> Seq<char>
    decreases n,
{
    if n < 10 {
        seq![digit_char(n as int)]
    } else {
        decimal_digits(n / 10) + seq![digit_char((n % 10) as int)]
    }
}

/// The decimal text of an integer, with a leading `-` when it is negative.
pub open spec fn decimal_text(n: int) -> Seq<char> {
    if n < 0 {
        seq!['-'] + decimal_digits((-n) as nat)
    } else {
        decimal_digits(n as nat)
    }
}

/// How one character of a string stands between the quotes of a JSON
/// string: the quote and the backslash get a backslash before them, the
/// control characters below U+0020 get their short escape or `\u00xx` with
/// lower-case hex digits, every other character stands as it is.
pub open spec fn escaped_char(c: char) -> Seq<char> {
    if c == '"' {
        seq!['\\', '"']
    } else if c == '\\' {
        seq!['\\', '\\']
    } else if c == '\x08' {
        seq!['\\', 'b']
    } else if c == '\t' {
        seq!['\\', 't']
    } else if c == '\n' {
        seq!['\\', 'n']
    } else if c == '\x0c' {
        seq!['\\', 'f']
    } else if c == '\r' {
        seq!['\\', 'r']
    } else if (c as int) < 0x20 {
        seq!['\\', 'u', '0', '0', hex_digit_char((c as int) / 16), hex_digit_char((c as int) % 16)]
    } else {
        seq![c]
    }
}

/// The characters of `s`, each escaped.
pub open spec fn escaped_text(s: Seq<char>) -> Seq<char>
    decreases s.len(),
{
    if s.len() == 0 {
        Seq::empty()
    } else {
        escaped_text(s.drop_last()) + escaped_char(s.last())
    }
}

/// The JSON string literal that stands for `s`.
pub open spec fn quoted_text(s: Seq<char>) -> Seq<char> {
    "\""@ + escaped_text(s) + "\""@
}

/// The parts joined with commas between them.
pub open spec fn comma_joined(parts: Seq<Seq<char>>) -> Seq<char>
    decreases parts.len(),
{
    if parts.len() == 0 {
        Seq::empty()
    } else if parts.len() == 1 {
        parts[0]
    } else {
        comma_joined(parts.drop_last()) + ","@ + parts.last()
    }
}

/// An object member: the quoted key, a colon, the value's text.
pub open spec fn member_text(key: Seq<char>, value: Seq<char>) -> Seq<char> {
    quoted_text(key) + ":"@ + value
}

/// An object made of the given member texts, in that order.
pub open spec fn object_text(members: Seq<Seq<char>>) -> Seq<char> {
    "{"@ + comma_joined(members) + "}"@
}

/// An array made of the given element texts, in that order.
pub open spec fn array_text(items: Seq<Seq<char>>) -> Seq<char> {
    "["@ + comma_joined(items) + "]"@
}

/// The texts of the given strings, each quoted.
pub open spec fn quoted_all(items: Seq<Seq<char>>) -> Seq<Seq<char>> {
    items.map_values(|s: Seq<char>| quoted_text(s))
}

/// The views of the given strings.
pub open spec fn views_of(items: Seq<String>) -> Seq<Seq<char>> {
    items.map_values(|s: String| s@)
}

/// The compact JSON text of a value.
pub open spec fn json_text(v: JsonValue) -> Seq<char>
    decreases v,
{
    match v {
        JsonValue::Null => "null"@,
        JsonValue::Bool(b) => if b {
            "true"@
        } else {
            "false"@
        },
        JsonValue::Int(n) => decimal_text(n as int),
        JsonValue::Float(t) => t@,
        JsonValue::Str(s) => quoted_text(s@),
        JsonValue::Array(items) => "["@ + items_text(items@) + "]"@,
        JsonValue::Object(members) => "{"@ + members_text(members@) + "}"@,
    }
}

/// The texts of array elements, joined with commas.
pub open spec fn items_text(items: Seq<JsonValue>) -> Seq<char>
    decreases items,
{
    if items.len() == 0 {
        Seq::empty()
    } else if items.len() == 1 {
        json_text(items[0])
    } else {
        items_text(items.drop_last()) + ","@ + json_text(items.last())
    }
}

/// The texts of object members, joined with commas.
pub open spec fn members_text(members: Seq<(String, JsonValue)>) -> Seq<char>
    decreases members,
{
    if members.len() == 0 {
        Seq::empty()
    } else if members.len() == 1 {
        member_text(members[0].0@, json_text(members[0].1))
    } else {
        members_text(members.drop_last()) + ","@ + member_text(
            members.last().0@,
            json_text(members.last().1),
        )
    }
}

/// Writes `s` as a JSON string literal, by `serde_json::to_string` on a
/// `&str`. The claim: the text is the quote, each character as
/// `escaped_char` says (serde_json's table of escapes), and the quote;
/// serialising a string cannot fail.
#[verifier::external_body]
pub(crate) fn quote_string(s: &str) -> (r: String)
    ensures
        r@ == quoted_text(s@),
{
    match serde_json::to_string(s) {
        Ok(t) => t,
        Err(_) => String::new(),
    }
}

/// Writes an integer as JSON, by `serde_json::to_string` on an `i128`.
/// The claim: the text is the integer's decimal digits, with `-` before a
/// negative one; serialising an integer cannot fail.
#[verifier::external_body]
pub(crate) fn integer_text(n: i128) -> (r: String)
    ensures
        r@ == decimal_text(n as int),
{
    match serde_json::to_string(&n) {
        Ok(t) => t,
        Err(_) => String::new(),
    }
}

/// Appends the JSON text of `v` to `out`.
pub fn write_json(v: &JsonValue, out: &mut String)
    ensures
        final(out)@ == old(out)@ + json_text(*v),
    decreases v,
{
    match v {
        JsonValue::Null => {
            out.append("null");
        },
        JsonValue::Bool(b) => {
            if *b {
                out.append("true");
            } else {
                out.append("false");
            }
        },
        JsonValue::Int(n) => {
            let t = integer_text(*n);
            out.append(t.as_str());
        },
        JsonValue::Float(t) => {
            out.append(t.as_str());
        },
        JsonValue::Str(s) => {
            let t = quote_string(s.as_str());
            out.append(t.as_str());
        },
        JsonValue::Array(items) => {
            let ghost start = out@;
            out.append("[");
            let mut i: usize = 0;
            while i < items.len()
                invariant
                    i <= items.len(),
                    out@ == start + "["@ + items_text(items@.take(i as int)),
                    *v == JsonValue::Array(*items),
                decreases items.len() - i,
            {
                if i > 0 {
                    out.append(",");
                }
                assert(decreases_to!(*v => (*v)->Array_0));
                assert(decreases_to!(*items => items@));
                assert(decreases_to!(items@ => items@[i as int]));
                assert(decreases_to!(*v => items@[i as int]));
                write_json(&items[i], out);
                assert(items@.take(i + 1).drop_last() =~= items@.take(i as int));
                assert(items@.take(i + 1).last() == items@[i as int]);
                i = i + 1;
            }
            assert(items@.take(items.len() as int) =~= items@);
            out.append("]");
        },
        JsonValue::Object(members) => {
            let ghost start = out@;
            out.append("{");
            let mut i: usize = 0;
            while i < members.len()
                invariant
                    i <= members.len(),
                    out@ == start + "{"@ + members_text(members@.take(i as int)),
                    *v == JsonValue::Object(*members),
                decreases members.len() - i,
            {
                if i > 0 {
                    out.append(",");
                }
                let key = quote_string(members[i].0.as_str());
                out.append(key.as_str());
                out.append(":");
                assert(decreases_to!(*v => (*v)->Object_0));
                assert(decreases_to!(*members => members@));
                assert(decreases_to!(members@ => members@[i as int]));
                assert(decreases_to!(members@[i as int] => members@[i as int].1));
                assert(decreases_to!(*v => members@[i as int].1));
                write_json(&members[i].1, out);
                assert(members@.take(i + 1).drop_last() =~= members@.take(i as int));
                assert(members@.take(i + 1).last() == members@[i as int]);
                i = i + 1;
            }
            assert(members@.take(members.len() as int) =~= members@);
            out.append("}");
        },
    }
}

/// The JSON text of `v`.
pub fn to_json_string(v: &JsonValue) -> (r: String)
    ensures
        r@ == json_text(*v),
{
    let mut out = String::new();
    write_json(v, &mut out);
    out
}


/// `"key":value`: the key quoted, a colon, then the value's text.
pub fn member(key: &str, value: &str) -> (r: String)
    ensures
        r@ == member_text(key@, value@),
{
    let mut r = quote_string(key);
    r.append(":");
    r.append(value);
    r
}

/// The parts joined with commas, between `open` and `close`.
fn join_between(open: &str, parts: &Vec<String>, close: &str) -> (r: String)
    ensures
        r@ == open@ + comma_joined(views_of(parts@)) + close@,
{
    let mut r = String::new();
    r.append(open);
    let mut i: usize = 0;
    while i < parts.len()
        invariant
            i <= parts.len(),
            r@ == open@ + comma_joined(views_of(parts@.take(i as int))),
        decreases parts.len() - i,
    {
        if i > 0 {
            r.append(",");
        }
        r.append(parts[i].as_str());
        assert(views_of(parts@.take(i + 1)).drop_last() =~= views_of(parts@.take(i as int)));
        assert(views_of(parts@.take(i + 1)).last() == parts@[i as int]@);
        i = i + 1;
    }
    assert(parts@.take(parts.len() as int) =~= parts@);
    r.append(close);
    r
}

/// A JSON object made of the given member texts, in their order.
pub fn join_object(members: &Vec<String>) -> (r: String)
    ensures
        r@ == object_text(views_of(members@)),
{
    join_between("{", members, "}")
}

/// A JSON array made of the given element texts, in their order.
pub fn join_array(items: &Vec<String>) -> (r: String)
    ensures
        r@ == array_text(views_of(items@)),
{
    join_between("[", items, "]")
}

/// Each string as a JSON string literal.
pub fn quote_all(items: &Vec<String>) -> (r: Vec<String>)
    ensures
        views_of(r@) == quoted_all(views_of(items@)),
{
    let mut r: Vec<String> = Vec::new();
    let mut i: usize = 0;
    while i < items.len()
        invariant
            i <= items.len(),
            r@.len() == i,
            forall|j: int| 0 <= j < i ==> #[trigger] r@[j]@ == quoted_text(items@[j]@),
        decreases items.len() - i,
    {
        r.push(quote_string(items[i].as_str()));
        i = i + 1;
    }
    assert(views_of(r@) =~= quoted_all(views_of(items@)));
    r
}

/// Whether two strings hold the same characters.
pub fn same_text(a: &str, b: &str) -> (r: bool)
    ensures
        r == (a@ == b@),
{
    let n = a.unicode_len();
    if n != b.unicode_len() {
        return false;
    }
    let mut i: usize = 0;
    while i < n
        invariant
            i <= n,
            n == a@.len(),
            n == b@.len(),
            forall|j: int| 0 <= j < i ==> a@[j] == b@[j],
        decreases n - i,
    {
        if a.get_char(i) != b.get_char(i) {
            return false;
        }
        i = i + 1;
    }
    assert(a@ =~= b@);
    true
}


/// The `serde_json` value type, declared so that the parser below can take it.
#[verifier::external_type_specification]
#[verifier::external_body]
pub struct ExJsonValue(serde_json::Value);

/// What `serde_json::from_str::<serde_json::Value>` makes of a text, in the
/// library's terms: the value, or the parser's message. Object members keep
/// the order of the text (serde_json's `preserve_order`); a key given twice
/// keeps the place of its first occurrence and the value of its last.
pub uninterp spec fn parsed_json(text: Seq<char>) -> Result<JsonValue, Seq<char>>;

/// Parses a JSON text by `serde_json::from_str::<serde_json::Value>`. The
/// claim: the result, the value or the error's message, is the one that
/// `parsed_json` names for the text. What that is on a given text is left
/// unsaid.
#[verifier::external_body]
pub(crate) fn parse_json(text: &str) -> (r: Result<JsonValue, String>)
    ensures
        match r {
            Ok(v) => parsed_json(text@) == Ok::<JsonValue, Seq<char>>(v),
            Err(m) => parsed_json(text@) == Err::<JsonValue, Seq<char>>(m@),
        },
{
    match serde_json::from_str::<serde_json::Value>(text) {
        Ok(v) => Ok(from_serde_value(v)),
        Err(e) => Err(e.to_string()),
    }
}

/// The conversion half of `parse_json`: a `serde_json::Value` in the
/// library's terms, variant by variant. Only `parse_json` calls it.
#[verifier::external_body]
fn from_serde_value(v: serde_json::Value) -> JsonValue {
    match v {
        serde_json::Value::Null => JsonValue::Null,
        serde_json::Value::Bool(b) => JsonValue::Bool(b),
        serde_json::Value::Number(n) => match (n.as_i64(), n.as_u64()) {
            (Some(i), _) => JsonValue::Int(i as i128),
            (None, Some(u)) => JsonValue::Int(u as i128),
            (None, None) => JsonValue::Float(n.to_string()),
        },
        serde_json::Value::String(s) => JsonValue::Str(s),
        serde_json::Value::Array(a) => JsonValue::Array(a.into_iter().map(from_serde_value).collect()),
        serde_json::Value::Object(m) => JsonValue::Object(m.into_iter().map(|(k, x)| (k, from_serde_value(x))).collect()),
    }
}

/// The value of the first member whose key is `key`.
pub open spec fn lookup(members: Seq<(String, JsonValue)>, key: Seq<char>) -> Option<JsonValue>
    decreases members.len(),
{
    if members.len() == 0 {
        None
    } else if members[0].0@ == key {
        Some(members[0].1)
    } else {
        lookup(members.drop_first(), key)
    }
}

/// The position of the first member whose key is `key`.
pub fn find_member(members: &Vec<(String, JsonValue)>, key: &str) -> (r: Option<usize>)
    ensures
        match r {
            Some(i) => {
                &&& i < members@.len()
                &&& members@[i as int].0@ == key@
                &&& forall|j: int| 0 <= j < i ==> #[trigger] members@[j].0@ != key@
                &&& lookup(members@, key@) == Some(members@[i as int].1)
            },
            None => {
                &&& forall|j: int| 0 <= j < members@.len() ==> #[trigger] members@[j].0@ != key@
                &&& lookup(members@, key@) is None
            },
        },
{
    let mut i: usize = 0;
    assert(members@.skip(0) =~= members@);
    while i < members.len()
        invariant
            i <= members.len(),
            lookup(members@, key@) == lookup(members@.skip(i as int), key@),
            forall|j: int| 0 <= j < i ==> #[trigger] members@[j].0@ != key@,
        decreases members.len() - i,
    {
        assert(members@.skip(i as int)[0] == members@[i as int]);
        if same_text(members[i].0.as_str(), key) {
            return Some(i);
        }
        assert(members@.skip(i as int).drop_first() =~= members@.skip(i + 1));
        i = i + 1;
    }
    None
}

/// An escaped character is never empty and never begins with a quote; one
/// that does not begin with a backslash is the character itself.
pub proof fn lemma_escaped_char_shape(c: char)
    ensures
        escaped_char(c).len() >= 1,
        escaped_char(c)[0] != '"',
        escaped_char(c)[0] != '\\' ==> escaped_char(c) == seq![c],
{
}

/// Escaping a string escapes its first character, then the rest.
pub proof fn lemma_escaped_text_cons(c: char, s: Seq<char>)
    ensures
        escaped_text(seq![c] + s) == escaped_char(c) + escaped_text(s),
    decreases s.len(),
{
    if s.len() == 0 {
        assert(seq![c] + s =~= seq![c]);
        assert(seq![c].drop_last() =~= Seq::<char>::empty());
        assert(escaped_text(seq![c]) == escaped_text(Seq::<char>::empty()) + escaped_char(c));
        assert(escaped_char(c) + escaped_text(s) =~= escaped_char(c));
        assert(escaped_text(Seq::<char>::empty()) + escaped_char(c) =~= escaped_char(c));
    } else {
        let t = seq![c] + s;
        assert(t.drop_last() =~= seq![c] + s.drop_last());
        assert(t.last() == s.last());
        lemma_escaped_text_cons(c, s.drop_last());
        assert(escaped_text(t) == escaped_text(t.drop_last()) + escaped_char(t.last()));
        assert(escaped_text(s) == escaped_text(s.drop_last()) + escaped_char(s.last()));
        assert(escaped_text(t) =~= escaped_char(c) + escaped_text(s));
    }
}

/// Escaped characters form a prefix code: two that begin the same text are
/// the same character, and what follows them is the same.
pub proof fn lemma_escaped_char_prefix(c: char, d: char, x: Seq<char>, y: Seq<char>)
    requires
        escaped_char(c) + x == escaped_char(d) + y,
    ensures
        c == d,
        x == y,
{
    let t = escaped_char(c) + x;
    let ec = escaped_char(c);
    let ed = escaped_char(d);
    lemma_escaped_char_shape(c);
    lemma_escaped_char_shape(d);
    assert(t[0] == ec[0]);
    assert(t[0] == ed[0]);
    if ec[0] != '\\' {
        assert(ed[0] != '\\');
        assert(c == d);
    } else {
        assert(ed[0] == '\\');
        assert(t[1] == ec[1]);
        assert(t[1] == ed[1]);
        if ec[1] == 'u' {
            assert(ed.len() == 6 && ec.len() == 6);
            assert(t[4] == ec[4] && t[4] == ed[4]);
            assert(t[5] == ec[5] && t[5] == ed[5]);
            assert((c as int) / 16 == (d as int) / 16);
            assert((c as int) % 16 == (d as int) % 16);
            assert(c == d);
        } else {
            assert(c == d);
        }
    }
    assert(x =~= t.skip(ec.len() as int));
    assert(y =~= t.skip(ed.len() as int));
}

/// A quote ends an escaped text unambiguously: when two escaped texts, each
/// followed by a quote, begin the same text, the strings are the same and
/// so is what follows.
pub proof fn lemma_escaped_text_then_quote(a: Seq<char>, b: Seq<char>, x: Seq<char>, y: Seq<char>)
    requires
        escaped_text(a) + "\""@ + x == escaped_text(b) + "\""@ + y,
    ensures
        a == b,
        x == y,
    decreases a.len(),
{
    reveal_strlit("\"");
    if a.len() == 0 {
        if b.len() > 0 {
            lemma_escaped_text_cons(b[0], b.drop_first());
            assert(seq![b[0]] + b.drop_first() =~= b);
            lemma_escaped_char_shape(b[0]);
            let t = escaped_text(b) + "\""@ + y;
            assert(t[0] == escaped_char(b[0])[0]);
            assert(escaped_text(a) =~= Seq::<char>::empty());
            assert(t[0] == '"');
            assert(false);
        }
        assert(escaped_text(a) =~= Seq::<char>::empty());
        assert(escaped_text(b) =~= Seq::<char>::empty());
        assert(x =~= (escaped_text(a) + "\""@ + x).skip(1));
        assert(y =~= (escaped_text(b) + "\""@ + y).skip(1));
    } else {
        lemma_escaped_text_cons(a[0], a.drop_first());
        assert(seq![a[0]] + a.drop_first() =~= a);
        lemma_escaped_char_shape(a[0]);
        if b.len() == 0 {
            let t = escaped_text(a) + "\""@ + x;
            assert(t[0] == escaped_char(a[0])[0]);
            assert(escaped_text(b) =~= Seq::<char>::empty());
            assert(t[0] == '"');
            assert(false);
        }
        lemma_escaped_text_cons(b[0], b.drop_first());
        assert(seq![b[0]] + b.drop_first() =~= b);
        let xa = escaped_text(a.drop_first()) + "\""@ + x;
        let yb = escaped_text(b.drop_first()) + "\""@ + y;
        assert(escaped_char(a[0]) + xa =~= escaped_text(a) + "\""@ + x);
        assert(escaped_char(b[0]) + yb =~= escaped_text(b) + "\""@ + y);
        lemma_escaped_char_prefix(a[0], b[0], xa, yb);
        lemma_escaped_text_then_quote(a.drop_first(), b.drop_first(), x, y);
        assert(a =~= b);
    }
}

/// Distinct strings are written as distinct JSON strings; more: a JSON
/// string that begins a text determines both the string and the rest of the
/// text.
pub proof fn lemma_quoted_text_prefix(a: Seq<char>, b: Seq<char>, x: Seq<char>, y: Seq<char>)
    requires
        quoted_text(a) + x == quoted_text(b) + y,
    ensures
        a == b,
        x == y,
{
    reveal_strlit("\"");
    let t = quoted_text(a) + x;
    assert(t.skip(1) =~= escaped_text(a) + "\""@ + x);
    assert(t.skip(1) =~= escaped_text(b) + "\""@ + y);
    lemma_escaped_text_then_quote(a, b, x, y);
}

/// The decimal digits of a number are digits, one at least, and two at
/// least from ten on.
pub proof fn lemma_decimal_digits_shape(n: nat)
    ensures
        decimal_digits(n).len() >= 1,
        n >= 10 ==> decimal_digits(n).len() >= 2,
        forall|i: int|
            0 <= i < decimal_digits(n).len() ==> '0' <= #[trigger] decimal_digits(n)[i] <= '9',
    decreases n,
{
    if n >= 10 {
        lemma_decimal_digits_shape(n / 10);
    }
}

/// Distinct natural numbers have distinct decimal digits.
pub proof fn lemma_decimal_digits_injective(n: nat, m: nat)
    requires
        decimal_digits(n) == decimal_digits(m),
    ensures
        n == m,
    decreases n,
{
    lemma_decimal_digits_shape(n);
    lemma_decimal_digits_shape(m);
    if n < 10 {
        assert(m < 10);
        assert(decimal_digits(n) == seq![digit_char(n as int)]);
        assert(decimal_digits(m) == seq![digit_char(m as int)]);
        assert(seq![digit_char(n as int)][0] == digit_char(n as int));
        assert(seq![digit_char(m as int)][0] == digit_char(m as int));
        assert(decimal_digits(n)[0] == decimal_digits(m)[0]);
        assert(digit_char(n as int) == digit_char(m as int));
    } else {
        assert(m >= 10);
        let dn = decimal_digits(n);
        let dm = decimal_digits(m);
        assert(dn.last() == dm.last());
        assert(dn.drop_last() =~= decimal_digits(n / 10));
        assert(dm.drop_last() =~= decimal_digits(m / 10));
        lemma_decimal_digits_injective(n / 10, m / 10);
        assert(digit_char((n % 10) as int) == digit_char((m % 10) as int));
        assert(n % 10 == m % 10);
        assert(n == 10 * (n / 10) + n % 10);
        assert(m == 10 * (m / 10) + m % 10);
    }
}

/// The decimal text of an integer holds digits, and a minus sign in front
/// exactly when it is negative.
pub proof fn lemma_decimal_text_shape(n: int)
    ensures
        decimal_text(n).len() >= 1,
        (decimal_text(n)[0] == '-') == (n < 0),
        forall|i: int|
            0 <= i < decimal_text(n).len() ==> #[trigger] decimal_text(n)[i] == '-' || ('0'
                <= decimal_text(n)[i] <= '9'),
{
    if n < 0 {
        lemma_decimal_digits_shape((-n) as nat);
        assert forall|i: int| 0 <= i < decimal_text(n).len() implies #[trigger] decimal_text(n)[i]
            == '-' || ('0' <= decimal_text(n)[i] <= '9') by {
            if i > 0 {
                assert(decimal_text(n)[i] == decimal_digits((-n) as nat)[i - 1]);
            }
        }
    } else {
        lemma_decimal_digits_shape(n as nat);
    }
}

/// Distinct integers have distinct decimal texts; more: a decimal text
/// followed by a comma that begins a text determines the integer and the
/// rest of the text.
pub proof fn lemma_decimal_text_then_comma(a: int, b: int, x: Seq<char>, y: Seq<char>)
    requires
        decimal_text(a) + ","@ + x == decimal_text(b) + ","@ + y,
    ensures
        a == b,
        x == y,
{
    reveal_strlit(",");
    let da = decimal_text(a);
    let db = decimal_text(b);
    let t = da + ","@ + x;
    lemma_decimal_text_shape(a);
    lemma_decimal_text_shape(b);
    if da.len() < db.len() {
        assert(t[da.len() as int] == ',');
        assert(t[da.len() as int] == db[da.len() as int]);
        assert(false);
    }
    if db.len() < da.len() {
        assert(t[db.len() as int] == ',');
        assert(t[db.len() as int] == da[db.len() as int]);
        assert(false);
    }
    assert(da =~= t.take(da.len() as int));
    assert(db =~= t.take(db.len() as int));
    assert(x =~= t.skip(da.len() as int + 1));
    assert(y =~= t.skip(db.len() as int + 1));
    assert(da[0] == db[0]);
    if a < 0 {
        assert(da.drop_first() =~= decimal_digits((-a) as nat));
        assert(db.drop_first() =~= decimal_digits((-b) as nat));
        lemma_decimal_digits_injective((-a) as nat, (-b) as nat);
    } else {
        lemma_decimal_digits_injective(a as nat, b as nat);
    }
}

/// What follows the first parts of a comma-joined list when `ys` come
/// after them: nothing, or a comma and the joined `ys`.
pub open spec fn comma_tail(ys: Seq<Seq<char>>) -> Seq<char> {
    if ys.len() == 0 {
        Seq::empty()
    } else {
        ","@ + comma_joined(ys)
    }
}

/// Joining two non-empty runs of parts joins each, with a comma between.
pub proof fn lemma_comma_joined_append(xs: Seq<Seq<char>>, ys: Seq<Seq<char>>)
    requires
        xs.len() > 0,
    ensures
        comma_joined(xs + ys) == comma_joined(xs) + comma_tail(ys),
    decreases ys.len(),
{
    if ys.len() == 0 {
        assert(xs + ys =~= xs);
        assert(comma_joined(xs) + comma_tail(ys) =~= comma_joined(xs));
    } else {
        let zs = xs + ys;
        assert(zs.drop_last() =~= xs + ys.drop_last());
        assert(zs.last() == ys.last());
        lemma_comma_joined_append(xs, ys.drop_last());
        assert(comma_joined(zs) == comma_joined(zs.drop_last()) + ","@ + zs.last());
        if ys.drop_last().len() == 0 {
            assert(ys =~= seq![ys.last()]);
            assert(comma_joined(ys) == ys.last());
            assert(comma_tail(ys.drop_last()) =~= Seq::<char>::empty());
            assert(comma_joined(zs) =~= comma_joined(xs) + comma_tail(ys));
        } else {
            assert(comma_joined(ys) == comma_joined(ys.drop_last()) + ","@ + ys.last());
            assert(comma_joined(zs) =~= comma_joined(xs) + comma_tail(ys));
        }
    }
}

/// Putting the member `m` between the runs `xs` (not empty) and `ys` of an
/// object's members puts a comma and `m` into the object's text, at the
/// point where `xs` ends, and changes nothing else.
pub proof fn lemma_object_insert(xs: Seq<Seq<char>>, m: Seq<char>, ys: Seq<Seq<char>>)
    requires
        xs.len() > 0,
    ensures
        object_text(xs + ys) == ("{"@ + comma_joined(xs)) + (comma_tail(ys) + "}"@),
        object_text(xs + seq![m] + ys) == ("{"@ + comma_joined(xs)) + ","@ + m + (comma_tail(ys)
            + "}"@),
{
    lemma_comma_joined_append(xs, ys);
    let xm = xs + seq![m];
    assert(xm.drop_last() =~= xs);
    assert(xm.last() == m);
    assert(comma_joined(xm) == comma_joined(xs) + ","@ + m);
    assert(xs + seq![m] + ys =~= xm + ys);
    lemma_comma_joined_append(xm, ys);
    assert(object_text(xs + ys) =~= ("{"@ + comma_joined(xs)) + (comma_tail(ys) + "}"@));
    assert(object_text(xs + seq![m] + ys) =~= ("{"@ + comma_joined(xs)) + ","@ + m + (comma_tail(
        ys,
    ) + "}"@));
}

/// Putting the member `m` before the members `ys` (not empty) of an object
/// puts `m` and a comma at the front of the object's text, after its brace.
pub proof fn lemma_object_insert_first(m: Seq<char>, ys: Seq<Seq<char>>)
    requires
        ys.len() > 0,
    ensures
        object_text(ys) == "{"@ + (comma_joined(ys) + "}"@),
        object_text(seq![m] + ys) == "{"@ + m + ","@ + (comma_joined(ys) + "}"@),
{
    lemma_comma_joined_append(seq![m], ys);
    assert(comma_joined(seq![m]) == m);
    assert(object_text(ys) =~= "{"@ + (comma_joined(ys) + "}"@));
    assert(object_text(seq![m] + ys) =~= "{"@ + m + ","@ + (comma_joined(ys) + "}"@));
}

} // verus!
