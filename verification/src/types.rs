//! The operations of ledger requests, the data that some of them carry, and
//! the request that frames an operation.
use vstd::prelude::*;

use crate::constants::{
    ATTRIB, CLAIM_DEF, GET_ATTR, GET_CLAIM_DEF, GET_DDO, GET_NYM, GET_SCHEMA, GET_TXN, NODE, NYM,
    SCHEMA, STEWARD, TGB, TRUSTEE, TRUST_ANCHOR,
};
use crate::json::{
    array_text, comma_joined, comma_tail, decimal_text, integer_text, join_array, join_object,
    lemma_object_insert, lemma_object_insert_first,
    lemma_decimal_text_then_comma, lemma_quoted_text_prefix, member, member_text, object_text,
    json_text, parse_json, parsed_json, quote_all, quote_string, quoted_all, quoted_text, same_text, views_of,
    JsonValue,
};
use crate::reader::{
    first_non_string, kind_of, lemma_first_non_string_none, lemma_strings_of_all_strings,
    lemma_kind_of_first, lemma_strings_written_back, lemma_struct_field_accepted,
    check_struct, field_value, fields_view, optional_int_in, optional_int_of, optional_record_in,
    optional_record_of, optional_text_in, optional_text_list_in, optional_text_list_of,
    optional_text_of, record_in, record_of, struct_error, text_in, text_list_in, text_list_of,
    text_of, value_at, FieldKind,
};

verus! {

// ---------------------------------------------------------------------------
// Members of the operation objects.
/// The member that names an operation's transaction type.
pub open spec fn type_member(code: Seq<char>) -> Seq<char> {
    member_text("type"@, quoted_text(code))
}

/// A member whose value is a string.
pub open spec fn string_member(key: Seq<char>, value: Seq<char>) -> Seq<char> {
    member_text(key, quoted_text(value))
}

/// A member whose value is an integer.
pub open spec fn integer_member(key: Seq<char>, value: int) -> Seq<char> {
    member_text(key, decimal_text(value))
}

/// A member whose value is an array of strings.
pub open spec fn string_list_member(key: Seq<char>, value: Seq<Seq<char>>) -> Seq<char> {
    member_text(key, array_text(quoted_all(value)))
}

/// A string member that stands only when there is a value.
pub open spec fn optional_string_member(key: Seq<char>, value: Option<Seq<char>>) -> Seq<Seq<char>> {
    match value {
        Some(v) => seq![string_member(key, v)],
        None => Seq::empty(),
    }
}

/// An integer member that stands only when there is a value.
pub open spec fn optional_integer_member(key: Seq<char>, value: Option<i32>) -> Seq<Seq<char>> {
    match value {
        Some(v) => seq![integer_member(key, v as int)],
        None => Seq::empty(),
    }
}

/// A string-list member that stands only when there is a value.
pub open spec fn optional_string_list_member(key: Seq<char>, value: Option<Seq<Seq<char>>>) -> Seq<
    Seq<char>,
> {
    match value {
        Some(v) => seq![string_list_member(key, v)],
        None => Seq::empty(),
    }
}

/// The view of an optional string slice.
pub open spec fn str_view(value: Option<&str>) -> Option<Seq<char>> {
    match value {
        Some(v) => Some(v@),
        None => None,
    }
}

/// The view of an optional string.
pub open spec fn string_view(value: Option<String>) -> Option<Seq<char>> {
    match value {
        Some(v) => Some(v@),
        None => None,
    }
}

/// The view of an optional list of strings.
pub open spec fn string_list_view(value: Option<Vec<String>>) -> Option<Seq<Seq<char>>> {
    match value {
        Some(v) => Some(views_of(v@)),
        None => None,
    }
}

fn push_part(parts: &mut Vec<String>, part: String)
    ensures
        views_of(final(parts)@) == views_of(old(parts)@).push(part@),
{
    parts.push(part);
    assert(views_of(parts@) =~= views_of(old(parts)@).push(part@));
}

fn push_type(parts: &mut Vec<String>, code: &str)
    ensures
        views_of(final(parts)@) == views_of(old(parts)@).push(type_member(code@)),
{
    let value = quote_string(code);
    push_part(parts, member("type", value.as_str()));
}

fn push_string(parts: &mut Vec<String>, key: &str, value: &str)
    ensures
        views_of(final(parts)@) == views_of(old(parts)@).push(string_member(key@, value@)),
{
    let value = quote_string(value);
    push_part(parts, member(key, value.as_str()));
}

fn push_integer(parts: &mut Vec<String>, key: &str, value: i128)
    ensures
        views_of(final(parts)@) == views_of(old(parts)@).push(integer_member(key@, value as int)),
{
    let value = integer_text(value);
    push_part(parts, member(key, value.as_str()));
}

fn push_raw(parts: &mut Vec<String>, key: &str, value: &str)
    ensures
        views_of(final(parts)@) == views_of(old(parts)@).push(member_text(key@, value@)),
{
    push_part(parts, member(key, value));
}

fn push_string_list(parts: &mut Vec<String>, key: &str, value: &Vec<String>)
    ensures
        views_of(final(parts)@) == views_of(old(parts)@).push(
            string_list_member(key@, views_of(value@)),
        ),
{
    let quoted = quote_all(value);
    let array = join_array(&quoted);
    push_part(parts, member(key, array.as_str()));
}

fn push_optional_str(parts: &mut Vec<String>, key: &str, value: Option<&str>)
    ensures
        views_of(final(parts)@) == views_of(old(parts)@) + optional_string_member(
            key@,
            str_view(value),
        ),
{
    match value {
        Some(v) => {
            push_string(parts, key, v);
        },
        None => {
            assert(views_of(parts@) =~= views_of(parts@) + Seq::<Seq<char>>::empty());
        },
    }
}

fn push_optional_string(parts: &mut Vec<String>, key: &str, value: &Option<String>)
    ensures
        views_of(final(parts)@) == views_of(old(parts)@) + optional_string_member(
            key@,
            string_view(*value),
        ),
{
    match value {
        Some(v) => {
            push_string(parts, key, v.as_str());
        },
        None => {
            assert(views_of(parts@) =~= views_of(parts@) + Seq::<Seq<char>>::empty());
        },
    }
}

fn push_optional_integer(parts: &mut Vec<String>, key: &str, value: Option<i32>)
    ensures
        views_of(final(parts)@) == views_of(old(parts)@) + optional_integer_member(key@, value),
{
    match value {
        Some(v) => {
            push_integer(parts, key, v as i128);
        },
        None => {
            assert(views_of(parts@) =~= views_of(parts@) + Seq::<Seq<char>>::empty());
        },
    }
}

fn push_optional_string_list(parts: &mut Vec<String>, key: &str, value: &Option<Vec<String>>)
    ensures
        views_of(final(parts)@) == views_of(old(parts)@) + optional_string_list_member(
            key@,
            string_list_view(*value),
        ),
{
    match value {
        Some(v) => {
            push_string_list(parts, key, v);
        },
        None => {
            assert(views_of(parts@) =~= views_of(parts@) + Seq::<Seq<char>>::empty());
        },
    }
}

// ---------------------------------------------------------------------------
// The request.
/// The request that carries `operation`: its request id, the identifier of
/// the sender, the operation and protocol version 1, in that order.
pub open spec fn request_text(req_id: int, identifier: Seq<char>, operation: Seq<char>) -> Seq<
    char,
> {
    object_text(
        seq![
            integer_member("reqId"@, req_id),
            string_member("identifier"@, identifier),
            member_text("operation"@, operation),
            integer_member("protocolVersion"@, 1),
        ],
    )
}

spec fn request_head() -> Seq<char> {
    "{"@ + quoted_text("reqId"@) + ":"@
}

spec fn request_tail() -> Seq<char> {
    ","@ + integer_member("protocolVersion"@, 1) + "}"@
}

spec fn operation_key() -> Seq<char> {
    ","@ + quoted_text("operation"@) + ":"@
}

spec fn request_rest(identifier: Seq<char>, operation: Seq<char>) -> Seq<char> {
    quoted_text("identifier"@) + (":"@ + quoted_text(identifier) + (operation_key() + (operation
        + request_tail())))
}

proof fn lemma_request_layout(
    open: Seq<char>,
    k0: Seq<char>,
    colon: Seq<char>,
    dec: Seq<char>,
    comma: Seq<char>,
    k1: Seq<char>,
    qi: Seq<char>,
    k2: Seq<char>,
    op: Seq<char>,
    m3: Seq<char>,
    close: Seq<char>,
)
    ensures
        open + ((((((k0 + colon + dec) + comma) + (k1 + colon + qi)) + comma) + (k2 + colon + op))
            + comma + m3) + close == (open + k0 + colon) + (dec + comma + (k1 + (colon + qi + ((
        comma + k2 + colon) + (op + (comma + m3 + close)))))),
{
    assert(open + ((((((k0 + colon + dec) + comma) + (k1 + colon + qi)) + comma) + (k2 + colon
        + op)) + comma + m3) + close =~= (open + k0 + colon) + (dec + comma + (k1 + (colon + qi + ((
    comma + k2 + colon) + (op + (comma + m3 + close)))))));
}

proof fn lemma_request_text_shape(id: int, identifier: Seq<char>, operation: Seq<char>)
    ensures
        request_text(id, identifier, operation) == request_head() + (decimal_text(id) + ","@
            + request_rest(identifier, operation)),
{
    let m0 = integer_member("reqId"@, id);
    let m1 = string_member("identifier"@, identifier);
    let m2 = member_text("operation"@, operation);
    let m3 = integer_member("protocolVersion"@, 1);
    let ms = seq![m0, m1, m2, m3];
    assert(ms.drop_last().drop_last().drop_last() =~= seq![m0]);
    assert(ms.drop_last().drop_last() =~= seq![m0, m1]);
    assert(ms.drop_last() =~= seq![m0, m1, m2]);
    assert(comma_joined(seq![m0]) == m0);
    assert(comma_joined(seq![m0, m1]) == m0 + ","@ + m1);
    assert(comma_joined(seq![m0, m1, m2]) == m0 + ","@ + m1 + ","@ + m2);
    assert(comma_joined(ms) == m0 + ","@ + m1 + ","@ + m2 + ","@ + m3);
    lemma_request_layout(
        "{"@,
        quoted_text("reqId"@),
        ":"@,
        decimal_text(id),
        ","@,
        quoted_text("identifier"@),
        quoted_text(identifier),
        quoted_text("operation"@),
        operation,
        m3,
        "}"@,
    );
}

/// A request text determines its request id, the identifier of its sender
/// and its operation: requests that differ in any of them are different
/// texts.
pub proof fn lemma_request_text_determines_parts(
    id1: int,
    identifier1: Seq<char>,
    operation1: Seq<char>,
    id2: int,
    identifier2: Seq<char>,
    operation2: Seq<char>,
)
    requires
        request_text(id1, identifier1, operation1) == request_text(id2, identifier2, operation2),
    ensures
        id1 == id2,
        identifier1 == identifier2,
        operation1 == operation2,
{
    lemma_request_text_shape(id1, identifier1, operation1);
    lemma_request_text_shape(id2, identifier2, operation2);
    let head = request_head();
    let t1 = decimal_text(id1) + ","@ + request_rest(identifier1, operation1);
    let t2 = decimal_text(id2) + ","@ + request_rest(identifier2, operation2);
    assert(t1 =~= (head + t1).skip(head.len() as int));
    assert(t2 =~= (head + t2).skip(head.len() as int));
    lemma_decimal_text_then_comma(
        id1,
        id2,
        request_rest(identifier1, operation1),
        request_rest(identifier2, operation2),
    );
    let v1 = operation_key() + (operation1 + request_tail());
    let v2 = operation_key() + (operation2 + request_tail());
    let u1 = ":"@ + quoted_text(identifier1) + v1;
    let u2 = ":"@ + quoted_text(identifier2) + v2;
    lemma_quoted_text_prefix("identifier"@, "identifier"@, u1, u2);
    reveal_strlit(":");
    assert(u1.skip(1) =~= quoted_text(identifier1) + v1);
    assert(u2.skip(1) =~= quoted_text(identifier2) + v2);
    lemma_quoted_text_prefix(identifier1, identifier2, v1, v2);
    let k = operation_key().len() as int;
    assert(operation1 + request_tail() =~= v1.skip(k));
    assert(operation2 + request_tail() =~= v2.skip(k));
    assert(operation1 =~= (operation1 + request_tail()).take(operation1.len() as int));
    assert(operation2 =~= (operation2 + request_tail()).take(operation2.len() as int));
}

/// The request that frames an operation.
pub struct Request {}

impl Request {
    /// The JSON text of the request with the given id, sender and operation
    /// (the operation given as its JSON text).
    pub fn build_request(req_id: u64, identifier: &str, operation: &str) -> (r: String)
        ensures
            r@ == request_text(req_id as int, identifier@, operation@),
    {
        let mut parts: Vec<String> = Vec::new();
        push_integer(&mut parts, "reqId", req_id as i128);
        push_string(&mut parts, "identifier", identifier);
        push_raw(&mut parts, "operation", operation);
        push_integer(&mut parts, "protocolVersion", 1);
        let r = join_object(&parts);
        assert(views_of(parts@) =~= seq![
            integer_member("reqId"@, req_id as int),
            string_member("identifier"@, identifier@),
            member_text("operation"@, operation@),
            integer_member("protocolVersion"@, 1),
        ]);
        r
    }
}

// ---------------------------------------------------------------------------
// Operations that carry strings only.
/// The operation that reads the NYM transaction of `dest`.
pub open spec fn get_nym_operation_text(dest: Seq<char>) -> Seq<char> {
    object_text(seq![type_member(GET_NYM@), string_member("dest"@, dest)])
}

/// The operation that reads the DDO of `dest`.
pub open spec fn get_ddo_operation_text(dest: Seq<char>) -> Seq<char> {
    object_text(seq![type_member(GET_DDO@), string_member("dest"@, dest)])
}

/// The operation that reads the attribute `raw` of `dest`.
pub open spec fn get_attrib_operation_text(dest: Seq<char>, raw: Seq<char>) -> Seq<char> {
    object_text(
        seq![type_member(GET_ATTR@), string_member("dest"@, dest), string_member("raw"@, raw)],
    )
}

/// The operation that sets an attribute of `dest`; of the hash, the raw
/// value and the encrypted value, those that are given stand, in that order.
pub open spec fn attrib_operation_text(
    dest: Seq<char>,
    hash: Option<Seq<char>>,
    raw: Option<Seq<char>>,
    enc: Option<Seq<char>>,
) -> Seq<char> {
    object_text(
        seq![type_member(ATTRIB@), string_member("dest"@, dest)] + optional_string_member(
            "hash"@,
            hash,
        ) + optional_string_member("raw"@, raw) + optional_string_member("enc"@, enc),
    )
}

/// The operation that reads the claim definition `ref` of `origin`.
pub open spec fn get_claim_def_operation_text(
    reference: i32,
    signature_type: Seq<char>,
    origin: Seq<char>,
) -> Seq<char> {
    object_text(
        seq![
            type_member(GET_CLAIM_DEF@),
            integer_member("ref"@, reference as int),
            string_member("signature_type"@, signature_type),
            string_member("origin"@, origin),
        ],
    )
}

/// The operation that reads the transaction with sequence number `data`.
pub open spec fn get_txn_operation_text(data: i32) -> Seq<char> {
    object_text(seq![type_member(GET_TXN@), integer_member("data"@, data as int)])
}

/// The operation that reads the NYM transaction of `dest`.
pub fn get_nym_operation(dest: &str) -> (r: String)
    ensures
        r@ == get_nym_operation_text(dest@),
{
    let mut parts: Vec<String> = Vec::new();
    push_type(&mut parts, GET_NYM);
    push_string(&mut parts, "dest", dest);
    assert(views_of(parts@) =~= seq![type_member(GET_NYM@), string_member("dest"@, dest@)]);
    join_object(&parts)
}

/// The operation that reads the DDO of `dest`.
pub fn get_ddo_operation(dest: &str) -> (r: String)
    ensures
        r@ == get_ddo_operation_text(dest@),
{
    let mut parts: Vec<String> = Vec::new();
    push_type(&mut parts, GET_DDO);
    push_string(&mut parts, "dest", dest);
    assert(views_of(parts@) =~= seq![type_member(GET_DDO@), string_member("dest"@, dest@)]);
    join_object(&parts)
}

/// The operation that reads the attribute `raw` of `dest`.
pub fn get_attrib_operation(dest: &str, raw: &str) -> (r: String)
    ensures
        r@ == get_attrib_operation_text(dest@, raw@),
{
    let mut parts: Vec<String> = Vec::new();
    push_type(&mut parts, GET_ATTR);
    push_string(&mut parts, "dest", dest);
    push_string(&mut parts, "raw", raw);
    assert(views_of(parts@) =~= seq![
        type_member(GET_ATTR@),
        string_member("dest"@, dest@),
        string_member("raw"@, raw@),
    ]);
    join_object(&parts)
}

/// The operation that sets an attribute of `dest`.
pub fn attrib_operation(dest: &str, hash: Option<&str>, raw: Option<&str>, enc: Option<&str>) -> (r:
    String)
    ensures
        r@ == attrib_operation_text(dest@, str_view(hash), str_view(raw), str_view(enc)),
{
    let mut parts: Vec<String> = Vec::new();
    push_type(&mut parts, ATTRIB);
    push_string(&mut parts, "dest", dest);
    assert(views_of(parts@) =~= seq![type_member(ATTRIB@), string_member("dest"@, dest@)]);
    push_optional_str(&mut parts, "hash", hash);
    push_optional_str(&mut parts, "raw", raw);
    push_optional_str(&mut parts, "enc", enc);
    join_object(&parts)
}

/// The operation that reads the claim definition `reference` of `origin`.
pub fn get_claim_def_operation(reference: i32, signature_type: &str, origin: &str) -> (r: String)
    ensures
        r@ == get_claim_def_operation_text(reference, signature_type@, origin@),
{
    let mut parts: Vec<String> = Vec::new();
    push_type(&mut parts, GET_CLAIM_DEF);
    push_integer(&mut parts, "ref", reference as i128);
    push_string(&mut parts, "signature_type", signature_type);
    push_string(&mut parts, "origin", origin);
    assert(views_of(parts@) =~= seq![
        type_member(GET_CLAIM_DEF@),
        integer_member("ref"@, reference as int),
        string_member("signature_type"@, signature_type@),
        string_member("origin"@, origin@),
    ]);
    join_object(&parts)
}

/// The operation that reads the transaction with sequence number `data`.
pub fn get_txn_operation(data: i32) -> (r: String)
    ensures
        r@ == get_txn_operation_text(data),
{
    let mut parts: Vec<String> = Vec::new();
    push_type(&mut parts, GET_TXN);
    push_integer(&mut parts, "data", data as i128);
    assert(views_of(parts@) =~= seq![type_member(GET_TXN@), integer_member("data"@, data as int)]);
    join_object(&parts)
}

// ---------------------------------------------------------------------------
// The NYM operation.
/// The value that a role stands for in a NYM operation: an empty role is
/// `null` (the role is taken away), the four named roles are their codes as
/// strings, any other role is refused with its message.
pub open spec fn role_value(role: Seq<char>) -> Result<Seq<char>, Seq<char>> {
    if role == ""@ {
        Ok("null"@)
    } else if role == "STEWARD"@ {
        Ok(quoted_text(STEWARD@))
    } else if role == "TRUSTEE"@ {
        Ok(quoted_text(TRUSTEE@))
    } else if role == "TRUST_ANCHOR"@ {
        Ok(quoted_text(TRUST_ANCHOR@))
    } else if role == "TGB"@ {
        Ok(quoted_text(TGB@))
    } else {
        Err(invalid_role_message(role))
    }
}

/// The message for a role that the ledger does not know.
pub open spec fn invalid_role_message(role: Seq<char>) -> Seq<char> {
    "Invalid role: "@ + role
}

/// The NYM operation for `dest`: its members in the order of their keys
/// (alias, dest, role, type, verkey), those of the absent optional values
/// left out; or the message for a role that the ledger does not know.
pub open spec fn nym_operation_text(
    dest: Seq<char>,
    verkey: Option<Seq<char>>,
    alias: Option<Seq<char>>,
    role: Option<Seq<char>>,
) -> Result<Seq<char>, Seq<char>> {
    let role_member: Result<Seq<Seq<char>>, Seq<char>> = match role {
        None => Ok(Seq::empty()),
        Some(r) => match role_value(r) {
            Ok(v) => Ok(seq![member_text("role"@, v)]),
            Err(m) => Err(m),
        },
    };
    match role_member {
        Err(m) => Err(m),
        Ok(rm) => Ok(
            object_text(
                optional_string_member("alias"@, alias) + seq![string_member("dest"@, dest)] + rm
                    + seq![type_member(NYM@)] + optional_string_member("verkey"@, verkey),
            ),
        ),
    }
}

/// The JSON value of a role, or the message for a role that the ledger does
/// not know.
pub fn role_json(role: &str) -> (r: Result<String, String>)
    ensures
        match r {
            Ok(v) => role_value(role@) == Ok::<Seq<char>, Seq<char>>(v@),
            Err(m) => role_value(role@) == Err::<Seq<char>, Seq<char>>(m@),
        },
{
    if same_text(role, "") {
        Ok(String::from_str("null"))
    } else if same_text(role, "STEWARD") {
        Ok(quote_string(STEWARD))
    } else if same_text(role, "TRUSTEE") {
        Ok(quote_string(TRUSTEE))
    } else if same_text(role, "TRUST_ANCHOR") {
        Ok(quote_string(TRUST_ANCHOR))
    } else if same_text(role, "TGB") {
        Ok(quote_string(TGB))
    } else {
        let mut m = String::from_str("Invalid role: ");
        m.append(role);
        Err(m)
    }
}

/// The NYM operation for `dest`, or the message for an unknown role.
pub fn nym_operation(dest: &str, verkey: Option<&str>, alias: Option<&str>, role: Option<&str>) -> (r:
    Result<String, String>)
    ensures
        match r {
            Ok(t) => nym_operation_text(dest@, str_view(verkey), str_view(alias), str_view(role))
                == Ok::<Seq<char>, Seq<char>>(t@),
            Err(m) => nym_operation_text(dest@, str_view(verkey), str_view(alias), str_view(role))
                == Err::<Seq<char>, Seq<char>>(m@),
        },
{
    let mut parts: Vec<String> = Vec::new();
    push_optional_str(&mut parts, "alias", alias);
    push_string(&mut parts, "dest", dest);
    let ghost before_role = views_of(parts@);
    match role {
        Some(r) => {
            match role_json(r) {
                Ok(v) => {
                    push_raw(&mut parts, "role", v.as_str());
                },
                Err(m) => {
                    return Err(m);
                },
            }
        },
        None => {},
    }
    let ghost after_role = views_of(parts@);
    push_type(&mut parts, NYM);
    push_optional_str(&mut parts, "verkey", verkey);
    proof {
        let rm = match str_view(role) {
            None => Seq::<Seq<char>>::empty(),
            Some(r) => seq![member_text("role"@, role_value(r)->Ok_0)],
        };
        assert(after_role =~= before_role + rm);
        assert(views_of(parts@) =~= optional_string_member("alias"@, str_view(alias)) + seq![
            string_member("dest"@, dest@),
        ] + rm + seq![type_member(NYM@)] + optional_string_member("verkey"@, str_view(verkey)));
    }
    Ok(join_object(&parts))
}

// ---------------------------------------------------------------------------
// Laws of the NYM and ATTRIB operations.
/// Giving a known role to a NYM operation adds the member `"role"` with the
/// role's value (its code, or `null` for the empty role) and changes
/// nothing else: the operation without the role splits as `a + b`, the one
/// with it is `a`, a comma, the role member, then `b` — whatever the verkey
/// and alias.
pub proof fn lemma_nym_role_is_carried(
    dest: Seq<char>,
    verkey: Option<Seq<char>>,
    alias: Option<Seq<char>>,
    role: Seq<char>,
) -> (parts: (Seq<char>, Seq<char>))
    requires
        role_value(role) is Ok,
    ensures
        nym_operation_text(dest, verkey, alias, None) == Ok::<Seq<char>, Seq<char>>(
            parts.0 + parts.1,
        ),
        nym_operation_text(dest, verkey, alias, Some(role)) == Ok::<Seq<char>, Seq<char>>(
            parts.0 + ","@ + member_text("role"@, role_value(role)->Ok_0) + parts.1,
        ),
{
    let m = member_text("role"@, role_value(role)->Ok_0);
    let xs = optional_string_member("alias"@, alias) + seq![string_member("dest"@, dest)];
    let ys = seq![type_member(NYM@)] + optional_string_member("verkey"@, verkey);
    lemma_object_insert(xs, m, ys);
    assert(xs + Seq::<Seq<char>>::empty() + ys =~= xs + ys);
    assert(xs + seq![m] + ys =~= optional_string_member("alias"@, alias) + seq![
        string_member("dest"@, dest),
    ] + seq![m] + seq![type_member(NYM@)] + optional_string_member("verkey"@, verkey));
    assert(xs + ys =~= optional_string_member("alias"@, alias) + seq![string_member("dest"@, dest)]
        + Seq::<Seq<char>>::empty() + seq![type_member(NYM@)] + optional_string_member(
        "verkey"@,
        verkey,
    ));
    ("{"@ + comma_joined(xs), comma_tail(ys) + "}"@)
}

/// Giving a verkey to a NYM operation adds the member `"verkey"` with the
/// verkey as a JSON string, and changes nothing else.
pub proof fn lemma_nym_verkey_is_carried(
    dest: Seq<char>,
    verkey: Seq<char>,
    alias: Option<Seq<char>>,
    role: Option<Seq<char>>,
) -> (parts: (Seq<char>, Seq<char>))
    requires
        nym_operation_text(dest, None, alias, role) is Ok,
    ensures
        nym_operation_text(dest, None, alias, role) == Ok::<Seq<char>, Seq<char>>(
            parts.0 + parts.1,
        ),
        nym_operation_text(dest, Some(verkey), alias, role) == Ok::<Seq<char>, Seq<char>>(
            parts.0 + ","@ + string_member("verkey"@, verkey) + parts.1,
        ),
{
    let rm: Seq<Seq<char>> = match role {
        None => Seq::empty(),
        Some(r) => seq![member_text("role"@, role_value(r)->Ok_0)],
    };
    let m = string_member("verkey"@, verkey);
    let xs = optional_string_member("alias"@, alias) + seq![string_member("dest"@, dest)] + rm
        + seq![type_member(NYM@)];
    let ys = Seq::<Seq<char>>::empty();
    lemma_object_insert(xs, m, ys);
    assert(xs + ys =~= xs + optional_string_member("verkey"@, None));
    assert(xs + seq![m] + ys =~= xs + optional_string_member("verkey"@, Some(verkey)));
    ("{"@ + comma_joined(xs), comma_tail(ys) + "}"@)
}

/// Giving an alias to a NYM operation adds the member `"alias"` with the
/// alias as a JSON string, first, and changes nothing else.
pub proof fn lemma_nym_alias_is_carried(
    dest: Seq<char>,
    verkey: Option<Seq<char>>,
    alias: Seq<char>,
    role: Option<Seq<char>>,
) -> (parts: (Seq<char>, Seq<char>))
    requires
        nym_operation_text(dest, verkey, None, role) is Ok,
    ensures
        nym_operation_text(dest, verkey, None, role) == Ok::<Seq<char>, Seq<char>>(
            parts.0 + parts.1,
        ),
        nym_operation_text(dest, verkey, Some(alias), role) == Ok::<Seq<char>, Seq<char>>(
            parts.0 + string_member("alias"@, alias) + ","@ + parts.1,
        ),
{
    let rm: Seq<Seq<char>> = match role {
        None => Seq::empty(),
        Some(r) => seq![member_text("role"@, role_value(r)->Ok_0)],
    };
    let m = string_member("alias"@, alias);
    let ys = seq![string_member("dest"@, dest)] + rm + seq![type_member(NYM@)]
        + optional_string_member("verkey"@, verkey);
    lemma_object_insert_first(m, ys);
    assert(optional_string_member("alias"@, None) + seq![string_member("dest"@, dest)] + rm
        + seq![type_member(NYM@)] + optional_string_member("verkey"@, verkey) =~= ys);
    assert(optional_string_member("alias"@, Some(alias)) + seq![string_member("dest"@, dest)] + rm
        + seq![type_member(NYM@)] + optional_string_member("verkey"@, verkey) =~= seq![m] + ys);
    ("{"@, comma_joined(ys) + "}"@)
}

/// Giving the hash of an attribute adds the member `"hash"` with the hash as
/// a JSON string to the ATTRIB operation, whatever raw and enc are, and
/// changes nothing else.
pub proof fn lemma_attrib_hash_is_carried(
    dest: Seq<char>,
    hash: Seq<char>,
    raw: Option<Seq<char>>,
    enc: Option<Seq<char>>,
) -> (parts: (Seq<char>, Seq<char>))
    ensures
        attrib_operation_text(dest, None, raw, enc) == parts.0 + parts.1,
        attrib_operation_text(dest, Some(hash), raw, enc) == parts.0 + ","@ + string_member(
            "hash"@,
            hash,
        ) + parts.1,
{
    let xs = seq![type_member(ATTRIB@), string_member("dest"@, dest)];
    let ys = optional_string_member("raw"@, raw) + optional_string_member("enc"@, enc);
    let m = string_member("hash"@, hash);
    lemma_object_insert(xs, m, ys);
    assert(xs + optional_string_member("hash"@, None) + optional_string_member("raw"@, raw)
        + optional_string_member("enc"@, enc) =~= xs + ys);
    assert(xs + optional_string_member("hash"@, Some(hash)) + optional_string_member("raw"@, raw)
        + optional_string_member("enc"@, enc) =~= xs + seq![m] + ys);
    ("{"@ + comma_joined(xs), comma_tail(ys) + "}"@)
}

/// Giving the raw value of an attribute adds the member `"raw"` with the
/// value as a JSON string to the ATTRIB operation, whatever hash and enc
/// are, and changes nothing else.
pub proof fn lemma_attrib_raw_is_carried(
    dest: Seq<char>,
    hash: Option<Seq<char>>,
    raw: Seq<char>,
    enc: Option<Seq<char>>,
) -> (parts: (Seq<char>, Seq<char>))
    ensures
        attrib_operation_text(dest, hash, None, enc) == parts.0 + parts.1,
        attrib_operation_text(dest, hash, Some(raw), enc) == parts.0 + ","@ + string_member(
            "raw"@,
            raw,
        ) + parts.1,
{
    let xs = seq![type_member(ATTRIB@), string_member("dest"@, dest)] + optional_string_member(
        "hash"@,
        hash,
    );
    let ys = optional_string_member("enc"@, enc);
    let m = string_member("raw"@, raw);
    lemma_object_insert(xs, m, ys);
    assert(xs + optional_string_member("raw"@, None) + ys =~= xs + ys);
    assert(xs + optional_string_member("raw"@, Some(raw)) + ys =~= xs + seq![m] + ys);
    ("{"@ + comma_joined(xs), comma_tail(ys) + "}"@)
}

/// Giving the encrypted value of an attribute adds the member `"enc"` with
/// the value as a JSON string to the ATTRIB operation, whatever hash and raw
/// are, and changes nothing else.
pub proof fn lemma_attrib_enc_is_carried(
    dest: Seq<char>,
    hash: Option<Seq<char>>,
    raw: Option<Seq<char>>,
    enc: Seq<char>,
) -> (parts: (Seq<char>, Seq<char>))
    ensures
        attrib_operation_text(dest, hash, raw, None) == parts.0 + parts.1,
        attrib_operation_text(dest, hash, raw, Some(enc)) == parts.0 + ","@ + string_member(
            "enc"@,
            enc,
        ) + parts.1,
{
    let xs = seq![type_member(ATTRIB@), string_member("dest"@, dest)] + optional_string_member(
        "hash"@,
        hash,
    ) + optional_string_member("raw"@, raw);
    let ys = Seq::<Seq<char>>::empty();
    let m = string_member("enc"@, enc);
    lemma_object_insert(xs, m, ys);
    assert(xs + optional_string_member("enc"@, None) =~= xs + ys);
    assert(xs + optional_string_member("enc"@, Some(enc)) =~= xs + seq![m] + ys);
    ("{"@ + comma_joined(xs), comma_tail(ys) + "}"@)
}

// ---------------------------------------------------------------------------
// Laws of the GET_CLAIM_DEF operation.
proof fn lemma_four_member_layout(
    open: Seq<char>,
    m0: Seq<char>,
    comma: Seq<char>,
    k1: Seq<char>,
    colon: Seq<char>,
    v1: Seq<char>,
    m2: Seq<char>,
    m3: Seq<char>,
    close: Seq<char>,
)
    ensures
        open + (m0 + comma + (k1 + colon + v1) + comma + m2 + comma + m3) + close == (open + m0
            + comma + k1 + colon) + (v1 + (comma + m2 + comma + m3 + close)),
        open + (m0 + comma + (k1 + colon + v1) + comma + m2 + comma + m3) + close == (open + m0
            + comma) + (k1 + colon + v1) + (comma + m2 + comma + m3 + close),
{
    assert(open + (m0 + comma + (k1 + colon + v1) + comma + m2 + comma + m3) + close =~= (open + m0
        + comma + k1 + colon) + (v1 + (comma + m2 + comma + m3 + close)));
    assert(open + (m0 + comma + (k1 + colon + v1) + comma + m2 + comma + m3) + close =~= (open + m0
        + comma) + (k1 + colon + v1) + (comma + m2 + comma + m3 + close));
}

proof fn lemma_three_part_tail(
    comma: Seq<char>,
    k2: Seq<char>,
    colon: Seq<char>,
    v2: Seq<char>,
    k3: Seq<char>,
    v3: Seq<char>,
    close: Seq<char>,
)
    ensures
        comma + (k2 + colon + v2) + comma + (k3 + colon + v3) + close == comma + (k2 + (colon + v2
            + ((comma + k3 + colon) + (v3 + close)))),
{
    assert(comma + (k2 + colon + v2) + comma + (k3 + colon + v3) + close =~= comma + (k2 + (colon
        + v2 + ((comma + k3 + colon) + (v3 + close)))));
}

spec fn get_claim_def_head() -> Seq<char> {
    "{"@ + type_member(GET_CLAIM_DEF@) + ","@ + quoted_text("ref"@) + ":"@
}

spec fn origin_key() -> Seq<char> {
    ","@ + quoted_text("origin"@) + ":"@
}

spec fn get_claim_def_rest(signature_type: Seq<char>, origin: Seq<char>) -> Seq<char> {
    quoted_text("signature_type"@) + (":"@ + quoted_text(signature_type) + (origin_key() + (
    quoted_text(origin) + "}"@)))
}

proof fn lemma_get_claim_def_shape(reference: i32, signature_type: Seq<char>, origin: Seq<char>)
    ensures
        get_claim_def_operation_text(reference, signature_type, origin) == get_claim_def_head() + (
        decimal_text(reference as int) + (","@ + get_claim_def_rest(signature_type, origin))),
{
    let m0 = type_member(GET_CLAIM_DEF@);
    let m1 = integer_member("ref"@, reference as int);
    let m2 = string_member("signature_type"@, signature_type);
    let m3 = string_member("origin"@, origin);
    let ms = seq![m0, m1, m2, m3];
    assert(ms.drop_last().drop_last().drop_last() =~= seq![m0]);
    assert(ms.drop_last().drop_last() =~= seq![m0, m1]);
    assert(ms.drop_last() =~= seq![m0, m1, m2]);
    assert(comma_joined(seq![m0]) == m0);
    assert(comma_joined(seq![m0, m1]) == m0 + ","@ + m1);
    assert(comma_joined(seq![m0, m1, m2]) == m0 + ","@ + m1 + ","@ + m2);
    assert(comma_joined(ms) == m0 + ","@ + m1 + ","@ + m2 + ","@ + m3);
    lemma_four_member_layout(
        "{"@,
        m0,
        ","@,
        quoted_text("ref"@),
        ":"@,
        decimal_text(reference as int),
        m2,
        m3,
        "}"@,
    );
    lemma_three_part_tail(
        ","@,
        quoted_text("signature_type"@),
        ":"@,
        quoted_text(signature_type),
        quoted_text("origin"@),
        quoted_text(origin),
        "}"@,
    );
}

proof fn lemma_get_claim_def_members(reference: i32, signature_type: Seq<char>, origin: Seq<char>)
    ensures
        get_claim_def_operation_text(reference, signature_type, origin) == ("{"@ + type_member(
            GET_CLAIM_DEF@,
        ) + ","@) + member_text("ref"@, decimal_text(reference as int)) + (","@ + string_member(
            "signature_type"@,
            signature_type,
        ) + ","@ + string_member("origin"@, origin) + "}"@),
{
    let m0 = type_member(GET_CLAIM_DEF@);
    let m1 = integer_member("ref"@, reference as int);
    let m2 = string_member("signature_type"@, signature_type);
    let m3 = string_member("origin"@, origin);
    let ms = seq![m0, m1, m2, m3];
    assert(ms.drop_last().drop_last().drop_last() =~= seq![m0]);
    assert(ms.drop_last().drop_last() =~= seq![m0, m1]);
    assert(ms.drop_last() =~= seq![m0, m1, m2]);
    assert(comma_joined(seq![m0]) == m0);
    assert(comma_joined(seq![m0, m1]) == m0 + ","@ + m1);
    assert(comma_joined(seq![m0, m1, m2]) == m0 + ","@ + m1 + ","@ + m2);
    assert(comma_joined(ms) == m0 + ","@ + m1 + ","@ + m2 + ","@ + m3);
    lemma_four_member_layout(
        "{"@,
        m0,
        ","@,
        quoted_text("ref"@),
        ":"@,
        decimal_text(reference as int),
        m2,
        m3,
        "}"@,
    );
    lemma_three_part_tail(
        ","@,
        quoted_text("signature_type"@),
        ":"@,
        quoted_text(signature_type),
        quoted_text("origin"@),
        quoted_text(origin),
        "}"@,
    );
}

/// The GET_CLAIM_DEF operation carries its `ref` as the decimal text of the
/// `ref` given, for every `i32`, as a member of its own: for the same
/// signature type and origin, the operations for any two refs are `a`, the
/// member `"ref":<decimal>`, then `b`, with the same `a` (ending in a comma)
/// and `b` (starting with one) around it.
pub proof fn lemma_get_claim_def_ref_is_carried(
    reference1: i32,
    reference2: i32,
    signature_type: Seq<char>,
    origin: Seq<char>,
) -> (parts: (Seq<char>, Seq<char>))
    ensures
        get_claim_def_operation_text(reference1, signature_type, origin) == parts.0 + member_text(
            "ref"@,
            decimal_text(reference1 as int),
        ) + parts.1,
        get_claim_def_operation_text(reference2, signature_type, origin) == parts.0 + member_text(
            "ref"@,
            decimal_text(reference2 as int),
        ) + parts.1,
        parts.0.len() > 0 && parts.0.last() == ',',
        parts.1.len() > 0 && parts.1[0] == ',',
{
    lemma_get_claim_def_members(reference1, signature_type, origin);
    lemma_get_claim_def_members(reference2, signature_type, origin);
    reveal_strlit(",");
    let a = "{"@ + type_member(GET_CLAIM_DEF@) + ","@;
    let b = ","@ + string_member("signature_type"@, signature_type) + ","@ + string_member(
        "origin"@,
        origin,
    ) + "}"@;
    assert(a.last() == ',');
    assert(b[0] == ',');
    (a, b)
}

proof fn lemma_common_head(head: Seq<char>, t1: Seq<char>, t2: Seq<char>)
    requires
        head + t1 == head + t2,
    ensures
        t1 == t2,
{
    assert(t1 =~= (head + t1).skip(head.len() as int));
    assert(t2 =~= (head + t2).skip(head.len() as int));
}

proof fn lemma_get_claim_def_rest_injective(
    signature_type1: Seq<char>,
    origin1: Seq<char>,
    signature_type2: Seq<char>,
    origin2: Seq<char>,
)
    requires
        get_claim_def_rest(signature_type1, origin1) == get_claim_def_rest(signature_type2, origin2),
    ensures
        signature_type1 == signature_type2,
        origin1 == origin2,
{
    let v1 = origin_key() + (quoted_text(origin1) + "}"@);
    let v2 = origin_key() + (quoted_text(origin2) + "}"@);
    let u1 = ":"@ + quoted_text(signature_type1) + v1;
    let u2 = ":"@ + quoted_text(signature_type2) + v2;
    assert(get_claim_def_rest(signature_type1, origin1) =~= quoted_text("signature_type"@) + u1);
    assert(get_claim_def_rest(signature_type2, origin2) =~= quoted_text("signature_type"@) + u2);
    lemma_quoted_text_prefix("signature_type"@, "signature_type"@, u1, u2);
    assert(u1 =~= ":"@ + (quoted_text(signature_type1) + v1));
    assert(u2 =~= ":"@ + (quoted_text(signature_type2) + v2));
    lemma_common_head(":"@, quoted_text(signature_type1) + v1, quoted_text(signature_type2) + v2);
    lemma_quoted_text_prefix(signature_type1, signature_type2, v1, v2);
    lemma_common_head(origin_key(), quoted_text(origin1) + "}"@, quoted_text(origin2) + "}"@);
    lemma_quoted_text_prefix(origin1, origin2, "}"@, "}"@);
}

/// A GET_CLAIM_DEF operation determines its `ref`, signature type and
/// origin: operations built from different inputs are different texts.
pub proof fn lemma_get_claim_def_determines_inputs(
    reference1: i32,
    signature_type1: Seq<char>,
    origin1: Seq<char>,
    reference2: i32,
    signature_type2: Seq<char>,
    origin2: Seq<char>,
)
    requires
        get_claim_def_operation_text(reference1, signature_type1, origin1)
            == get_claim_def_operation_text(reference2, signature_type2, origin2),
    ensures
        reference1 == reference2,
        signature_type1 == signature_type2,
        origin1 == origin2,
{
    lemma_get_claim_def_shape(reference1, signature_type1, origin1);
    lemma_get_claim_def_shape(reference2, signature_type2, origin2);
    let rest1 = get_claim_def_rest(signature_type1, origin1);
    let rest2 = get_claim_def_rest(signature_type2, origin2);
    let t1 = decimal_text(reference1 as int) + (","@ + rest1);
    let t2 = decimal_text(reference2 as int) + (","@ + rest2);
    lemma_common_head(get_claim_def_head(), t1, t2);
    assert(t1 =~= decimal_text(reference1 as int) + ","@ + rest1);
    assert(t2 =~= decimal_text(reference2 as int) + ","@ + rest2);
    lemma_decimal_text_then_comma(reference1 as int, reference2 as int, rest1, rest2);
    lemma_get_claim_def_rest_injective(signature_type1, origin1, signature_type2, origin2);
}

// ---------------------------------------------------------------------------
// Data read from JSON.
/// The data of a SCHEMA operation.
pub ghost struct SchemaDataView {
    pub name: Seq<char>,
    pub version: Seq<char>,
    pub attr_names: Seq<Seq<char>>,
}

/// The data of a SCHEMA operation: the schema's name, version and
/// attribute names.
#[derive(Debug)]
pub struct SchemaOperationData {
    pub name: String,
    pub version: String,
    pub attr_names: Vec<String>,
}

impl View for SchemaOperationData {
    type V = SchemaDataView;

    open spec fn view(&self) -> SchemaDataView {
        SchemaDataView { name: self.name@, version: self.version@, attr_names: views_of(self.attr_names@) }
    }
}

/// The SchemaOperationData data that a JSON value holds: an object with the strings `name` and `version` and the string array
/// `attr_names` (members of other keys are ignored), or an array of these three in
/// that order; or serde's message for the
/// first thing that stands against it.
pub open spec fn schema_data_of(v: JsonValue) -> Result<SchemaDataView, Seq<char>> {
    match struct_error(v, "SchemaOperationData"@, schema_fields()) {
        Some(e) => Err(e),
        None => Ok(
            SchemaDataView {
                name: text_in(field_value(v, "name"@, 0)),
                version: text_in(field_value(v, "version"@, 1)),
                attr_names: text_list_in(field_value(v, "attr_names"@, 2)),
            },
        ),
    }
}

/// The fields of `SchemaOperationData`, by name and kind, in their declared order.
pub open spec fn schema_fields() -> Seq<(Seq<char>, FieldKind)> {
    seq![
        ("name"@, FieldKind::Text),
        ("version"@, FieldKind::Text),
        ("attr_names"@, FieldKind::TextList),
    ]
}

fn schema_field_list() -> (r: Vec<(&'static str, FieldKind)>)
    ensures
        fields_view(r@) == schema_fields(),
{
    let mut r: Vec<(&'static str, FieldKind)> = Vec::new();
    r.push(("name", FieldKind::Text));
    r.push(("version", FieldKind::Text));
    r.push(("attr_names", FieldKind::TextList));
    assert(fields_view(r@) =~= schema_fields());
    r
}

/// The schema data that a JSON text holds, or the message of why it holds none.
pub open spec fn schema_data_from_json(text: Seq<char>) -> Result<SchemaDataView, Seq<char>> {
    match parsed_json(text) {
        Err(m) => Err(m),
        Ok(v) => schema_data_of(v),
    }
}

/// The JSON text of schema data: name, version and attribute names, in that
/// order.
pub open spec fn schema_data_text(d: SchemaDataView) -> Seq<char> {
    object_text(
        seq![
            string_member("name"@, d.name),
            string_member("version"@, d.version),
            string_list_member("attr_names"@, d.attr_names),
        ],
    )
}

impl SchemaOperationData {
    /// Reads schema data from JSON text.
    pub fn from_json(text: &str) -> (r: Result<SchemaOperationData, String>)
        ensures
            match r {
                Ok(d) => schema_data_from_json(text@) == Ok::<SchemaDataView, Seq<char>>(d@),
                Err(m) => schema_data_from_json(text@) == Err::<SchemaDataView, Seq<char>>(m@),
            },
    {
        match parse_json(text) {
            Ok(v) => SchemaOperationData::from_value(&v),
            Err(m) => Err(m),
        }
    }

    /// Reads schema data from a JSON value.
    pub fn from_value(v: &JsonValue) -> (r: Result<SchemaOperationData, String>)
        ensures
            match r {
                Ok(d) => schema_data_of(*v) == Ok::<SchemaDataView, Seq<char>>(d@),
                Err(m) => schema_data_of(*v) == Err::<SchemaDataView, Seq<char>>(m@),
            },
    {
        let fields = schema_field_list();
        match check_struct(v, "SchemaOperationData", &fields) {
            Some(e) => Err(e),
            None => Ok(
                SchemaOperationData {
                    name: text_of(value_at(v, "name", 0)),
                    version: text_of(value_at(v, "version", 1)),
                    attr_names: text_list_of(value_at(v, "attr_names", 2)),
                },
            ),
        }
    }

    /// The JSON text of the data.
    pub fn to_json(&self) -> (r: String)
        ensures
            r@ == schema_data_text(self@),
    {
        let mut parts: Vec<String> = Vec::new();
        push_string(&mut parts, "name", self.name.as_str());
        push_string(&mut parts, "version", self.version.as_str());
        push_string_list(&mut parts, "attr_names", &self.attr_names);
        assert(views_of(parts@) =~= seq![
            string_member("name"@, self.name@),
            string_member("version"@, self.version@),
            string_list_member("attr_names"@, views_of(self.attr_names@)),
        ]);
        join_object(&parts)
    }
}

proof fn lemma_schema_attr_names_kind()
    ensures
        kind_of(schema_fields(), "attr_names"@) == Some(FieldKind::TextList),
        schema_fields()[2] == ("attr_names"@, FieldKind::TextList),
{
    reveal_strlit("name");
    reveal_strlit("version");
    reveal_strlit("attr_names");
    let fields = schema_fields();
    assert("name"@.len() != "attr_names"@.len());
    assert("version"@.len() != "attr_names"@.len());
    assert(fields.drop_first().drop_first()[0] == fields[2]);
    assert(kind_of(fields.drop_first().drop_first(), "attr_names"@) == Some(FieldKind::TextList));
    assert(kind_of(fields.drop_first(), "attr_names"@) == Some(FieldKind::TextList));
}

/// SCHEMA data read from JSON carries its attribute names exactly: when
/// the data is read, the given `attr_names` array holds only strings, the
/// names read are as many as it holds, each the string at its place, and
/// the array that the data writes is the given array's JSON text.
pub proof fn lemma_schema_attr_names_are_carried(v: JsonValue, names: Vec<JsonValue>)
    requires
        schema_data_of(v) is Ok,
        field_value(v, "attr_names"@, 2) == Some(JsonValue::Array(names)),
    ensures
        schema_data_of(v)->Ok_0.attr_names.len() == names@.len(),
        forall|i: int|
            0 <= i < names@.len() ==> #[trigger] names@[i] is Str && schema_data_of(v)->Ok_0.attr_names[i]
                == names@[i]->Str_0@,
        array_text(quoted_all(schema_data_of(v)->Ok_0.attr_names)) == json_text(
            JsonValue::Array(names),
        ),
{
    lemma_schema_attr_names_kind();
    lemma_struct_field_accepted(v, "SchemaOperationData"@, schema_fields(), 2);
    assert(first_non_string(names@) is None);
    lemma_first_non_string_none(names@);
    lemma_strings_of_all_strings(names@);
    lemma_strings_written_back(names@);
}

/// The data of a GET_SCHEMA operation.
pub ghost struct GetSchemaDataView {
    pub name: Seq<char>,
    pub version: Seq<char>,
}

/// The data of a GET_SCHEMA operation: the name and version of the schema.
#[derive(Debug)]
pub struct GetSchemaOperationData {
    pub name: String,
    pub version: String,
}

impl View for GetSchemaOperationData {
    type V = GetSchemaDataView;

    open spec fn view(&self) -> GetSchemaDataView {
        GetSchemaDataView { name: self.name@, version: self.version@ }
    }
}

/// The GetSchemaOperationData data that a JSON value holds: an object with the strings `name` and `version` (members of other keys are
/// ignored), or an array of the two in that order; or serde's message for the
/// first thing that stands against it.
pub open spec fn get_schema_data_of(v: JsonValue) -> Result<GetSchemaDataView, Seq<char>> {
    match struct_error(v, "GetSchemaOperationData"@, get_schema_fields()) {
        Some(e) => Err(e),
        None => Ok(
            GetSchemaDataView {
                name: text_in(field_value(v, "name"@, 0)),
                version: text_in(field_value(v, "version"@, 1)),
            },
        ),
    }
}

/// The fields of `GetSchemaOperationData`, by name and kind, in their declared order.
pub open spec fn get_schema_fields() -> Seq<(Seq<char>, FieldKind)> {
    seq![
        ("name"@, FieldKind::Text),
        ("version"@, FieldKind::Text),
    ]
}

fn get_schema_field_list() -> (r: Vec<(&'static str, FieldKind)>)
    ensures
        fields_view(r@) == get_schema_fields(),
{
    let mut r: Vec<(&'static str, FieldKind)> = Vec::new();
    r.push(("name", FieldKind::Text));
    r.push(("version", FieldKind::Text));
    assert(fields_view(r@) =~= get_schema_fields());
    r
}

/// The GET_SCHEMA data that a JSON text holds, or the message of why it
/// holds none.
pub open spec fn get_schema_data_from_json(text: Seq<char>) -> Result<GetSchemaDataView, Seq<char>> {
    match parsed_json(text) {
        Err(m) => Err(m),
        Ok(v) => get_schema_data_of(v),
    }
}

/// The JSON text of GET_SCHEMA data: name, then version.
pub open spec fn get_schema_data_text(d: GetSchemaDataView) -> Seq<char> {
    object_text(seq![string_member("name"@, d.name), string_member("version"@, d.version)])
}

impl GetSchemaOperationData {
    /// Reads GET_SCHEMA data from JSON text.
    pub fn from_json(text: &str) -> (r: Result<GetSchemaOperationData, String>)
        ensures
            match r {
                Ok(d) => get_schema_data_from_json(text@) == Ok::<GetSchemaDataView, Seq<char>>(d@),
                Err(m) => get_schema_data_from_json(text@) == Err::<GetSchemaDataView, Seq<char>>(
                    m@,
                ),
            },
    {
        match parse_json(text) {
            Ok(v) => GetSchemaOperationData::from_value(&v),
            Err(m) => Err(m),
        }
    }

    /// Reads GET_SCHEMA data from a JSON value.
    pub fn from_value(v: &JsonValue) -> (r: Result<GetSchemaOperationData, String>)
        ensures
            match r {
                Ok(d) => get_schema_data_of(*v) == Ok::<GetSchemaDataView, Seq<char>>(d@),
                Err(m) => get_schema_data_of(*v) == Err::<GetSchemaDataView, Seq<char>>(m@),
            },
    {
        let fields = get_schema_field_list();
        match check_struct(v, "GetSchemaOperationData", &fields) {
            Some(e) => Err(e),
            None => Ok(
                GetSchemaOperationData {
                    name: text_of(value_at(v, "name", 0)),
                    version: text_of(value_at(v, "version", 1)),
                },
            ),
        }
    }

    /// The JSON text of the data.
    pub fn to_json(&self) -> (r: String)
        ensures
            r@ == get_schema_data_text(self@),
    {
        let mut parts: Vec<String> = Vec::new();
        push_string(&mut parts, "name", self.name.as_str());
        push_string(&mut parts, "version", self.version.as_str());
        assert(views_of(parts@) =~= seq![
            string_member("name"@, self.name@),
            string_member("version"@, self.version@),
        ]);
        join_object(&parts)
    }
}

/// The data of a CLAIM_DEF operation, as JSON texts.
pub ghost struct ClaimDefDataView {
    pub primary: Seq<char>,
    pub revocation: Option<Seq<char>>,
}

/// The data of a CLAIM_DEF operation: the JSON text of the primary public
/// key, and that of the revocation public key when there is one.
#[derive(Debug)]
pub struct ClaimDefOperationData {
    pub primary: String,
    pub revocation: Option<String>,
}

impl View for ClaimDefOperationData {
    type V = ClaimDefDataView;

    open spec fn view(&self) -> ClaimDefDataView {
        ClaimDefDataView { primary: self.primary@, revocation: string_view(self.revocation) }
    }
}

/// The ClaimDefOperationData data that a JSON value holds: an object whose member `primary` is a structure (an object or an array)
/// and whose member `revocation` is absent, null or a structure, or an array of
/// the two in that order; or serde's message for the
/// first thing that stands against it.
pub open spec fn claim_def_data_of(v: JsonValue) -> Result<ClaimDefDataView, Seq<char>> {
    match struct_error(v, "ClaimDefOperationData"@, claim_def_fields()) {
        Some(e) => Err(e),
        None => Ok(
            ClaimDefDataView {
                primary: record_in(field_value(v, "primary"@, 0)),
                revocation: optional_record_in(field_value(v, "revocation"@, 1)),
            },
        ),
    }
}

/// The fields of `ClaimDefOperationData`, by name and kind, in their declared order.
pub open spec fn claim_def_fields() -> Seq<(Seq<char>, FieldKind)> {
    seq![
        ("primary"@, FieldKind::Record("PublicKey")),
        ("revocation"@, FieldKind::OptionalRecord("RevocationPublicKey")),
    ]
}

fn claim_def_field_list() -> (r: Vec<(&'static str, FieldKind)>)
    ensures
        fields_view(r@) == claim_def_fields(),
{
    let mut r: Vec<(&'static str, FieldKind)> = Vec::new();
    r.push(("primary", FieldKind::Record("PublicKey")));
    r.push(("revocation", FieldKind::OptionalRecord("RevocationPublicKey")));
    assert(fields_view(r@) =~= claim_def_fields());
    r
}

/// The CLAIM_DEF data that a JSON text holds, or the message of why it holds
/// none.
pub open spec fn claim_def_data_from_json(text: Seq<char>) -> Result<ClaimDefDataView, Seq<char>> {
    match parsed_json(text) {
        Err(m) => Err(m),
        Ok(v) => claim_def_data_of(v),
    }
}

/// The JSON text of CLAIM_DEF data: the primary key, then the revocation key
/// (`null` when there is none).
pub open spec fn claim_def_data_text(d: ClaimDefDataView) -> Seq<char> {
    object_text(
        seq![
            member_text("primary"@, d.primary),
            member_text("revocation"@, optional_value_text(d.revocation)),
        ],
    )
}

/// The text of an optional JSON value: the text itself, or `null`.
pub open spec fn optional_value_text(value: Option<Seq<char>>) -> Seq<char> {
    match value {
        Some(t) => t,
        None => "null"@,
    }
}

impl ClaimDefOperationData {
    /// Reads CLAIM_DEF data from JSON text.
    pub fn from_json(text: &str) -> (r: Result<ClaimDefOperationData, String>)
        ensures
            match r {
                Ok(d) => claim_def_data_from_json(text@) == Ok::<ClaimDefDataView, Seq<char>>(d@),
                Err(m) => claim_def_data_from_json(text@) == Err::<ClaimDefDataView, Seq<char>>(
                    m@,
                ),
            },
    {
        match parse_json(text) {
            Ok(v) => ClaimDefOperationData::from_value(&v),
            Err(m) => Err(m),
        }
    }

    /// Reads CLAIM_DEF data from a JSON value.
    pub fn from_value(v: &JsonValue) -> (r: Result<ClaimDefOperationData, String>)
        ensures
            match r {
                Ok(d) => claim_def_data_of(*v) == Ok::<ClaimDefDataView, Seq<char>>(d@),
                Err(m) => claim_def_data_of(*v) == Err::<ClaimDefDataView, Seq<char>>(m@),
            },
    {
        let fields = claim_def_field_list();
        match check_struct(v, "ClaimDefOperationData", &fields) {
            Some(e) => Err(e),
            None => Ok(
                ClaimDefOperationData {
                    primary: record_of(value_at(v, "primary", 0)),
                    revocation: optional_record_of(value_at(v, "revocation", 1)),
                },
            ),
        }
    }

    /// The JSON text of the data.
    pub fn to_json(&self) -> (r: String)
        ensures
            r@ == claim_def_data_text(self@),
    {
        let mut parts: Vec<String> = Vec::new();
        push_raw(&mut parts, "primary", self.primary.as_str());
        let ghost revocation_text = optional_value_text(self@.revocation);
        match &self.revocation {
            Some(t) => {
                push_raw(&mut parts, "revocation", t.as_str());
                assert(t@ == revocation_text);
            },
            None => {
                push_raw(&mut parts, "revocation", "null");
            },
        }
        assert(views_of(parts@) =~= seq![
            member_text("primary"@, self@.primary),
            member_text("revocation"@, revocation_text),
        ]);
        join_object(&parts)
    }
}

/// The data of a NODE operation.
pub ghost struct NodeDataView {
    pub node_ip: Option<Seq<char>>,
    pub node_port: Option<i32>,
    pub client_ip: Option<Seq<char>>,
    pub client_port: Option<i32>,
    pub alias: Option<Seq<char>>,
    pub services: Option<Seq<Seq<char>>>,
    pub blskey: Option<Seq<char>>,
}

/// The data of a NODE operation: the node's and the client's address and
/// port, the alias, the services and the BLS key, each of them optional.
#[derive(Debug)]
pub struct NodeOperationData {
    pub node_ip: Option<String>,
    pub node_port: Option<i32>,
    pub client_ip: Option<String>,
    pub client_port: Option<i32>,
    pub alias: Option<String>,
    pub services: Option<Vec<String>>,
    pub blskey: Option<String>,
}

impl View for NodeOperationData {
    type V = NodeDataView;

    open spec fn view(&self) -> NodeDataView {
        NodeDataView {
            node_ip: string_view(self.node_ip),
            node_port: self.node_port,
            client_ip: string_view(self.client_ip),
            client_port: self.client_port,
            alias: string_view(self.alias),
            services: string_list_view(self.services),
            blskey: string_view(self.blskey),
        }
    }
}

/// Whether NODE data has none of its fields.
pub open spec fn node_data_is_empty(d: NodeDataView) -> bool {
    &&& d.node_ip is None
    &&& d.node_port is None
    &&& d.client_ip is None
    &&& d.client_port is None
    &&& d.alias is None
    &&& d.services is None
    &&& d.blskey is None
}

/// The NodeOperationData data that a JSON value holds: an object whose members `node_ip`, `client_ip`, `alias` and `blskey` are
/// strings, `node_port` and `client_port` `i32` numbers and `services` an array of
/// strings, each of them null or absent when not given (members of other keys
/// are ignored); or an array of all seven in that order; or serde's message for the
/// first thing that stands against it.
pub open spec fn node_data_of(v: JsonValue) -> Result<NodeDataView, Seq<char>> {
    match struct_error(v, "NodeOperationData"@, node_fields()) {
        Some(e) => Err(e),
        None => Ok(
            NodeDataView {
                node_ip: optional_text_in(field_value(v, "node_ip"@, 0)),
                node_port: optional_int_in(field_value(v, "node_port"@, 1)),
                client_ip: optional_text_in(field_value(v, "client_ip"@, 2)),
                client_port: optional_int_in(field_value(v, "client_port"@, 3)),
                alias: optional_text_in(field_value(v, "alias"@, 4)),
                services: optional_text_list_in(field_value(v, "services"@, 5)),
                blskey: optional_text_in(field_value(v, "blskey"@, 6)),
            },
        ),
    }
}

/// The fields of `NodeOperationData`, by name and kind, in their declared order.
pub open spec fn node_fields() -> Seq<(Seq<char>, FieldKind)> {
    seq![
        ("node_ip"@, FieldKind::OptionalText),
        ("node_port"@, FieldKind::OptionalInt),
        ("client_ip"@, FieldKind::OptionalText),
        ("client_port"@, FieldKind::OptionalInt),
        ("alias"@, FieldKind::OptionalText),
        ("services"@, FieldKind::OptionalTextList),
        ("blskey"@, FieldKind::OptionalText),
    ]
}

fn node_field_list() -> (r: Vec<(&'static str, FieldKind)>)
    ensures
        fields_view(r@) == node_fields(),
{
    let mut r: Vec<(&'static str, FieldKind)> = Vec::new();
    r.push(("node_ip", FieldKind::OptionalText));
    r.push(("node_port", FieldKind::OptionalInt));
    r.push(("client_ip", FieldKind::OptionalText));
    r.push(("client_port", FieldKind::OptionalInt));
    r.push(("alias", FieldKind::OptionalText));
    r.push(("services", FieldKind::OptionalTextList));
    r.push(("blskey", FieldKind::OptionalText));
    assert(fields_view(r@) =~= node_fields());
    r
}

/// The NODE data that a JSON text holds, or the message of why it holds none.
pub open spec fn node_data_from_json(text: Seq<char>) -> Result<NodeDataView, Seq<char>> {
    match parsed_json(text) {
        Err(m) => Err(m),
        Ok(v) => node_data_of(v),
    }
}

/// The JSON text of NODE data: the given fields in the order node_ip,
/// node_port, client_ip, client_port, alias, services, blskey; the absent
/// ones left out.
pub open spec fn node_data_text(d: NodeDataView) -> Seq<char> {
    object_text(
        optional_string_member("node_ip"@, d.node_ip) + optional_integer_member(
            "node_port"@,
            d.node_port,
        ) + optional_string_member("client_ip"@, d.client_ip) + optional_integer_member(
            "client_port"@,
            d.client_port,
        ) + optional_string_member("alias"@, d.alias) + optional_string_list_member(
            "services"@,
            d.services,
        ) + optional_string_member("blskey"@, d.blskey),
    )
}

proof fn lemma_node_fields_kind(i: int)
    requires
        0 <= i < 7,
    ensures
        kind_of(node_fields(), node_fields()[i].0) == Some(node_fields()[i].1),
{
    reveal_strlit("node_ip");
    reveal_strlit("node_port");
    reveal_strlit("client_ip");
    reveal_strlit("client_port");
    reveal_strlit("alias");
    reveal_strlit("services");
    reveal_strlit("blskey");
    let f = node_fields();
    assert("node_port"@[0] != "client_ip"@[0]);
    assert forall|j: int| 0 <= j < i implies f[j].0 != f[i].0 by {
        if f[j].0.len() == f[i].0.len() {
            assert(f[j].0[0] != f[i].0[0]);
        }
    }
    lemma_kind_of_first(f, i);
}

/// NODE data read from JSON counts as empty only when none of its seven
/// fields is given: a field whose value in the JSON is present and not
/// `null` (the member of its name in an object, its element in an array),
/// such as an alias alone or a list of services alone, makes the data
/// non-empty and is carried in it.
pub proof fn lemma_node_data_given_field_is_kept(v: JsonValue, i: int)
    requires
        node_data_of(v) is Ok,
        0 <= i < 7,
        field_value(v, node_fields()[i].0, i) is Some,
        !(field_value(v, node_fields()[i].0, i)->0 is Null),
    ensures
        !node_data_is_empty(node_data_of(v)->Ok_0),
        i == 0 ==> node_data_of(v)->Ok_0.node_ip is Some,
        i == 1 ==> node_data_of(v)->Ok_0.node_port is Some,
        i == 2 ==> node_data_of(v)->Ok_0.client_ip is Some,
        i == 3 ==> node_data_of(v)->Ok_0.client_port is Some,
        i == 4 ==> node_data_of(v)->Ok_0.alias is Some,
        i == 5 ==> node_data_of(v)->Ok_0.services is Some,
        i == 6 ==> node_data_of(v)->Ok_0.blskey is Some,
{
    lemma_node_fields_kind(i);
    lemma_struct_field_accepted(v, "NodeOperationData"@, node_fields(), i);
}

impl NodeOperationData {
    /// Reads NODE data from JSON text.
    pub fn from_json(text: &str) -> (r: Result<NodeOperationData, String>)
        ensures
            match r {
                Ok(d) => node_data_from_json(text@) == Ok::<NodeDataView, Seq<char>>(d@),
                Err(m) => node_data_from_json(text@) == Err::<NodeDataView, Seq<char>>(m@),
            },
    {
        match parse_json(text) {
            Ok(v) => NodeOperationData::from_value(&v),
            Err(m) => Err(m),
        }
    }

    /// Reads NODE data from a JSON value.
    pub fn from_value(v: &JsonValue) -> (r: Result<NodeOperationData, String>)
        ensures
            match r {
                Ok(d) => node_data_of(*v) == Ok::<NodeDataView, Seq<char>>(d@),
                Err(m) => node_data_of(*v) == Err::<NodeDataView, Seq<char>>(m@),
            },
    {
        let fields = node_field_list();
        match check_struct(v, "NodeOperationData", &fields) {
            Some(e) => Err(e),
            None => Ok(
                NodeOperationData {
                    node_ip: optional_text_of(value_at(v, "node_ip", 0)),
                    node_port: optional_int_of(value_at(v, "node_port", 1)),
                    client_ip: optional_text_of(value_at(v, "client_ip", 2)),
                    client_port: optional_int_of(value_at(v, "client_port", 3)),
                    alias: optional_text_of(value_at(v, "alias", 4)),
                    services: optional_text_list_of(value_at(v, "services", 5)),
                    blskey: optional_text_of(value_at(v, "blskey", 6)),
                },
            ),
        }
    }

    /// Whether none of the fields is given.
    pub fn is_empty(&self) -> (r: bool)
        ensures
            r == node_data_is_empty(self@),
    {
        self.node_ip.is_none() && self.node_port.is_none() && self.client_ip.is_none()
            && self.client_port.is_none() && self.alias.is_none() && self.services.is_none()
            && self.blskey.is_none()
    }

    /// The JSON text of the data.
    pub fn to_json(&self) -> (r: String)
        ensures
            r@ == node_data_text(self@),
    {
        let mut parts: Vec<String> = Vec::new();
        assert(views_of(parts@) =~= Seq::<Seq<char>>::empty());
        push_optional_string(&mut parts, "node_ip", &self.node_ip);
        push_optional_integer(&mut parts, "node_port", self.node_port);
        push_optional_string(&mut parts, "client_ip", &self.client_ip);
        push_optional_integer(&mut parts, "client_port", self.client_port);
        push_optional_string(&mut parts, "alias", &self.alias);
        push_optional_string_list(&mut parts, "services", &self.services);
        push_optional_string(&mut parts, "blskey", &self.blskey);
        assert(views_of(parts@) =~= optional_string_member("node_ip"@, self@.node_ip)
            + optional_integer_member("node_port"@, self@.node_port) + optional_string_member(
            "client_ip"@,
            self@.client_ip,
        ) + optional_integer_member("client_port"@, self@.client_port) + optional_string_member(
            "alias"@,
            self@.alias,
        ) + optional_string_list_member("services"@, self@.services) + optional_string_member(
            "blskey"@,
            self@.blskey,
        ));
        join_object(&parts)
    }
}

// ---------------------------------------------------------------------------
// Operations that carry data.
/// The operation that writes a schema.
pub open spec fn schema_operation_text(data: Seq<char>) -> Seq<char> {
    object_text(seq![type_member(SCHEMA@), member_text("data"@, data)])
}

/// The operation that reads a schema of `dest`.
pub open spec fn get_schema_operation_text(dest: Seq<char>, data: Seq<char>) -> Seq<char> {
    object_text(
        seq![type_member(GET_SCHEMA@), string_member("dest"@, dest), member_text("data"@, data)],
    )
}

/// The operation that writes a claim definition: the schema's sequence
/// number `ref`, the data, the type, and the signature type, in that order.
pub open spec fn claim_def_operation_text(reference: i32, signature_type: Seq<char>, data: Seq<char>) -> Seq<
    char,
> {
    object_text(
        seq![
            integer_member("ref"@, reference as int),
            member_text("data"@, data),
            type_member(CLAIM_DEF@),
            string_member("signature_type"@, signature_type),
        ],
    )
}

/// The operation that writes the data of the node `dest`.
pub open spec fn node_operation_text(dest: Seq<char>, data: Seq<char>) -> Seq<char> {
    object_text(seq![type_member(NODE@), string_member("dest"@, dest), member_text("data"@, data)])
}

/// The operation that writes a schema.
pub fn schema_operation(data: &SchemaOperationData) -> (r: String)
    ensures
        r@ == schema_operation_text(schema_data_text(data@)),
{
    let text = data.to_json();
    let mut parts: Vec<String> = Vec::new();
    push_type(&mut parts, SCHEMA);
    push_raw(&mut parts, "data", text.as_str());
    assert(views_of(parts@) =~= seq![type_member(SCHEMA@), member_text("data"@, text@)]);
    join_object(&parts)
}

/// The operation that reads a schema of `dest`.
pub fn get_schema_operation(dest: &str, data: &GetSchemaOperationData) -> (r: String)
    ensures
        r@ == get_schema_operation_text(dest@, get_schema_data_text(data@)),
{
    let text = data.to_json();
    let mut parts: Vec<String> = Vec::new();
    push_type(&mut parts, GET_SCHEMA);
    push_string(&mut parts, "dest", dest);
    push_raw(&mut parts, "data", text.as_str());
    assert(views_of(parts@) =~= seq![
        type_member(GET_SCHEMA@),
        string_member("dest"@, dest@),
        member_text("data"@, text@),
    ]);
    join_object(&parts)
}

/// The operation that writes a claim definition.
pub fn claim_def_operation(reference: i32, signature_type: &str, data: &ClaimDefOperationData) -> (r:
    String)
    ensures
        r@ == claim_def_operation_text(reference, signature_type@, claim_def_data_text(data@)),
{
    let text = data.to_json();
    let mut parts: Vec<String> = Vec::new();
    push_integer(&mut parts, "ref", reference as i128);
    push_raw(&mut parts, "data", text.as_str());
    push_type(&mut parts, CLAIM_DEF);
    push_string(&mut parts, "signature_type", signature_type);
    assert(views_of(parts@) =~= seq![
        integer_member("ref"@, reference as int),
        member_text("data"@, text@),
        type_member(CLAIM_DEF@),
        string_member("signature_type"@, signature_type@),
    ]);
    join_object(&parts)
}

/// The operation that writes the data of the node `dest`.
pub fn node_operation(dest: &str, data: &NodeOperationData) -> (r: String)
    ensures
        r@ == node_operation_text(dest@, node_data_text(data@)),
{
    let text = data.to_json();
    let mut parts: Vec<String> = Vec::new();
    push_type(&mut parts, NODE);
    push_string(&mut parts, "dest", dest);
    push_raw(&mut parts, "data", text.as_str());
    assert(views_of(parts@) =~= seq![
        type_member(NODE@),
        string_member("dest"@, dest@),
        member_text("data"@, text@),
    ]);
    join_object(&parts)
}

} // verus!
