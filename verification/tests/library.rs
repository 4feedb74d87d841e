use indy_ledger::base58::Base58;
use indy_ledger::errors::CommonError;
use indy_ledger::json::{to_json_string, JsonValue};
use indy_ledger::types::{
    attrib_operation, get_claim_def_operation, get_txn_operation, nym_operation, role_json,
    ClaimDefOperationData, GetSchemaOperationData, NodeOperationData, Request, SchemaOperationData,
};
use indy_ledger::{request_id, LedgerService};

fn structure_message(r: Result<String, CommonError>) -> String {
    match r {
        Err(CommonError::InvalidStructure(m)) => m,
        Err(CommonError::InvalidState(m)) => panic!("unexpected state error: {}", m),
        Ok(s) => panic!("unexpected success: {}", s),
    }
}

/// The request text after its `reqId` member.
fn after_req_id(s: &str) -> &str {
    assert!(s.starts_with("{\"reqId\":"));
    let comma = s.find(',').unwrap();
    &s[comma..]
}

#[test]
fn request_frame_is_exact() {
    assert_eq!(
        Request::build_request(42, "Th7MpTaRZVRYnPiabds81Y", "{\"type\":\"3\"}"),
        "{\"reqId\":42,\"identifier\":\"Th7MpTaRZVRYnPiabds81Y\",\"operation\":{\"type\":\"3\"},\"protocolVersion\":1}"
    );
    assert_eq!(
        Request::build_request(u64::MAX, "", "null"),
        "{\"reqId\":18446744073709551615,\"identifier\":\"\",\"operation\":null,\"protocolVersion\":1}"
    );
}

#[test]
fn whole_get_nym_request_after_the_id() {
    let r = LedgerService::new().build_get_nym_request("identifier", "dest").unwrap();
    assert_eq!(
        after_req_id(&r),
        ",\"identifier\":\"identifier\",\"operation\":{\"type\":\"105\",\"dest\":\"dest\"},\"protocolVersion\":1}"
    );
}

#[test]
fn request_id_is_nanoseconds_since_the_epoch() {
    assert_eq!(request_id(1, 2), 1_000_000_002);
    assert_eq!(request_id(1_500_000_000, 999_999_999), 1_500_000_000_999_999_999);
    assert_eq!(request_id(0, 0), 0);
    // wraps as a u64's arithmetic does
    assert_eq!(request_id(-1, 0), 0u64.wrapping_sub(1_000_000_000));
}

#[test]
fn invalid_base58_identifier_is_refused() {
    let s = LedgerService::new();
    for bad in ["0", "O", "I", "l", "abc+", "é"] {
        assert!(matches!(s.build_get_nym_request(bad, "dest"), Err(CommonError::InvalidStructure(_))));
        assert!(matches!(s.build_get_nym_request("dest", bad), Err(CommonError::InvalidStructure(_))));
        assert!(matches!(s.build_get_txn_request(bad, 1), Err(CommonError::InvalidStructure(_))));
        assert!(matches!(
            s.build_get_claim_def_request("id", 1, "CL", bad),
            Err(CommonError::InvalidStructure(_))
        ));
        assert!(matches!(s.build_schema_request(bad, "{}"), Err(CommonError::InvalidStructure(_))));
    }
    // the empty text decodes to nothing and passes
    assert!(s.build_get_txn_request("", 1).is_ok());
}

#[test]
fn base58_decode_gives_bytes() {
    assert_eq!(Base58::decode("ZiCa").ok().unwrap(), b"abc".to_vec());
    assert_eq!(Base58::decode("1").ok().unwrap(), vec![0u8]);
    assert!(Base58::decode("0").is_err());
}

#[test]
fn nym_roles_map_to_codes() {
    let s = LedgerService::new();
    for (role, code) in [("STEWARD", "\"2\""), ("TRUSTEE", "\"0\""), ("TRUST_ANCHOR", "\"101\""), ("TGB", "\"100\""), ("", "null")] {
        let r = s.build_nym_request("identifier", "dest", None, None, Some(role)).unwrap();
        let expected = format!("\"operation\":{{\"dest\":\"dest\",\"role\":{},\"type\":\"1\"}}", code);
        assert!(r.contains(&expected), "{} -> {}", role, r);
    }
    assert_eq!(role_json("STEWARD").unwrap(), "\"2\"");
}

#[test]
fn nym_unknown_role_is_refused() {
    let s = LedgerService::new();
    let m = structure_message(s.build_nym_request("identifier", "dest", None, None, Some("ADMIN")));
    assert_eq!(m, "Invalid role: ADMIN");
    assert_eq!(nym_operation("dest", None, None, Some("steward")).err().unwrap(), "Invalid role: steward");
}

#[test]
fn nym_operation_keys_are_sorted() {
    assert_eq!(
        nym_operation("dest", Some("vk"), Some("al"), Some("TGB")).ok().unwrap(),
        "{\"alias\":\"al\",\"dest\":\"dest\",\"role\":\"100\",\"type\":\"1\",\"verkey\":\"vk\"}"
    );
    assert_eq!(nym_operation("d", Some("vk"), None, None).ok().unwrap(), "{\"dest\":\"d\",\"type\":\"1\",\"verkey\":\"vk\"}");
}

#[test]
fn attrib_members_in_order() {
    assert_eq!(
        attrib_operation("dest", Some("h"), Some("r"), Some("e")),
        "{\"type\":\"100\",\"dest\":\"dest\",\"hash\":\"h\",\"raw\":\"r\",\"enc\":\"e\"}"
    );
    assert_eq!(attrib_operation("dest", None, None, Some("e")), "{\"type\":\"100\",\"dest\":\"dest\",\"enc\":\"e\"}");
    let m = structure_message(LedgerService::new().build_attrib_request("identifier", "dest", None, None, None));
    assert_eq!(m, "Either raw or hash or enc must be specified");
}

#[test]
fn strings_are_escaped() {
    let r = LedgerService::new()
        .build_get_attrib_request("identifier", "dest", "a\"b\\c\nd\te\u{1}f\u{8}\u{c}\r/\u{7f}é")
        .unwrap();
    assert!(r.contains(r#""raw":"a\"b\\c\nd\te\u0001f\b\f\r/"#), "{}", r);
    assert!(r.contains("\u{7f}é\"}"), "{}", r);
}

#[test]
fn integers_are_decimal() {
    assert_eq!(get_txn_operation(-17), "{\"type\":\"3\",\"data\":-17}");
    assert_eq!(get_txn_operation(i32::MIN), "{\"type\":\"3\",\"data\":-2147483648}");
    assert_eq!(
        get_claim_def_operation(0, "CL", "origin"),
        "{\"type\":\"108\",\"ref\":0,\"signature_type\":\"CL\",\"origin\":\"origin\"}"
    );
}

#[test]
fn json_values_are_written_compactly() {
    let v = JsonValue::Object(vec![
        ("a".to_string(), JsonValue::Array(vec![JsonValue::Int(1), JsonValue::Null, JsonValue::Bool(true)])),
        ("b\"".to_string(), JsonValue::Str("x\ny".to_string())),
        ("c".to_string(), JsonValue::Object(vec![])),
        ("d".to_string(), JsonValue::Float("1.5".to_string())),
        ("e".to_string(), JsonValue::Array(vec![])),
    ]);
    assert_eq!(to_json_string(&v), "{\"a\":[1,null,true],\"b\\\"\":\"x\\ny\",\"c\":{},\"d\":1.5,\"e\":[]}");
}

#[test]
fn parsed_json_writes_back() {
    // the claim definition data carries its keys in the order they were given
    let d = ClaimDefOperationData::from_json(
        " { \"primary\" : {\"b\": [1, -2, 3.25, \"s\"], \"a\": {\"y\": false, \"x\": null}} } ",
    )
    .ok()
    .unwrap();
    assert_eq!(d.primary, "{\"b\":[1,-2,3.25,\"s\"],\"a\":{\"y\":false,\"x\":null}}");
    assert!(d.revocation.is_none());
    assert!(ClaimDefOperationData::from_json("{").is_err());
    assert!(SchemaOperationData::from_json("[1,]").is_err());
}

#[test]
fn schema_data_errors() {
    assert_eq!(SchemaOperationData::from_json("{\"name\":\"n\"}").err().unwrap(), "missing field `version`");
    assert_eq!(
        SchemaOperationData::from_json("{\"name\":\"n\",\"version\":\"1\",\"attr_names\":[1]}").err().unwrap(),
        "invalid type: integer `1`, expected a string"
    );
    assert_eq!(SchemaOperationData::from_json("[1]").err().unwrap(), "invalid type: integer `1`, expected a string");
    assert_eq!(SchemaOperationData::from_json("7").err().unwrap(), "invalid type: integer `7`, expected struct SchemaOperationData");
    let m = structure_message(LedgerService::new().build_schema_request("identifier", "{\"name\":1}"));
    assert_eq!(m, "Invalid data json: invalid type: integer `1`, expected a string");
    let m = structure_message(LedgerService::new().build_schema_request("identifier", "not json"));
    assert!(m.starts_with("Invalid data json: "), "{}", m);
    let d = SchemaOperationData::from_json("{\"attr_names\":[],\"version\":\"2\",\"name\":\"s\",\"x\":0}").ok().unwrap();
    assert_eq!(d.to_json(), "{\"name\":\"s\",\"version\":\"2\",\"attr_names\":[]}");
}

#[test]
fn node_data_types_are_checked() {
    assert_eq!(
        NodeOperationData::from_json("{\"node_port\":\"1\"}").err().unwrap(),
        "invalid type: string \"1\", expected i32"
    );
    assert_eq!(
        NodeOperationData::from_json("{\"node_port\":3000000000}").err().unwrap(),
        "invalid value: integer `3000000000`, expected i32"
    );
    assert_eq!(
        NodeOperationData::from_json("{\"client_port\":1.0}").err().unwrap(),
        "invalid type: floating point `1.0`, expected i32"
    );
    let d = NodeOperationData::from_json("{\"alias\":\"n\",\"node_ip\":null,\"client_port\":-3}").ok().unwrap();
    assert!(!d.is_empty());
    assert_eq!(d.to_json(), "{\"client_port\":-3,\"alias\":\"n\"}");
    let m = structure_message(LedgerService::new().build_node_request("identifier", "dest", "{}"));
    assert_eq!(m, "Invalid data json: all fields missed at once");
    let m = structure_message(LedgerService::new().build_node_request("identifier", "dest", "{\"services\":\"VALIDATOR\"}"));
    assert_eq!(m, "Invalid data json: invalid type: string \"VALIDATOR\", expected a sequence");
}

#[test]
fn claim_def_request_carries_the_keys() {
    let s = LedgerService::new();
    let r = s
        .build_claim_def_request("identifier", 7, "CL", "{\"primary\":{\"z\":\"2\",\"n\":\"1\"},\"revocation\":null}")
        .unwrap();
    assert!(
        r.contains("\"operation\":{\"ref\":7,\"data\":{\"primary\":{\"z\":\"2\",\"n\":\"1\"},\"revocation\":null},\"type\":\"102\",\"signature_type\":\"CL\"}"),
        "{}",
        r
    );
    let d = ClaimDefOperationData::from_json("{\"primary\":{},\"revocation\":{\"g\":\"3\"}}").ok().unwrap();
    assert_eq!(d.to_json(), "{\"primary\":{},\"revocation\":{\"g\":\"3\"}}");
    assert_eq!(ClaimDefOperationData::from_json("{}").err().unwrap(), "missing field `primary`");
    assert_eq!(
        ClaimDefOperationData::from_json("{\"primary\":1}").err().unwrap(),
        "invalid type: integer `1`, expected struct PublicKey"
    );
    assert_eq!(
        ClaimDefOperationData::from_json("{\"primary\":{},\"revocation\":true}").err().unwrap(),
        "invalid type: boolean `true`, expected struct RevocationPublicKey"
    );
    assert!(s.build_claim_def_request("identifier", 7, "CL", "{}").is_err());
}

#[test]
fn requests_for_one_input_differ_only_in_their_id() {
    let s = LedgerService::new();
    let a = s.build_get_txn_request("identifier", 9).unwrap();
    let b = s.build_get_txn_request("identifier", 9).unwrap();
    assert_eq!(after_req_id(&a), after_req_id(&b));
}

#[test]
fn distinct_parts_give_distinct_requests() {
    let a = Request::build_request(1, "a\"b", "{}");
    let b = Request::build_request(1, "a\\\"b", "{}");
    let c = Request::build_request(10, "a\"b", "{}");
    let d = Request::build_request(1, "a\"b", "[]");
    assert_ne!(a, b);
    assert_ne!(a, c);
    assert_ne!(a, d);
    assert_eq!(a, "{\"reqId\":1,\"identifier\":\"a\\\"b\",\"operation\":{},\"protocolVersion\":1}");
    assert_eq!(b, "{\"reqId\":1,\"identifier\":\"a\\\\\\\"b\",\"operation\":{},\"protocolVersion\":1}");
}

#[test]
fn data_read_from_given_values() {
    let v = JsonValue::Object(vec![
        ("node_port".to_string(), JsonValue::Int(9701)),
        ("services".to_string(), JsonValue::Array(vec![JsonValue::Str("VALIDATOR".to_string())])),
        ("client_ip".to_string(), JsonValue::Str("ip".to_string())),
    ]);
    let d = NodeOperationData::from_value(&v).ok().unwrap();
    assert_eq!(d.to_json(), "{\"node_port\":9701,\"client_ip\":\"ip\",\"services\":[\"VALIDATOR\"]}");
    assert_eq!(
        NodeOperationData::from_value(&JsonValue::Array(vec![])).err().unwrap(),
        "invalid length 0, expected struct NodeOperationData with 7 elements"
    );
    let g = JsonValue::Object(vec![
        ("version".to_string(), JsonValue::Str("1.0".to_string())),
        ("name".to_string(), JsonValue::Str("gvt".to_string())),
    ]);
    assert_eq!(GetSchemaOperationData::from_value(&g).ok().unwrap().to_json(), "{\"name\":\"gvt\",\"version\":\"1.0\"}");
    let bad = JsonValue::Object(vec![("name".to_string(), JsonValue::Null)]);
    assert_eq!(SchemaOperationData::from_value(&bad).err().unwrap(), "invalid type: null, expected a string");
    let c = JsonValue::Object(vec![("primary".to_string(), JsonValue::Object(vec![("n".to_string(), JsonValue::Float("1e3".to_string()))]))]);
    assert_eq!(ClaimDefOperationData::from_value(&c).ok().unwrap().to_json(), "{\"primary\":{\"n\":1e3},\"revocation\":null}");
}

#[test]
fn data_given_as_arrays() {
    let d = SchemaOperationData::from_json("[\"gvt\", \"1.0\", [\"age\", \"sex\"]]").ok().unwrap();
    assert_eq!(d.to_json(), "{\"name\":\"gvt\",\"version\":\"1.0\",\"attr_names\":[\"age\",\"sex\"]}");
    assert_eq!(
        SchemaOperationData::from_json("[\"gvt\", \"1.0\"]").err().unwrap(),
        "invalid length 2, expected struct SchemaOperationData with 3 elements"
    );
    assert_eq!(
        GetSchemaOperationData::from_json("[\"gvt\", \"1.0\", 3]").err().unwrap(),
        "trailing characters"
    );
    let n = NodeOperationData::from_json("[null, 9702, null, null, \"Node1\", null, null]").ok().unwrap();
    assert_eq!(n.to_json(), "{\"node_port\":9702,\"alias\":\"Node1\"}");
    let c = ClaimDefOperationData::from_json("[[\"1\"], null]").ok().unwrap();
    assert_eq!(c.to_json(), "{\"primary\":[\"1\"],\"revocation\":null}");
    let r = LedgerService::new()
        .build_get_schema_request("identifier", "identifier", "[\"gvt\",\"1.0\"]")
        .unwrap();
    assert!(r.contains("\"data\":{\"name\":\"gvt\",\"version\":\"1.0\"}"), "{}", r);
}

#[test]
fn first_wrong_member_in_the_given_order_is_reported() {
    assert_eq!(
        SchemaOperationData::from_json("{\"version\":true,\"name\":2}").err().unwrap(),
        "invalid type: boolean `true`, expected a string"
    );
    // a wrong value is reported before a missing field
    assert_eq!(
        SchemaOperationData::from_json("{\"attr_names\":[\"a\",false]}").err().unwrap(),
        "invalid type: boolean `false`, expected a string"
    );
    assert_eq!(
        SchemaOperationData::from_json("{\"attr_names\":[],\"other\":1}").err().unwrap(),
        "missing field `name`"
    );
    assert_eq!(
        GetSchemaOperationData::from_json("{\"name\":\"a\\\"b\"}").err().unwrap(),
        "missing field `version`"
    );
    assert_eq!(
        GetSchemaOperationData::from_json("{\"name\":\"a\\nb\",\"version\":{}}").err().unwrap(),
        "invalid type: map, expected a string"
    );
    assert_eq!(
        NodeOperationData::from_json("{\"alias\":\"tab\\there\"}").ok().unwrap().to_json(),
        "{\"alias\":\"tab\\there\"}"
    );
    assert_eq!(
        NodeOperationData::from_json("{\"alias\":[\"x\"]}").err().unwrap(),
        "invalid type: sequence, expected a string"
    );
    assert_eq!(
        NodeOperationData::from_json("{\"services\":[\"a\\\"q\", 1]}").err().unwrap(),
        "invalid type: integer `1`, expected a string"
    );
    assert_eq!(
        NodeOperationData::from_json("{\"node_port\":\"x\\\"y\"}").err().unwrap(),
        "invalid type: string \"x\\\"y\", expected i32"
    );
}

/// serde_json's own message, without the position it appends.
fn without_position(m: String) -> String {
    match m.rfind(" at line ") {
        Some(i) => m[..i].to_string(),
        None => m,
    }
}

#[test]
fn value_messages_match_serde_json() {
    for text in ["1e20", "1.0", "-0.5", "123456789012345678901234567890"] {
        let expected = without_position(serde_json::from_str::<i32>(text).unwrap_err().to_string());
        let data = format!("{{\"node_port\":{}}}", text);
        assert_eq!(NodeOperationData::from_json(&data).err().unwrap(), expected, "{}", text);
    }
    assert_eq!(
        NodeOperationData::from_json("{\"client_port\":1e20}").err().unwrap(),
        "invalid type: floating point `1e+20`, expected i32"
    );
    for text in ["\"a\\\"b\"", "true", "[]", "{}"] {
        let expected = without_position(serde_json::from_str::<i32>(text).unwrap_err().to_string());
        let data = format!("{{\"node_port\":{}}}", text);
        assert_eq!(NodeOperationData::from_json(&data).err().unwrap(), expected, "{}", text);
    }
}
