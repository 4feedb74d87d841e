use indy_ledger::LedgerService;

#[test]
fn build_nym_request_works_for_only_required_fields() {
    let ledger_service = LedgerService::new();
    let identifier = "identifier";
    let dest = "dest";

    let expected_result = r#""identifier":"identifier","operation":{"dest":"dest","type":"1"},"protocolVersion":1"#;

    let nym_request = ledger_service.build_nym_request(identifier, dest, None, None, None);
    assert!(nym_request.is_ok());
    let nym_request = nym_request.unwrap();
    assert!(nym_request.contains(expected_result));
}

#[test]
fn build_nym_request_works_for_empty_role() {
    let ledger_service = LedgerService::new();
    let identifier = "identifier";
    let dest = "dest";

    let expected_result = r#""identifier":"identifier","operation":{"dest":"dest","role":null,"type":"1"},"protocolVersion":1"#;

    let nym_request = ledger_service.build_nym_request(identifier, dest, None, None, Some("")).unwrap();
    assert!(nym_request.contains(expected_result));
}

#[test]
fn build_nym_request_works_for_optional_fields() {
    let ledger_service = LedgerService::new();
    let identifier = "identifier";
    let dest = "dest";
    let verkey = "verkey";
    let alias = "some_alias";

    let expected_result = r#""identifier":"identifier","operation":{"alias":"some_alias","dest":"dest","role":null,"type":"1","verkey":"verkey"},"protocolVersion":1"#;

    let nym_request = ledger_service.build_nym_request(identifier, dest, Some(verkey), Some(alias), Some(""));
    assert!(nym_request.is_ok());
    let nym_request = nym_request.unwrap();
    assert!(nym_request.contains(expected_result));
}

#[test]
fn build_get_nym_request_works() {
    let ledger_service = LedgerService::new();
    let identifier = "identifier";
    let dest = "dest";

    let expected_result = r#""identifier":"identifier","operation":{"type":"105","dest":"dest"},"protocolVersion":1"#;

    let get_nym_request = ledger_service.build_get_nym_request(identifier, dest);
    assert!(get_nym_request.is_ok());
    let get_nym_request = get_nym_request.unwrap();
    assert!(get_nym_request.contains(expected_result));
}

#[test]
fn build_get_ddo_request_works() {
    let ledger_service = LedgerService::new();
    let identifier = "identifier";
    let dest = "dest";

    let expected_result = r#""identifier":"identifier","operation":{"type":"120","dest":"dest"},"protocolVersion":1"#;

    let get_ddo_request = ledger_service.build_get_ddo_request(identifier, dest);
    assert!(get_ddo_request.is_ok());
    let get_ddo_request = get_ddo_request.unwrap();
    assert!(get_ddo_request.contains(expected_result));
}

#[test]
fn build_attrib_request_works_for_miss_attrib_field() {
    let ledger_service = LedgerService::new();
    let identifier = "identifier";
    let dest = "dest";

    let attrib_request = ledger_service.build_attrib_request(identifier, dest, None, None, None);
    assert!(attrib_request.is_err());
}

#[test]
fn build_attrib_request_works_for_hash_field() {
    let ledger_service = LedgerService::new();
    let identifier = "identifier";
    let dest = "dest";
    let hash = "hash";

    let expected_result = r#""identifier":"identifier","operation":{"type":"100","dest":"dest","hash":"hash"},"protocolVersion":1"#;

    let attrib_request = ledger_service.build_attrib_request(identifier, dest, Some(hash), None, None);
    assert!(attrib_request.is_ok());
    let attrib_request = attrib_request.unwrap();
    assert!(attrib_request.contains(expected_result));
}

#[test]
fn build_get_attrib_request_works() {
    let ledger_service = LedgerService::new();
    let identifier = "identifier";
    let dest = "dest";
    let raw = "raw";

    let expected_result = r#""identifier":"identifier","operation":{"type":"104","dest":"dest","raw":"raw"},"protocolVersion":1"#;

    let get_attrib_request = ledger_service.build_get_attrib_request(identifier, dest, raw);
    assert!(get_attrib_request.is_ok());
    let get_attrib_request = get_attrib_request.unwrap();
    assert!(get_attrib_request.contains(expected_result));
}

#[test]
fn build_schema_request_works_for_wrong_data() {
    let ledger_service = LedgerService::new();
    let identifier = "identifier";
    let data = r#"{"name":"name"}"#;

    let get_attrib_request = ledger_service.build_schema_request(identifier, data);
    assert!(get_attrib_request.is_err());
}

#[test]
fn build_schema_request_works_for_correct_data() {
    let ledger_service = LedgerService::new();
    let identifier = "identifier";
    let data = r#"{"name":"name", "version":"1.0", "attr_names":["name","male"]}"#;

    let expected_result = r#""operation":{"type":"101","data":{"name":"name","version":"1.0","attr_names":["name","male"]}},"protocolVersion":1"#;

    let schema_request = ledger_service.build_schema_request(identifier, data);
    let schema_request = schema_request.unwrap();
    assert!(schema_request.contains(expected_result));
}

#[test]
fn build_get_schema_request_works_for_wrong_data() {
    let ledger_service = LedgerService::new();
    let identifier = "identifier";
    let data = r#"{"name":"name","attr_names":["name","male"]}"#;

    let get_schema_request = ledger_service.build_get_schema_request(identifier, identifier, data);
    assert!(get_schema_request.is_err());
}

#[test]
fn build_get_schema_request_works_for_correct_data() {
    let ledger_service = LedgerService::new();
    let identifier = "identifier";
    let data = r#"{"name":"name","version":"1.0"}"#;

    let expected_result = r#""identifier":"identifier","operation":{"type":"107","dest":"identifier","data":{"name":"name","version":"1.0"}},"protocolVersion":1"#;

    let get_schema_request = ledger_service.build_get_schema_request(identifier, identifier, data);
    assert!(get_schema_request.is_ok());
    let get_schema_request = get_schema_request.unwrap();
    assert!(get_schema_request.contains(expected_result));
}

#[test]
fn build_get_claim_def_request_works() {
    let ledger_service = LedgerService::new();
    let identifier = "identifier";
    let _ref = 1;
    let signature_type = "signature_type";
    let origin = "origin";

    let expected_result = r#""identifier":"identifier","operation":{"type":"108","ref":1,"signature_type":"signature_type","origin":"origin"},"protocolVersion":1"#;

    let get_claim_def_request = ledger_service.build_get_claim_def_request(identifier, _ref, signature_type, origin);
    assert!(get_claim_def_request.is_ok());
    let get_claim_def_request = get_claim_def_request.unwrap();
    assert!(get_claim_def_request.contains(expected_result));
}

#[test]
fn build_node_request_works() {
    let ledger_service = LedgerService::new();
    let identifier = "identifier";
    let dest = "dest";
    let data = r#"{"node_ip":"ip", "node_port": 1, "client_ip": "ip", "client_port": 1, "alias":"some", "services": ["VALIDATOR"], "blskey":"blskey"}"#;

    let expected_result = r#""identifier":"identifier","operation":{"type":"0","dest":"dest","data":{"node_ip":"ip","node_port":1,"client_ip":"ip","client_port":1,"alias":"some","services":["VALIDATOR"],"blskey":"blskey"}},"protocolVersion":1"#;

    let node_request = ledger_service.build_node_request(identifier, dest, data);
    assert!(node_request.is_ok());
    let node_request = node_request.unwrap();
    assert!(node_request.contains(expected_result));
}

#[test]
fn build_node_request_works_for_wrong_data() {
    let ledger_service = LedgerService::new();
    let identifier = "identifier";
    let dest = "dest";

    let data = r#"{ }"#;
    let node_request = ledger_service.build_node_request(identifier, dest, data);
    assert!(node_request.is_err());

    let data = r#"{ "unexpected_param": 1 }"#;
    let node_request = ledger_service.build_node_request(identifier, dest, data);
    assert!(node_request.is_err());
}

#[test]
fn build_get_txn_request_works() {
    let ledger_service = LedgerService::new();
    let identifier = "identifier";

    let expected_result = r#""identifier":"identifier","operation":{"type":"3","data":1},"protocolVersion":1"#;

    let get_txn_request = ledger_service.build_get_txn_request(identifier, 1);
    assert!(get_txn_request.is_ok());
    let get_txn_request = get_txn_request.unwrap();
    assert!(get_txn_request.contains(expected_result));
}
