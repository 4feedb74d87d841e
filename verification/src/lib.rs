//! Builds the JSON requests that a client sends to an Indy ledger: NYM,
//! ATTRIB, SCHEMA, CLAIM_DEF and NODE transactions and the queries that read
//! them back.
use vstd::prelude::*;

pub mod base58;
pub mod constants;
pub mod errors;
pub mod json;
pub mod reader;
pub mod types;

use crate::base58::{base58_decoded, is_base58, Base58};
use crate::errors::{seen, CommonError};
use crate::types::{
    attrib_operation, attrib_operation_text, claim_def_data_from_json, claim_def_data_text,
    claim_def_operation, claim_def_operation_text, get_attrib_operation,
    get_attrib_operation_text, get_claim_def_operation, get_claim_def_operation_text,
    get_ddo_operation, get_ddo_operation_text, get_nym_operation, get_nym_operation_text,
    get_schema_data_from_json, get_schema_data_text, get_schema_operation,
    get_schema_operation_text, get_txn_operation, get_txn_operation_text, node_data_from_json,
    node_data_is_empty, node_data_text, node_operation, node_operation_text, nym_operation,
    nym_operation_text, request_text, schema_data_from_json, schema_data_text, schema_operation,
    schema_operation_text, str_view, ClaimDefOperationData, GetSchemaOperationData,
    NodeDataView, NodeOperationData, Request, SchemaOperationData,
};

verus! {

/// The current time by `time::get_time()`, as seconds and nanoseconds since
/// the Unix epoch. The claim: the nanoseconds are below one second
/// (`Timespec::new` asserts it of what it returns); of the seconds nothing
/// is claimed, they are the clock's.
#[verifier::external_body]
fn current_time() -> (t: (i64, i32))
    ensures
        0 <= t.1 < 1_000_000_000,
{
    let now = time::get_time();
    (now.sec, now.nsec)
}

/// The request id that a time stands for: its nanoseconds since the epoch,
/// taken modulo 2^64 as a `u64`'s arithmetic wraps.
pub open spec fn request_id_of(sec: i64, nsec: i32) -> u64 {
    (sec as u64).wrapping_mul(1_000_000_000u64).wrapping_add(nsec as u64)
}

/// The request id that a time stands for.
pub fn request_id(sec: i64, nsec: i32) -> (r: u64)
    ensures
        r == request_id_of(sec, nsec),
{
    (sec as u64).wrapping_mul(1_000_000_000u64).wrapping_add(nsec as u64)
}

/// The message of the decoder's error when `text` is not base58.
pub open spec fn base58_error(text: Seq<char>) -> Option<Seq<char>> {
    match base58_decoded(text) {
        Err(m) => Some(m),
        Ok(_) => None,
    }
}

/// The message of an error in data given as JSON.
pub open spec fn invalid_data_message(m: Seq<char>) -> Seq<char> {
    "Invalid data json: "@ + m
}

/// The message for NODE data with none of its fields.
pub open spec fn empty_node_data_message() -> Seq<char> {
    "Invalid data json: all fields missed at once"@
}

/// The message for an ATTRIB request with no attribute.
pub open spec fn missing_attribute_message() -> Seq<char> {
    "Either raw or hash or enc must be specified"@
}

/// The GET_NYM request with id `req_id`: the identifier and dest must be
/// base58 (else the decoder's message for the first that is not).
pub open spec fn get_nym_request_outcome(req_id: u64, identifier: Seq<char>, dest: Seq<char>) -> Result<
    Seq<char>,
    Seq<char>,
> {
    match (base58_error(identifier), base58_error(dest)) {
        (Some(m), _) => Err(m),
        (None, Some(m)) => Err(m),
        (None, None) => Ok(request_text(req_id as int, identifier, get_nym_operation_text(dest))),
    }
}

/// The GET_DDO request with id `req_id`.
pub open spec fn get_ddo_request_outcome(req_id: u64, identifier: Seq<char>, dest: Seq<char>) -> Result<
    Seq<char>,
    Seq<char>,
> {
    match (base58_error(identifier), base58_error(dest)) {
        (Some(m), _) => Err(m),
        (None, Some(m)) => Err(m),
        (None, None) => Ok(request_text(req_id as int, identifier, get_ddo_operation_text(dest))),
    }
}

/// The NYM request with id `req_id`: identifier and dest must be base58,
/// then the role must be one the ledger knows.
pub open spec fn nym_request_outcome(
    req_id: u64,
    identifier: Seq<char>,
    dest: Seq<char>,
    verkey: Option<Seq<char>>,
    alias: Option<Seq<char>>,
    role: Option<Seq<char>>,
) -> Result<Seq<char>, Seq<char>> {
    match (base58_error(identifier), base58_error(dest)) {
        (Some(m), _) => Err(m),
        (None, Some(m)) => Err(m),
        (None, None) => match nym_operation_text(dest, verkey, alias, role) {
            Err(m) => Err(m),
            Ok(op) => Ok(request_text(req_id as int, identifier, op)),
        },
    }
}

/// The ATTRIB request with id `req_id`: identifier and dest must be base58,
/// then one of hash, raw and enc must be given.
pub open spec fn attrib_request_outcome(
    req_id: u64,
    identifier: Seq<char>,
    dest: Seq<char>,
    hash: Option<Seq<char>>,
    raw: Option<Seq<char>>,
    enc: Option<Seq<char>>,
) -> Result<Seq<char>, Seq<char>> {
    match (base58_error(identifier), base58_error(dest)) {
        (Some(m), _) => Err(m),
        (None, Some(m)) => Err(m),
        (None, None) => if hash is None && raw is None && enc is None {
            Err(missing_attribute_message())
        } else {
            Ok(request_text(req_id as int, identifier, attrib_operation_text(dest, hash, raw, enc)))
        },
    }
}

/// The GET_ATTRIB request with id `req_id`.
pub open spec fn get_attrib_request_outcome(
    req_id: u64,
    identifier: Seq<char>,
    dest: Seq<char>,
    raw: Seq<char>,
) -> Result<Seq<char>, Seq<char>> {
    match (base58_error(identifier), base58_error(dest)) {
        (Some(m), _) => Err(m),
        (None, Some(m)) => Err(m),
        (None, None) => Ok(
            request_text(req_id as int, identifier, get_attrib_operation_text(dest, raw)),
        ),
    }
}

/// The SCHEMA request with id `req_id`: the identifier must be base58, then
/// the data must be schema data.
pub open spec fn schema_request_outcome(req_id: u64, identifier: Seq<char>, data: Seq<char>) -> Result<
    Seq<char>,
    Seq<char>,
> {
    match base58_error(identifier) {
        Some(m) => Err(m),
        None => match schema_data_from_json(data) {
            Err(m) => Err(invalid_data_message(m)),
            Ok(d) => Ok(
                request_text(req_id as int, identifier, schema_operation_text(schema_data_text(d))),
            ),
        },
    }
}

/// The GET_SCHEMA request with id `req_id`: identifier and dest must be
/// base58, then the data must be GET_SCHEMA data.
pub open spec fn get_schema_request_outcome(
    req_id: u64,
    identifier: Seq<char>,
    dest: Seq<char>,
    data: Seq<char>,
) -> Result<Seq<char>, Seq<char>> {
    match (base58_error(identifier), base58_error(dest)) {
        (Some(m), _) => Err(m),
        (None, Some(m)) => Err(m),
        (None, None) => match get_schema_data_from_json(data) {
            Err(m) => Err(invalid_data_message(m)),
            Ok(d) => Ok(
                request_text(
                    req_id as int,
                    identifier,
                    get_schema_operation_text(dest, get_schema_data_text(d)),
                ),
            ),
        },
    }
}

/// The CLAIM_DEF request with id `req_id`: the identifier must be base58,
/// then the data must be claim definition data.
pub open spec fn claim_def_request_outcome(
    req_id: u64,
    identifier: Seq<char>,
    reference: i32,
    signature_type: Seq<char>,
    data: Seq<char>,
) -> Result<Seq<char>, Seq<char>> {
    match base58_error(identifier) {
        Some(m) => Err(m),
        None => match claim_def_data_from_json(data) {
            Err(m) => Err(invalid_data_message(m)),
            Ok(d) => Ok(
                request_text(
                    req_id as int,
                    identifier,
                    claim_def_operation_text(reference, signature_type, claim_def_data_text(d)),
                ),
            ),
        },
    }
}

/// The GET_CLAIM_DEF request with id `req_id`: identifier and origin must
/// be base58.
pub open spec fn get_claim_def_request_outcome(
    req_id: u64,
    identifier: Seq<char>,
    reference: i32,
    signature_type: Seq<char>,
    origin: Seq<char>,
) -> Result<Seq<char>, Seq<char>> {
    match (base58_error(identifier), base58_error(origin)) {
        (Some(m), _) => Err(m),
        (None, Some(m)) => Err(m),
        (None, None) => Ok(
            request_text(
                req_id as int,
                identifier,
                get_claim_def_operation_text(reference, signature_type, origin),
            ),
        ),
    }
}

/// The NODE request with id `req_id`: identifier and dest must be base58,
/// then the data must be NODE data with at least one field.
pub open spec fn node_request_outcome(
    req_id: u64,
    identifier: Seq<char>,
    dest: Seq<char>,
    data: Seq<char>,
) -> Result<Seq<char>, Seq<char>> {
    match (base58_error(identifier), base58_error(dest)) {
        (Some(m), _) => Err(m),
        (None, Some(m)) => Err(m),
        (None, None) => match node_data_from_json(data) {
            Err(m) => Err(invalid_data_message(m)),
            Ok(d) => if node_data_is_empty(d) {
                Err(empty_node_data_message())
            } else {
                Ok(request_text(req_id as int, identifier, node_operation_text(dest, node_data_text(d))))
            },
        },
    }
}

/// The GET_TXN request with id `req_id`: the identifier must be base58.
pub open spec fn get_txn_request_outcome(req_id: u64, identifier: Seq<char>, data: i32) -> Result<
    Seq<char>,
    Seq<char>,
> {
    match base58_error(identifier) {
        Some(m) => Err(m),
        None => Ok(request_text(req_id as int, identifier, get_txn_operation_text(data))),
    }
}

/// Two outcomes of one builder on the same inputs with the request ids
/// `id1` and `id2`: the same error, or requests of `identifier` that carry
/// the same operation.
pub open spec fn same_but_request_id(
    o1: Result<Seq<char>, Seq<char>>,
    o2: Result<Seq<char>, Seq<char>>,
    id1: u64,
    id2: u64,
    identifier: Seq<char>,
) -> bool {
    match (o1, o2) {
        (Err(a), Err(b)) => a == b,
        (Ok(t1), Ok(t2)) => exists|op: Seq<char>|
            t1 == #[trigger] request_text(id1 as int, identifier, op) && t2 == request_text(
                id2 as int,
                identifier,
                op,
            ),
        _ => false,
    }
}

/// Every builder, given the same inputs twice, refuses both times with the
/// same error or builds two requests that differ in their request id alone.
pub proof fn lemma_builders_differ_only_in_request_id(
    id1: u64,
    id2: u64,
    identifier: Seq<char>,
    dest: Seq<char>,
    verkey: Option<Seq<char>>,
    alias: Option<Seq<char>>,
    role: Option<Seq<char>>,
    hash: Option<Seq<char>>,
    raw: Option<Seq<char>>,
    enc: Option<Seq<char>>,
    raw_name: Seq<char>,
    data: Seq<char>,
    reference: i32,
    signature_type: Seq<char>,
    origin: Seq<char>,
    txn: i32,
)
    ensures
        same_but_request_id(
            nym_request_outcome(id1, identifier, dest, verkey, alias, role),
            nym_request_outcome(id2, identifier, dest, verkey, alias, role),
            id1,
            id2,
            identifier,
        ),
        same_but_request_id(
            get_nym_request_outcome(id1, identifier, dest),
            get_nym_request_outcome(id2, identifier, dest),
            id1,
            id2,
            identifier,
        ),
        same_but_request_id(
            get_ddo_request_outcome(id1, identifier, dest),
            get_ddo_request_outcome(id2, identifier, dest),
            id1,
            id2,
            identifier,
        ),
        same_but_request_id(
            attrib_request_outcome(id1, identifier, dest, hash, raw, enc),
            attrib_request_outcome(id2, identifier, dest, hash, raw, enc),
            id1,
            id2,
            identifier,
        ),
        same_but_request_id(
            get_attrib_request_outcome(id1, identifier, dest, raw_name),
            get_attrib_request_outcome(id2, identifier, dest, raw_name),
            id1,
            id2,
            identifier,
        ),
        same_but_request_id(
            schema_request_outcome(id1, identifier, data),
            schema_request_outcome(id2, identifier, data),
            id1,
            id2,
            identifier,
        ),
        same_but_request_id(
            get_schema_request_outcome(id1, identifier, dest, data),
            get_schema_request_outcome(id2, identifier, dest, data),
            id1,
            id2,
            identifier,
        ),
        same_but_request_id(
            claim_def_request_outcome(id1, identifier, reference, signature_type, data),
            claim_def_request_outcome(id2, identifier, reference, signature_type, data),
            id1,
            id2,
            identifier,
        ),
        same_but_request_id(
            get_claim_def_request_outcome(id1, identifier, reference, signature_type, origin),
            get_claim_def_request_outcome(id2, identifier, reference, signature_type, origin),
            id1,
            id2,
            identifier,
        ),
        same_but_request_id(
            node_request_outcome(id1, identifier, dest, data),
            node_request_outcome(id2, identifier, dest, data),
            id1,
            id2,
            identifier,
        ),
        same_but_request_id(
            get_txn_request_outcome(id1, identifier, txn),
            get_txn_request_outcome(id2, identifier, txn),
            id1,
            id2,
            identifier,
        ),
{
}

/// A NODE request is built, whatever its request id, when the identifier
/// and dest are base58 and the data read from JSON has any one of its seven
/// fields given (an alias and services alone, as when a node is demoted,
/// will do); it is refused as empty only when all seven are absent.
pub proof fn lemma_node_request_with_a_field_is_built(
    req_id: u64,
    identifier: Seq<char>,
    dest: Seq<char>,
    data: Seq<char>,
    d: NodeDataView,
)
    requires
        base58_error(identifier) is None,
        base58_error(dest) is None,
        node_data_from_json(data) == Ok::<NodeDataView, Seq<char>>(d),
    ensures
        d.node_ip is Some || d.node_port is Some || d.client_ip is Some || d.client_port is Some
            || d.alias is Some || d.services is Some || d.blskey is Some ==> node_request_outcome(
            req_id,
            identifier,
            dest,
            data,
        ) == Ok::<Seq<char>, Seq<char>>(
            request_text(req_id as int, identifier, node_operation_text(dest, node_data_text(d))),
        ),
        d.node_ip is None && d.node_port is None && d.client_ip is None && d.client_port is None
            && d.alias is None && d.services is None && d.blskey is None ==> node_request_outcome(
            req_id,
            identifier,
            dest,
            data,
        ) == Err::<Seq<char>, Seq<char>>(empty_node_data_message()),
{
}

/// The error of a base58 check, as the builders report it.
fn base58_check(text: &str) -> (r: Result<(), CommonError>)
    ensures
        r is Ok <==> is_base58(text@),
        match r {
            Ok(_) => base58_error(text@) is None,
            Err(e) => e is InvalidStructure && base58_error(text@) == Some(e->InvalidStructure_0@),
        },
{
    match Base58::decode(text) {
        Ok(_) => Ok(()),
        Err(e) => Err(e),
    }
}

/// `Invalid data json: ` and the message.
fn invalid_data(m: String) -> (r: CommonError)
    ensures
        r is InvalidStructure && r->InvalidStructure_0@ == invalid_data_message(m@),
{
    let mut text = String::from_str("Invalid data json: ");
    text.append(m.as_str());
    CommonError::InvalidStructure(text)
}

/// The service that builds the requests sent to an Indy ledger.
pub struct LedgerService {}

impl LedgerService {
    /// Creates the (stateless) ledger service.
    pub fn new() -> (service: LedgerService)
        ensures
            service == (LedgerService {}),
    {
        LedgerService {}
    }

    /// A fresh request id: the current time in nanoseconds since the epoch.
    fn get_req_id() -> (r: u64)
        ensures
            exists|sec: i64, nsec: i32| r == request_id_of(sec, nsec),
    {
        let sec = current_time().0;
        let nsec = current_time().1;
        request_id(sec, nsec)
    }

    /// The GET_NYM request that reads the NYM transaction of `dest`.
    pub fn build_get_nym_request(&self, identifier: &str, dest: &str) -> (r: Result<
        String,
        CommonError,
    >)
        ensures
            r is Ok <==> is_base58(identifier@) && is_base58(dest@),
            exists|req_id: u64|
                seen(r) == Some(#[trigger] get_nym_request_outcome(req_id, identifier@, dest@)),
    {
        if let Err(e) = base58_check(identifier) {
            assert(seen(Err(e)) == Some(get_nym_request_outcome(0, identifier@, dest@)));
            return Err(e);
        }
        if let Err(e) = base58_check(dest) {
            assert(seen(Err(e)) == Some(get_nym_request_outcome(0, identifier@, dest@)));
            return Err(e);
        }
        let operation = get_nym_operation(dest);
        let req_id = LedgerService::get_req_id();
        let r = Request::build_request(req_id, identifier, operation.as_str());
        assert(seen(Ok(r)) == Some(get_nym_request_outcome(req_id, identifier@, dest@)));
        Ok(r)
    }

    /// The GET_DDO request that reads the DDO of `dest`.
    pub fn build_get_ddo_request(&self, identifier: &str, dest: &str) -> (r: Result<
        String,
        CommonError,
    >)
        ensures
            r is Ok <==> is_base58(identifier@) && is_base58(dest@),
            exists|req_id: u64|
                seen(r) == Some(#[trigger] get_ddo_request_outcome(req_id, identifier@, dest@)),
    {
        if let Err(e) = base58_check(identifier) {
            assert(seen(Err(e)) == Some(get_ddo_request_outcome(0, identifier@, dest@)));
            return Err(e);
        }
        if let Err(e) = base58_check(dest) {
            assert(seen(Err(e)) == Some(get_ddo_request_outcome(0, identifier@, dest@)));
            return Err(e);
        }
        let operation = get_ddo_operation(dest);
        let req_id = LedgerService::get_req_id();
        let r = Request::build_request(req_id, identifier, operation.as_str());
        assert(seen(Ok(r)) == Some(get_ddo_request_outcome(req_id, identifier@, dest@)));
        Ok(r)
    }

    /// The NYM request that creates or updates `dest`, with its verkey,
    /// alias and role when they are given.
    pub fn build_nym_request(
        &self,
        identifier: &str,
        dest: &str,
        verkey: Option<&str>,
        alias: Option<&str>,
        role: Option<&str>,
    ) -> (r: Result<String, CommonError>)
        ensures
            r is Ok <==> is_base58(identifier@) && is_base58(dest@) && nym_operation_text(
                dest@,
                str_view(verkey),
                str_view(alias),
                str_view(role),
            ) is Ok,
            exists|req_id: u64|
                seen(r) == Some(
                    #[trigger] nym_request_outcome(
                        req_id,
                        identifier@,
                        dest@,
                        str_view(verkey),
                        str_view(alias),
                        str_view(role),
                    ),
                ),
    {
        let ghost outcome0 = nym_request_outcome(
            0,
            identifier@,
            dest@,
            str_view(verkey),
            str_view(alias),
            str_view(role),
        );
        if let Err(e) = base58_check(identifier) {
            assert(seen(Err(e)) == Some(outcome0));
            return Err(e);
        }
        if let Err(e) = base58_check(dest) {
            assert(seen(Err(e)) == Some(outcome0));
            return Err(e);
        }
        let req_id = LedgerService::get_req_id();
        let operation = match nym_operation(dest, verkey, alias, role) {
            Ok(op) => op,
            Err(m) => {
                let e = CommonError::InvalidStructure(m);
                assert(seen(Err(e)) == Some(outcome0));
                return Err(e);
            },
        };
        let r = Request::build_request(req_id, identifier, operation.as_str());
        assert(seen(Ok(r)) == Some(
            nym_request_outcome(
                req_id,
                identifier@,
                dest@,
                str_view(verkey),
                str_view(alias),
                str_view(role),
            ),
        ));
        Ok(r)
    }

    /// The ATTRIB request that sets an attribute of `dest`: its hash, its
    /// raw value or its encrypted value, of which one at least must be given.
    pub fn build_attrib_request(
        &self,
        identifier: &str,
        dest: &str,
        hash: Option<&str>,
        raw: Option<&str>,
        enc: Option<&str>,
    ) -> (r: Result<String, CommonError>)
        ensures
            r is Ok <==> is_base58(identifier@) && is_base58(dest@) && !(hash is None && raw is None
                && enc is None),
            exists|req_id: u64|
                seen(r) == Some(
                    #[trigger] attrib_request_outcome(
                        req_id,
                        identifier@,
                        dest@,
                        str_view(hash),
                        str_view(raw),
                        str_view(enc),
                    ),
                ),
    {
        let ghost outcome0 = attrib_request_outcome(
            0,
            identifier@,
            dest@,
            str_view(hash),
            str_view(raw),
            str_view(enc),
        );
        if let Err(e) = base58_check(identifier) {
            assert(seen(Err(e)) == Some(outcome0));
            return Err(e);
        }
        if let Err(e) = base58_check(dest) {
            assert(seen(Err(e)) == Some(outcome0));
            return Err(e);
        }
        if raw.is_none() && hash.is_none() && enc.is_none() {
            let e = CommonError::InvalidStructure(
                String::from_str("Either raw or hash or enc must be specified"),
            );
            assert(seen(Err(e)) == Some(outcome0));
            return Err(e);
        }
        let operation = attrib_operation(dest, hash, raw, enc);
        let req_id = LedgerService::get_req_id();
        let r = Request::build_request(req_id, identifier, operation.as_str());
        assert(seen(Ok(r)) == Some(
            attrib_request_outcome(
                req_id,
                identifier@,
                dest@,
                str_view(hash),
                str_view(raw),
                str_view(enc),
            ),
        ));
        Ok(r)
    }

    /// The GET_ATTRIB request that reads the attribute `raw` of `dest`.
    pub fn build_get_attrib_request(&self, identifier: &str, dest: &str, raw: &str) -> (r: Result<
        String,
        CommonError,
    >)
        ensures
            r is Ok <==> is_base58(identifier@) && is_base58(dest@),
            exists|req_id: u64|
                seen(r) == Some(
                    #[trigger] get_attrib_request_outcome(req_id, identifier@, dest@, raw@),
                ),
    {
        if let Err(e) = base58_check(identifier) {
            assert(seen(Err(e)) == Some(get_attrib_request_outcome(0, identifier@, dest@, raw@)));
            return Err(e);
        }
        if let Err(e) = base58_check(dest) {
            assert(seen(Err(e)) == Some(get_attrib_request_outcome(0, identifier@, dest@, raw@)));
            return Err(e);
        }
        let operation = get_attrib_operation(dest, raw);
        let req_id = LedgerService::get_req_id();
        let r = Request::build_request(req_id, identifier, operation.as_str());
        assert(seen(Ok(r)) == Some(get_attrib_request_outcome(req_id, identifier@, dest@, raw@)));
        Ok(r)
    }

    /// The SCHEMA request that writes the schema given as JSON in `data`.
    pub fn build_schema_request(&self, identifier: &str, data: &str) -> (r: Result<
        String,
        CommonError,
    >)
        ensures
            r is Ok <==> is_base58(identifier@) && schema_data_from_json(data@) is Ok,
            exists|req_id: u64|
                seen(r) == Some(#[trigger] schema_request_outcome(req_id, identifier@, data@)),
    {
        if let Err(e) = base58_check(identifier) {
            assert(seen(Err(e)) == Some(schema_request_outcome(0, identifier@, data@)));
            return Err(e);
        }
        let ghost data_text = data@;
        let data = match SchemaOperationData::from_json(data) {
            Ok(d) => d,
            Err(m) => {
                let e = invalid_data(m);
                assert(seen(Err(e)) == Some(schema_request_outcome(0, identifier@, data@)));
                return Err(e);
            },
        };
        let operation = schema_operation(&data);
        let req_id = LedgerService::get_req_id();
        let r = Request::build_request(req_id, identifier, operation.as_str());
        assert(seen(Ok(r)) == Some(schema_request_outcome(req_id, identifier@, data_text)));
        Ok(r)
    }

    /// The GET_SCHEMA request that reads the schema of `dest` named in `data`.
    pub fn build_get_schema_request(&self, identifier: &str, dest: &str, data: &str) -> (r: Result<
        String,
        CommonError,
    >)
        ensures
            r is Ok <==> is_base58(identifier@) && is_base58(dest@) && get_schema_data_from_json(
                data@,
            ) is Ok,
            exists|req_id: u64|
                seen(r) == Some(
                    #[trigger] get_schema_request_outcome(req_id, identifier@, dest@, data@),
                ),
    {
        let ghost outcome0 = get_schema_request_outcome(0, identifier@, dest@, data@);
        if let Err(e) = base58_check(identifier) {
            assert(seen(Err(e)) == Some(outcome0));
            return Err(e);
        }
        if let Err(e) = base58_check(dest) {
            assert(seen(Err(e)) == Some(outcome0));
            return Err(e);
        }
        let ghost data_text = data@;
        let data = match GetSchemaOperationData::from_json(data) {
            Ok(d) => d,
            Err(m) => {
                let e = invalid_data(m);
                assert(seen(Err(e)) == Some(outcome0));
                return Err(e);
            },
        };
        let operation = get_schema_operation(dest, &data);
        let req_id = LedgerService::get_req_id();
        let r = Request::build_request(req_id, identifier, operation.as_str());
        assert(seen(Ok(r)) == Some(
            get_schema_request_outcome(req_id, identifier@, dest@, data_text),
        ));
        Ok(r)
    }

    /// The CLAIM_DEF request that writes the claim definition given as JSON
    /// in `data`, for the schema with sequence number `_ref`.
    pub fn build_claim_def_request(
        &self,
        identifier: &str,
        _ref: i32,
        signature_type: &str,
        data: &str,
    ) -> (r: Result<String, CommonError>)
        ensures
            r is Ok <==> is_base58(identifier@) && claim_def_data_from_json(data@) is Ok,
            exists|req_id: u64|
                seen(r) == Some(
                    #[trigger] claim_def_request_outcome(
                        req_id,
                        identifier@,
                        _ref,
                        signature_type@,
                        data@,
                    ),
                ),
    {
        let ghost outcome0 = claim_def_request_outcome(
            0,
            identifier@,
            _ref,
            signature_type@,
            data@,
        );
        if let Err(e) = base58_check(identifier) {
            assert(seen(Err(e)) == Some(outcome0));
            return Err(e);
        }
        let ghost data_text = data@;
        let data = match ClaimDefOperationData::from_json(data) {
            Ok(d) => d,
            Err(m) => {
                let e = invalid_data(m);
                assert(seen(Err(e)) == Some(outcome0));
                return Err(e);
            },
        };
        let operation = claim_def_operation(_ref, signature_type, &data);
        let req_id = LedgerService::get_req_id();
        let r = Request::build_request(req_id, identifier, operation.as_str());
        assert(seen(Ok(r)) == Some(
            claim_def_request_outcome(req_id, identifier@, _ref, signature_type@, data_text),
        ));
        Ok(r)
    }

    /// The GET_CLAIM_DEF request that reads the claim definition that
    /// `origin` made for the schema with sequence number `_ref`.
    pub fn build_get_claim_def_request(
        &self,
        identifier: &str,
        _ref: i32,
        signature_type: &str,
        origin: &str,
    ) -> (r: Result<String, CommonError>)
        ensures
            r is Ok <==> is_base58(identifier@) && is_base58(origin@),
            exists|req_id: u64|
                seen(r) == Some(
                    #[trigger] get_claim_def_request_outcome(
                        req_id,
                        identifier@,
                        _ref,
                        signature_type@,
                        origin@,
                    ),
                ),
    {
        let ghost outcome0 = get_claim_def_request_outcome(
            0,
            identifier@,
            _ref,
            signature_type@,
            origin@,
        );
        if let Err(e) = base58_check(identifier) {
            assert(seen(Err(e)) == Some(outcome0));
            return Err(e);
        }
        if let Err(e) = base58_check(origin) {
            assert(seen(Err(e)) == Some(outcome0));
            return Err(e);
        }
        let operation = get_claim_def_operation(_ref, signature_type, origin);
        let req_id = LedgerService::get_req_id();
        let r = Request::build_request(req_id, identifier, operation.as_str());
        assert(seen(Ok(r)) == Some(
            get_claim_def_request_outcome(req_id, identifier@, _ref, signature_type@, origin@),
        ));
        Ok(r)
    }

    /// The NODE request that writes the data, given as JSON in `data`, of
    /// the node `dest`; at least one field of the data must be given.
    pub fn build_node_request(&self, identifier: &str, dest: &str, data: &str) -> (r: Result<
        String,
        CommonError,
    >)
        ensures
            r is Ok <==> is_base58(identifier@) && is_base58(dest@) && match node_data_from_json(
                data@,
            ) {
                Ok(d) => !node_data_is_empty(d),
                Err(_) => false,
            },
            exists|req_id: u64|
                seen(r) == Some(#[trigger] node_request_outcome(req_id, identifier@, dest@, data@)),
    {
        let ghost outcome0 = node_request_outcome(0, identifier@, dest@, data@);
        if let Err(e) = base58_check(identifier) {
            assert(seen(Err(e)) == Some(outcome0));
            return Err(e);
        }
        if let Err(e) = base58_check(dest) {
            assert(seen(Err(e)) == Some(outcome0));
            return Err(e);
        }
        let ghost data_text = data@;
        let data = match NodeOperationData::from_json(data) {
            Ok(d) => d,
            Err(m) => {
                let e = invalid_data(m);
                assert(seen(Err(e)) == Some(outcome0));
                return Err(e);
            },
        };
        if data.is_empty() {
            let e = CommonError::InvalidStructure(
                String::from_str("Invalid data json: all fields missed at once"),
            );
            assert(seen(Err(e)) == Some(outcome0));
            return Err(e);
        }
        let operation = node_operation(dest, &data);
        let req_id = LedgerService::get_req_id();
        let r = Request::build_request(req_id, identifier, operation.as_str());
        assert(seen(Ok(r)) == Some(node_request_outcome(req_id, identifier@, dest@, data_text)));
        Ok(r)
    }

    /// The GET_TXN request that reads the transaction with sequence number
    /// `data`.
    pub fn build_get_txn_request(&self, identifier: &str, data: i32) -> (r: Result<
        String,
        CommonError,
    >)
        ensures
            r is Ok <==> is_base58(identifier@),
            exists|req_id: u64|
                seen(r) == Some(#[trigger] get_txn_request_outcome(req_id, identifier@, data)),
    {
        if let Err(e) = base58_check(identifier) {
            assert(seen(Err(e)) == Some(get_txn_request_outcome(0, identifier@, data)));
            return Err(e);
        }
        let operation = get_txn_operation(data);
        let req_id = LedgerService::get_req_id();
        let r = Request::build_request(req_id, identifier, operation.as_str());
        assert(seen(Ok(r)) == Some(get_txn_request_outcome(req_id, identifier@, data)));
        Ok(r)
    }
}

} // verus!
