//! The JSON-RPC 2.0 envelope: building requests, decoding responses, and
//! the retry decisions each operation takes on an attempt's outcome.
//!
//! A response body is one of two mutually exclusive shapes, told apart
//! structurally: the error shape `{"error":{"code":..,"message":..}}` or
//! the result shape `{"id":..,"result":..}`. A body that fits both at
//! once is ambiguous and counts as a decode failure. The generic call
//! hands an error-shaped response to its caller as a typed [`RpcError`];
//! the height and mining-target calls fold it into the retry path, so they
//! only ever return a successful result.

use vstd::prelude::*;
use vstd::utf8::encode_utf8;
use vstd::string::StringSliceAdditionalSpecFns;
use crate::json::{
    Json,
    JVal,
    members_model,
    obj_lookup,
    obj_get,
    obj_take,
    escape,
    ser_json,
    write_json,
    push_str_bytes,
    push_escaped,
    lemma_members_model_index,
};
use crate::hex::{bytes_of_hex, hex_decode};

verus! {

/// A protocol-level failure the remote node returned.
#[derive(Debug)]
pub struct RpcError {
    pub code: i64,
    pub message: Option<String>,
}

/// The model of a protocol error: the code, and the message bytes where
/// one was given.
pub struct ErrModel {
    pub code: int,
    pub message: Option<Seq<u8>>,
}

impl View for RpcError {
    type V = ErrModel;

    open spec fn view(&self) -> ErrModel {
        ErrModel {
            code: self.code as int,
            message: match self.message {
                Option::None => None,
                Option::Some(s) => Some(encode_utf8(s@)),
            },
        }
    }
}

/// A mining target: the work unit the node hands a miner. On the wire the
/// key and header travel hex-encoded; here they are the decoded bytes, the
/// key exactly thirty-two of them.
#[derive(Debug)]
pub struct RpcMiningTarget {
    pub id: i64,
    pub key: Vec<u8>,
    pub header: Vec<u8>,
    pub difficulty: u64,
}

/// The model of a mining target.
pub struct TargetModel {
    pub id: int,
    pub key: Seq<u8>,
    pub header: Seq<u8>,
    pub difficulty: int,
}

impl View for RpcMiningTarget {
    type V = TargetModel;

    open spec fn view(&self) -> TargetModel {
        TargetModel {
            id: self.id as int,
            key: self.key@,
            header: self.header@,
            difficulty: self.difficulty as int,
        }
    }
}

// ---------------------------------------------------------------------
// Requests
// ---------------------------------------------------------------------

/// The request envelope's text: protocol version always `"2.0"`, `id`
/// always `0`, then the method name as a JSON string and the params value.
pub open spec fn spec_request_body(method: Seq<u8>, params: JVal) -> Seq<u8> {
    "{\"jsonrpc\":\"2.0\",\"id\":0,\"method\":\"".spec_bytes() + escape(method)
        + "\",\"params\":".spec_bytes() + ser_json(params) + "}".spec_bytes()
}

/// Whatever the method and params, the envelope opens with the fixed
/// header that pins `jsonrpc` to `"2.0"` and `id` to `0`.
pub proof fn lemma_request_header(method: Seq<u8>, params: JVal)
    ensures
        ({
            let header = "{\"jsonrpc\":\"2.0\",\"id\":0,\"method\":\"".spec_bytes();
            spec_request_body(method, params).take(header.len() as int) == header
        }),
{
    let header = "{\"jsonrpc\":\"2.0\",\"id\":0,\"method\":\"".spec_bytes();
    assert(spec_request_body(method, params).take(header.len() as int) =~= header);
}

/// Builds the request envelope for a method and a params value.
pub fn request_body(method: &str, params: &Json) -> (r: Vec<u8>)
    ensures
        r@ == spec_request_body(method.spec_bytes(), params@),
{
    let mut out: Vec<u8> = Vec::new();
    push_str_bytes(&mut out, "{\"jsonrpc\":\"2.0\",\"id\":0,\"method\":\"");
    push_escaped(&mut out, method.as_bytes());
    push_str_bytes(&mut out, "\",\"params\":");
    write_json(&mut out, params);
    push_str_bytes(&mut out, "}");
    proof {
        assert(out@ =~= spec_request_body(method.spec_bytes(), params@));
    }
    out
}

/// The body of a height query: method `merit_getHeight`, empty params.
pub fn height_request() -> (r: Vec<u8>)
    ensures
        r@ == spec_request_body("merit_getHeight".spec_bytes(), JVal::Obj(Seq::empty())),
{
    let params = Json::Obj(Vec::new());
    proof {
        assert(params@ == JVal::Obj(members_model(Seq::empty())));
        assert(members_model(Seq::<(String, Json)>::empty()) =~= Seq::<(Seq<u8>, JVal)>::empty());
    }
    request_body("merit_getHeight", &params)
}

/// The body of a mining-target query: method `merit_getBlockTemplate`,
/// params `{"miner": <pubkey>}`.
pub fn target_request(miner: &str) -> (r: Vec<u8>)
    ensures
        r@ == spec_request_body(
            "merit_getBlockTemplate".spec_bytes(),
            JVal::Obj(seq![("miner".spec_bytes(), JVal::Str(miner.spec_bytes()))]),
        ),
{
    let mut members: Vec<(String, Json)> = Vec::new();
    members.push(("miner".to_owned(), Json::Str(miner.to_owned())));
    let ghost msv = members@;
    let params = Json::Obj(members);
    proof {
        lemma_members_model_index(msv, 0);
        assert(members_model(msv) =~= seq![
            ("miner".spec_bytes(), JVal::Str(miner.spec_bytes())),
        ]);
    }
    request_body("merit_getBlockTemplate", &params)
}

// ---------------------------------------------------------------------
// Responses
// ---------------------------------------------------------------------

/// The `i64` a value stands for: an integer within range.
pub open spec fn as_int_i64(v: JVal) -> Option<int> {
    match v {
        JVal::Int(i) => if i64::MIN <= i <= i64::MAX {
            Some(i)
        } else {
            None
        },
        _ => None,
    }
}

/// The `u64` a value stands for: a non-negative integer within range.
pub open spec fn as_int_u64(v: JVal) -> Option<int> {
    match v {
        JVal::Int(i) => if 0 <= i <= u64::MAX {
            Some(i)
        } else {
            None
        },
        _ => None,
    }
}

/// The error shape: an object whose `error` member is an object with an
/// integer `code` and, optionally, a string (or null) `message`.
pub open spec fn error_shape(v: JVal) -> Option<ErrModel> {
    match v {
        JVal::Obj(ms) => match obj_lookup(ms, "error".spec_bytes()) {
            Some(JVal::Obj(ems)) => match obj_lookup(ems, "code".spec_bytes()) {
                Some(c) => match as_int_i64(c) {
                    Some(code) => match obj_lookup(ems, "message".spec_bytes()) {
                        None => Some(ErrModel { code, message: None }),
                        Some(JVal::Null) => Some(ErrModel { code, message: None }),
                        Some(JVal::Str(m)) => Some(ErrModel { code, message: Some(m) }),
                        Some(_) => None,
                    },
                    None => None,
                },
                None => None,
            },
            _ => None,
        },
        _ => None,
    }
}

/// The result shape: an object with an integer `id` and a `result` member.
pub open spec fn result_shape(v: JVal) -> Option<(int, JVal)> {
    match v {
        JVal::Obj(ms) => match obj_lookup(ms, "id".spec_bytes()) {
            Some(idv) => match as_int_i64(idv) {
                Some(i) => match obj_lookup(ms, "result".spec_bytes()) {
                    Some(r) => Some((i, r)),
                    None => None,
                },
                None => None,
            },
            None => None,
        },
        _ => None,
    }
}

/// What a response value decodes to.
pub enum RespModel {
    /// Neither shape fits: a decode failure.
    Failure,
    Error { code: int, message: Option<Seq<u8>> },
    Success { id: int, result: JVal },
}

/// A response decodes as whichever of the two shapes fits it, and fails
/// where neither does — or where both do, since an ambiguous body is no
/// well-formed response.
pub open spec fn response_model(v: JVal) -> RespModel {
    match (error_shape(v), result_shape(v)) {
        (Some(e), None) => RespModel::Error { code: e.code, message: e.message },
        (None, Some((i, r))) => RespModel::Success { id: i, result: r },
        _ => RespModel::Failure,
    }
}

/// The `i64` a decoded value holds, where it holds one.
pub fn json_as_i64(j: &Json) -> (r: Option<i64>)
    ensures
        match r {
            Some(x) => as_int_i64(j@) == Some(x as int),
            None => as_int_i64(j@) is None,
        },
{
    match j {
        Json::Int(i) => Some(*i),
        Json::UInt(u) => if *u <= i64::MAX as u64 {
            Some(*u as i64)
        } else {
            None
        },
        _ => None,
    }
}

/// The `u64` a decoded value holds, where it holds one.
pub fn json_as_u64(j: &Json) -> (r: Option<u64>)
    ensures
        match r {
            Some(x) => as_int_u64(j@) == Some(x as int),
            None => as_int_u64(j@) is None,
        },
{
    match j {
        Json::Int(i) => if *i >= 0 {
            Some(*i as u64)
        } else {
            None
        },
        Json::UInt(u) => Some(*u),
        _ => None,
    }
}

/// A decoded response envelope.
#[derive(Debug)]
pub enum Response {
    Error(RpcError),
    Success { id: i64, result: Json },
}

fn try_error_shape(ms: &Vec<(String, Json)>) -> (r: Option<RpcError>)
    ensures
        match r {
            Some(e) => error_shape(JVal::Obj(members_model(ms@))) == Some(e@),
            None => error_shape(JVal::Obj(members_model(ms@))) is None,
        },
{
    let eobj = match obj_get(ms, "error") {
        Some(Json::Obj(ems)) => ems,
        _ => {
            return None;
        },
    };
    let code = match obj_get(eobj, "code") {
        Some(c) => match json_as_i64(c) {
            Some(code) => code,
            None => {
                return None;
            },
        },
        None => {
            return None;
        },
    };
    match obj_get(eobj, "message") {
        None => Some(RpcError { code, message: None }),
        Some(Json::Null) => Some(RpcError { code, message: None }),
        Some(Json::Str(m)) => Some(RpcError { code, message: Some(m.clone()) }),
        Some(_) => None,
    }
}

/// Decodes a response value: the error shape or the result shape; `None`
/// is a decode failure, a body fitting both shapes among them.
pub fn decode_response(j: Json) -> (r: Option<Response>)
    ensures
        match r {
            None => response_model(j@) is Failure,
            Some(Response::Error(e)) => response_model(j@) == (RespModel::Error {
                code: e@.code,
                message: e@.message,
            }),
            Some(Response::Success { id, result }) => response_model(j@) == (RespModel::Success {
                id: id as int,
                result: result@,
            }),
        },
{
    let mut ms = match j {
        Json::Obj(ms) => ms,
        _ => {
            return None;
        },
    };
    let err = try_error_shape(&ms);
    let id = match obj_get(&ms, "id") {
        Some(idv) => json_as_i64(idv),
        None => None,
    };
    let has_result = match obj_get(&ms, "result") {
        Some(_) => true,
        None => false,
    };
    match err {
        Some(e) => {
            if id.is_some() && has_result {
                None
            } else {
                Some(Response::Error(e))
            }
        },
        None => match id {
            Some(i) => {
                if has_result {
                    match obj_take(&mut ms, "result") {
                        Some(result) => Some(Response::Success { id: i, result }),
                        None => None,
                    }
                } else {
                    None
                }
            },
            None => None,
        },
    }
}

// ---------------------------------------------------------------------
// Retry decisions
// ---------------------------------------------------------------------

/// What an operation does with an attempt's outcome: try again after the
/// backoff, or return a value.
pub enum Step<T> {
    Retry,
    Done(T),
}

/// The model of an attempt's outcome: `None` where the transport failed
/// or the body did not parse.
pub open spec fn opt_model(p: Option<Json>) -> Option<JVal> {
    match p {
        None => None,
        Some(j) => Some(j@),
    }
}

/// The generic call's decision: a missing or malformed body retries, the
/// error shape is handed to the caller, the result shape succeeds.
pub open spec fn single_step_model(p: Option<JVal>) -> Step<Result<JVal, ErrModel>> {
    match p {
        None => Step::Retry,
        Some(v) => match response_model(v) {
            RespModel::Failure => Step::Retry,
            RespModel::Error { code, message } => Step::Done(Err(ErrModel { code, message })),
            RespModel::Success { id, result } => Step::Done(Ok(result)),
        },
    }
}

/// The height query's decision: only a result shape holding an unsigned
/// integer returns; everything else — the error shape included — retries.
pub open spec fn height_step_model(p: Option<JVal>) -> Step<int> {
    match p {
        None => Step::Retry,
        Some(v) => match response_model(v) {
            RespModel::Success { id, result } => match as_int_u64(result) {
                Some(h) => Step::Done(h),
                None => Step::Retry,
            },
            _ => Step::Retry,
        },
    }
}

/// The mining-target fields a result value stands for: integer `id`,
/// `key` as exactly thirty-two hex-decoded bytes, `header` as hex-decoded
/// bytes, unsigned 64-bit `difficulty`.
pub open spec fn target_of(v: JVal) -> Option<TargetModel> {
    match v {
        JVal::Obj(ms) => match (
            obj_lookup(ms, "id".spec_bytes()),
            obj_lookup(ms, "key".spec_bytes()),
            obj_lookup(ms, "header".spec_bytes()),
            obj_lookup(ms, "difficulty".spec_bytes()),
        ) {
            (Some(idv), Some(JVal::Str(ks)), Some(JVal::Str(hs)), Some(dv)) => match (
                as_int_i64(idv),
                bytes_of_hex(ks),
                bytes_of_hex(hs),
                as_int_u64(dv),
            ) {
                (Some(i), Some(kb), Some(hb), Some(d)) => if kb.len() == 32 {
                    Some(TargetModel { id: i, key: kb, header: hb, difficulty: d })
                } else {
                    None
                },
                _ => None,
            },
            _ => None,
        },
        _ => None,
    }
}

/// The mining-target query's decision: only a result shape holding a
/// well-formed mining target returns; everything else retries.
pub open spec fn target_step_model(p: Option<JVal>) -> Step<TargetModel> {
    match p {
        None => Step::Retry,
        Some(v) => match response_model(v) {
            RespModel::Success { id, result } => match target_of(result) {
                Some(t) => Step::Done(t),
                None => Step::Retry,
            },
            _ => Step::Retry,
        },
    }
}

/// The generic call's decision on a parsed body.
pub fn single_request_step(parsed: Option<Json>) -> (r: Step<Result<Json, RpcError>>)
    ensures
        match r {
            Step::Retry => single_step_model(opt_model(parsed)) is Retry,
            Step::Done(Ok(j)) => single_step_model(opt_model(parsed)) == Step::Done(
                Ok::<JVal, ErrModel>(j@),
            ),
            Step::Done(Err(e)) => single_step_model(opt_model(parsed)) == Step::Done(
                Err::<JVal, ErrModel>(e@),
            ),
        },
{
    match parsed {
        None => Step::Retry,
        Some(j) => match decode_response(j) {
            None => Step::Retry,
            Some(Response::Error(e)) => Step::Done(Err(e)),
            Some(Response::Success { id: _, result }) => Step::Done(Ok(result)),
        },
    }
}

/// The height query's decision on a parsed body.
pub fn height_step(parsed: Option<Json>) -> (r: Step<u64>)
    ensures
        match r {
            Step::Retry => height_step_model(opt_model(parsed)) is Retry,
            Step::Done(h) => height_step_model(opt_model(parsed)) == Step::Done(h as int),
        },
{
    match parsed {
        None => Step::Retry,
        Some(j) => match decode_response(j) {
            Some(Response::Success { id: _, result }) => match json_as_u64(&result) {
                Some(h) => Step::Done(h),
                None => Step::Retry,
            },
            _ => Step::Retry,
        },
    }
}

/// Decodes a result value as a mining target.
pub fn decode_target(v: &Json) -> (r: Option<RpcMiningTarget>)
    ensures
        match r {
            Some(t) => target_of(v@) == Some(t@) && t.key@.len() == 32,
            None => target_of(v@) is None,
        },
{
    let ms = match v {
        Json::Obj(ms) => ms,
        _ => {
            return None;
        },
    };
    let id = match obj_get(ms, "id") {
        Some(idv) => match json_as_i64(idv) {
            Some(i) => i,
            None => {
                return None;
            },
        },
        None => {
            return None;
        },
    };
    let key = match obj_get(ms, "key") {
        Some(Json::Str(ks)) => match hex_decode(ks.as_str().as_bytes()) {
            Some(kb) => kb,
            None => {
                return None;
            },
        },
        _ => {
            return None;
        },
    };
    if key.len() != 32 {
        return None;
    }
    let header = match obj_get(ms, "header") {
        Some(Json::Str(hs)) => match hex_decode(hs.as_str().as_bytes()) {
            Some(hb) => hb,
            None => {
                return None;
            },
        },
        _ => {
            return None;
        },
    };
    let difficulty = match obj_get(ms, "difficulty") {
        Some(dv) => match json_as_u64(dv) {
            Some(d) => d,
            None => {
                return None;
            },
        },
        None => {
            return None;
        },
    };
    Some(RpcMiningTarget { id, key, header, difficulty })
}

/// The mining-target query's decision on a parsed body.
pub fn target_step(parsed: Option<Json>) -> (r: Step<RpcMiningTarget>)
    ensures
        match r {
            Step::Retry => target_step_model(opt_model(parsed)) is Retry,
            Step::Done(t) => target_step_model(opt_model(parsed)) == Step::Done(t@),
        },
{
    match parsed {
        None => Step::Retry,
        Some(j) => match decode_response(j) {
            Some(Response::Success { id: _, result }) => match decode_target(&result) {
                Some(t) => Step::Done(t),
                None => Step::Retry,
            },
            _ => Step::Retry,
        },
    }
}

// ---------------------------------------------------------------------
// The policy's laws
// ---------------------------------------------------------------------

/// A valid result-shaped response makes the generic call return exactly
/// its result value, at once: no retry.
pub proof fn lemma_result_shape_returns(v: JVal)
    requires
        response_model(v) matches RespModel::Success { .. },
    ensures
        ({
            match response_model(v) {
                RespModel::Success { id, result } => single_step_model(Some(v)) == Step::Done(
                    Ok::<JVal, ErrModel>(result),
                ),
                _ => false,
            }
        }),
{
}

/// On an error-shaped response the generic call replies at once with the
/// typed error carrying that shape's code and message, while the height
/// and mining-target queries retry instead of returning.
pub proof fn lemma_error_shape_asymmetry(v: JVal)
    requires
        response_model(v) matches RespModel::Error { .. },
    ensures
        ({
            match response_model(v) {
                RespModel::Error { code, message } => single_step_model(Some(v)) == Step::Done(
                    Err::<JVal, ErrModel>(ErrModel { code, message }),
                ),
                _ => false,
            }
        }),
        height_step_model(Some(v)) is Retry,
        target_step_model(Some(v)) is Retry,
{
}

/// A failed transport, an unreadable body, or a body of neither shape
/// makes every operation retry.
pub proof fn lemma_failure_retries(p: Option<JVal>)
    requires
        match p {
            None => true,
            Some(v) => response_model(v) is Failure,
        },
    ensures
        single_step_model(p) is Retry,
        height_step_model(p) is Retry,
        target_step_model(p) is Retry,
{
}

} // verus!
