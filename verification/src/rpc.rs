//! The JSON-RPC exchange with the provider: what is posted, where, and how
//! an answer is read.

use vstd::prelude::*;
use vstd::string::*;
use crate::error::{TickError, TickErrorView};
use crate::json::{
    lemma_array_value, lemma_object_value, member_values, same_text, text_field, text_field_of,
    values, Json, JsonValue,
};

verus! {

/// The address of the endpoint for the given API key.
pub open spec fn endpoint(api_key: Seq<char>) -> Seq<char> {
    "https://mainnet.infura.io/v3/"@ + api_key
}

/// The address of the endpoint for the given API key: the provider's fixed
/// base address, then the key.
pub fn endpoint_url(api_key: &str) -> (url: String)
    ensures
        url@ == endpoint(api_key@),
{
    let mut url = String::from_str("https://mainnet.infura.io/v3/");
    url.append(api_key);
    url
}

/// The request document for calling `method` with `params`.
pub open spec fn request(method: Seq<char>, params: Seq<JsonValue>) -> JsonValue {
    JsonValue::Object(
        seq![
            ("jsonrpc"@, JsonValue::Text("2.0"@)),
            ("method"@, JsonValue::Text(method)),
            ("params"@, JsonValue::Array(params)),
            ("id"@, JsonValue::Integer(1)),
        ],
    )
}

/// The request document for calling `method` with `params`: protocol
/// version 2.0, the method, its parameters, and the identifier 1.
pub fn rpc_call(method: &str, params: Vec<Json>) -> (body: Json)
    ensures
        body@ == request(method@, values(params@)),
{
    let mut members: Vec<(String, Json)> = Vec::new();
    members.push((String::from_str("jsonrpc"), Json::Text(String::from_str("2.0"))));
    members.push((String::from_str("method"), Json::Text(String::from_str(method))));
    proof {
        lemma_array_value(params);
    }
    members.push((String::from_str("params"), Json::Array(params)));
    members.push((String::from_str("id"), Json::Integer(1)));
    proof {
        lemma_object_value(members);
        assert(member_values(members@) =~= request(
            method@,
            values(params@),
        )->Object_0);
    }
    Json::Object(members)
}

/// The request for the latest block with its transactions in full.
pub open spec fn latest_block_request() -> JsonValue {
    request(
        "eth_getBlockByNumber"@,
        seq![JsonValue::Text("latest"@), JsonValue::Bool(true)],
    )
}

/// The request for the code that the latest block holds at `address`.
pub open spec fn code_request(address: Seq<char>) -> JsonValue {
    request("eth_getCode"@, seq![JsonValue::Text(address), JsonValue::Text("latest"@)])
}

/// The request for the latest block. The flag asks for the transactions in
/// full, not for their hashes alone.
pub fn latest_block_call() -> (body: Json)
    ensures
        body@ == latest_block_request(),
{
    let mut params: Vec<Json> = Vec::new();
    params.push(Json::Text(String::from_str("latest")));
    params.push(Json::Bool(true));
    assert(values(params@) =~= seq![JsonValue::Text("latest"@), JsonValue::Bool(true)]);
    rpc_call("eth_getBlockByNumber", params)
}

/// The request for the code that the latest block holds at `address`.
pub fn code_call(address: &str) -> (body: Json)
    ensures
        body@ == code_request(address@),
{
    let mut params: Vec<Json> = Vec::new();
    params.push(Json::Text(String::from_str(address)));
    params.push(Json::Text(String::from_str("latest")));
    assert(values(params@) =~= seq![JsonValue::Text(address@), JsonValue::Text("latest"@)]);
    rpc_call("eth_getCode", params)
}

/// The error object of an answer, if the answer carries one: a member
/// `error` that is not `null`.
pub open spec fn error_object(doc: JsonValue) -> Option<JsonValue> {
    if doc.get("error"@) == JsonValue::Null {
        None
    } else {
        Some(doc.get("error"@))
    }
}

/// The failure that an error object reports. A code that is missing or no
/// integer counts as zero, a message that is missing or no string as empty.
pub open spec fn rpc_failure(error: JsonValue) -> TickErrorView {
    TickErrorView::Rpc {
        code: match error.get("code"@).as_integer() {
            Some(c) => c,
            None => 0,
        },
        message: text_field(error, "message"@),
    }
}

/// How an answer of the endpoint is read. `body` is the document that the
/// answer's body holds, `None` where the body is no JSON.
pub open spec fn interpret(status: int, body: Option<JsonValue>) -> Result<
    JsonValue,
    TickErrorView,
> {
    if !(200 <= status <= 299) {
        Err(TickErrorView::Transport { status: Some(status) })
    } else {
        match body {
            None => Err(TickErrorView::Protocol),
            Some(doc) => match error_object(doc) {
                Some(error) => Err(rpc_failure(error)),
                None => Ok(doc),
            },
        }
    }
}

/// Reads an answer of the endpoint. A status outside 200 to 299 is a
/// transport failure that carries the status; then a body that is no JSON
/// is a protocol failure; then an error object is an RPC failure with its
/// code and message. Any other answer is handed back as it came.
pub fn interpret_response(status: u16, body: Option<Json>) -> (r: Result<Json, TickError>)
    ensures
        match r {
            Ok(doc) => interpret(status as int, view_of(body)) == Ok::<JsonValue, TickErrorView>(
                doc@,
            ),
            Err(e) => interpret(status as int, view_of(body)) == Err::<JsonValue, TickErrorView>(
                e@,
            ),
        },
{
    if status < 200 || status > 299 {
        return Err(TickError::Transport { status: Some(status) });
    }
    match body {
        None => Err(TickError::Protocol),
        Some(doc) => {
            let failure = match doc.get("error") {
                Some(error) => {
                    if error.is_null() {
                        None
                    } else {
                        let code = match error.get("code") {
                            Some(c) => match c.as_i64() {
                                Some(n) => n,
                                None => 0,
                            },
                            None => 0,
                        };
                        Some(TickError::Rpc { code, message: text_field_of(error, "message") })
                    }
                },
                None => None,
            };
            match failure {
                Some(e) => Err(e),
                None => Ok(doc),
            }
        },
    }
}

/// The value of a document that may be missing.
pub open spec fn view_of(body: Option<Json>) -> Option<JsonValue> {
    match body {
        Some(doc) => Some(doc@),
        None => None,
    }
}

/// The code that an answer to a code request reports: its member `result`,
/// where that is a string.
pub open spec fn reported_code(answer: JsonValue) -> Option<Seq<char>> {
    answer.get("result"@).as_text()
}

/// Reads the code that an answer to a code request reports. An answer
/// whose member `result` is missing or no string is a protocol failure.
pub fn code_of(answer: &Json) -> (r: Result<String, TickError>)
    ensures
        match r {
            Ok(code) => reported_code(answer@) == Some(code@),
            Err(e) => reported_code(answer@) is None && e@ == TickErrorView::Protocol,
        },
{
    match answer.text_of("result") {
        Some(code) => Ok(code.to_owned()),
        None => Err(TickError::Protocol),
    }
}

/// Whether `code` is the code of an externally-owned account: exactly
/// `0x`, which says that the address holds no code.
pub fn is_eoa(code: &str) -> (r: bool)
    ensures
        r == (code@ == "0x"@),
{
    same_text(code, "0x")
}

} // verus!
