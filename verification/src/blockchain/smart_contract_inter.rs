use crate::primitives::encoding::{base64_url, base64_url_encode};
use crate::text::{chars_of, contains_text, find_text};
use vstd::prelude::*;
use vstd::string::StringExecFns;
use vstd::utf8::encode_utf8;

verus! {

// The contract on the NEAR test network is asked, by a JSON-RPC `query`, whether
// it knows a file's hash. These build the request and read the answer; the
// request itself is sent by the application.

/// The query passed to the contract's `check_if_hash_exists` method.
pub open spec fn hash_query(file_hash: Seq<char>) -> Seq<char> {
    "{\n            'hash': '"@ + file_hash + "'\n        }"@
}

/// The JSON-RPC request that calls the contract of `account_id` with the query,
/// the query being sent as URL-safe Base64.
pub open spec fn hash_request(file_hash: Seq<char>, account_id: Seq<char>) -> Seq<char> {
    "{\n                'jsonrpc': '2.0',\n                'id': 'dontcare',\n                'method': 'query',\n                'params': {\n                  'request_type': 'call_function',\n                  'finality': 'final',\n                  'account_id': '"@
        + account_id
        + "',\n                  'method_name': 'check_if_hash_exists',\n                  'args_base64': '"@
        + base64_url(encode_utf8(hash_query(file_hash)))
        + "'\n                }\n              }"@
}

/// The body of the request that asks whether the contract of `account_id`
/// knows `file_hash`.
pub fn hash_request_body(file_hash: &str, account_id: &str) -> (r: String)
    ensures
        r@ == hash_request(file_hash@, account_id@),
{
    let mut query = String::from_str("{\n            'hash': '");
    query.append(file_hash);
    query.append("'\n        }");
    let body = base64_url_encode(query.as_str().as_bytes());
    let mut request = String::from_str(
        "{\n                'jsonrpc': '2.0',\n                'id': 'dontcare',\n                'method': 'query',\n                'params': {\n                  'request_type': 'call_function',\n                  'finality': 'final',\n                  'account_id': '",
    );
    request.append(account_id);
    request.append(
        "',\n                  'method_name': 'check_if_hash_exists',\n                  'args_base64': '",
    );
    request.append(body.as_str());
    request.append("'\n                }\n              }");
    request
}

/// Whether the contract's answer says that the hash is known: the answer
/// holds the text `true`.
pub fn hash_confirmed(response: &str) -> (r: bool)
    ensures
        r == contains_text(response@, "true"@),
{
    let t = "true";
    find_text(&chars_of(response), &chars_of(t))
}

} // verus!
