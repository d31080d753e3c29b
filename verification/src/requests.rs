use crate::blockchain::block::{BlockView, DataTypes, DataView};
use crate::blockchain::block_infor::{BlockInformation, signature_decodes};
use crate::blockchain::blockchain::{
    Blockchain, add_block_accepts, appended_block, first_with_timestamp, last_with_uri,
    lemma_first_with_timestamp, lemma_last_with_uri, record_exists, within_volume_limit,
};
use crate::blockchain::json::{blocks_json, json_blocks};
use crate::http_server::{http_response, http_response_text, no_matching_hash, no_matching_hash_text};
use vstd::prelude::*;
use vstd::string::StringExecFns;

verus! {

// What the node answers to each request of its HTTP interface, and what the
// request changes in the chain. The application reads the request, turns its
// body into a `Request`, writes the answer and, when asked, sends the chain to
// the peers.

/// A request to the node's HTTP interface, its body read.
pub enum Request {
    /// Store a record on the chain.
    StoreInformation(BlockInformation),
    /// Get the data stored under a URL.
    GetInformationByUrl(String),
    /// Get the blocks of the chain.
    GetBlocks,
    /// Get the hash of the block with a given timestamp.
    GetHash(i128),
    /// Anything else.
    Unknown,
}

/// The node's answer: the response to write, and whether the chain is then sent
/// to every peer.
pub struct Reply {
    pub response: String,
    pub broadcast: bool,
}

/// The data of the record of the last block linked to `uri`, if there is such a
/// block and its record holds data.
pub open spec fn stored_data(c: Seq<BlockView>, uri: Seq<char>) -> Option<Seq<char>> {
    let k = last_with_uri(c, uri);
    if k < 0 {
        None
    } else {
        match c[k].data {
            Some(DataView::Transaction(t)) => t.data,
            _ => None,
        }
    }
}

/// Whether the node can answer `request` on chain `c`: a record to store needs a
/// chain to follow and, unless the chain holds it already, a key and signature
/// that decode; the last record stored under a URL that is asked for must hold
/// data.
pub open spec fn request_answerable(c: Seq<BlockView>, request: Request) -> bool {
    match request {
        Request::StoreInformation(t) => c.len() >= 1 && (!record_exists(c, t@) ==> signature_decodes(t@)),
        Request::GetInformationByUrl(uri) => last_with_uri(c, uri@) >= 0 ==> stored_data(c, uri@) is Some,
        _ => true,
    }
}

/// The response to `request` on chain `c`.
pub open spec fn response_text(c: Seq<BlockView>, request: Request) -> Seq<char> {
    match request {
        Request::StoreInformation(_) => http_response_text("200 OK"@, "Successful"@),
        Request::GetInformationByUrl(uri) => if last_with_uri(c, uri@) < 0 {
            http_response_text("400 Bad Request"@, "URL not stored in blockchain"@)
        } else {
            http_response_text("200 OK"@, stored_data(c, uri@)->Some_0)
        },
        Request::GetBlocks => http_response_text("200 OK"@, json_blocks(c)),
        Request::GetHash(timestamp) => http_response_text(
            "200 OK"@,
            if first_with_timestamp(c, timestamp) < 0 {
                no_matching_hash()
            } else {
                c[first_with_timestamp(c, timestamp)].hash
            },
        ),
        Request::Unknown => seq![],
    }
}

/// The chain after `request`: a record to store is added as `add_block` adds it,
/// where the chain moves few enough tokens for balances to be counted; other
/// requests change nothing.
pub open spec fn chain_after(c: Seq<BlockView>, request: Request) -> Seq<BlockView> {
    match request {
        Request::StoreInformation(t) => if within_volume_limit(c) && add_block_accepts(c, t@) {
            c.push(appended_block(c, t@))
        } else {
            c
        },
        _ => c,
    }
}

/// Answers a request: the response, whether the chain is then sent to the peers
/// (after a request to store a record, whether it was added or not), and the
/// change to the chain.
pub fn answer_request(chain: &mut Blockchain, request: Request) -> (r: Reply)
    requires
        request_answerable(old(chain)@, request),
    ensures
        r.response@ == response_text(old(chain)@, request),
        r.broadcast == (request is StoreInformation),
        final(chain)@ == chain_after(old(chain)@, request),
{
    match request {
        Request::StoreInformation(record) => {
            let _ = chain.try_add_block(record);
            Reply { response: http_response("200 OK", "Successful"), broadcast: true }
        },
        Request::GetInformationByUrl(uri) => {
            proof {
                lemma_last_with_uri(chain@, uri@);
            }
            match chain.find_block_by_uri(uri.as_str()) {
                Some(block) => {
                    let data = match &block.data {
                        Some(DataTypes::Transaction(txn)) => match &txn.data {
                            Some(d) => d.as_str(),
                            None => "",
                        },
                        _ => "",
                    };
                    Reply { response: http_response("200 OK", data), broadcast: false }
                },
                None => Reply {
                    response: http_response("400 Bad Request", "URL not stored in blockchain"),
                    broadcast: false,
                },
            }
        },
        Request::GetBlocks => {
            let blocks = blocks_json(&chain.chain);
            Reply { response: http_response("200 OK", blocks.as_str()), broadcast: false }
        },
        Request::GetHash(timestamp) => {
            proof {
                lemma_first_with_timestamp(chain@, timestamp);
            }
            let response = match chain.hash_for_timestamp(timestamp) {
                Some(hash) => http_response("200 OK", hash.as_str()),
                None => http_response("200 OK", no_matching_hash_text()),
            };
            Reply { response, broadcast: false }
        },
        Request::Unknown => Reply { response: String::new(), broadcast: false },
    }
}

/// `answer_request` where the node can answer (`request_answerable`), `None`,
/// with the chain unchanged, where it cannot.
pub fn try_answer_request(chain: &mut Blockchain, request: Request) -> (r: Option<Reply>)
    ensures
        r is None <==> !request_answerable(old(chain)@, request),
        r matches Some(reply) ==> reply.response@ == response_text(old(chain)@, request)
            && reply.broadcast == (request is StoreInformation),
        final(chain)@ == (if r is Some {
            chain_after(old(chain)@, request)
        } else {
            old(chain)@
        }),
{
    let answerable = match &request {
        Request::StoreInformation(record) => chain.chain.len() >= 1 && (chain.check_if_exists(record)
            || record.signature_decodes()),
        Request::GetInformationByUrl(uri) => {
            proof {
                lemma_last_with_uri(chain@, uri@);
            }
            match chain.find_block_by_uri(uri.as_str()) {
                Some(block) => match &block.data {
                    Some(DataTypes::Transaction(txn)) => txn.data.is_some(),
                    _ => false,
                },
                None => true,
            }
        },
        _ => true,
    };
    if answerable {
        Some(answer_request(chain, request))
    } else {
        None
    }
}

} // verus!
