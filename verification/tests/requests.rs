use ed25519_dalek::{Keypair, Signer};
use file_blockchain::blockchain::block::{Block, DataTypes};
use file_blockchain::blockchain::block_infor::{BlockInformation, FileType};
use file_blockchain::blockchain::blockchain::Blockchain;
use file_blockchain::blockchain::json::blocks_json;
use file_blockchain::requests::{answer_request, try_answer_request, Request};
use rand::rngs::OsRng;

fn stored_file(kp: &Keypair, uri: &str, data: &str, timestamp: i128) -> BlockInformation {
    let info = BlockInformation {
        data: Some(data.to_string()),
        linked_uri: uri.to_string(),
        creator: kp.public.to_bytes().to_vec(),
        version: String::from("1"),
        file_type: FileType::Frontend,
        signature: Vec::new(),
        timestamp,
        tokens_transferred: 0,
        to_acct_id: String::from("network"),
    };
    let signature = kp.sign(info.signed_message_text().as_bytes());
    BlockInformation { signature: signature.to_bytes().to_vec(), ..info }
}

fn keypair() -> Keypair {
    Keypair::generate(&mut OsRng {})
}

#[test]
fn storing_answers_successful_and_spreads_the_chain() {
    let kp = keypair();
    let mut chain = Blockchain::new();
    let reply = answer_request(&mut chain, Request::StoreInformation(stored_file(&kp, "site", "data:,aGk", 5)));
    assert_eq!(reply.response, "HTTP/1.1 200 OK\r\nContent-Length: 10\r\n\r\nSuccessful");
    assert!(reply.broadcast);
    assert_eq!(chain.chain.len(), 2);
    let again = answer_request(&mut chain, Request::StoreInformation(stored_file(&kp, "site", "data:,aGk", 5)));
    assert_eq!(again.response, reply.response);
    assert!(again.broadcast);
    assert_eq!(chain.chain.len(), 2);
}

#[test]
fn data_is_served_by_url() {
    let kp = keypair();
    let mut chain = Blockchain::new();
    answer_request(&mut chain, Request::StoreInformation(stored_file(&kp, "site", "data:,old", 5)));
    answer_request(&mut chain, Request::StoreInformation(stored_file(&kp, "site", "data:,new\u{e9}", 6)));
    let reply = answer_request(&mut chain, Request::GetInformationByUrl(String::from("site")));
    assert_eq!(reply.response, "HTTP/1.1 200 OK\r\nContent-Length: 11\r\n\r\ndata:,new\u{e9}");
    assert!(!reply.broadcast);
    let missing = answer_request(&mut chain, Request::GetInformationByUrl(String::from("nowhere")));
    assert_eq!(
        missing.response,
        "HTTP/1.1 400 Bad Request\r\nContent-Length: 28\r\n\r\nURL not stored in blockchain"
    );
}

#[test]
fn a_url_whose_record_has_no_data_cannot_be_answered() {
    let mut chain = Blockchain::new();
    let last = chain.chain[0].hash.clone();
    let mut record = stored_file(&keypair(), "empty", "x", 1);
    record.data = None;
    chain.chain.push(Block::new(1, last, Some(DataTypes::Transaction(record))));
    let before = chain.chain.clone();
    assert!(try_answer_request(&mut chain, Request::GetInformationByUrl(String::from("empty"))).is_none());
    assert_eq!(chain.chain, before);
}

#[test]
fn blocks_and_hashes_are_served() {
    let kp = keypair();
    let mut chain = Blockchain::new();
    answer_request(&mut chain, Request::StoreInformation(stored_file(&kp, "a", "d", 77)));
    let blocks = answer_request(&mut chain, Request::GetBlocks);
    let json = blocks_json(&chain.chain);
    assert_eq!(blocks.response, format!("HTTP/1.1 200 OK\r\nContent-Length: {}\r\n\r\n{}", json.len(), json));
    let hash = answer_request(&mut chain, Request::GetHash(77));
    assert_eq!(hash.response, format!("HTTP/1.1 200 OK\r\nContent-Length: 64\r\n\r\n{}", chain.chain[1].hash));
    let none = answer_request(&mut chain, Request::GetHash(78));
    assert_eq!(none.response, "HTTP/1.1 200 OK\r\nContent-Length: 16\r\n\r\nNo matching hash");
    let unknown = answer_request(&mut chain, Request::Unknown);
    assert_eq!(unknown.response, "");
    assert!(!unknown.broadcast);
}

#[test]
fn a_record_whose_signature_does_not_decode_cannot_be_stored() {
    let mut record = stored_file(&keypair(), "site", "d", 1);
    record.creator = vec![1, 2];
    let mut chain = Blockchain::new();
    assert!(try_answer_request(&mut chain, Request::StoreInformation(record)).is_none());
    assert_eq!(chain.chain.len(), 1);
}
