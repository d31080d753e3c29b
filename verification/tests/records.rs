use ed25519_dalek::{Keypair, Signer};
use file_blockchain::blockchain::block::{Block, DataTypes};
use file_blockchain::blockchain::block_infor::{BlockInformation, FileType};
use file_blockchain::blockchain::file_infor::{FileInformation, FileType as StoredFileType};
use file_blockchain::blockchain::file_types::FileType as Extension;
use file_blockchain::blockchain::json::{chain_json, push_information_json};
use file_blockchain::blockchain::pool_infor::PoolInfor;
use file_blockchain::blockchain::smart_contract_inter::{hash_confirmed, hash_request_body};
use rand::rngs::OsRng;

fn record() -> BlockInformation {
    BlockInformation {
        data: None,
        linked_uri: String::from("u\"1"),
        creator: vec![1, 255],
        version: String::from("v\n"),
        file_type: FileType::DataStore,
        signature: Vec::new(),
        timestamp: -5,
        tokens_transferred: 7,
        to_acct_id: String::from("a\u{1}b"),
    }
}

#[test]
fn record_json_lists_the_fields_in_order() {
    let mut out = String::from(">");
    push_information_json(&mut out, &record());
    assert_eq!(
        out,
        ">{\"data\":null,\"linked_uri\":\"u\\\"1\",\"creator\":[1,255],\"version\":\"v\\n\",\"file_type\":\"DataStore\",\"signature\":[],\"timestamp\":-5,\"tokens_transferred\":7,\"to_acct_id\":\"a\\u0001b\"}"
    );
}

#[test]
fn chain_json_wraps_the_blocks() {
    let a = Block { index: 0, previous_hash: String::from("0"), data: None, hash: String::from("h") };
    let b = Block { index: 1, previous_hash: String::from("h"), data: None, hash: String::from("k") };
    assert_eq!(chain_json(&vec![]), "{\"chain\":[]}");
    assert_eq!(
        chain_json(&vec![a, b]),
        "{\"chain\":[{\"index\":0,\"previous_hash\":\"0\",\"data\":null,\"hash\":\"h\"},{\"index\":1,\"previous_hash\":\"h\",\"data\":null,\"hash\":\"k\"}]}"
    );
}

#[test]
fn file_record_needs_the_storage_fee() {
    let data: &[u8] = b"test1";
    let refused = BlockInformation::new(
        [7u8; 32],
        Some(String::from("1")),
        Some(String::from("site")),
        Some(data),
        Some(FileType::Frontend),
        vec![9],
        3,
        4,
        None,
    );
    assert!(refused.is_none());
    let accepted = BlockInformation::new(
        [7u8; 32],
        Some(String::from("1")),
        Some(String::from("site")),
        Some(data),
        Some(FileType::Frontend),
        vec![9],
        3,
        5,
        None,
    )
    .unwrap();
    assert_eq!(accepted.to_acct_id, "network");
    assert_eq!(accepted.linked_uri, "site");
    assert_eq!(accepted.creator, vec![7u8; 32]);
    assert_eq!(accepted.tokens_transferred, 5);
    let url = accepted.data.unwrap();
    assert!(url.starts_with("data:"));
    assert!(url.ends_with(",dGVzdDE"));
}

#[test]
fn record_with_mime_type_is_a_data_url() {
    let r = BlockInformation::with_mime_type(
        "text/plain",
        vec![1],
        Some(String::from("1")),
        Some(String::from("site")),
        b"hi?>",
        Some(FileType::DataStore),
        vec![],
        0,
        4,
    )
    .unwrap();
    assert_eq!(r.data, Some(String::from("data:text/plain,aGk_Pg")));
}

#[test]
fn transfer_record_has_no_data() {
    let r = BlockInformation::new([1u8; 32], None, None, None, None, vec![2], 8, 100, Some(String::from("bob")))
        .unwrap();
    assert_eq!(r.data, None);
    assert_eq!(r.linked_uri, "");
    assert_eq!(r.version, "");
    assert_eq!(r.file_type, FileType::DataStore);
    assert_eq!(r.to_acct_id, "bob");
    assert_eq!(r.tokens_transferred, 100);
}

#[test]
fn signed_message_joins_uri_timestamp_and_amount() {
    let mut r = record();
    r.linked_uri = String::from("site");
    assert_eq!(r.signed_message_text(), "site-57");
}

#[test]
fn signature_is_checked_strictly() {
    let mut csprng = OsRng {};
    let kp = Keypair::generate(&mut csprng);
    let mut r = record();
    r.creator = kp.public.to_bytes().to_vec();
    r.signature = kp.sign(r.signed_message_text().as_bytes()).to_bytes().to_vec();
    assert!(r.signature_decodes());
    assert!(r.verify_signature());
    assert_eq!(r.check_signature(), Some(true));
    r.tokens_transferred = 8;
    assert!(!r.verify_signature());
    r.signature[63] |= 0xE0;
    assert!(!r.signature_decodes());
    assert_eq!(r.check_signature(), None);
}

#[test]
fn genesis_block_stores_test1() {
    let g = Block::genesis_at("text/plain", 12);
    assert_eq!(g.index, 0);
    assert_eq!(g.previous_hash, "0");
    match g.data {
        Some(DataTypes::Transaction(t)) => {
            assert_eq!(t.data, Some(String::from("data:text/plain,dGVzdDE")));
            assert_eq!(t.linked_uri, "https://github.com/vidur2");
            assert_eq!(t.version, "0.0.1");
            assert_eq!(t.creator, vec![b't'; 32]);
            assert_eq!(t.signature, b"initial signature".to_vec());
            assert_eq!(t.timestamp, 12);
            assert_eq!(t.tokens_transferred, 0);
            assert_eq!(t.to_acct_id, "network");
        }
        _ => panic!("genesis block carries a record"),
    }
}

#[test]
fn pool_share_is_rounded_down() {
    let p = PoolInfor::new_at(10, vec![vec![1], vec![2], vec![3]], 5);
    assert_eq!(p.get_tokens_in_account(&vec![2]), 3);
    assert_eq!(p.get_tokens_in_account(&vec![4]), 0);
    assert!(p.verify_pool_block_at(Some(3), 5));
    assert!(!p.verify_pool_block_at(Some(3), 4));
    assert!(!p.verify_pool_block_at(Some(2), 5));
    assert!(!p.verify_pool_block_at(None, 5));
    assert!(p.verify_block_time_at(6));
    let now = PoolInfor::new(1, vec![]);
    assert!(now.verify_block_time());
}

#[test]
fn file_information_is_a_data_url() {
    let f = FileInformation::with_mime_type(
        "image/png",
        String::from("me"),
        String::from("1"),
        String::from("site"),
        &[0xfb, 0xff],
        StoredFileType::Frontend,
    );
    assert_eq!(f.data, "data:image/png,-_8");
    assert_eq!(f.linked_uri, "site");
    let g = FileInformation::new(String::from("me"), String::from("1"), String::from("site"), b"", StoredFileType::DataStore);
    assert!(g.data.starts_with("data:"));
    assert!(g.data.ends_with(","));
}

#[test]
fn extensions_have_mime_types() {
    assert_eq!(Extension::to_mime_type(Extension::PNG), "image/png");
    assert_eq!(Extension::to_mime_type(Extension::JSON), "application/json");
    assert_eq!(Extension::to_mime_type(Extension::ZIP), "application/zip");
}

#[test]
fn hash_request_carries_the_query_in_base64() {
    let body = hash_request_body("AB", "acct.testnet");
    let query = "{\n            'hash': 'AB'\n        }";
    let encoded = base64_url::encode(query);
    assert!(body.contains("'account_id': 'acct.testnet',"));
    assert!(body.contains(&format!("'args_base64': '{}'", encoded)));
    assert!(body.starts_with("{\n                'jsonrpc': '2.0',"));
    assert!(hash_confirmed("{\"result\": true}"));
    assert!(!hash_confirmed("{\"result\": false}"));
}

#[test]
fn data_url_decodes_back_to_the_file() {
    let bytes: Vec<u8> = (0u8..=255).chain([7u8, 250]).collect();
    let r = BlockInformation::with_mime_type(
        "application/octet-stream",
        vec![1],
        Some(String::from("1")),
        Some(String::from("site")),
        &bytes,
        Some(FileType::DataStore),
        vec![],
        0,
        bytes.len() as u64,
    )
    .unwrap();
    let url = r.data.unwrap();
    let encoded = url.splitn(2, ',').nth(1).unwrap();
    assert_eq!(base64_url::decode(encoded).unwrap(), bytes);
}
