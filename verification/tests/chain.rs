use ed25519_dalek::{Keypair, Signer};
use file_blockchain::blockchain::block::{hash_block, Block, DataTypes};
use file_blockchain::blockchain::block_infor::{BlockInformation, FileType};
use file_blockchain::blockchain::blockchain::Blockchain;
use file_blockchain::blockchain::pool_infor::PoolInfor;
use rand::rngs::OsRng;
use sha2::{Digest, Sha256};

fn keypair() -> Keypair {
    let mut csprng = OsRng {};
    Keypair::generate(&mut csprng)
}

fn sign(kp: &Keypair, info: BlockInformation) -> BlockInformation {
    let message = info.signed_message_text();
    let signature = kp.sign(message.as_bytes());
    BlockInformation { signature: signature.to_bytes().to_vec(), ..info }
}

fn transfer(kp: &Keypair, tokens: u64, to: &str, timestamp: i128) -> BlockInformation {
    sign(
        kp,
        BlockInformation {
            data: None,
            linked_uri: String::new(),
            creator: kp.public.to_bytes().to_vec(),
            version: String::new(),
            file_type: FileType::DataStore,
            signature: Vec::new(),
            timestamp,
            tokens_transferred: tokens,
            to_acct_id: to.to_string(),
        },
    )
}

fn stored_file(kp: &Keypair, uri: &str, timestamp: i128) -> BlockInformation {
    sign(
        kp,
        BlockInformation {
            data: Some(String::from("data:text/plain,")),
            linked_uri: uri.to_string(),
            creator: kp.public.to_bytes().to_vec(),
            version: String::from("1"),
            file_type: FileType::Frontend,
            signature: Vec::new(),
            timestamp,
            tokens_transferred: 0,
            to_acct_id: String::from("network"),
        },
    )
}

fn upper_hex(bytes: &[u8]) -> String {
    bytes.iter().map(|b| format!("{:02X}", b)).collect()
}

/// A chain with the genesis block and a withdrawal that gives `nodes` equal
/// shares of `pool`.
fn funded_chain(nodes: Vec<Vec<u8>>, pool: u128) -> Blockchain {
    let mut chain = Blockchain::new();
    let last = chain.chain.last().unwrap().hash.clone();
    let withdrawal = PoolInfor::new_at(pool, nodes, 1);
    chain.chain.push(Block::new(1, last, Some(DataTypes::Withdrawal(withdrawal))));
    chain
}

#[test]
fn new_chain_holds_only_the_genesis_block() {
    let chain = Blockchain::new();
    assert_eq!(chain.chain.len(), 1);
    let genesis = &chain.chain[0];
    assert_eq!(genesis.index, 0);
    assert_eq!(genesis.previous_hash, "0");
    assert_eq!(
        Some(genesis.hash.clone()),
        hash_block(0, String::from("0"), genesis.data.clone())
    );
}

#[test]
fn new_chain_balances_are_zero() {
    let chain = Blockchain::new();
    assert_eq!(chain.get_amt_in_wallet(&vec![116u8; 32]), 0);
    assert_eq!(chain.get_amt_in_wallet(&vec![1, 2, 3]), 0);
}

#[test]
fn block_hash_is_sha256_of_index_previous_hash_and_json() {
    let expected = upper_hex(&Sha256::digest(b"7abcnull"));
    assert_eq!(hash_block(7, String::from("abc"), None), Some(expected.clone()));
    let block = Block::new(7, String::from("abc"), None);
    assert_eq!(block.hash, expected);
    assert_eq!(block.hash.len(), 64);
}

#[test]
fn block_hash_covers_the_payload() {
    let pool = PoolInfor::new_at(9, vec![vec![1, 2]], -3);
    let text = "5p{\"Withdrawal\":{\"timestamp\":-3,\"nodes_present\":[[1,2]],\"tokens_in_period\":9}}";
    let expected = upper_hex(&Sha256::digest(text.as_bytes()));
    assert_eq!(hash_block(5, String::from("p"), Some(DataTypes::Withdrawal(pool))), Some(expected));
}

#[test]
fn withdrawal_shares_the_pool_among_the_nodes() {
    let a = vec![1u8, 1];
    let b = vec![2u8, 2];
    let chain = funded_chain(vec![a.clone(), b.clone()], 101);
    assert_eq!(chain.get_amt_in_wallet(&a), 50);
    assert_eq!(chain.get_amt_in_wallet(&b), 50);
    assert_eq!(chain.get_amt_in_wallet(&vec![3u8]), 0);
}

#[test]
fn accepted_transfer_reduces_the_creator_balance() {
    let kp = keypair();
    let me = kp.public.to_bytes().to_vec();
    let mut chain = funded_chain(vec![me.clone()], 100);
    assert_eq!(chain.get_amt_in_wallet(&me), 100);
    let record = transfer(&kp, 30, "friend", 10);
    assert!(chain.add_block(record));
    assert_eq!(chain.chain.len(), 3);
    assert_eq!(chain.get_amt_in_wallet(&me), 70);
    let added = &chain.chain[2];
    assert_eq!(added.index, 2);
    assert_eq!(added.previous_hash, chain.chain[1].hash);
    assert_eq!(Some(added.hash.clone()), hash_block(2, added.previous_hash.clone(), added.data.clone()));
}

#[test]
fn transfer_that_overdraws_is_refused() {
    let kp = keypair();
    let me = kp.public.to_bytes().to_vec();
    let mut chain = funded_chain(vec![me.clone()], 100);
    let before = chain.chain.len();
    assert!(!chain.add_block(transfer(&kp, 101, "friend", 10)));
    assert_eq!(chain.chain.len(), before);
    assert!(chain.add_block(transfer(&kp, 100, "friend", 11)));
    assert_eq!(chain.get_amt_in_wallet(&me), 0);
}

#[test]
fn record_with_a_bad_signature_is_refused() {
    let kp = keypair();
    let mut record = transfer(&kp, 0, "friend", 10);
    record.timestamp = 11;
    let mut chain = Blockchain::new();
    assert_eq!(record.check_signature(), Some(false));
    assert!(!chain.add_block(record));
    assert_eq!(chain.chain.len(), 1);
}

#[test]
fn stored_file_must_pay_the_network() {
    let kp = keypair();
    let mut record = stored_file(&kp, "site", 10);
    record.to_acct_id = String::from("somebody");
    let record = sign(&kp, record);
    let mut chain = Blockchain::new();
    assert!(!chain.add_block(record));
    assert!(chain.add_block(stored_file(&kp, "site", 10)));
}

#[test]
fn record_is_added_only_once() {
    let kp = keypair();
    let mut chain = Blockchain::new();
    assert!(chain.add_block(stored_file(&kp, "site", 10)));
    assert!(!chain.add_block(stored_file(&kp, "site", 10)));
    assert_eq!(chain.chain.len(), 2);
    assert!(chain.add_block(stored_file(&kp, "site", 11)));
}

#[test]
fn try_add_block_refuses_a_key_that_does_not_decode() {
    let kp = keypair();
    let mut record = transfer(&kp, 0, "friend", 10);
    record.creator = vec![1, 2, 3];
    let mut chain = Blockchain::new();
    assert_eq!(record.check_signature(), None);
    assert_eq!(chain.try_add_block(record), None);
    assert_eq!(chain.chain.len(), 1);
    assert_eq!(chain.try_add_block(transfer(&kp, 0, "friend", 10)), Some(true));
    assert_eq!(chain.chain.len(), 2);
}

#[test]
fn unverified_block_must_link_to_the_last_block() {
    let kp = keypair();
    let mut chain = Blockchain::new();
    let last = chain.chain[0].hash.clone();
    let good = Block::new(1, last.clone(), Some(DataTypes::Transaction(transfer(&kp, 0, "x", 1))));
    let wrong_index = Block::new(2, last.clone(), Some(DataTypes::Transaction(transfer(&kp, 0, "x", 2))));
    let wrong_hash = Block::new(1, String::from("00"), Some(DataTypes::Transaction(transfer(&kp, 0, "x", 3))));
    assert!(!chain.add_unverified_block(wrong_index));
    assert!(!chain.add_unverified_block(wrong_hash));
    assert!(chain.add_unverified_block(good));
    assert_eq!(chain.chain.len(), 2);
    let zero = Block::new(0, last, Some(DataTypes::Transaction(transfer(&kp, 0, "x", 4))));
    assert_eq!(chain.try_add_unverified_block(zero), Some(false));
    let last = chain.chain[1].hash.clone();
    let mut tampered = Block::new(2, last.clone(), Some(DataTypes::Transaction(transfer(&kp, 0, "x", 5))));
    let first = if tampered.hash.starts_with('0') { "1" } else { "0" };
    tampered.hash.replace_range(0..1, first);
    assert!(!chain.add_unverified_block(tampered));
    assert_eq!(chain.chain.len(), 2);
}

#[test]
fn block_without_record_must_link_to_the_last_block() {
    let mut chain = Blockchain::new();
    assert!(!chain.add_unverified_block(Block::new(9, String::from("anything"), None)));
    let last = chain.chain[0].hash.clone();
    assert!(!chain.add_unverified_block(Block::new(7, String::new(), Some(DataTypes::Withdrawal(
        PoolInfor::new_at(5, vec![vec![1]], 0)
    )))));
    let mut forged = Block::new(1, last.clone(), None);
    forged.hash = String::from("0");
    assert!(!chain.add_unverified_block(forged));
    assert_eq!(chain.chain.len(), 1);
    assert!(chain.add_unverified_block(Block::new(1, last, None)));
    assert_eq!(chain.chain.len(), 2);
}

#[test]
fn pool_holds_network_fees_since_the_last_withdrawal() {
    let mut chain = Blockchain::new();
    let mut push = |chain: &mut Blockchain, data: Option<DataTypes>| {
        let n = chain.chain.len();
        let last = chain.chain[n - 1].hash.clone();
        chain.chain.push(Block::new(n as u128, last, data));
    };
    let info = |tokens: u64, to: &str| BlockInformation {
        data: None,
        linked_uri: String::new(),
        creator: vec![1],
        version: String::new(),
        file_type: FileType::DataStore,
        signature: Vec::new(),
        timestamp: 0,
        tokens_transferred: tokens,
        to_acct_id: to.to_string(),
    };
    push(&mut chain, Some(DataTypes::Transaction(info(3, "network"))));
    push(&mut chain, Some(DataTypes::Withdrawal(PoolInfor::new_at(0, vec![], 0))));
    push(&mut chain, Some(DataTypes::Transaction(info(4, "network"))));
    push(&mut chain, None);
    push(&mut chain, Some(DataTypes::Transaction(info(5, "someone"))));
    push(&mut chain, Some(DataTypes::Transaction(info(6, "network"))));
    assert_eq!(Blockchain::calc_pool_amt(&chain.chain), 10);
}

#[test]
fn withdrawal_empties_the_pool() {
    let kp = keypair();
    let mut chain = Blockchain::new();
    assert!(chain.add_block(stored_file(&kp, "site", 10)));
    assert!(chain.withdraw_at(vec![vec![5u8]], 42));
    assert_eq!(chain.chain.len(), 3);
    assert_eq!(Blockchain::calc_pool_amt(&chain.chain), 0);
    match &chain.chain[2].data {
        Some(DataTypes::Withdrawal(pool)) => {
            assert_eq!(pool.timestamp, 42);
            assert_eq!(pool.tokens_in_period, 0);
            assert_eq!(pool.nodes_present(), &vec![vec![5u8]]);
        }
        _ => panic!("not a withdrawal"),
    }
    assert!(chain.withdraw(vec![]));
    assert_eq!(chain.chain.len(), 4);
}

#[test]
fn replacement_is_checked_from_the_second_block_to_the_last() {
    let kp = keypair();
    let mut source = Blockchain::new();
    assert!(source.add_block(stored_file(&kp, "a", 10)));
    assert!(source.add_block(stored_file(&kp, "b", 11)));
    let mut mine = Blockchain::new();
    assert!(mine.replace_chain_at(source.chain.clone(), 100));
    assert_eq!(mine.chain.len(), 3);

    let mut forged = source.chain.clone();
    if let Some(DataTypes::Transaction(t)) = &mut forged[1].data {
        t.linked_uri = String::from("forged");
    }
    let mut other = Blockchain::new();
    assert!(!other.replace_chain_at(forged, 100));
    assert_eq!(other.chain.len(), 1);

    let mut forged_last = source.chain.clone();
    if let Some(DataTypes::Transaction(t)) = &mut forged_last[2].data {
        t.linked_uri = String::from("forged");
    }
    assert!(!other.replace_chain_at(forged_last, 100));

    let mut unlinked = source.chain.clone();
    unlinked[2].previous_hash = String::from("elsewhere");
    assert!(!other.replace_chain_at(unlinked, 100));
    assert_eq!(other.chain.len(), 1);

    let mut early = Blockchain::new();
    assert!(!early.replace_chain_at(source.chain.clone(), 10));
    assert!(early.replace_chain_at(source.chain.clone(), 11));
}

#[test]
fn replacement_must_have_a_first_block() {
    let mut chain = Blockchain::new();
    assert_eq!(chain.try_replace_chain(Vec::new()), Some(false));
    assert_eq!(chain.chain.len(), 1);
    let one = chain.chain.clone();
    assert_eq!(chain.try_replace_chain(one), Some(true));
}

#[test]
fn find_block_by_uri_returns_the_latest() {
    let kp = keypair();
    let mut chain = Blockchain::new();
    assert!(chain.add_block(stored_file(&kp, "site", 10)));
    assert!(chain.add_block(stored_file(&kp, "other", 11)));
    assert!(chain.add_block(stored_file(&kp, "site", 12)));
    let found = chain.find_block_by_uri("site").unwrap();
    assert_eq!(found.index, 3);
    assert!(chain.find_block_by_uri("missing").is_none());
}

#[test]
fn hash_for_timestamp_returns_the_earliest() {
    let kp = keypair();
    let mut chain = Blockchain::new();
    assert!(chain.add_block(stored_file(&kp, "a", 77)));
    assert!(chain.add_block(stored_file(&kp, "b", 77)));
    assert_eq!(chain.hash_for_timestamp(77), Some(&chain.chain[1].hash));
    assert_eq!(chain.hash_for_timestamp(78), None);
}

#[test]
fn volume_limit_is_checked() {
    let chain = funded_chain(vec![vec![1]], u128::MAX);
    assert!(!chain.volume_within_limit());
    let chain = funded_chain(vec![vec![1]], i128::MAX as u128);
    assert!(chain.volume_within_limit());
}

fn linked_and_hashed(chain: &Blockchain) -> bool {
    chain.chain.iter().enumerate().all(|(i, b)| {
        b.index == i as u128
            && (i == 0 || b.previous_hash == chain.chain[i - 1].hash)
            && Some(b.hash.clone()) == hash_block(b.index, b.previous_hash.clone(), b.data.clone())
    })
}

#[test]
fn chain_built_by_the_node_stays_linked_and_hashed() {
    let kp = keypair();
    let mut chain = Blockchain::new();
    assert!(linked_and_hashed(&chain));
    assert!(chain.add_block(stored_file(&kp, "a", 1)));
    assert!(linked_and_hashed(&chain));
    assert!(chain.withdraw_at(vec![kp.public.to_bytes().to_vec()], 2));
    assert!(linked_and_hashed(&chain));
    assert!(chain.add_block(transfer(&kp, 0, "b", 3)));
    assert!(linked_and_hashed(&chain));
}

#[test]
fn received_blocks_keep_the_chain_linked_and_hashed() {
    let kp = keypair();
    let mut chain = Blockchain::new();
    let last = chain.chain[0].hash.clone();
    assert!(!chain.add_unverified_block(Block::new(5, String::from("elsewhere"), None)));
    assert!(chain.add_unverified_block(Block::new(1, last, None)));
    let last = chain.chain[1].hash.clone();
    let record = Block::new(2, last, Some(DataTypes::Transaction(transfer(&kp, 0, "x", 1))));
    assert!(chain.add_unverified_block(record));
    assert!(linked_and_hashed(&chain));
}

#[test]
fn block_hash_is_64_upper_case_hex_digits() {
    let block = Block::new(3, String::from("x"), None);
    assert_eq!(block.hash.len(), 64);
    assert!(block.hash.chars().all(|c| c.is_ascii_digit() || ('A'..='F').contains(&c)));
    assert!(block.hash_matches());
}

#[test]
fn withdrawal_needs_a_linked_chain() {
    let mut chain = Blockchain::new();
    chain.chain[0].index = 4;
    assert!(!chain.withdraw_at(vec![vec![1]], 3));
    assert_eq!(chain.chain.len(), 1);
}

#[test]
fn withdrawal_reads_the_nodes_from_the_reply() {
    let mut chain = Blockchain::new();
    assert_eq!(chain.withdraw_from_reply("not json"), None);
    assert_eq!(chain.chain.len(), 1);
    assert_eq!(chain.withdraw_from_reply("[[1,2],[3]]"), Some(true));
    match &chain.chain[1].data {
        Some(DataTypes::Withdrawal(pool)) => assert_eq!(pool.nodes_present(), &vec![vec![1u8, 2], vec![3u8]]),
        _ => panic!("not a withdrawal"),
    }
    assert!(PoolInfor::new_from_reply(7, "[1,").is_none());
    let pool = PoolInfor::new_from_reply(7, "[[9]]").unwrap();
    assert_eq!(pool.tokens_in_period, 7);
    assert_eq!(pool.nodes_present(), &vec![vec![9u8]]);
}

#[test]
fn block_added_by_one_node_is_accepted_by_another() {
    let kp = keypair();
    let me = kp.public.to_bytes().to_vec();
    let mut node = funded_chain(vec![me.clone()], 100);
    let mut peer = node.clone();
    assert!(node.add_block(transfer(&kp, 40, "friend", 11)));
    let sent = node.chain.last().unwrap().clone();
    assert!(peer.add_unverified_block(sent));
    assert_eq!(peer.chain, node.chain);
    assert_eq!(peer.get_amt_in_wallet(&me), 60);
    assert!(node.withdraw_at(vec![me.clone()], 50));
    let sent = node.chain.last().unwrap().clone();
    assert!(peer.add_unverified_block(sent));
    assert_eq!(peer.chain, node.chain);
}

#[test]
fn amount_of_nodes_is_read_from_the_reply() {
    assert_eq!(PoolInfor::get_amount_of_nodes(Some(" 3\n")), Some(3));
    assert_eq!(PoolInfor::get_amount_of_nodes(None), None);
}

#[test]
fn received_withdrawal_must_take_exactly_the_pool() {
    let kp = keypair();
    let mut chain = Blockchain::new();
    assert!(chain.add_block(stored_file(&kp, "site", 10)));
    let last = chain.chain[1].hash.clone();
    let greedy = Block::new(2, last.clone(), Some(DataTypes::Withdrawal(PoolInfor::new_at(1_000_000, vec![vec![1]], 5))));
    assert!(!chain.add_unverified_block(greedy));
    let exact = Block::new(2, last, Some(DataTypes::Withdrawal(PoolInfor::new_at(0, vec![vec![1]], 5))));
    assert!(chain.add_unverified_block(exact));
    assert_eq!(chain.chain.len(), 3);
}

#[test]
fn replacement_withdrawals_are_checked() {
    let kp = keypair();
    let mut source = Blockchain::new();
    assert!(source.add_block(stored_file(&kp, "a", 10)));
    assert!(source.withdraw_at(vec![vec![1]], 20));
    let mut mine = Blockchain::new();
    assert!(!mine.replace_chain_at(source.chain.clone(), 19));
    assert!(mine.replace_chain_at(source.chain.clone(), 20));

    let mut greedy = source.chain.clone();
    let last = greedy[1].hash.clone();
    greedy[2] = Block::new(2, last, Some(DataTypes::Withdrawal(PoolInfor::new_at(9, vec![vec![1]], 20))));
    let mut other = Blockchain::new();
    assert!(!other.replace_chain_at(greedy, 100));
    assert_eq!(other.chain.len(), 1);
}

#[test]
fn a_record_already_stored_is_refused_before_its_signature_is_read() {
    let kp = keypair();
    let mut chain = Blockchain::new();
    let record = stored_file(&kp, "site", 10);
    assert!(chain.add_block(record.clone()));
    let before = chain.chain.clone();
    assert_eq!(chain.try_add_block(record), Some(false));
    assert_eq!(chain.chain, before);
}
