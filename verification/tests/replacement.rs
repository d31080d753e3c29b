use ed25519_dalek::{ExpandedSecretKey, Keypair};
use file_blockchain::blockchain::block::{Block, DataTypes};
use file_blockchain::blockchain::block_infor::{BlockInformation, FileType};
use file_blockchain::blockchain::blockchain::Blockchain;
use rand::distributions::Alphanumeric;
use rand::rngs::ThreadRng;
use rand::{thread_rng, Rng};

fn get_random(amt: usize) -> String {
    thread_rng()
        .sample_iter(&Alphanumeric)
        .take(amt)
        .map(char::from)
        .collect::<String>()
}

fn signed_block(blockchain: &Blockchain, csprng: &mut ThreadRng) -> Block {
    let account = Keypair::generate(csprng);
    let linked_uri = get_random(8);
    let timestamp = datetime::Instant::now().seconds();
    let signature = ExpandedSecretKey::from(&account.secret).sign(
        (linked_uri.clone() + &timestamp.to_string() + &0.to_string()).as_bytes(),
        &account.public,
    );
    Block::new(
        blockchain.chain.len() as u128,
        blockchain.chain.last().unwrap().hash.clone(),
        Some(DataTypes::Transaction(BlockInformation {
            data: Some(get_random(8)),
            linked_uri,
            creator: account.public.to_bytes().to_vec(),
            version: String::from("0.0.0"),
            file_type: FileType::DataStore,
            signature: signature.to_bytes().to_vec(),
            timestamp: timestamp as i128,
            tokens_transferred: 0,
            to_acct_id: String::from("testing shit"),
        })),
    )
}

fn gen_blockchain(length: u8) -> Blockchain {
    let mut blockchain = Blockchain::new();
    let mut csprng = ThreadRng::default();
    for _ in 1..length {
        let block = signed_block(&blockchain, &mut csprng);
        blockchain.add_unverified_block(block);
    }
    blockchain
}

#[test]
fn test_replacement() {
    let mut blockchain = gen_blockchain(3);
    let mut csprng = ThreadRng::default();
    let block4 = signed_block(&blockchain, &mut csprng);

    let mut replacement_chain = blockchain.clone();
    replacement_chain.add_unverified_block(block4);

    println!("{}", replacement_chain.chain.len());

    let success = blockchain.replace_chain(replacement_chain.chain);

    assert_eq!(success, true);
}
