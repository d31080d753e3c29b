use file_blockchain::blockchain::block::{hash_block, Block, DataTypes};
use file_blockchain::blockchain::block_infor::{BlockInformation, FileType};
use file_blockchain::blockchain::blockchain::Blockchain;
use file_blockchain::blockchain::json::{blocks_json, chain_json};
use file_blockchain::blockchain::pool_infor::PoolInfor;
use serde::ser::{Serialize, SerializeStruct, Serializer};
use sha2::{Digest, Sha256};

// Serde's own writing of the library's types, field by field in declaration
// order, as its derived implementations write them.

struct ChainOut<'a>(&'a Blockchain);
struct BlockOut<'a>(&'a Block);
struct DataOut<'a>(&'a DataTypes);
struct InfoOut<'a>(&'a BlockInformation);
struct PoolOut<'a>(&'a PoolInfor);
struct FileTypeOut(FileType);

impl Serialize for ChainOut<'_> {
    fn serialize<S: Serializer>(&self, s: S) -> Result<S::Ok, S::Error> {
        let blocks: Vec<BlockOut> = self.0.chain.iter().map(BlockOut).collect();
        let mut st = s.serialize_struct("Blockchain", 1)?;
        st.serialize_field("chain", &blocks)?;
        st.end()
    }
}

impl Serialize for BlockOut<'_> {
    fn serialize<S: Serializer>(&self, s: S) -> Result<S::Ok, S::Error> {
        let mut st = s.serialize_struct("Block", 4)?;
        st.serialize_field("index", &self.0.index)?;
        st.serialize_field("previous_hash", &self.0.previous_hash)?;
        st.serialize_field("data", &self.0.data.as_ref().map(DataOut))?;
        st.serialize_field("hash", &self.0.hash)?;
        st.end()
    }
}

impl Serialize for DataOut<'_> {
    fn serialize<S: Serializer>(&self, s: S) -> Result<S::Ok, S::Error> {
        match self.0 {
            DataTypes::Transaction(t) => s.serialize_newtype_variant("DataTypes", 0, "Transaction", &InfoOut(t)),
            DataTypes::Withdrawal(p) => s.serialize_newtype_variant("DataTypes", 1, "Withdrawal", &PoolOut(p)),
        }
    }
}

impl Serialize for FileTypeOut {
    fn serialize<S: Serializer>(&self, s: S) -> Result<S::Ok, S::Error> {
        match self.0 {
            FileType::Frontend => s.serialize_unit_variant("FileType", 0, "Frontend"),
            FileType::DataStore => s.serialize_unit_variant("FileType", 1, "DataStore"),
        }
    }
}

impl Serialize for InfoOut<'_> {
    fn serialize<S: Serializer>(&self, s: S) -> Result<S::Ok, S::Error> {
        let t = self.0;
        let mut st = s.serialize_struct("BlockInformation", 9)?;
        st.serialize_field("data", &t.data)?;
        st.serialize_field("linked_uri", &t.linked_uri)?;
        st.serialize_field("creator", &t.creator)?;
        st.serialize_field("version", &t.version)?;
        st.serialize_field("file_type", &FileTypeOut(t.file_type))?;
        st.serialize_field("signature", &t.signature)?;
        st.serialize_field("timestamp", &t.timestamp)?;
        st.serialize_field("tokens_transferred", &t.tokens_transferred)?;
        st.serialize_field("to_acct_id", &t.to_acct_id)?;
        st.end()
    }
}

impl Serialize for PoolOut<'_> {
    fn serialize<S: Serializer>(&self, s: S) -> Result<S::Ok, S::Error> {
        let p = self.0;
        let mut st = s.serialize_struct("PoolInfor", 3)?;
        st.serialize_field("timestamp", &p.timestamp)?;
        st.serialize_field("nodes_present", p.nodes_present())?;
        st.serialize_field("tokens_in_period", &p.tokens_in_period)?;
        st.end()
    }
}

fn awkward_record() -> BlockInformation {
    BlockInformation {
        data: Some(String::from("data:text/plain,a\"b\\c\nd\u{1}e\u{7f}\u{e9}\u{1F600}\t\r\u{8}\u{c}")),
        linked_uri: String::from("site/\"quoted\""),
        creator: vec![0, 1, 255, 128],
        version: String::new(),
        file_type: FileType::Frontend,
        signature: vec![],
        timestamp: -170141183460469231731687303715884105728,
        tokens_transferred: u64::MAX,
        to_acct_id: String::from("network"),
    }
}

fn sample_chain() -> Blockchain {
    let mut chain = Blockchain::new();
    let mut push = |data: Option<DataTypes>| {
        let n = chain.chain.len();
        let last = chain.chain[n - 1].hash.clone();
        chain.chain.push(Block::new(n as u128, last, data));
    };
    push(Some(DataTypes::Transaction(awkward_record())));
    push(Some(DataTypes::Withdrawal(PoolInfor::new_at(u128::MAX, vec![vec![], vec![7, 8]], i64::MIN))));
    push(None);
    chain
}

fn upper_hex(bytes: &[u8]) -> String {
    bytes.iter().map(|b| format!("{:02X}", b)).collect()
}

#[test]
fn chain_json_is_what_serde_json_writes() {
    let chain = sample_chain();
    assert_eq!(chain_json(&chain.chain), serde_json::to_string(&ChainOut(&chain)).unwrap());
    let blocks: Vec<BlockOut> = chain.chain.iter().map(BlockOut).collect();
    assert_eq!(blocks_json(&chain.chain), serde_json::to_string(&blocks).unwrap());
}

#[test]
fn block_hash_is_taken_over_what_serde_json_writes() {
    let chain = sample_chain();
    for block in chain.chain.iter() {
        let text = block.index.to_string()
            + &block.previous_hash
            + &serde_json::to_string(&block.data.as_ref().map(DataOut)).unwrap();
        let expected = upper_hex(&Sha256::digest(text.as_bytes()));
        assert_eq!(hash_block(block.index, block.previous_hash.clone(), block.data.clone()), Some(expected.clone()));
        assert_eq!(block.hash, expected);
    }
}
