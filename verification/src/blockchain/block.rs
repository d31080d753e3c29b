use crate::blockchain::block_infor::{BlockInformation, InformationView};
use crate::blockchain::pool_infor::{PoolInfor, PoolView};
use crate::blockchain::block_infor::{FileType, file_record_view, signature_decodes};
use crate::blockchain::json::{json_data, push_data_json};
use crate::primitives::clock::now_seconds;
use crate::primitives::digest::{sha256, sha256_digest};
use crate::primitives::mime::{detect_mime_type, mime_detected_from};
use crate::text::{all_upper_hex, decimal, decimal_string, hex_upper, lemma_hex_upper_shape, to_hex_upper};
use vstd::prelude::*;
use vstd::string::StringExecFns;
use vstd::utf8::encode_utf8;

verus! {

/// What a block carries: a record, or a withdrawal from the network pool.
#[derive(Clone, Debug, PartialEq)]
pub enum DataTypes {
    Transaction(BlockInformation),
    Withdrawal(PoolInfor),
}

/// The value of a `DataTypes`.
pub ghost enum DataView {
    Transaction(InformationView),
    Withdrawal(PoolView),
}

/// The value of an optional block payload.
pub open spec fn data_view(d: Option<DataTypes>) -> Option<DataView> {
    match d {
        None => None,
        Some(DataTypes::Transaction(t)) => Some(DataView::Transaction(t@)),
        Some(DataTypes::Withdrawal(p)) => Some(DataView::Withdrawal(p@)),
    }
}

/// A single block of the chain.
///
/// * `index`: where the block is in the chain
/// * `previous_hash`: the hash of the previous block, which links the chain
/// * `data`: what the block carries
/// * `hash`: the hash of the block's index, previous hash and data
#[derive(Clone, Debug, PartialEq)]
pub struct Block {
    pub index: u128,
    pub previous_hash: String,
    pub data: Option<DataTypes>,
    pub hash: String,
}

/// The value of a `Block`.
pub ghost struct BlockView {
    pub index: u128,
    pub previous_hash: Seq<char>,
    pub data: Option<DataView>,
    pub hash: Seq<char>,
}

impl View for Block {
    type V = BlockView;

    open spec fn view(&self) -> BlockView {
        BlockView {
            index: self.index,
            previous_hash: self.previous_hash@,
            data: data_view(self.data),
            hash: self.hash@,
        }
    }
}

/// Whether the validity of a block can be checked: a record's key and signature
/// decode.
pub open spec fn block_checkable(b: BlockView) -> bool {
    match b.data {
        Some(DataView::Transaction(t)) => signature_decodes(t),
        _ => true,
    }
}

/// The values of a sequence of blocks.
pub open spec fn blocks_view(blocks: Seq<Block>) -> Seq<BlockView> {
    blocks.map_values(|b: Block| b@)
}


/// The text that is hashed for a block: its index in decimal, the previous hash,
/// and the JSON text of its payload.
pub open spec fn block_hash_input(index: u128, previous_hash: Seq<char>, data: Option<DataView>) -> Seq<char> {
    decimal(index as nat) + previous_hash + json_data(data)
}

/// The hash of a block: the SHA-256 digest of the UTF-8 bytes of its hashed text,
/// in upper-case hexadecimal.
pub open spec fn block_hash(index: u128, previous_hash: Seq<char>, data: Option<DataView>) -> Seq<char> {
    hex_upper(sha256(encode_utf8(block_hash_input(index, previous_hash, data))))
}

fn compute_hash(index: u128, previous_hash: &str, data: &Option<DataTypes>) -> (r: String)
    ensures
        r@ == block_hash(index, previous_hash@, data_view(*data)),
        r@.len() == 64,
        all_upper_hex(r@),
{
    let mut block_str = decimal_string(index);
    block_str.append(previous_hash);
    push_data_json(&mut block_str, data);
    let digest = sha256_digest(block_str.as_str().as_bytes());
    proof {
        lemma_hex_upper_shape(digest@);
    }
    to_hex_upper(digest.as_slice())
}

/// Hashes a block's contents; used to link and to check blocks.
pub fn hash_block(index: u128, previous_hash: String, data: Option<DataTypes>) -> (r: Option<String>)
    ensures
        r matches Some(h) && h@ == block_hash(index, previous_hash@, data_view(data)),
        r matches Some(h) && h@.len() == 64 && all_upper_hex(h@),
{
    Some(compute_hash(index, previous_hash.as_str(), &data))
}

/// The data with which the genesis block stores its file.
pub open spec fn genesis_file_bytes() -> Seq<u8> {
    seq![116u8, 101u8, 115u8, 116u8, 49u8]
}

/// The bytes of the text `initial signature`, which the genesis record carries
/// as its signature.
pub open spec fn genesis_signature_bytes() -> Seq<u8> {
    seq![
        105u8, 110u8, 105u8, 116u8, 105u8, 97u8, 108u8, 32u8, 115u8, 105u8, 103u8, 110u8, 97u8,
        116u8, 117u8, 114u8, 101u8,
    ]
}

/// The record in the genesis block, written at `timestamp`, for a file whose
/// MIME type was detected as `mime_type`.
pub open spec fn genesis_record(mime_type: Seq<char>, timestamp: i128) -> BlockView {
    BlockView {
        index: 0,
        previous_hash: "0"@,
        data: Some(DataView::Transaction(genesis_information(mime_type, timestamp))),
        hash: block_hash(0, "0"@, Some(DataView::Transaction(genesis_information(mime_type, timestamp)))),
    }
}

/// The file record that the genesis block carries.
pub open spec fn genesis_information(mime_type: Seq<char>, timestamp: i128) -> InformationView {
    file_record_view(
        mime_type,
        Seq::new(32, |i: int| 116u8),
        "0.0.1"@,
        "https://github.com/vidur2"@,
        genesis_file_bytes(),
        FileType::DataStore,
        genesis_signature_bytes(),
        timestamp,
        0,
    )
}

impl Block {
    /// Constructor for a single block: its hash is computed from the index, the
    /// previous hash and the data.
    pub fn new(index: u128, previous_hash: String, data: Option<DataTypes>) -> (r: Self)
        ensures
            r@ == (BlockView {
                index,
                previous_hash: previous_hash@,
                data: data_view(data),
                hash: block_hash(index, previous_hash@, data_view(data)),
            }),
            r.hash@.len() == 64,
            all_upper_hex(r.hash@),
    {
        let hash = compute_hash(index, previous_hash.as_str(), &data);
        Block { index, previous_hash, data, hash }
    }

    /// Whether the block's hash is the hash of its index, previous hash and data.
    pub fn hash_matches(&self) -> (r: bool)
        ensures
            r == (self@.hash == block_hash(self.index, self.previous_hash@, data_view(self.data))),
    {
        let expected = compute_hash(self.index, self.previous_hash.as_str(), &self.data);
        expected == self.hash
    }

    /// Whether the block's validity can be checked: a record's key and signature
    /// decode.
    pub fn is_checkable(&self) -> (r: bool)
        ensures
            r == block_checkable(self@),
    {
        match &self.data {
            Some(DataTypes::Transaction(txn)) => txn.signature_decodes(),
            _ => true,
        }
    }

    /// The genesis block for a file record written at `timestamp` whose data was
    /// detected as `mime_type`. The genesis record is not charged a storage fee.
    pub fn genesis_at(mime_type: &str, timestamp: i128) -> (r: Self)
        ensures
            r@ == genesis_record(mime_type@, timestamp),
    {
        let mut creator: Vec<u8> = Vec::new();
        for i in 0..32usize
            invariant
                creator@ == Seq::new(i as nat, |k: int| 116u8),
        {
            creator.push(116u8);
            assert(creator@ =~= Seq::new((i + 1) as nat, |k: int| 116u8));
        }
        let file: Vec<u8> = vec![116u8, 101u8, 115u8, 116u8, 49u8];
        let signature: Vec<u8> = vec![
            105u8, 110u8, 105u8, 116u8, 105u8, 97u8, 108u8, 32u8, 115u8, 105u8, 103u8, 110u8, 97u8,
            116u8, 117u8, 114u8, 101u8,
        ];
        assert(file@ =~= genesis_file_bytes());
        assert(signature@ =~= genesis_signature_bytes());
        let info = BlockInformation::file_record(
            mime_type,
            creator,
            String::from_str("0.0.1"),
            String::from_str("https://github.com/vidur2"),
            file.as_slice(),
            FileType::DataStore,
            signature,
            timestamp,
            0,
        );
        Block::new(0, String::from_str("0"), Some(DataTypes::Transaction(info)))
    }

    /// Gets the genesis block (hard-coded information), written now.
    pub fn genesis() -> (r: Self)
        ensures
            exists|mime_type: Seq<char>, timestamp: i128|
                mime_detected_from(genesis_file_bytes(), mime_type) && r@ == genesis_record(mime_type, timestamp),
    {
        let timestamp = now_seconds() as i128;
        let file: Vec<u8> = vec![116u8, 101u8, 115u8, 116u8, 49u8];
        let mime_type = detect_mime_type(file.as_slice());
        Self::genesis_at(mime_type.as_str(), timestamp)
    }
}

} // verus!
