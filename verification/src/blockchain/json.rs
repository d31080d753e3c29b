use crate::blockchain::block::{blocks_view, Block, BlockView, DataTypes, DataView, data_view};
use crate::blockchain::block_infor::{BlockInformation, FileType, InformationView, option_string_view};
use crate::blockchain::pool_infor::{PoolInfor, PoolView, byte_lists_view};
use crate::primitives::encoding::{json_quote, json_string};
use crate::text::{decimal, decimal_int, push_decimal, push_decimal_signed};
use vstd::prelude::*;
use vstd::string::StringExecFns;

verus! {

// The JSON text of the chain's values, field by field in declaration order,
// without white space: the form in which blocks are hashed and compared.

/// Parts written one after another with a comma between each two.
pub open spec fn join_comma(parts: Seq<Seq<char>>) -> Seq<char>
    decreases parts.len(),
{
    if parts.len() == 0 {
        seq![]
    } else if parts.len() == 1 {
        parts[0]
    } else {
        join_comma(parts.drop_last()) + seq![','] + parts.last()
    }
}

/// Adding a part adds a comma and the part (or only the part, to an empty list).
pub proof fn lemma_join_comma_push(parts: Seq<Seq<char>>, p: Seq<char>)
    ensures
        join_comma(parts.push(p)) == (if parts.len() == 0 {
            p
        } else {
            join_comma(parts) + seq![','] + p
        }),
{
    assert(parts.push(p).drop_last() =~= parts);
    if parts.len() == 0 {
        assert(parts.push(p)[0] == p);
    }
}

/// `null`, or the string.
pub open spec fn json_optional_string(s: Option<Seq<char>>) -> Seq<char> {
    match s {
        Some(t) => json_string(t),
        None => "null"@,
    }
}

/// A byte sequence as a JSON array of numbers.
pub open spec fn json_number_list(s: Seq<u8>) -> Seq<char> {
    "["@ + join_comma(s.map_values(|b: u8| decimal(b as nat))) + "]"@
}

/// A list of byte sequences as a JSON array of arrays.
pub open spec fn json_byte_lists(s: Seq<Seq<u8>>) -> Seq<char> {
    "["@ + join_comma(s.map_values(|b: Seq<u8>| json_number_list(b))) + "]"@
}

/// A file type as the JSON string of its name.
pub open spec fn json_file_type(t: FileType) -> Seq<char> {
    match t {
        FileType::Frontend => "\"Frontend\""@,
        FileType::DataStore => "\"DataStore\""@,
    }
}

/// The first fields of a record's JSON object: data, linked URI and creator.
pub open spec fn json_information_head(v: InformationView) -> Seq<char> {
    "{\"data\":"@ + json_optional_string(v.data) + ",\"linked_uri\":"@ + json_string(v.linked_uri)
        + ",\"creator\":"@ + json_number_list(v.creator)
}

/// The middle fields of a record's JSON object: version, file type and signature.
pub open spec fn json_information_middle(v: InformationView) -> Seq<char> {
    ",\"version\":"@ + json_string(v.version) + ",\"file_type\":"@ + json_file_type(v.file_type)
        + ",\"signature\":"@ + json_number_list(v.signature)
}

/// The last fields of a record's JSON object: timestamp, amount and receiver.
pub open spec fn json_information_tail(v: InformationView) -> Seq<char> {
    ",\"timestamp\":"@ + decimal_int(v.timestamp as int) + ",\"tokens_transferred\":"@ + decimal(
        v.tokens_transferred as nat,
    ) + ",\"to_acct_id\":"@ + json_string(v.to_acct_id) + "}"@
}

/// A record as a JSON object.
pub open spec fn json_information(v: InformationView) -> Seq<char> {
    json_information_head(v) + json_information_middle(v) + json_information_tail(v)
}

/// A withdrawal as a JSON object.
pub open spec fn json_pool(p: PoolView) -> Seq<char> {
    "{\"timestamp\":"@ + decimal_int(p.timestamp as int) + ",\"nodes_present\":"@ + json_byte_lists(
        p.nodes_present,
    ) + ",\"tokens_in_period\":"@ + decimal(p.tokens_in_period as nat) + "}"@
}

/// A block's payload: `null`, or an object named by the variant.
pub open spec fn json_data(d: Option<DataView>) -> Seq<char> {
    match d {
        None => "null"@,
        Some(DataView::Transaction(t)) => "{\"Transaction\":"@ + json_information(t) + "}"@,
        Some(DataView::Withdrawal(p)) => "{\"Withdrawal\":"@ + json_pool(p) + "}"@,
    }
}

/// A block as a JSON object.
pub open spec fn json_block(b: BlockView) -> Seq<char> {
    "{\"index\":"@ + decimal(b.index as nat) + ",\"previous_hash\":"@ + json_string(b.previous_hash)
        + ",\"data\":"@ + json_data(b.data) + ",\"hash\":"@ + json_string(b.hash) + "}"@
}

/// A list of blocks as a JSON array.
pub open spec fn json_blocks(c: Seq<BlockView>) -> Seq<char> {
    "["@ + join_comma(c.map_values(|b: BlockView| json_block(b))) + "]"@
}

/// A chain as a JSON object with the list of its blocks.
pub open spec fn json_chain(c: Seq<BlockView>) -> Seq<char> {
    "{\"chain\":["@ + join_comma(c.map_values(|b: BlockView| json_block(b))) + "]}"@
}

/// Appends a string as a JSON string literal.
pub fn push_json_string(out: &mut String, s: &str)
    ensures
        final(out)@ == old(out)@ + json_string(s@),
{
    match json_quote(s) {
        Ok(q) => out.append(q.as_str()),
        Err(_) => {},
    }
}

/// Appends a byte sequence as a JSON array of numbers.
pub fn push_number_list(out: &mut String, bytes: &[u8])
    ensures
        final(out)@ == old(out)@ + json_number_list(bytes@),
{
    proof {
        reveal_strlit(",");
    }
    let ghost start = out@;
    let ghost parts = bytes@.map_values(|b: u8| decimal(b as nat));
    out.append("[");
    let n = bytes.len();
    for i in 0..n
        invariant
            n == bytes@.len(),
            parts == bytes@.map_values(|b: u8| decimal(b as nat)),
            out@ == start + "["@ + join_comma(parts.take(i as int)),
    {
        proof {
            reveal_strlit(",");
            assert(parts.take(i + 1) =~= parts.take(i as int).push(parts[i as int]));
            lemma_join_comma_push(parts.take(i as int), parts[i as int]);
        }
        if i > 0 {
            out.append(",");
        }
        push_decimal(out, bytes[i] as u128);
        assert(parts[i as int] == decimal(bytes@[i as int] as nat));
        assert(out@ =~= start + "["@ + join_comma(parts.take(i + 1)));
    }
    assert(parts.take(n as int) =~= parts);
    out.append("]");
}

/// Appends a list of byte sequences as a JSON array of arrays.
pub fn push_byte_lists(out: &mut String, lists: &Vec<Vec<u8>>)
    ensures
        final(out)@ == old(out)@ + json_byte_lists(byte_lists_view(lists@)),
{
    proof {
        reveal_strlit(",");
    }
    let ghost start = out@;
    let ghost parts = byte_lists_view(lists@).map_values(|b: Seq<u8>| json_number_list(b));
    out.append("[");
    let n = lists.len();
    for i in 0..n
        invariant
            n == lists@.len(),
            parts == byte_lists_view(lists@).map_values(|b: Seq<u8>| json_number_list(b)),
            out@ == start + "["@ + join_comma(parts.take(i as int)),
    {
        proof {
            reveal_strlit(",");
            assert(parts.take(i + 1) =~= parts.take(i as int).push(parts[i as int]));
            lemma_join_comma_push(parts.take(i as int), parts[i as int]);
        }
        if i > 0 {
            out.append(",");
        }
        push_number_list(out, lists[i].as_slice());
        assert(parts[i as int] == json_number_list(lists@[i as int]@));
        assert(out@ =~= start + "["@ + join_comma(parts.take(i + 1)));
    }
    assert(parts.take(n as int) =~= parts);
    out.append("]");
}


fn push_information_head(out: &mut String, info: &BlockInformation)
    ensures
        final(out)@ == old(out)@ + json_information_head(info@),
{
    let ghost start = out@;
    out.append("{\"data\":");
    match &info.data {
        Some(d) => push_json_string(out, d.as_str()),
        None => out.append("null"),
    }
    assert(out@ =~= start + "{\"data\":"@ + json_optional_string(info@.data));
    out.append(",\"linked_uri\":");
    push_json_string(out, info.linked_uri.as_str());
    out.append(",\"creator\":");
    push_number_list(out, info.creator.as_slice());
    assert(out@ =~= start + json_information_head(info@));
}

fn push_information_middle(out: &mut String, info: &BlockInformation)
    ensures
        final(out)@ == old(out)@ + json_information_middle(info@),
{
    let ghost start = out@;
    out.append(",\"version\":");
    push_json_string(out, info.version.as_str());
    out.append(",\"file_type\":");
    match info.file_type {
        FileType::Frontend => out.append("\"Frontend\""),
        FileType::DataStore => out.append("\"DataStore\""),
    }
    out.append(",\"signature\":");
    push_number_list(out, info.signature.as_slice());
    assert(out@ =~= start + json_information_middle(info@));
}

fn push_information_tail(out: &mut String, info: &BlockInformation)
    ensures
        final(out)@ == old(out)@ + json_information_tail(info@),
{
    let ghost start = out@;
    out.append(",\"timestamp\":");
    push_decimal_signed(out, info.timestamp);
    out.append(",\"tokens_transferred\":");
    push_decimal(out, info.tokens_transferred as u128);
    out.append(",\"to_acct_id\":");
    push_json_string(out, info.to_acct_id.as_str());
    out.append("}");
    assert(out@ =~= start + json_information_tail(info@));
}

/// Appends a record as a JSON object.
pub fn push_information_json(out: &mut String, info: &BlockInformation)
    ensures
        final(out)@ == old(out)@ + json_information(info@),
{
    let ghost start = out@;
    push_information_head(out, info);
    push_information_middle(out, info);
    push_information_tail(out, info);
    assert(out@ =~= start + json_information(info@));
}

/// Appends a withdrawal as a JSON object.
pub fn push_pool_json(out: &mut String, pool: &PoolInfor)
    ensures
        final(out)@ == old(out)@ + json_pool(pool@),
{
    let ghost start = out@;
    out.append("{\"timestamp\":");
    push_decimal_signed(out, pool.get_timestamp() as i128);
    out.append(",\"nodes_present\":");
    push_byte_lists(out, pool.nodes_present());
    out.append(",\"tokens_in_period\":");
    push_decimal(out, pool.get_tokens_in_period());
    out.append("}");
    assert(out@ =~= start + json_pool(pool@));
}

/// Appends a block's payload.
pub fn push_data_json(out: &mut String, data: &Option<DataTypes>)
    ensures
        final(out)@ == old(out)@ + json_data(data_view(*data)),
{
    let ghost start = out@;
    match data {
        None => out.append("null"),
        Some(DataTypes::Transaction(t)) => {
            out.append("{\"Transaction\":");
            push_information_json(out, t);
            out.append("}");
            assert(out@ =~= start + json_data(data_view(*data)));
        },
        Some(DataTypes::Withdrawal(p)) => {
            out.append("{\"Withdrawal\":");
            push_pool_json(out, p);
            out.append("}");
            assert(out@ =~= start + json_data(data_view(*data)));
        },
    }
}

/// Appends a block as a JSON object.
#[verifier::spinoff_prover]
pub fn push_block_json(out: &mut String, block: &Block)
    ensures
        final(out)@ == old(out)@ + json_block(block@),
{
    let ghost start = out@;
    out.append("{\"index\":");
    push_decimal(out, block.index);
    out.append(",\"previous_hash\":");
    push_json_string(out, block.previous_hash.as_str());
    let ghost middle = out@;
    assert(middle =~= start + ("{\"index\":"@ + decimal(block.index as nat) + ",\"previous_hash\":"@
        + json_string(block@.previous_hash)));
    out.append(",\"data\":");
    push_data_json(out, &block.data);
    out.append(",\"hash\":");
    push_json_string(out, block.hash.as_str());
    out.append("}");
    assert(out@ =~= start + json_block(block@));
}

/// Appends a list of blocks as a JSON array.
fn push_blocks_json(out: &mut String, blocks: &Vec<Block>)
    ensures
        final(out)@ == old(out)@ + json_blocks(blocks_view(blocks@)),
{
    let ghost start = out@;
    let ghost parts = blocks_view(blocks@).map_values(|b: BlockView| json_block(b));
    out.append("[");
    let n = blocks.len();
    for i in 0..n
        invariant
            n == blocks@.len(),
            parts == blocks_view(blocks@).map_values(|b: BlockView| json_block(b)),
            out@ == start + "["@ + join_comma(parts.take(i as int)),
    {
        proof {
            reveal_strlit(",");
            assert(parts.take(i + 1) =~= parts.take(i as int).push(parts[i as int]));
            lemma_join_comma_push(parts.take(i as int), parts[i as int]);
        }
        if i > 0 {
            out.append(",");
        }
        push_block_json(out, &blocks[i]);
        assert(parts[i as int] == json_block(blocks@[i as int]@));
        assert(out@ =~= start + "["@ + join_comma(parts.take(i + 1)));
    }
    assert(parts.take(n as int) =~= parts);
    out.append("]");
    assert(out@ =~= start + json_blocks(blocks_view(blocks@)));
}

/// The JSON text of a list of blocks.
pub fn blocks_json(blocks: &Vec<Block>) -> (r: String)
    ensures
        r@ == json_blocks(blocks_view(blocks@)),
{
    let mut out = String::new();
    push_blocks_json(&mut out, blocks);
    out
}

/// The JSON text of a chain of blocks.
pub fn chain_json(blocks: &Vec<Block>) -> (r: String)
    ensures
        r@ == json_chain(blocks_view(blocks@)),
{
    proof {
        reveal_strlit("{\"chain\":");
        reveal_strlit("{\"chain\":[");
        reveal_strlit("[");
        reveal_strlit("]");
        reveal_strlit("]}");
        reveal_strlit("}");
    }
    let mut out = String::from_str("{\"chain\":");
    push_blocks_json(&mut out, blocks);
    out.append("}");
    assert(out@ =~= json_chain(blocks_view(blocks@)));
    out
}

} // verus!
