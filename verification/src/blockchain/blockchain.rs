use crate::blockchain::block::{Block, BlockView, DataTypes, DataView, block_checkable, block_hash, blocks_view, genesis_file_bytes, genesis_record};
use crate::primitives::mime::mime_detected_from;
use crate::blockchain::block_infor::{BlockInformation, InformationView, signature_decodes, signature_valid};
use crate::blockchain::json::{chain_json, join_comma, json_block, json_data, json_chain, json_information, lemma_join_comma_push, push_information_json};
use crate::primitives::encoding::json_string;
use crate::blockchain::pool_infor::{PoolInfor, PoolView, byte_lists_view, pool_share, pool_time_valid};
use crate::primitives::encoding::{json_node_list, parse_node_list};
use crate::primitives::clock::now_seconds;
use crate::text::{bytes_equal, chars_of, contains_text, decimal, find_text, occurs_at};
use vstd::prelude::*;
use vstd::string::StringExecFns;

verus! {

/// The chain of blocks that a node holds.
#[derive(Clone, Debug)]
pub struct Blockchain {
    pub chain: Vec<Block>,
}

impl View for Blockchain {
    type V = Seq<BlockView>;

    open spec fn view(&self) -> Seq<BlockView> {
        blocks_view(self.chain@)
    }
}

/// What a block changes in the balance of `acct`: a record sent by `acct` takes
/// its amount away, a withdrawal adds the account's share of the pool.
pub open spec fn balance_delta(b: BlockView, acct: Seq<u8>) -> int {
    match b.data {
        Some(DataView::Transaction(t)) => if t.creator == acct {
            -(t.tokens_transferred as int)
        } else {
            0
        },
        Some(DataView::Withdrawal(p)) => pool_share(p, acct) as int,
        None => 0,
    }
}

/// The balance of `acct` after the blocks of `c`.
pub open spec fn wallet_balance(c: Seq<BlockView>, acct: Seq<u8>) -> int
    decreases c.len(),
{
    if c.len() == 0 {
        0
    } else {
        wallet_balance(c.drop_last(), acct) + balance_delta(c.last(), acct)
    }
}

/// The tokens that a block moves: a record's amount, or a withdrawal's pool.
pub open spec fn block_volume(b: BlockView) -> nat {
    match b.data {
        Some(DataView::Transaction(t)) => t.tokens_transferred as nat,
        Some(DataView::Withdrawal(p)) => p.tokens_in_period as nat,
        None => 0,
    }
}

/// The tokens that the blocks of `c` move, all together.
pub open spec fn token_volume(c: Seq<BlockView>) -> nat
    decreases c.len(),
{
    if c.len() == 0 {
        0
    } else {
        token_volume(c.drop_last()) + block_volume(c.last())
    }
}

/// Whether the balances of a chain can be computed in 128-bit arithmetic: all the
/// tokens that it moves fit in an `i128`.
pub open spec fn within_volume_limit(c: Seq<BlockView>) -> bool {
    token_volume(c) <= i128::MAX
}

/// The tokens paid to the network since the last withdrawal: the amounts of the
/// records sent to the account `network` after the last withdrawal block.
pub open spec fn pool_amount(c: Seq<BlockView>) -> nat
    decreases c.len(),
{
    if c.len() == 0 {
        0
    } else {
        match c.last().data {
            Some(DataView::Withdrawal(_)) => 0,
            Some(DataView::Transaction(t)) => pool_amount(c.drop_last()) + (if t.to_acct_id
                == "network"@ {
                t.tokens_transferred as nat
            } else {
                0
            }),
            None => pool_amount(c.drop_last()),
        }
    }
}

/// A balance is never further from zero than the tokens that the chain moves.
pub proof fn lemma_balance_within_volume(c: Seq<BlockView>, acct: Seq<u8>)
    ensures
        -(token_volume(c) as int) <= wallet_balance(c, acct) <= token_volume(c),
    decreases c.len(),
{
    if c.len() > 0 {
        lemma_balance_within_volume(c.drop_last(), acct);
        if let Some(DataView::Withdrawal(p)) = c.last().data {
            if p.nodes_present.contains(acct) {
                let x = p.tokens_in_period as nat;
                let n = p.nodes_present.len();
                assert(x / n <= x) by (nonlinear_arith)
                    requires
                        n >= 1,
                ;
            }
        }
    }
}

/// The tokens moved by a prefix are no more than those moved by the whole.
pub proof fn lemma_volume_of_prefix(c: Seq<BlockView>, i: int)
    requires
        0 <= i <= c.len(),
    ensures
        token_volume(c.take(i)) <= token_volume(c),
    decreases c.len(),
{
    if i < c.len() {
        assert(c.drop_last().take(i) =~= c.take(i));
        lemma_volume_of_prefix(c.drop_last(), i);
    } else {
        assert(c.take(i) =~= c);
    }
}

/// Whether `s` is the name of the network's account.
fn is_network_account(s: &String) -> (r: bool)
    ensures
        r == (s@ == "network"@),
{
    let network = String::from_str("network");
    *s == network
}

/// Whether a record pays a stored file's fee to the network: a record that
/// stores a file must be sent to the account `network`.
pub open spec fn fee_paid_to_network(t: InformationView) -> bool {
    t.data is Some ==> t.to_acct_id == "network"@
}

/// Whether the creator of a record can afford it in chain `c`.
pub open spec fn balance_covers(c: Seq<BlockView>, t: InformationView) -> bool {
    wallet_balance(c, t.creator) >= t.tokens_transferred
}

/// Whether a record may be added to chain `c`: its signature is valid, its
/// creator can afford it, and a stored file's fee goes to the network.
pub open spec fn transaction_valid(c: Seq<BlockView>, t: InformationView) -> bool {
    &&& signature_valid(t)
    &&& balance_covers(c, t)
    &&& fee_paid_to_network(t)
}

/// Whether `new_block` is linked to `previous`: it has the next index, names the
/// previous block's hash, and its own hash is the hash of its contents.
pub open spec fn block_linked(new_block: BlockView, previous: BlockView) -> bool {
    &&& new_block.index == previous.index + 1
    &&& new_block.previous_hash == previous.hash
    &&& new_block.hash == block_hash(new_block.index, new_block.previous_hash, new_block.data)
}

/// Whether `new_block` may follow `previous`, checked against chain `c`, where
/// `pool_before` tokens were paid to the network since the last withdrawal before
/// it: it is linked to `previous`, a record that it carries is valid in `c`, and a
/// withdrawal that it carries withdraws exactly `pool_before`.
pub open spec fn block_valid(c: Seq<BlockView>, new_block: BlockView, previous: BlockView, pool_before: nat) -> bool {
    &&& block_linked(new_block, previous)
    &&& (new_block.data matches Some(DataView::Transaction(t)) ==> transaction_valid(c, t))
    &&& (new_block.data matches Some(DataView::Withdrawal(p)) ==> p.tokens_in_period == pool_before)
}

/// The block that `add_block` appends for record `t` to a non-empty chain `c`.
pub open spec fn appended_block(c: Seq<BlockView>, t: InformationView) -> BlockView {
    BlockView {
        index: c.len() as u128,
        previous_hash: c.last().hash,
        data: Some(DataView::Transaction(t)),
        hash: block_hash(c.len() as u128, c.last().hash, Some(DataView::Transaction(t))),
    }
}

/// Whether `add_block` adds record `t` to the non-empty chain `c`: the record is
/// valid, the last block's index is one less than the new block's, and the record
/// is not in the chain yet.
pub open spec fn add_block_accepts(c: Seq<BlockView>, t: InformationView) -> bool {
    &&& transaction_valid(c, t)
    &&& c.len() - 1 == c.last().index
    &&& !record_exists(c, t)
}

/// Whether the JSON text of chain `c` already holds the JSON text of record `t`.
pub open spec fn record_exists(c: Seq<BlockView>, t: InformationView) -> bool {
    contains_text(json_chain(c), json_information(t))
}

/// Whether the block at `i` of a replacement chain `nc` passes the check against
/// chain `c` at time `now`: it may follow the block before it (`block_valid`, a
/// withdrawal taking the pool collected in `nc` before it), and a record or
/// withdrawal that it carries is not dated after `now`.
pub open spec fn step_valid(c: Seq<BlockView>, nc: Seq<BlockView>, i: int, now: i64) -> bool {
    &&& step_valid_untimed(c, nc, i)
    &&& (nc[i].data matches Some(DataView::Transaction(t)) ==> t.timestamp <= now)
    &&& (nc[i].data matches Some(DataView::Withdrawal(p)) ==> pool_time_valid(p, now))
}

/// `step_valid` without the check of the timestamps.
pub open spec fn step_valid_untimed(c: Seq<BlockView>, nc: Seq<BlockView>, i: int) -> bool {
    block_valid(c, nc[i], nc[i - 1], pool_amount(nc.take(i)))
}

/// Whether the replacement `nc` passes the check against chain `c` at time `now`:
/// it has a first block, and every block after the first one passes the check.
pub open spec fn chain_valid_at(c: Seq<BlockView>, nc: Seq<BlockView>, now: i64) -> bool {
    &&& nc.len() >= 1
    &&& forall|i: int| 1 <= i < nc.len() ==> #[trigger] step_valid(c, nc, i, now)
}

/// `chain_valid_at` without the check of the timestamps.
pub open spec fn chain_valid_untimed(c: Seq<BlockView>, nc: Seq<BlockView>) -> bool {
    &&& nc.len() >= 1
    &&& forall|i: int| 1 <= i < nc.len() ==> #[trigger] step_valid_untimed(c, nc, i)
}

/// Whether the block at `i` of a replacement can be checked (`block_checkable`).
pub open spec fn step_checkable(nc: Seq<BlockView>, i: int) -> bool {
    block_checkable(nc[i])
}

/// Whether the check of replacement `nc` at time `now` reaches only blocks that
/// can be checked: every block that it reaches, the blocks before it having
/// passed, can be checked.
pub open spec fn replacement_checkable_at(c: Seq<BlockView>, nc: Seq<BlockView>, now: i64) -> bool {
    forall|i: int|
        1 <= i < nc.len() && (forall|j: int| 1 <= j < i ==> #[trigger] step_valid(c, nc, j, now))
            ==> #[trigger] step_checkable(nc, i)
}

/// `replacement_checkable_at` for every time: every block that the check can
/// reach, whatever the time, can be checked.
pub open spec fn replacement_checkable(c: Seq<BlockView>, nc: Seq<BlockView>) -> bool {
    forall|i: int|
        1 <= i < nc.len() && (forall|j: int| 1 <= j < i ==> #[trigger] step_valid_untimed(c, nc, j))
            ==> #[trigger] step_checkable(nc, i)
}

/// What `try_replace_chain_at` answers for replacement `nc` of chain `c` at time
/// `now`: `None` exactly when `c` moves too many tokens or the check reaches a
/// block that cannot be checked, else whether `nc` passes the check.
pub open spec fn replacement_outcome(c: Seq<BlockView>, nc: Seq<BlockView>, now: i64, r: Option<bool>) -> bool {
    &&& (r is None <==> !(within_volume_limit(c) && replacement_checkable_at(c, nc, now)))
    &&& (r matches Some(replaced) ==> replaced == chain_valid_at(c, nc, now))
}

/// Whether block `b` carries a record linked to `uri`.
pub open spec fn block_has_uri(b: BlockView, uri: Seq<char>) -> bool {
    b.data matches Some(DataView::Transaction(t)) && t.linked_uri == uri
}

/// Whether block `b` carries a record with the timestamp `timestamp`.
pub open spec fn block_has_timestamp(b: BlockView, timestamp: i128) -> bool {
    b.data matches Some(DataView::Transaction(t)) && t.timestamp == timestamp
}

/// The index of the last block of `c` whose record is linked to `uri`, or -1
/// when there is none.
pub open spec fn last_with_uri(c: Seq<BlockView>, uri: Seq<char>) -> int
    decreases c.len(),
{
    if c.len() == 0 {
        -1
    } else if block_has_uri(c.last(), uri) {
        c.len() - 1
    } else {
        last_with_uri(c.drop_last(), uri)
    }
}

/// `last_with_uri` names a block linked to `uri` with none after it, or says that
/// no block is.
pub proof fn lemma_last_with_uri(c: Seq<BlockView>, uri: Seq<char>)
    ensures
        -1 <= last_with_uri(c, uri) < c.len(),
        last_with_uri(c, uri) >= 0 ==> block_has_uri(c[last_with_uri(c, uri)], uri),
        forall|j: int| last_with_uri(c, uri) < j < c.len() ==> !#[trigger] block_has_uri(c[j], uri),
    decreases c.len(),
{
    if c.len() > 0 {
        lemma_last_with_uri(c.drop_last(), uri);
        if !block_has_uri(c.last(), uri) {
            assert forall|j: int| last_with_uri(c, uri) < j < c.len() implies !#[trigger] block_has_uri(
                c[j],
                uri,
            ) by {
                if j < c.len() - 1 {
                    assert(c[j] == c.drop_last()[j]);
                }
            }
            if last_with_uri(c, uri) >= 0 {
                assert(c[last_with_uri(c, uri)] == c.drop_last()[last_with_uri(c, uri)]);
            }
        }
    }
}

/// The index of the first block of `c` whose record has the timestamp
/// `timestamp`, or -1 when there is none.
pub open spec fn first_with_timestamp(c: Seq<BlockView>, timestamp: i128) -> int
    decreases c.len(),
{
    if c.len() == 0 {
        -1
    } else if first_with_timestamp(c.drop_last(), timestamp) >= 0 {
        first_with_timestamp(c.drop_last(), timestamp)
    } else if block_has_timestamp(c.last(), timestamp) {
        c.len() - 1
    } else {
        -1
    }
}

/// `first_with_timestamp` names a block with the timestamp and none before it,
/// or says that no block has it.
pub proof fn lemma_first_with_timestamp(c: Seq<BlockView>, timestamp: i128)
    ensures
        -1 <= first_with_timestamp(c, timestamp) < c.len(),
        first_with_timestamp(c, timestamp) >= 0 ==> block_has_timestamp(
            c[first_with_timestamp(c, timestamp)],
            timestamp,
        ),
        forall|j: int|
            0 <= j < c.len() && (first_with_timestamp(c, timestamp) < 0 || j < first_with_timestamp(
                c,
                timestamp,
            )) ==> !#[trigger] block_has_timestamp(c[j], timestamp),
    decreases c.len(),
{
    if c.len() > 0 {
        let d = c.drop_last();
        lemma_first_with_timestamp(d, timestamp);
        let f = first_with_timestamp(c, timestamp);
        assert forall|j: int| 0 <= j < c.len() && (f < 0 || j < f) implies !#[trigger] block_has_timestamp(
            c[j],
            timestamp,
        ) by {
            if j < c.len() - 1 {
                assert(c[j] == d[j]);
            }
        }
        if f >= 0 && f < c.len() - 1 {
            assert(c[f] == d[f]);
        }
    }
}

/// The withdrawal block that `withdraw` appends to a non-empty chain `c`.
pub open spec fn withdrawal_block(c: Seq<BlockView>, nodes_present: Seq<Seq<u8>>, timestamp: i64) -> BlockView {
    let data = Some(
        DataView::Withdrawal(
            PoolView { timestamp, nodes_present, tokens_in_period: pool_amount(c) as u128 },
        ),
    );
    BlockView {
        index: c.len() as u128,
        previous_hash: c.last().hash,
        data,
        hash: block_hash(c.len() as u128, c.last().hash, data),
    }
}

/// A replacement that is checkable for every time is checkable at each time.
pub proof fn lemma_checkable_at_every_time(c: Seq<BlockView>, nc: Seq<BlockView>, now: i64)
    requires
        replacement_checkable(c, nc),
    ensures
        replacement_checkable_at(c, nc, now),
{
    assert forall|i: int|
        1 <= i < nc.len() && (forall|j: int| 1 <= j < i ==> #[trigger] step_valid(c, nc, j, now))
            implies #[trigger] step_checkable(nc, i) by {
        assert forall|j: int| 1 <= j < i implies #[trigger] step_valid_untimed(c, nc, j) by {
            assert(step_valid(c, nc, j, now));
        }
    }
}

/// A replacement that passes the check at some time passes it without the
/// timestamps.
pub proof fn lemma_valid_at_is_valid_untimed(c: Seq<BlockView>, nc: Seq<BlockView>, now: i64)
    ensures
        chain_valid_at(c, nc, now) ==> chain_valid_untimed(c, nc),
{
    if chain_valid_at(c, nc, now) {
        assert forall|i: int| 1 <= i < nc.len() implies #[trigger] step_valid_untimed(c, nc, i) by {
            assert(step_valid(c, nc, i, now));
        }
    }
}

impl Blockchain {
    /// Constructor for the chain: it holds the genesis block alone.
    pub fn new() -> (r: Self)
        ensures
            r@.len() == 1,
            exists|mime_type: Seq<char>, timestamp: i128|
                mime_detected_from(genesis_file_bytes(), mime_type) && r@[0] == genesis_record(mime_type, timestamp),
    {
        let mut blockchain = Vec::new();
        blockchain.push(Block::genesis());
        let r = Blockchain { chain: blockchain };
        assert(r@[0] == r.chain@[0]@);
        r
    }

    /// The latest block whose record is linked to `uri`, if there is one.
    pub fn find_block_by_uri(&self, uri: &str) -> (r: Option<&Block>)
        ensures
            r is None <==> !(exists|k: int| 0 <= k < self@.len() && block_has_uri(self@[k], uri@)),
            r matches Some(b) ==> exists|k: int|
                0 <= k < self@.len() && self.chain@[k] == *b && block_has_uri(self@[k], uri@) && forall|
                    j: int,
                | k < j < self@.len() ==> !block_has_uri(self@[j], uri@),
            r is None <==> last_with_uri(self@, uri@) < 0,
            r matches Some(b) ==> b@ == self@[last_with_uri(self@, uri@)],
    {
        proof {
            lemma_last_with_uri(self@, uri@);
        }
        let uri_string = uri.to_owned();
        let mut i = self.chain.len();
        while i > 0
            invariant
                i <= self.chain@.len(),
                uri_string@ == uri@,
                forall|j: int| i <= j < self@.len() ==> !block_has_uri(self@[j], uri@),
            decreases i,
        {
            i = i - 1;
            let block = &self.chain[i];
            assert(self@[i as int] == block@);
            if let Some(DataTypes::Transaction(txn)) = &block.data {
                if txn.linked_uri == uri_string {
                    proof {
                        lemma_last_with_uri(self@, uri@);
                        assert(block_has_uri(self@[i as int], uri@));
                    }
                    return Some(block);
                }
            }
        }
        None
    }

    /// The hash of the earliest block whose record has the timestamp `timestamp`,
    /// if there is one.
    pub fn hash_for_timestamp(&self, timestamp: i128) -> (r: Option<&String>)
        ensures
            r is None <==> !(exists|k: int| 0 <= k < self@.len() && block_has_timestamp(self@[k], timestamp)),
            r matches Some(h) ==> exists|k: int|
                0 <= k < self@.len() && h@ == self@[k].hash && block_has_timestamp(self@[k], timestamp)
                    && forall|j: int| 0 <= j < k ==> !block_has_timestamp(self@[j], timestamp),
            r is None <==> first_with_timestamp(self@, timestamp) < 0,
            r matches Some(h) ==> h@ == self@[first_with_timestamp(self@, timestamp)].hash,
    {
        proof {
            lemma_first_with_timestamp(self@, timestamp);
        }
        let mut hash: Option<&String> = None;
        let mut i = self.chain.len();
        while i > 0
            invariant
                i <= self.chain@.len(),
                hash is None ==> forall|j: int| i <= j < self@.len() ==> !block_has_timestamp(self@[j], timestamp),
                hash matches Some(h) ==> exists|k: int|
                    i <= k < self@.len() && h@ == self@[k].hash && block_has_timestamp(self@[k], timestamp)
                        && forall|j: int| i <= j < k ==> !block_has_timestamp(self@[j], timestamp),
            decreases i,
        {
            i = i - 1;
            let block = &self.chain[i];
            assert(self@[i as int] == block@);
            if let Some(DataTypes::Transaction(txn)) = &block.data {
                if txn.timestamp == timestamp {
                    hash = Some(&block.hash);
                }
            }
        }
        hash
    }

    /// The balance of `acct`: what it received from withdrawals, less what it sent.
    pub fn get_amt_in_wallet(&self, acct: &Vec<u8>) -> (r: i128)
        requires
            within_volume_limit(self@),
        ensures
            r == wallet_balance(self@, acct@),
    {
        let mut balance: i128 = 0;
        let n = self.chain.len();
        for i in 0..n
            invariant
                n == self.chain@.len(),
                within_volume_limit(self@),
                balance == wallet_balance(self@.take(i as int), acct@),
        {
            proof {
                assert(self@.take(i + 1).drop_last() =~= self@.take(i as int));
                assert(self@.take(i + 1).last() == self.chain@[i as int]@);
                lemma_volume_of_prefix(self@, i + 1);
                lemma_balance_within_volume(self@.take(i + 1), acct@);
            }
            let block = &self.chain[i];
            match &block.data {
                Some(DataTypes::Transaction(txn)) => {
                    if bytes_equal(txn.creator.as_slice(), acct.as_slice()) {
                        balance = balance - txn.tokens_transferred as i128;
                    }
                },
                Some(DataTypes::Withdrawal(pool_block)) => {
                    balance = balance + pool_block.get_tokens_in_account(acct) as i128;
                },
                None => {},
            }
        }
        assert(self@.take(n as int) =~= self@);
        balance
    }

    /// The tokens paid to the network since the last withdrawal.
    pub fn calc_pool_amt(chain: &Vec<Block>) -> (r: u128)
        ensures
            r == pool_amount(blocks_view(chain@)),
    {
        assert(blocks_view(chain@).take(chain@.len() as int) =~= blocks_view(chain@));
        Self::calc_pool_amt_before(chain, chain.len())
    }

    /// The tokens paid to the network in the first `end` blocks since the last
    /// withdrawal among them.
    fn calc_pool_amt_before(chain: &Vec<Block>, end: usize) -> (r: u128)
        requires
            end <= chain@.len(),
        ensures
            r == pool_amount(blocks_view(chain@).take(end as int)),
    {
        let ghost c = blocks_view(chain@).take(end as int);
        let mut pool_sum: u128 = 0;
        let mut i = end;
        assert(c.take(i as int) =~= c);
        while i > 0
            invariant
                c == blocks_view(chain@).take(end as int),
                c.len() == end,
                end <= chain@.len(),
                i <= end,
                pool_amount(c) == pool_sum + pool_amount(c.take(i as int)),
                pool_sum <= (end - i) * 0xFFFF_FFFF_FFFF_FFFFu64,
            decreases i,
        {
            i = i - 1;
            proof {
                let k: int = end - i;
                assert(k * 0xFFFF_FFFF_FFFF_FFFFu64 <= 0xFFFF_FFFF_FFFF_FFFFu64 * 0xFFFF_FFFF_FFFF_FFFFu64)
                    by (nonlinear_arith)
                    requires
                        0 <= k <= 0xFFFF_FFFF_FFFF_FFFFu64,
                ;
            }
            let block = &chain[i];
            proof {
                assert(c.take(i + 1).drop_last() =~= c.take(i as int));
                assert(c.take(i + 1).last() == chain@[i as int]@);
            }
            match &block.data {
                Some(DataTypes::Transaction(txn)) => {
                    if is_network_account(&txn.to_acct_id) {
                        pool_sum = pool_sum + txn.tokens_transferred as u128;
                    }
                },
                Some(DataTypes::Withdrawal(_)) => {
                    return pool_sum;
                },
                None => {},
            }
        }
        assert(c.take(0) =~= Seq::<BlockView>::empty());
        pool_sum
    }

    fn check_to_file_id(&self, txn: &BlockInformation) -> (r: bool)
        ensures
            r == fee_paid_to_network(txn@),
    {
        if let Some(_) = txn.data {
            if is_network_account(&txn.to_acct_id) {
                true
            } else {
                false
            }
        } else {
            true
        }
    }

    fn check_block_validity_balance(&self, block: &Block) -> (r: bool)
        requires
            within_volume_limit(self@),
        ensures
            r == (match block@.data {
                Some(DataView::Transaction(t)) => balance_covers(self@, t),
                _ => false,
            }),
    {
        if let Some(DataTypes::Transaction(txn)) = &block.data {
            let creator = &txn.creator;
            let amt = self.get_amt_in_wallet(creator);
            if amt >= txn.tokens_transferred as i128 {
                true
            } else {
                false
            }
        } else {
            false
        }
    }

    /// Checks whether a block may follow `previous_block` (`block_valid`), where
    /// `pool_before` tokens were collected since the last withdrawal before it;
    /// used to check blocks received from other nodes.
    fn check_block_validity(&self, new_block: &Block, previous_block: &Block, pool_before: u128) -> (r: bool)
        requires
            new_block@.data matches Some(DataView::Transaction(_)) ==> within_volume_limit(self@),
            block_checkable(new_block@),
        ensures
            r == block_valid(self@, new_block@, previous_block@, pool_before as nat),
    {
        let valid = match &new_block.data {
            Some(DataTypes::Transaction(txn)) => txn.verify_signature()
                && self.check_block_validity_balance(new_block) && self.check_to_file_id(txn),
            Some(DataTypes::Withdrawal(pool_block)) => pool_block.get_tokens_in_period() == pool_before,
            None => true,
        };
        let linked = previous_block.index < u128::MAX && new_block.index == previous_block.index + 1
            && previous_block.hash == new_block.previous_hash && new_block.hash_matches();
        linked && valid
    }

    /// Whether the chain's JSON text already holds the record's JSON text.
    pub fn check_if_exists(&self, file: &BlockInformation) -> (r: bool)
        ensures
            r == record_exists(self@, file@),
    {
        let mut serialized_file = String::new();
        push_information_json(&mut serialized_file, file);
        let serialized_bc = chain_json(&self.chain);
        find_text(&chars_of(serialized_bc.as_str()), &chars_of(serialized_file.as_str()))
    }

    /// Adds a block with the record `file` after the last block.
    ///
    /// The block is added, and `true` returned, when the record is valid
    /// (`transaction_valid`), the last block's index is one less than the new
    /// block's, and the record is not in the chain yet; else the chain is unchanged
    /// and `false` returned. The chain must not be empty; unless the record is in
    /// the chain already, its key and signature must decode and the chain must be
    /// within the volume limit. Afterwards the chain holds the record exactly when
    /// it was added now or held it before.
    pub fn add_block(&mut self, file: BlockInformation) -> (r: bool)
        requires
            old(self)@.len() >= 1,
            !record_exists(old(self)@, file@) ==> within_volume_limit(old(self)@) && signature_decodes(
                file@,
            ),
        ensures
            r == add_block_accepts(old(self)@, file@),
            final(self)@ == (if r {
                old(self)@.push(appended_block(old(self)@, file@))
            } else {
                old(self)@
            }),
            record_exists(final(self)@, file@) == (r || record_exists(old(self)@, file@)),
    {
        if self.check_if_exists(&file) {
            return false;
        }
        let next_index = self.chain.len();
        let block = Block::new(
            next_index as u128,
            self.chain[next_index - 1].hash.clone(),
            Some(DataTypes::Transaction(file)),
        );
        let prev_block = &self.chain[next_index - 1];
        assert(prev_block@ == old(self)@.last());
        let valid = self.check_block_validity(&block, prev_block, 0);
        if valid {
            self.chain.push(block);
            assert(self@ =~= old(self)@.push(appended_block(old(self)@, file@)));
            proof {
                lemma_appended_record_in_json(old(self)@, file@);
            }
            true
        } else {
            false
        }
    }

    /// Adds a block received from another node after the last block, when it may
    /// follow it (`block_valid`, a withdrawal taking exactly the pool collected
    /// since the last withdrawal); returns whether it was added. The chain must not
    /// be empty, and a block with a record must be checkable (`block_checkable`)
    /// and the chain within the volume limit (`within_volume_limit`).
    pub fn add_unverified_block(&mut self, new_block: Block) -> (r: bool)
        requires
            old(self)@.len() >= 1,
            new_block@.data matches Some(DataView::Transaction(_)) ==> within_volume_limit(old(self)@),
            block_checkable(new_block@),
        ensures
            r == block_valid(old(self)@, new_block@, old(self)@.last(), pool_amount(old(self)@)),
            final(self)@ == (if r {
                old(self)@.push(new_block@)
            } else {
                old(self)@
            }),
    {
        let n = self.chain.len();
        let pool_before = Self::calc_pool_amt(&self.chain);
        let ok = self.check_block_validity(&new_block, &self.chain[n - 1], pool_before);
        if ok {
            self.chain.push(new_block);
            assert(self@ =~= old(self)@.push(new_block@));
            true
        } else {
            false
        }
    }

    /// Checks a chain received from another node against this one at time `now`,
    /// block after block from the second one on, and says `None` when it reaches
    /// a block that cannot be checked (`block_checkable`), else whether every
    /// block passes (`chain_valid_at`).
    fn check_chain_steps_at(&self, new_chain: &Vec<Block>, now: i64) -> (r: Option<bool>)
        requires
            within_volume_limit(self@),
        ensures
            r is None <==> !replacement_checkable_at(self@, blocks_view(new_chain@), now),
            r matches Some(valid) ==> valid == chain_valid_at(self@, blocks_view(new_chain@), now),
    {
        let ghost nc = blocks_view(new_chain@);
        let n = new_chain.len();
        if n == 0 {
            return Some(false);
        }
        let mut i: usize = 1;
        while i < n
            invariant
                nc == blocks_view(new_chain@),
                n == new_chain@.len(),
                1 <= i <= n,
                within_volume_limit(self@),
                forall|j: int| 1 <= j < i ==> #[trigger] step_valid(self@, nc, j, now),
                forall|j: int| 1 <= j < i ==> #[trigger] step_checkable(nc, j),
            decreases n - i,
        {
            let current_block = &new_chain[i];
            let previous_block = &new_chain[i - 1];
            assert(nc[i as int] == current_block@);
            assert(nc[i - 1] == previous_block@);
            if !current_block.is_checkable() {
                assert(!step_checkable(nc, i as int));
                return None;
            }
            let pool_before = match &current_block.data {
                Some(DataTypes::Withdrawal(_)) => Self::calc_pool_amt_before(new_chain, i),
                _ => 0,
            };
            assert(blocks_view(new_chain@).take(i as int) == nc.take(i as int));
            let mut valid = self.check_block_validity(current_block, previous_block, pool_before);
            match &current_block.data {
                Some(DataTypes::Transaction(txn)) => {
                    if txn.timestamp > now as i128 {
                        valid = false;
                    }
                },
                Some(DataTypes::Withdrawal(pool_block)) => {
                    if !pool_block.verify_block_time_at(now) {
                        valid = false;
                    }
                },
                None => {},
            }
            if !valid {
                assert(!step_valid(self@, nc, i as int, now));
                assert forall|k: int|
                    1 <= k < nc.len() && (forall|j: int| 1 <= j < k ==> #[trigger] step_valid(self@, nc, j, now))
                        implies #[trigger] step_checkable(nc, k) by {
                    if k > i {
                        assert(!step_valid(self@, nc, i as int, now));
                    } else if k == i {
                        assert(step_checkable(nc, k));
                    }
                }
                return Some(false);
            }
            assert(step_valid(self@, nc, i as int, now));
            assert(step_checkable(nc, i as int));
            i = i + 1;
        }
        Some(true)
    }

    /// Checks a chain received from another node against this one at time `now`:
    /// every block after the first one must be valid after the block before it
    /// (`block_valid`, a withdrawal taking exactly the pool collected before it in
    /// the received chain), and a record or withdrawal must not be dated after
    /// `now`.
    pub fn check_chain_validity_at(&self, new_chain: &Vec<Block>, now: i64) -> (r: bool)
        requires
            within_volume_limit(self@),
            replacement_checkable_at(self@, blocks_view(new_chain@), now),
        ensures
            r == chain_valid_at(self@, blocks_view(new_chain@), now),
    {
        match self.check_chain_steps_at(new_chain, now) {
            Some(valid) => valid,
            None => false,
        }
    }

    /// Checks a received chain at the time of the system clock.
    fn check_chain_validity(&self, new_chain: &Vec<Block>) -> (r: bool)
        requires
            within_volume_limit(self@),
            replacement_checkable(self@, blocks_view(new_chain@)),
        ensures
            exists|now: i64| r == chain_valid_at(self@, blocks_view(new_chain@), now),
            r ==> chain_valid_untimed(self@, blocks_view(new_chain@)),
    {
        let now = now_seconds();
        proof {
            lemma_checkable_at_every_time(self@, blocks_view(new_chain@), now);
            lemma_valid_at_is_valid_untimed(self@, blocks_view(new_chain@), now);
        }
        self.check_chain_validity_at(new_chain, now)
    }

    /// Replaces the chain with one received from another node when it passes the
    /// check at time `now` (`chain_valid_at`); returns whether it did.
    pub fn replace_chain_at(&mut self, replacement_chain: Vec<Block>, now: i64) -> (r: bool)
        requires
            within_volume_limit(old(self)@),
            replacement_checkable_at(old(self)@, blocks_view(replacement_chain@), now),
        ensures
            r == chain_valid_at(old(self)@, blocks_view(replacement_chain@), now),
            final(self)@ == (if r {
                blocks_view(replacement_chain@)
            } else {
                old(self)@
            }),
    {
        if self.check_chain_validity_at(&replacement_chain, now) {
            self.chain = replacement_chain;
            true
        } else {
            false
        }
    }

    /// Replaces the chain with one received from another node when it passes the
    /// check at the time of the system clock; returns whether it did. Every block
    /// that the check may reach must be checkable (`replacement_checkable`).
    pub fn replace_chain(&mut self, replacement_chain: Vec<Block>) -> (r: bool)
        requires
            within_volume_limit(old(self)@),
            replacement_checkable(old(self)@, blocks_view(replacement_chain@)),
        ensures
            exists|now: i64| r == chain_valid_at(old(self)@, blocks_view(replacement_chain@), now),
            r ==> chain_valid_untimed(old(self)@, blocks_view(replacement_chain@)),
            final(self)@ == (if r {
                blocks_view(replacement_chain@)
            } else {
                old(self)@
            }),
    {
        if self.check_chain_validity(&replacement_chain) {
            self.chain = replacement_chain;
            true
        } else {
            false
        }
    }

    /// Appends a withdrawal of the tokens paid to the network since the last
    /// withdrawal, made at `timestamp` and shared among `nodes_present` (which the
    /// caller fetches from the network's middleware). The block is linked to the
    /// last one, so it is added, and `true` returned, exactly when the last
    /// block's index is one less than the chain's length.
    pub fn withdraw_at(&mut self, nodes_present: Vec<Vec<u8>>, timestamp: i64) -> (r: bool)
        requires
            old(self)@.len() >= 1,
        ensures
            r == (old(self)@.last().index + 1 == old(self)@.len()),
            final(self)@ == (if r {
                old(self)@.push(withdrawal_block(old(self)@, byte_lists_view(nodes_present@), timestamp))
            } else {
                old(self)@
            }),
    {
        let pool_amt = Self::calc_pool_amt(&self.chain);
        let data = DataTypes::Withdrawal(PoolInfor::new_at(pool_amt, nodes_present, timestamp));
        let n = self.chain.len();
        let block = Block::new(n as u128, self.chain[n - 1].hash.clone(), Some(data));
        assert(block@ == withdrawal_block(old(self)@, byte_lists_view(nodes_present@), timestamp));
        self.add_unverified_block(block)
    }

    /// `withdraw_at` at the time of the system clock.
    pub fn withdraw(&mut self, nodes_present: Vec<Vec<u8>>) -> (r: bool)
        requires
            old(self)@.len() >= 1,
        ensures
            r == (old(self)@.last().index + 1 == old(self)@.len()),
            exists|timestamp: i64|
                final(self)@ == (if r {
                    old(self)@.push(withdrawal_block(old(self)@, byte_lists_view(nodes_present@), timestamp))
                } else {
                    old(self)@
                }),
    {
        let timestamp = now_seconds();
        self.withdraw_at(nodes_present, timestamp)
    }

    /// `withdraw` with the nodes present read from the middleware's reply, a JSON
    /// list of public keys: `None`, with the chain unchanged, when the reply is not
    /// such a list.
    pub fn withdraw_from_reply(&mut self, reply: &str) -> (r: Option<bool>)
        requires
            old(self)@.len() >= 1,
        ensures
            r is None <==> json_node_list(reply@) is None,
            r matches Some(added) ==> added == (old(self)@.last().index + 1 == old(self)@.len()),
            r is None ==> final(self)@ == old(self)@,
            r is Some ==> exists|timestamp: i64|
                final(self)@ == (if r == Some(true) {
                    old(self)@.push(withdrawal_block(old(self)@, json_node_list(reply@)->Some_0, timestamp))
                } else {
                    old(self)@
                }),
    {
        match parse_node_list(reply) {
            Some(nodes_present) => Some(self.withdraw(nodes_present)),
            None => None,
        }
    }

    /// `add_block` where it can be done: `None`, with the chain unchanged, when the
    /// chain is empty, or when the record is not in the chain yet and the chain
    /// moves too many tokens (`within_volume_limit`) or the record's key or
    /// signature does not decode.
    pub fn try_add_block(&mut self, file: BlockInformation) -> (r: Option<bool>)
        ensures
            r is None <==> !(old(self)@.len() >= 1 && (!record_exists(old(self)@, file@) ==> (
            within_volume_limit(old(self)@) && signature_decodes(file@)))),
            r matches Some(added) ==> added == add_block_accepts(old(self)@, file@),
            final(self)@ == (if r == Some(true) {
                old(self)@.push(appended_block(old(self)@, file@))
            } else {
                old(self)@
            }),
    {
        if self.chain.len() == 0 {
            None
        } else if self.check_if_exists(&file) {
            Some(self.add_block(file))
        } else if self.volume_within_limit() && file.signature_decodes() {
            Some(self.add_block(file))
        } else {
            None
        }
    }

    /// `add_unverified_block` where it can be done: `None`, with the chain
    /// unchanged, when the chain is empty, or the block carries a record that
    /// cannot be checked (`block_checkable`) or a chain that moves too many
    /// tokens.
    pub fn try_add_unverified_block(&mut self, new_block: Block) -> (r: Option<bool>)
        ensures
            r is None <==> !(old(self)@.len() >= 1 && block_checkable(new_block@) && (
            new_block@.data matches Some(DataView::Transaction(_)) ==> within_volume_limit(
                old(self)@,
            ))),
            r matches Some(added) ==> added == block_valid(
                old(self)@,
                new_block@,
                old(self)@.last(),
                pool_amount(old(self)@),
            ),
            final(self)@ == (if r == Some(true) {
                old(self)@.push(new_block@)
            } else {
                old(self)@
            }),
    {
        if self.chain.len() == 0 || !new_block.is_checkable() {
            return None;
        }
        if let Some(DataTypes::Transaction(_)) = &new_block.data {
            if !self.volume_within_limit() {
                return None;
            }
        }
        Some(self.add_unverified_block(new_block))
    }

    /// `replace_chain_at` where it can be done: `None`, with the chain unchanged,
    /// when this chain moves too many tokens (`within_volume_limit`) or the check
    /// at time `now` reaches a block that cannot be checked.
    pub fn try_replace_chain_at(&mut self, replacement_chain: Vec<Block>, now: i64) -> (r: Option<bool>)
        ensures
            r is None <==> !(within_volume_limit(old(self)@) && replacement_checkable_at(
                old(self)@,
                blocks_view(replacement_chain@),
                now,
            )),
            r matches Some(replaced) ==> replaced == chain_valid_at(
                old(self)@,
                blocks_view(replacement_chain@),
                now,
            ),
            final(self)@ == (if r == Some(true) {
                blocks_view(replacement_chain@)
            } else {
                old(self)@
            }),
    {
        if !self.volume_within_limit() {
            return None;
        }
        match self.check_chain_steps_at(&replacement_chain, now) {
            Some(valid) => {
                if valid {
                    self.chain = replacement_chain;
                }
                Some(valid)
            },
            None => None,
        }
    }

    /// `try_replace_chain_at` at the time of the system clock.
    pub fn try_replace_chain(&mut self, replacement_chain: Vec<Block>) -> (r: Option<bool>)
        ensures
            exists|now: i64| #[trigger] replacement_outcome(old(self)@, blocks_view(replacement_chain@), now, r),
            final(self)@ == (if r == Some(true) {
                blocks_view(replacement_chain@)
            } else {
                old(self)@
            }),
    {
        let now = now_seconds();
        let ghost nc = blocks_view(replacement_chain@);
        let r = self.try_replace_chain_at(replacement_chain, now);
        assert(replacement_outcome(old(self)@, nc, now, r));
        r
    }

    /// Whether the chain moves few enough tokens for its balances to be computed
    /// (see `within_volume_limit`).
    pub fn volume_within_limit(&self) -> (r: bool)
        ensures
            r == within_volume_limit(self@),
    {
        let limit: u128 = 0x7FFF_FFFF_FFFF_FFFF_FFFF_FFFF_FFFF_FFFFu128;
        let mut total: u128 = 0;
        let n = self.chain.len();
        for i in 0..n
            invariant
                n == self.chain@.len(),
                total == token_volume(self@.take(i as int)),
                total <= limit,
                limit == i128::MAX,
        {
            proof {
                assert(self@.take(i + 1).drop_last() =~= self@.take(i as int));
                assert(self@.take(i + 1).last() == self.chain@[i as int]@);
                lemma_volume_of_prefix(self@, i + 1);
            }
            let amount: u128 = match &self.chain[i].data {
                Some(DataTypes::Transaction(txn)) => txn.tokens_transferred as u128,
                Some(DataTypes::Withdrawal(pool_block)) => pool_block.get_tokens_in_period(),
                None => 0,
            };
            if amount > limit - total {
                proof {
                    lemma_volume_of_prefix(self@, i + 1);
                }
                return false;
            }
            total = total + amount;
        }
        assert(self@.take(n as int) =~= self@);
        true
    }
}


/// The balance that a block adds to a chain's balance: a chain's balance is
/// the balance before its last block plus what the last block changes.
pub proof fn lemma_balance_push(c: Seq<BlockView>, b: BlockView, acct: Seq<u8>)
    ensures
        wallet_balance(c.push(b), acct) == wallet_balance(c, acct) + balance_delta(b, acct),
{
    assert(c.push(b).drop_last() =~= c);
}

/// A record that `add_block` accepts never overdraws its creator: the creator's
/// balance afterwards is the balance before less the amount, and it is not
/// negative.
pub proof fn law_accepted_record_keeps_balance(c: Seq<BlockView>, t: InformationView)
    requires
        c.len() >= 1,
        add_block_accepts(c, t),
    ensures
        wallet_balance(c.push(appended_block(c, t)), t.creator) == wallet_balance(c, t.creator)
            - t.tokens_transferred,
        wallet_balance(c.push(appended_block(c, t)), t.creator) >= 0,
{
    lemma_balance_push(c, appended_block(c, t), t.creator);
}

/// A block that `add_block` appends is accepted by a peer that holds the same
/// chain and receives the block with `add_unverified_block`: the nodes' chains
/// stay alike as blocks spread over the websockets.
pub proof fn law_added_block_is_accepted_by_peers(c: Seq<BlockView>, t: InformationView)
    requires
        1 <= c.len() <= usize::MAX,
        add_block_accepts(c, t),
    ensures
        block_valid(c, appended_block(c, t), c.last(), pool_amount(c)),
{
}

/// A withdrawal block that `withdraw` appends to a linked chain is accepted by a
/// peer that holds the same chain.
pub proof fn law_withdrawal_is_accepted_by_peers(
    c: Seq<BlockView>,
    nodes_present: Seq<Seq<u8>>,
    timestamp: i64,
)
    requires
        1 <= c.len() <= usize::MAX,
        chain_linked(c),
        pool_amount(c) <= u128::MAX,
    ensures
        block_valid(c, withdrawal_block(c, nodes_present, timestamp), c.last(), pool_amount(c)),
{
}

/// Once `add_block` has added a record, the chain holds it, so the same record is
/// refused when it is added again: `add_block`'s `requires` holds for that second
/// call whatever the chain's volume and the record's signature, and by its
/// `ensures` it returns `false` and leaves the chain unchanged.
pub proof fn law_record_added_only_once(c: Seq<BlockView>, t: InformationView)
    requires
        c.len() >= 1,
    ensures
        record_exists(c.push(appended_block(c, t)), t),
        !add_block_accepts(c.push(appended_block(c, t)), t),
{
    lemma_appended_record_in_json(c, t);
}

proof fn lemma_occurs_left(x: Seq<char>, y: Seq<char>, needle: Seq<char>, p: int)
    requires
        occurs_at(x, needle, p),
    ensures
        occurs_at(x + y, needle, p),
{
    assert((x + y).subrange(p, p + needle.len()) =~= x.subrange(p, p + needle.len()));
}

proof fn lemma_occurs_right(x: Seq<char>, y: Seq<char>, needle: Seq<char>, p: int)
    requires
        occurs_at(y, needle, p),
    ensures
        occurs_at(x + y, needle, x.len() + p),
{
    assert((x + y).subrange(x.len() + p, x.len() + p + needle.len()) =~= y.subrange(
        p,
        p + needle.len(),
    ));
}

proof fn lemma_appended_record_in_json(c: Seq<BlockView>, t: InformationView)
    requires
        c.len() >= 1,
    ensures
        record_exists(c.push(appended_block(c, t)), t),
{
    let b = appended_block(c, t);
    let c2 = c.push(b);
    let parts = c.map_values(|x: BlockView| json_block(x));
    let parts2 = c2.map_values(|x: BlockView| json_block(x));
    assert(parts2 =~= parts.push(json_block(b)));
    lemma_join_comma_push(parts, json_block(b));
    let needle = json_information(t);
    // The record inside the block's data.
    assert(needle.subrange(0, needle.len() as int) =~= needle);
    assert(occurs_at(needle, needle, 0));
    let lt = "{\"Transaction\":"@;
    lemma_occurs_right(lt, needle, needle, 0);
    lemma_occurs_left(lt + needle, "}"@, needle, lt.len() as int);
    let data = json_data(b.data);
    assert(data == lt + needle + "}"@);
    // The data inside the block.
    let before = "{\"index\":"@ + decimal(b.index as nat) + ",\"previous_hash\":"@ + json_string(
        b.previous_hash,
    ) + ",\"data\":"@;
    lemma_occurs_right(before, data, needle, lt.len() as int);
    let p1: int = (before.len() + lt.len()) as int;
    lemma_occurs_left(before + data, ",\"hash\":"@, needle, p1);
    lemma_occurs_left(before + data + ",\"hash\":"@, json_string(b.hash), needle, p1);
    lemma_occurs_left(before + data + ",\"hash\":"@ + json_string(b.hash), "}"@, needle, p1);
    assert(json_block(b) == before + data + ",\"hash\":"@ + json_string(b.hash) + "}"@);
    // The block inside the chain.
    let joined = join_comma(parts) + seq![','];
    lemma_occurs_right(joined, json_block(b), needle, p1);
    let p2: int = joined.len() as int + p1;
    assert(join_comma(parts2) == joined + json_block(b));
    let lc = "{\"chain\":["@;
    lemma_occurs_right(lc, join_comma(parts2), needle, p2);
    lemma_occurs_left(lc + join_comma(parts2), "]}"@, needle, (lc.len() + p2) as int);
    assert(occurs_at(json_chain(c2), needle, (lc.len() + p2) as int));
}

/// A withdrawal empties the pool: after it, nothing has been paid to the network
/// since the last withdrawal.
pub proof fn law_withdrawal_empties_pool(c: Seq<BlockView>, nodes_present: Seq<Seq<u8>>, timestamp: i64)
    requires
        c.len() >= 1,
    ensures
        pool_amount(c.push(withdrawal_block(c, nodes_present, timestamp))) == 0,
{
    assert(c.push(withdrawal_block(c, nodes_present, timestamp)).last() == withdrawal_block(
        c,
        nodes_present,
        timestamp,
    ));
}

/// A withdrawal pays each account its share of the pool: the pool collected
/// since the last withdrawal divided among the nodes present, nothing to others.
pub proof fn law_withdrawal_pays_shares(
    c: Seq<BlockView>,
    nodes_present: Seq<Seq<u8>>,
    timestamp: i64,
    acct: Seq<u8>,
)
    requires
        c.len() >= 1,
        pool_amount(c) <= u128::MAX,
    ensures
        wallet_balance(c.push(withdrawal_block(c, nodes_present, timestamp)), acct) == wallet_balance(
            c,
            acct,
        ) + (if nodes_present.contains(acct) {
            pool_amount(c) / nodes_present.len()
        } else {
            0
        }),
{
    lemma_balance_push(c, withdrawal_block(c, nodes_present, timestamp), acct);
}

/// A new chain holds only the genesis block, whose record moves no tokens, so
/// every account's balance is zero.
pub proof fn law_new_chain_balances_are_zero(mime_type: Seq<char>, timestamp: i128, acct: Seq<u8>)
    ensures
        wallet_balance(seq![genesis_record(mime_type, timestamp)], acct) == 0,
{
    lemma_balance_push(Seq::empty(), genesis_record(mime_type, timestamp), acct);
    assert(Seq::<BlockView>::empty().push(genesis_record(mime_type, timestamp)) =~= seq![
        genesis_record(mime_type, timestamp),
    ]);
}


/// Whether the blocks of `c` stand at their indices and each names the hash of
/// the block before it.
pub open spec fn chain_linked(c: Seq<BlockView>) -> bool {
    &&& forall|i: int| 0 <= i < c.len() ==> #[trigger] c[i].index == i
    &&& forall|i: int| 1 <= i < c.len() ==> #[trigger] c[i].previous_hash == c[i - 1].hash
}

/// Whether each block's hash is the hash of its index, previous hash and data.
pub open spec fn chain_hashed(c: Seq<BlockView>) -> bool {
    forall|i: int| 0 <= i < c.len() ==> #[trigger] c[i].hash == block_hash(c[i].index, c[i].previous_hash, c[i].data)
}

/// A new chain is linked and hashed.
pub proof fn law_new_chain_is_linked_and_hashed(mime_type: Seq<char>, timestamp: i128)
    ensures
        chain_linked(seq![genesis_record(mime_type, timestamp)]),
        chain_hashed(seq![genesis_record(mime_type, timestamp)]),
{
}

/// `add_block` keeps a chain linked and hashed.
pub proof fn law_add_block_keeps_chain_linked_and_hashed(c: Seq<BlockView>, t: InformationView)
    requires
        1 <= c.len() <= usize::MAX,
        chain_linked(c),
        chain_hashed(c),
    ensures
        chain_linked(c.push(appended_block(c, t))),
        chain_hashed(c.push(appended_block(c, t))),
{
    let c2 = c.push(appended_block(c, t));
    assert forall|i: int| 1 <= i < c2.len() implies #[trigger] c2[i].previous_hash == c2[i - 1].hash by {
        if i < c.len() {
            assert(c2[i] == c[i] && c2[i - 1] == c[i - 1]);
        }
    }
    assert forall|i: int| 0 <= i < c2.len() implies #[trigger] c2[i].index == i by {
        if i < c.len() {
            assert(c2[i] == c[i]);
        }
    }
    assert forall|i: int| 0 <= i < c2.len() implies #[trigger] c2[i].hash == block_hash(
        c2[i].index,
        c2[i].previous_hash,
        c2[i].data,
    ) by {
        if i < c.len() {
            assert(c2[i] == c[i]);
        }
    }
}

/// A withdrawal keeps a chain linked and hashed.
pub proof fn law_withdrawal_keeps_chain_linked_and_hashed(
    c: Seq<BlockView>,
    nodes_present: Seq<Seq<u8>>,
    timestamp: i64,
)
    requires
        1 <= c.len() <= usize::MAX,
        chain_linked(c),
        chain_hashed(c),
    ensures
        chain_linked(c.push(withdrawal_block(c, nodes_present, timestamp))),
        chain_hashed(c.push(withdrawal_block(c, nodes_present, timestamp))),
{
    let c2 = c.push(withdrawal_block(c, nodes_present, timestamp));
    assert forall|i: int| 1 <= i < c2.len() implies #[trigger] c2[i].previous_hash == c2[i - 1].hash by {
        if i < c.len() {
            assert(c2[i] == c[i] && c2[i - 1] == c[i - 1]);
        }
    }
    assert forall|i: int| 0 <= i < c2.len() implies #[trigger] c2[i].index == i by {
        if i < c.len() {
            assert(c2[i] == c[i]);
        }
    }
    assert forall|i: int| 0 <= i < c2.len() implies #[trigger] c2[i].hash == block_hash(
        c2[i].index,
        c2[i].previous_hash,
        c2[i].data,
    ) by {
        if i < c.len() {
            assert(c2[i] == c[i]);
        }
    }
}

/// Any block that `add_unverified_block` accepts keeps a chain linked and hashed.
pub proof fn law_accepted_block_keeps_chain_linked_and_hashed(c: Seq<BlockView>, b: BlockView)
    requires
        c.len() >= 1,
        chain_linked(c),
        chain_hashed(c),
        block_valid(c, b, c.last(), pool_amount(c)),
    ensures
        chain_linked(c.push(b)),
        chain_hashed(c.push(b)),
{
    let c2 = c.push(b);
    assert(c[c.len() - 1].index == c.len() - 1);
    assert forall|i: int| 1 <= i < c2.len() implies #[trigger] c2[i].previous_hash == c2[i - 1].hash by {
        if i < c.len() {
            assert(c2[i] == c[i] && c2[i - 1] == c[i - 1]);
        }
    }
    assert forall|i: int| 0 <= i < c2.len() implies #[trigger] c2[i].index == i by {
        if i < c.len() {
            assert(c2[i] == c[i]);
        }
    }
    assert forall|i: int| 0 <= i < c2.len() implies #[trigger] c2[i].hash == block_hash(
        c2[i].index,
        c2[i].previous_hash,
        c2[i].data,
    ) by {
        if i < c.len() {
            assert(c2[i] == c[i]);
        }
    }
}

proof fn lemma_indices_from_links(nc: Seq<BlockView>, k: int)
    requires
        0 <= k < nc.len(),
        nc[0].index == 0,
        forall|i: int| 1 <= i < nc.len() ==> #[trigger] block_linked(nc[i], nc[i - 1]),
    ensures
        nc[k].index == k,
    decreases k,
{
    if k > 0 {
        lemma_indices_from_links(nc, k - 1);
        assert(block_linked(nc[k], nc[k - 1]));
    }
}

/// A replacement that passes the check is hash-linked: every block after the
/// first has the next index, names the hash of the block before it, and carries
/// the hash of its contents. So when its first block is a hashed block at index
/// 0, as a genesis block is, the whole replacement is linked and hashed.
pub proof fn law_accepted_replacement_is_hash_linked(c: Seq<BlockView>, nc: Seq<BlockView>, now: i64)
    requires
        chain_valid_at(c, nc, now),
    ensures
        forall|i: int| 1 <= i < nc.len() ==> #[trigger] block_linked(nc[i], nc[i - 1]),
        nc[0].index == 0 && nc[0].hash == block_hash(nc[0].index, nc[0].previous_hash, nc[0].data)
            ==> chain_linked(nc) && chain_hashed(nc),
{
    assert forall|i: int| 1 <= i < nc.len() implies #[trigger] block_linked(nc[i], nc[i - 1]) by {
        assert(step_valid(c, nc, i, now));
    }
    if nc[0].index == 0 && nc[0].hash == block_hash(nc[0].index, nc[0].previous_hash, nc[0].data) {
        assert forall|i: int| 0 <= i < nc.len() implies #[trigger] nc[i].index == i by {
            lemma_indices_from_links(nc, i);
        }
        assert forall|i: int| 1 <= i < nc.len() implies #[trigger] nc[i].previous_hash == nc[i - 1].hash by {
            assert(block_linked(nc[i], nc[i - 1]));
        }
        assert forall|i: int| 0 <= i < nc.len() implies #[trigger] nc[i].hash == block_hash(
            nc[i].index,
            nc[i].previous_hash,
            nc[i].data,
        ) by {
            if i > 0 {
                assert(block_linked(nc[i], nc[i - 1]));
            }
        }
    }
}

} // verus!
