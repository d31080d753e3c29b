use crate::blockchain::block::{BlockView, DataView, block_hash};
use crate::blockchain::block_infor::InformationView;
use crate::blockchain::pool_infor::{PoolView, pool_block_valid, pool_share};
use crate::blockchain::json::json_data;
use crate::primitives::digest::sha256;
use crate::text::hex_upper;
use crate::blockchain::blockchain::{
    add_block_accepts, record_exists,
    block_valid, chain_valid_at, first_with_timestamp, last_with_uri, lemma_first_with_timestamp,
    lemma_last_with_uri, pool_amount, step_valid, wallet_balance,
};
use crate::primitives::ed25519::ed25519_verify_strict;
use crate::text::{decimal, decimal_int};
use vstd::prelude::*;
use vstd::utf8::encode_utf8;

verus! {

// What the chain's checks, balances and look-ups mean, stated in the blocks'
// own fields: the contracts of `add_unverified_block`, `replace_chain`,
// `get_amt_in_wallet`, `calc_pool_amt`, `find_block_by_uri` and
// `hash_for_timestamp` are given through the spec functions that these laws
// pin down.

/// A block may follow `previous` exactly when it has the next index, names the
/// previous block's hash and carries the hash of its contents; when a record that
/// it carries is signed by its creator (a strict Ed25519 signature over the UTF-8
/// of the linked URI, the timestamp and the amount written one after the other),
/// is covered by its creator's balance in `c`, and, storing a file, is sent to
/// the account `network`; and when a withdrawal that it carries takes exactly
/// `pool_before`.
pub proof fn law_block_validity(c: Seq<BlockView>, b: BlockView, previous: BlockView, pool_before: nat)
    ensures
        block_valid(c, b, previous, pool_before) <==> {
            &&& b.index == previous.index + 1
            &&& b.previous_hash == previous.hash
            &&& b.hash == block_hash(b.index, b.previous_hash, b.data)
            &&& (b.data matches Some(DataView::Transaction(t)) ==> {
                &&& ed25519_verify_strict(
                    t.creator,
                    encode_utf8(
                        t.linked_uri + decimal_int(t.timestamp as int) + decimal(
                            t.tokens_transferred as nat,
                        ),
                    ),
                    t.signature,
                )
                &&& wallet_balance(c, t.creator) >= t.tokens_transferred
                &&& (t.data is Some ==> t.to_acct_id == "network"@)
            })
            &&& (b.data matches Some(DataView::Withdrawal(p)) ==> p.tokens_in_period == pool_before)
        },
{
}

/// A replacement passes the check against chain `c` at time `now` exactly when it
/// has a first block and every later block has the next index, names the hash of
/// the block before it and carries the hash of its contents; every record after
/// the first block is signed by its creator, is covered by its creator's balance
/// in `c`, is sent to `network` when it stores a file, and is not dated after
/// `now`; and every withdrawal after the first block takes exactly the pool
/// collected before it in the replacement and is not dated after `now`.
pub proof fn law_replacement_validity(c: Seq<BlockView>, nc: Seq<BlockView>, now: i64)
    ensures
        chain_valid_at(c, nc, now) <==> {
            &&& nc.len() >= 1
            &&& forall|i: int|
                #![trigger nc[i]]
                1 <= i < nc.len() ==> {
                    &&& nc[i].index == nc[i - 1].index + 1
                    &&& nc[i].previous_hash == nc[i - 1].hash
                    &&& nc[i].hash == block_hash(nc[i].index, nc[i].previous_hash, nc[i].data)
                    &&& (nc[i].data matches Some(DataView::Transaction(t)) ==> {
                        &&& ed25519_verify_strict(
                            t.creator,
                            encode_utf8(
                                t.linked_uri + decimal_int(t.timestamp as int) + decimal(
                                    t.tokens_transferred as nat,
                                ),
                            ),
                            t.signature,
                        )
                        &&& wallet_balance(c, t.creator) >= t.tokens_transferred
                        &&& (t.data is Some ==> t.to_acct_id == "network"@)
                        &&& t.timestamp <= now
                    })
                    &&& (nc[i].data matches Some(DataView::Withdrawal(p)) ==> {
                        &&& p.tokens_in_period == pool_amount(nc.take(i))
                        &&& p.timestamp <= now
                    })
                }
        },
{
    if chain_valid_at(c, nc, now) {
        assert forall|i: int|
            #![trigger nc[i]]
            1 <= i < nc.len() implies {
                &&& nc[i].index == nc[i - 1].index + 1
                &&& nc[i].previous_hash == nc[i - 1].hash
                &&& nc[i].hash == block_hash(nc[i].index, nc[i].previous_hash, nc[i].data)
                &&& (nc[i].data matches Some(DataView::Transaction(t)) ==> {
                    &&& ed25519_verify_strict(
                        t.creator,
                        encode_utf8(
                            t.linked_uri + decimal_int(t.timestamp as int) + decimal(
                                t.tokens_transferred as nat,
                            ),
                        ),
                        t.signature,
                    )
                    &&& wallet_balance(c, t.creator) >= t.tokens_transferred
                    &&& (t.data is Some ==> t.to_acct_id == "network"@)
                    &&& t.timestamp <= now
                })
                &&& (nc[i].data matches Some(DataView::Withdrawal(p)) ==> {
                    &&& p.tokens_in_period == pool_amount(nc.take(i))
                    &&& p.timestamp <= now
                })
            } by {
            assert(step_valid(c, nc, i, now));
        }
    } else if nc.len() >= 1 {
        let i = choose|i: int| 1 <= i < nc.len() && !#[trigger] step_valid(c, nc, i, now);
        assert(1 <= i < nc.len() && !step_valid(c, nc, i, now));
    }
}

/// A chain's balances: nothing in an empty chain; a record takes its amount from
/// its creator's balance and leaves every other account's balance as it was; a
/// withdrawal adds to each node present an equal share of its tokens, rounded
/// down, and nothing to any other account; a block without payload changes
/// nothing.
pub proof fn law_wallet_balance(c: Seq<BlockView>, b: BlockView, acct: Seq<u8>)
    ensures
        wallet_balance(Seq::<BlockView>::empty(), acct) == 0,
        b.data matches Some(DataView::Transaction(t)) ==> wallet_balance(c.push(b), acct) == wallet_balance(
            c,
            acct,
        ) - (if t.creator == acct {
            t.tokens_transferred as int
        } else {
            0
        }),
        b.data matches Some(DataView::Withdrawal(p)) ==> wallet_balance(c.push(b), acct) == wallet_balance(
            c,
            acct,
        ) + (if p.nodes_present.contains(acct) {
            (p.tokens_in_period as nat / p.nodes_present.len()) as int
        } else {
            0
        }),
        b.data is None ==> wallet_balance(c.push(b), acct) == wallet_balance(c, acct),
{
    assert(c.push(b).drop_last() =~= c);
}

/// The pool collected for the network: nothing in an empty chain; a withdrawal
/// empties it; a record sent to the account `network` adds its amount; any other
/// record, and a block without payload, leave it as it was.
pub proof fn law_pool_amount(c: Seq<BlockView>, b: BlockView)
    ensures
        pool_amount(Seq::<BlockView>::empty()) == 0,
        b.data matches Some(DataView::Withdrawal(_)) ==> pool_amount(c.push(b)) == 0,
        b.data matches Some(DataView::Transaction(t)) ==> pool_amount(c.push(b)) == pool_amount(c) + (
        if t.to_acct_id == "network"@ {
            t.tokens_transferred as nat
        } else {
            0
        }),
        b.data is None ==> pool_amount(c.push(b)) == pool_amount(c),
{
    assert(c.push(b).drop_last() =~= c);
}

/// The look-up by URL finds a block exactly when some block carries a record
/// whose linked URI is `uri`, whatever the record's file type or data; and then
/// the last such block.
pub proof fn law_lookup_by_uri(c: Seq<BlockView>, uri: Seq<char>)
    ensures
        last_with_uri(c, uri) >= 0 <==> exists|k: int|
            #![trigger c[k]]
            0 <= k < c.len() && (c[k].data matches Some(DataView::Transaction(t)) && t.linked_uri == uri),
        last_with_uri(c, uri) >= 0 ==> {
            &&& last_with_uri(c, uri) < c.len()
            &&& (c[last_with_uri(c, uri)].data matches Some(DataView::Transaction(t)) && t.linked_uri
                == uri)
            &&& forall|j: int|
                #![trigger c[j]]
                last_with_uri(c, uri) < j < c.len() ==> !(c[j].data matches Some(
                    DataView::Transaction(t),
                ) && t.linked_uri == uri)
        },
{
    lemma_last_with_uri(c, uri);
    let k = last_with_uri(c, uri);
    assert forall|j: int|
        #![trigger c[j]]
        k < j < c.len() implies !(c[j].data matches Some(DataView::Transaction(t)) && t.linked_uri == uri) by {
        assert(!crate::blockchain::blockchain::block_has_uri(c[j], uri));
    }
    if exists|j: int|
        #![trigger c[j]]
        0 <= j < c.len() && (c[j].data matches Some(DataView::Transaction(t)) && t.linked_uri == uri) {
        let j = choose|j: int|
            #![trigger c[j]]
            0 <= j < c.len() && (c[j].data matches Some(DataView::Transaction(t)) && t.linked_uri == uri);
        assert(crate::blockchain::blockchain::block_has_uri(c[j], uri));
    }
}

/// The look-up by timestamp finds a block exactly when some block carries a
/// record with that timestamp, whether or not the record stores data; and then
/// the first such block.
pub proof fn law_lookup_by_timestamp(c: Seq<BlockView>, timestamp: i128)
    ensures
        first_with_timestamp(c, timestamp) >= 0 <==> exists|k: int|
            #![trigger c[k]]
            0 <= k < c.len() && (c[k].data matches Some(DataView::Transaction(t)) && t.timestamp == timestamp),
        first_with_timestamp(c, timestamp) >= 0 ==> {
            &&& first_with_timestamp(c, timestamp) < c.len()
            &&& (c[first_with_timestamp(c, timestamp)].data matches Some(DataView::Transaction(t))
                && t.timestamp == timestamp)
            &&& forall|j: int|
                #![trigger c[j]]
                0 <= j < first_with_timestamp(c, timestamp) ==> !(c[j].data matches Some(
                    DataView::Transaction(t),
                ) && t.timestamp == timestamp)
        },
{
    lemma_first_with_timestamp(c, timestamp);
    let f = first_with_timestamp(c, timestamp);
    assert forall|j: int|
        #![trigger c[j]]
        0 <= j < f implies !(c[j].data matches Some(DataView::Transaction(t)) && t.timestamp == timestamp) by {
        assert(!crate::blockchain::blockchain::block_has_timestamp(c[j], timestamp));
    }
    if exists|j: int|
        #![trigger c[j]]
        0 <= j < c.len() && (c[j].data matches Some(DataView::Transaction(t)) && t.timestamp == timestamp) {
        let j = choose|j: int|
            #![trigger c[j]]
            0 <= j < c.len() && (c[j].data matches Some(DataView::Transaction(t)) && t.timestamp == timestamp);
        assert(crate::blockchain::blockchain::block_has_timestamp(c[j], timestamp));
    }
}

/// `add_block` adds a record to a chain whose last block stands at the last index
/// exactly when the record is signed by its creator, is covered by its creator's
/// balance, is sent to `network` when it stores a file, and is not in the chain
/// yet.
pub proof fn law_add_block_acceptance(c: Seq<BlockView>, t: InformationView)
    requires
        c.len() >= 1,
    ensures
        add_block_accepts(c, t) <==> {
            &&& ed25519_verify_strict(
                t.creator,
                encode_utf8(
                    t.linked_uri + decimal_int(t.timestamp as int) + decimal(t.tokens_transferred as nat),
                ),
                t.signature,
            )
            &&& wallet_balance(c, t.creator) >= t.tokens_transferred
            &&& (t.data is Some ==> t.to_acct_id == "network"@)
            &&& c.last().index + 1 == c.len()
            &&& !record_exists(c, t)
        },
{
}

/// A block's hash is the SHA-256 digest, in upper-case hexadecimal, of the UTF-8
/// bytes of its index in decimal, the previous block's hash and the JSON text of
/// its payload, written one after the other.
pub proof fn law_block_hash(index: u128, previous_hash: Seq<char>, data: Option<DataView>)
    ensures
        block_hash(index, previous_hash, data) == hex_upper(
            sha256(encode_utf8(decimal(index as nat) + previous_hash + json_data(data))),
        ),
{
}

/// A withdrawal is valid at time `now` exactly when the network reports as many
/// nodes as the withdrawal lists and it is not dated after `now`; and each node
/// that it lists receives an equal share of its tokens, rounded down, while any
/// other account receives nothing.
pub proof fn law_withdrawal_validity_and_shares(p: PoolView, amount_of_nodes: Option<usize>, now: i64, acct: Seq<u8>)
    ensures
        pool_block_valid(p, amount_of_nodes, now) <==> (amount_of_nodes == Some(p.nodes_present.len() as usize)
            && p.nodes_present.len() <= usize::MAX && p.timestamp <= now),
        pool_share(p, acct) == (if p.nodes_present.contains(acct) {
            p.tokens_in_period as nat / p.nodes_present.len()
        } else {
            0
        }),
{
}

} // verus!
