use crate::primitives::clock::now_seconds;
use crate::primitives::encoding::{json_node_list, parse_node_list};
use crate::http_server::{count_readable, count_value, parse_count};
use crate::text::bytes_equal;
use vstd::prelude::*;

verus! {

/// A withdrawal from the network pool: the tokens that the network collected in
/// a period, shared among the nodes present.
#[derive(Clone, Debug, PartialEq)]
pub struct PoolInfor {
    /// When the withdrawal was made, in seconds since the Unix epoch.
    pub timestamp: i64,
    nodes_present: Vec<Vec<u8>>,
    /// The tokens collected in the period, in nano-tokens.
    pub tokens_in_period: u128,
}

/// The value of a `PoolInfor`.
pub ghost struct PoolView {
    pub timestamp: i64,
    pub nodes_present: Seq<Seq<u8>>,
    pub tokens_in_period: u128,
}

/// The values of a list of byte strings.
pub open spec fn byte_lists_view(v: Seq<Vec<u8>>) -> Seq<Seq<u8>> {
    v.map_values(|b: Vec<u8>| b@)
}

impl View for PoolInfor {
    type V = PoolView;

    closed spec fn view(&self) -> PoolView {
        PoolView {
            timestamp: self.timestamp,
            nodes_present: byte_lists_view(self.nodes_present@),
            tokens_in_period: self.tokens_in_period,
        }
    }
}

/// The share of the pool that goes to `acct`: an equal part (rounded down) for
/// each node present, nothing for an account that is not one of them.
pub open spec fn pool_share(p: PoolView, acct: Seq<u8>) -> nat {
    if p.nodes_present.contains(acct) {
        (p.tokens_in_period as nat) / p.nodes_present.len()
    } else {
        0
    }
}

/// Whether a withdrawal's timestamp is not in the future of `now`.
pub open spec fn pool_time_valid(p: PoolView, now: i64) -> bool {
    p.timestamp <= now
}

/// Whether a withdrawal is valid when the network reports `amount_of_nodes`
/// nodes (`None` when it could not be asked) at time `now`: as many nodes
/// present as the network has, and not dated after `now`.
pub open spec fn pool_block_valid(p: PoolView, amount_of_nodes: Option<usize>, now: i64) -> bool {
    amount_of_nodes matches Some(n) && n == p.nodes_present.len() && pool_time_valid(p, now)
}

impl PoolInfor {
    /// A withdrawal made at `timestamp`, with the nodes present and the tokens
    /// collected in the period.
    pub fn new_at(tokens_in_period: u128, nodes_present: Vec<Vec<u8>>, timestamp: i64) -> (r: Self)
        ensures
            r@ == (PoolView { timestamp, nodes_present: byte_lists_view(nodes_present@), tokens_in_period }),
    {
        PoolInfor { timestamp, nodes_present, tokens_in_period }
    }

    /// A withdrawal made now, with the nodes present (the caller fetches them from
    /// the network's middleware) and the tokens collected in the period.
    pub fn new(tokens_in_period: u128, nodes_present: Vec<Vec<u8>>) -> (r: Self)
        ensures
            r@.nodes_present == byte_lists_view(nodes_present@),
            r@.tokens_in_period == tokens_in_period,
    {
        let timestamp = now_seconds();
        Self::new_at(tokens_in_period, nodes_present, timestamp)
    }

    /// A withdrawal made now, shared among the nodes listed in the middleware's
    /// reply (a JSON list of public keys); `None` when the reply is not such a
    /// list.
    pub fn new_from_reply(tokens_in_period: u128, reply: &str) -> (r: Option<Self>)
        ensures
            r is Some <==> json_node_list(reply@) is Some,
            r matches Some(p) ==> p@.nodes_present == json_node_list(reply@)->Some_0
                && p@.tokens_in_period == tokens_in_period,
    {
        match parse_node_list(reply) {
            Some(nodes_present) => Some(Self::new(tokens_in_period, nodes_present)),
            None => None,
        }
    }

    /// The number of nodes in the network, from the middleware's reply to a
    /// request for it: `None` when the request or the reading of its text failed
    /// (`reply` is `None`), else the count that the reply reads as, which it must.
    pub fn get_amount_of_nodes(reply: Option<&str>) -> (r: Option<usize>)
        requires
            reply matches Some(text) ==> count_readable(text@),
        ensures
            r == (match reply {
                Some(text) => Some(count_value(text@) as usize),
                None => None::<usize>,
            }),
    {
        match reply {
            Some(text) => Some(parse_count(text)),
            None => None,
        }
    }

    /// When the withdrawal was made.
    pub fn get_timestamp(&self) -> (r: i64)
        ensures
            r == self@.timestamp,
    {
        self.timestamp
    }

    /// The tokens collected in the period.
    pub fn get_tokens_in_period(&self) -> (r: u128)
        ensures
            r == self@.tokens_in_period,
    {
        self.tokens_in_period
    }

    /// The nodes present when the withdrawal was made.
    pub fn nodes_present(&self) -> (r: &Vec<Vec<u8>>)
        ensures
            byte_lists_view(r@) == self@.nodes_present,
    {
        &self.nodes_present
    }

    /// The tokens that `acct` receives from this withdrawal.
    pub fn get_tokens_in_account(&self, acct: &Vec<u8>) -> (r: u128)
        ensures
            r == pool_share(self@, acct@),
    {
        let acct_amt = self.nodes_present.len();
        for i in 0..acct_amt
            invariant
                acct_amt == self.nodes_present@.len(),
                forall|k: int| 0 <= k < i ==> self@.nodes_present[k] != acct@,
        {
            if bytes_equal(self.nodes_present[i].as_slice(), acct.as_slice()) {
                assert(self@.nodes_present[i as int] == acct@);
                return self.tokens_in_period / (acct_amt as u128);
            }
        }
        assert(!self@.nodes_present.contains(acct@));
        0
    }

    /// Whether the withdrawal is not dated after `now`.
    pub fn verify_block_time_at(&self, now: i64) -> (r: bool)
        ensures
            r == pool_time_valid(self@, now),
    {
        if self.timestamp > now {
            false
        } else {
            true
        }
    }

    /// Whether the withdrawal is not dated in the future, by the system clock.
    pub fn verify_block_time(&self) -> (r: bool)
        ensures
            exists|now: i64| r == #[trigger] pool_time_valid(self@, now),
    {
        let now = now_seconds();
        let r = self.verify_block_time_at(now);
        assert(r == pool_time_valid(self@, now));
        r
    }

    /// Whether the withdrawal is valid, given the number of nodes that the
    /// network's middleware reports (`None` when it could not be asked) and the
    /// time `now`: as many nodes present as the network has, and not dated after
    /// `now`.
    pub fn verify_pool_block_at(&self, amount_of_nodes: Option<usize>, now: i64) -> (r: bool)
        ensures
            r == pool_block_valid(self@, amount_of_nodes, now),
    {
        match amount_of_nodes {
            Some(node_amt) => {
                if node_amt == self.nodes_present.len() && self.verify_block_time_at(now) {
                    true
                } else {
                    false
                }
            },
            None => false,
        }
    }

    /// `verify_pool_block_at` at the time of the system clock.
    pub fn verify_pool_block(&self, amount_of_nodes: Option<usize>) -> (r: bool)
        ensures
            exists|now: i64| r == #[trigger] pool_block_valid(self@, amount_of_nodes, now),
    {
        let now = now_seconds();
        let r = self.verify_pool_block_at(amount_of_nodes, now);
        assert(r == pool_block_valid(self@, amount_of_nodes, now));
        r
    }
}

} // verus!
