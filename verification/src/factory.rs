//! The factory: the register of pools, one for each unordered pair of
//! tokens.

use crate::address::Address;
use crate::error::Error;
use crate::library::{sort_tokens, sorted_tokens};
use crate::pair::{Pair, PairState};
use vstd::prelude::*;

verus! {

/// The identity of the pool that was registered as number `index`.
/// Identities whose first word is all ones are set aside for pools.
pub open spec fn pool_address(index: int) -> Address {
    Address { h0: 0xffff_ffff_ffff_ffff, h1: 0, h2: 0, h3: index as u64 }
}

/// The number of the first pool, from `from` on, that holds the tokens
/// `token0` and `token1` in this order.
pub open spec fn first_match(pairs: Seq<PairState>, token0: Address, token1: Address, from: int)
    -> Option<int>
    decreases pairs.len() - from,
{
    if from < 0 || from >= pairs.len() {
        None
    } else if pairs[from].token0 == token0 && pairs[from].token1 == token1 {
        Some(from)
    } else {
        first_match(pairs, token0, token1, from + 1)
    }
}

/// The number of the pool of two tokens, given in either order.
pub open spec fn pair_for(pairs: Seq<PairState>, token_a: Address, token_b: Address) -> Result<
    int,
    Error,
> {
    match sorted_tokens(token_a, token_b) {
        Err(e) => Err(e),
        Ok((token0, token1)) => match first_match(pairs, token0, token1, 0) {
            Some(i) => Ok(i),
            None => Err(Error::PairNotFound),
        },
    }
}

/// The empty pool that is registered as number `index` for two tokens in
/// their standing order.
pub open spec fn fresh_pair(index: int, token0: Address, token1: Address) -> PairState {
    PairState {
        address: pool_address(index),
        token0,
        token1,
        reserve0: 0,
        reserve1: 0,
        block_timestamp_last: 0,
    }
}

/// The register once the pool of two tokens is in it, and the pool's
/// number: the pool that was there, or else a fresh one at the end.
pub open spec fn pair_created(pairs: Seq<PairState>, token_a: Address, token_b: Address) -> Result<
    (Seq<PairState>, int),
    Error,
> {
    match sorted_tokens(token_a, token_b) {
        Err(e) => Err(e),
        Ok((token0, token1)) => match first_match(pairs, token0, token1, 0) {
            Some(i) => Ok((pairs, i)),
            None => Ok(
                (pairs.push(fresh_pair(pairs.len() as int, token0, token1)), pairs.len() as int),
            ),
        },
    }
}

/// What `first_match` finds is a pool of the register that holds the two
/// tokens, and no pool between `from` and it does.
pub proof fn lemma_first_match(pairs: Seq<PairState>, token0: Address, token1: Address, from: int)
    requires
        0 <= from,
    ensures
        match first_match(pairs, token0, token1, from) {
            Some(i) => from <= i < pairs.len() && pairs[i].token0 == token0 && pairs[i].token1
                == token1,
            None => forall|k: int|
                from <= k < pairs.len() ==> !(pairs[k].token0 == token0 && pairs[k].token1
                    == token1),
        },
    decreases pairs.len() - from,
{
    if from < pairs.len() && !(pairs[from].token0 == token0 && pairs[from].token1 == token1) {
        lemma_first_match(pairs, token0, token1, from + 1);
    }
}

/// The pool that `pair_for` finds is a pool of the register and holds the
/// two tokens in their standing order.
pub proof fn lemma_pair_for_found(pairs: Seq<PairState>, token_a: Address, token_b: Address)
    ensures
        match pair_for(pairs, token_a, token_b) {
            Ok(i) => 0 <= i < pairs.len() && sorted_tokens(token_a, token_b) == Ok::<
                (Address, Address),
                Error,
            >((pairs[i].token0, pairs[i].token1)),
            Err(_) => true,
        },
{
    match sorted_tokens(token_a, token_b) {
        Ok((token0, token1)) => {
            lemma_first_match(pairs, token0, token1, 0);
        },
        Err(_) => {},
    }
}

/// The register is in order: the tokens of every pool stand in order and
/// neither is the null identity, every pool has the identity of its
/// number, and no two pools hold the same tokens.
pub open spec fn register_wf(pairs: Seq<PairState>) -> bool {
    &&& forall|i: int|
        0 <= i < pairs.len() ==> (#[trigger] pairs[i]).wf() && pairs[i].address == pool_address(i)
    &&& forall|i: int, j: int|
        0 <= i < j < pairs.len() ==> !((#[trigger] pairs[i]).token0 == (#[trigger] pairs[j]).token0
            && pairs[i].token1 == pairs[j].token1)
}

/// Whether `after` holds the pools of `before`, each under the identity
/// and with the tokens that it had, and no others.
pub open spec fn same_pools(before: Seq<PairState>, after: Seq<PairState>) -> bool {
    &&& after.len() == before.len()
    &&& forall|i: int|
        0 <= i < before.len() ==> (#[trigger] after[i]).address == before[i].address
            && after[i].token0 == before[i].token0 && after[i].token1 == before[i].token1
}

/// A register that holds the pools of one that is in order is in order.
pub proof fn lemma_same_pools_in_order(before: Seq<PairState>, after: Seq<PairState>)
    requires
        register_wf(before),
        same_pools(before, after),
    ensures
        register_wf(after),
{
    assert forall|i: int| 0 <= i < after.len() implies (#[trigger] after[i]).wf()
        && after[i].address == pool_address(i) by {
        assert(before[i].wf());
    }
    assert forall|i: int, j: int| 0 <= i < j < after.len() implies !((#[trigger] after[i]).token0
        == (#[trigger] after[j]).token0 && after[i].token1 == after[j].token1) by {
        assert(!(before[i].token0 == before[j].token0 && before[i].token1 == before[j].token1));
    }
}

/// Holding the same pools carries over from step to step.
pub proof fn lemma_same_pools_chain(a: Seq<PairState>, b: Seq<PairState>, c: Seq<PairState>)
    requires
        same_pools(a, b),
        same_pools(b, c),
    ensures
        same_pools(a, c),
{
    assert forall|i: int| 0 <= i < a.len() implies (#[trigger] c[i]).address == a[i].address
        && c[i].token0 == a[i].token0 && c[i].token1 == a[i].token1 by {
        assert(b[i].address == a[i].address);
    }
}

/// Finding or making a pool keeps the register in order, and the pool
/// found or made is the only one of its tokens.
pub proof fn lemma_created_in_order(pairs: Seq<PairState>, token_a: Address, token_b: Address)
    requires
        register_wf(pairs),
    ensures
        match pair_created(pairs, token_a, token_b) {
            Ok((made, i)) => register_wf(made) && 0 <= i < made.len() && pair_for(
                made,
                token_a,
                token_b,
            ) == Ok::<int, Error>(i),
            Err(_) => true,
        },
{
    match sorted_tokens(token_a, token_b) {
        Ok((token0, token1)) => {
            lemma_first_match(pairs, token0, token1, 0);
            match first_match(pairs, token0, token1, 0) {
                Some(i) => {},
                None => {
                    let made = pairs.push(fresh_pair(pairs.len() as int, token0, token1));
                    lemma_first_match(made, token0, token1, 0);
                    assert forall|k: int| 0 <= k < made.len() implies (#[trigger] made[k]).wf()
                        && made[k].address == pool_address(k) by {
                        if k < pairs.len() {
                            assert(pairs[k].wf());
                        }
                    }
                    assert forall|k: int, j: int| 0 <= k < j < made.len() implies !((
                    #[trigger] made[k]).token0 == (#[trigger] made[j]).token0 && made[k].token1
                        == made[j].token1) by {
                        if j < pairs.len() {
                            assert(!(pairs[k].token0 == pairs[j].token0 && pairs[k].token1
                                == pairs[j].token1));
                        }
                    }
                    assert(made[pairs.len() as int].token0 == token0);
                },
            }
        },
        Err(_) => {},
    }
}

/// The register of pools.
#[derive(Debug)]
pub struct Factory {
    pub pairs: Vec<Pair>,
}

impl View for Factory {
    type V = Seq<PairState>;

    open spec fn view(&self) -> Seq<PairState> {
        self.pairs@.map_values(|p: Pair| p@)
    }
}

impl Factory {
    /// A register without pools.
    pub fn new() -> (r: Factory)
        ensures
            r@ == Seq::<PairState>::empty(),
    {
        let r = Factory { pairs: Vec::new() };
        proof {
            assert(r@ =~= Seq::<PairState>::empty());
        }
        r
    }

    /// A second register that holds the same pools.
    pub fn duplicate(&self) -> (r: Factory)
        ensures
            r@ == self@,
    {
        let mut pairs: Vec<Pair> = Vec::new();
        let mut i: usize = 0;
        while i < self.pairs.len()
            invariant
                i <= self.pairs@.len(),
                pairs@ == self.pairs@.subrange(0, i as int),
            decreases self.pairs@.len() - i,
        {
            pairs.push(self.pairs[i]);
            i = i + 1;
            proof {
                assert(pairs@ =~= self.pairs@.subrange(0, i as int));
            }
        }
        proof {
            assert(pairs@ =~= self.pairs@);
        }
        Factory { pairs }
    }

    /// How many pools are registered.
    pub fn all_pairs_length(&self) -> (r: usize)
        ensures
            r == self@.len(),
    {
        self.pairs.len()
    }

    /// The number of the first pool that holds `token0` and `token1` in
    /// this order.
    fn find(&self, token0: Address, token1: Address) -> (r: Option<usize>)
        ensures
            match first_match(self@, token0, token1, 0) {
                Some(i) => r is Some && r->Some_0 == i && i < self@.len(),
                None => r is None,
            },
    {
        let mut i: usize = 0;
        while i < self.pairs.len()
            invariant
                i <= self.pairs@.len(),
                first_match(self@, token0, token1, 0) == first_match(self@, token0, token1, i as int),
            decreases self.pairs@.len() - i,
        {
            let p = self.pairs[i];
            if p.token0.same(&token0) && p.token1.same(&token1) {
                return Some(i);
            }
            i = i + 1;
        }
        None
    }

    /// The number of the pool of two tokens, given in either order.
    pub fn pair_for(&self, token_a: Address, token_b: Address) -> (r: Result<usize, Error>)
        ensures
            match pair_for(self@, token_a, token_b) {
                Ok(i) => r is Ok && r->Ok_0 == i && 0 <= i < self@.len(),
                Err(e) => r == Err::<usize, Error>(e),
            },
    {
        let (token0, token1) = match sort_tokens(token_a, token_b) {
            Ok(x) => x,
            Err(e) => { return Err(e); },
        };
        proof {
            lemma_first_match(self@, token0, token1, 0);
        }
        match self.find(token0, token1) {
            Some(i) => Ok(i),
            None => Err(Error::PairNotFound),
        }
    }

    /// The number of the pool of two tokens, if there is one.
    pub fn get_pair(&self, token_a: Address, token_b: Address) -> (r: Option<usize>)
        ensures
            match pair_for(self@, token_a, token_b) {
                Ok(i) => r is Some && r->Some_0 == i && 0 <= i < self@.len(),
                Err(_) => r is None,
            },
    {
        match self.pair_for(token_a, token_b) {
            Ok(i) => Some(i),
            Err(_) => None,
        }
    }

    /// The pool of two tokens: the one that is registered, or else a fresh
    /// one, which is then registered.
    pub fn create_pair(&mut self, token_a: Address, token_b: Address) -> (r: Result<usize, Error>)
        ensures
            match pair_created(old(self)@, token_a, token_b) {
                Ok((pairs, i)) => r is Ok && r->Ok_0 == i && final(self)@ == pairs && 0 <= i
                    < pairs.len(),
                Err(e) => r == Err::<usize, Error>(e) && *final(self) == *old(self),
            },
    {
        let (token0, token1) = match sort_tokens(token_a, token_b) {
            Ok(x) => x,
            Err(e) => { return Err(e); },
        };
        proof {
            lemma_first_match(self@, token0, token1, 0);
        }
        match self.find(token0, token1) {
            Some(i) => Ok(i),
            None => {
                let index = self.pairs.len();
                let address = Address { h0: 0xffff_ffff_ffff_ffff, h1: 0, h2: 0, h3: index as u64 };
                let pair = Pair::new(address, token0, token1);
                self.pairs.push(pair);
                proof {
                    assert(self@ =~= old(self)@.push(fresh_pair(index as int, token0, token1)));
                }
                Ok(index)
            },
        }
    }

    /// The pool registered as number `i`.
    pub fn pair(&self, i: usize) -> (r: Option<Pair>)
        ensures
            i < self@.len() ==> r is Some && r->Some_0@ == self@[i as int],
            i >= self@.len() ==> r is None,
    {
        if i < self.pairs.len() {
            Some(self.pairs[i])
        } else {
            None
        }
    }
}

} // verus!
