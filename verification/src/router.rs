//! The router: the calls through which accounts add and remove liquidity
//! and trade.
//!
//! Every call names the caller and the present time, and works on the
//! exchange that it is given. A call does all of its work or none of it.

use crate::address::Address;
use crate::amount::Amount;
use crate::error::Error;
use crate::exchange::{Exchange, ExchangeState};
use crate::library::{
    agrees, amount_in_outcome, amount_out_outcome, quote_outcome, values,
};
use crate::liquidity::{
    liquidity_added, liquidity_added_cspr, liquidity_removed, liquidity_removed_cspr,
    liquidity_removed_cspr_with_permit, liquidity_removed_with_permit,
};
use crate::trade::{
    swapped_cspr_for_exact_tokens, swapped_exact_cspr_for_tokens, swapped_exact_tokens_for_cspr,
    swapped_exact_tokens_for_tokens, swapped_tokens_for_exact_cspr,
    swapped_tokens_for_exact_tokens,
};
use vstd::prelude::*;

verus! {

/// The router's configuration. The router holds no funds of its own from
/// one call to the next.
#[derive(Clone, Copy, Debug, PartialEq, Eq, Structural)]
pub struct Router {
    /// The router's own identity: the spender to which accounts grant
    /// allowances.
    pub address: Address,
    /// The token that wraps the native coin.
    pub wcspr: Address,
}

/// Whether an outcome is the failure `Expired`.
pub open spec fn expired<T>(o: Result<T, Error>) -> bool {
    o == Err::<T, Error>(Error::Expired)
}

/// A call to add or remove liquidity whose deadline lies before the
/// present time fails as expired, whatever else it was given.
pub proof fn lemma_liquidity_deadline(
    s: ExchangeState,
    router: Router,
    caller: Address,
    token_a: Address,
    token_b: Address,
    x: nat,
    y: nat,
    x_min: nat,
    y_min: nat,
    liquidity: Amount,
    to: Address,
    deadline: u128,
    approve_max: bool,
    nonce: Amount,
    signer: Address,
    now: u128,
)
    requires
        deadline < now,
    ensures
        expired(liquidity_added(s, router, caller, token_a, token_b, x, y, x_min, y_min, to, deadline, now)),
        expired(liquidity_added_cspr(s, router, caller, token_a, x, y, x_min, y_min, to, deadline, now)),
        expired(liquidity_removed(s, router, caller, token_a, token_b, x, x_min, y_min, to, deadline, now)),
        expired(liquidity_removed_cspr(s, router, caller, token_a, x, x_min, y_min, to, deadline, now)),
        expired(
            liquidity_removed_with_permit(
                s,
                router,
                caller,
                token_a,
                token_b,
                liquidity,
                x_min,
                y_min,
                to,
                deadline,
                approve_max,
                nonce,
                signer,
                now,
            ),
        ),
        expired(
            liquidity_removed_cspr_with_permit(
                s,
                router,
                caller,
                token_a,
                liquidity,
                x_min,
                y_min,
                to,
                deadline,
                approve_max,
                nonce,
                signer,
                now,
            ),
        ),
{
    reveal(crate::liquidity::removal_permitted);
}

/// A call to trade whose deadline lies before the present time fails as
/// expired, whatever else it was given.
pub proof fn lemma_swap_deadline(
    s: ExchangeState,
    router: Router,
    caller: Address,
    x: nat,
    y: nat,
    path: Seq<Address>,
    to: Address,
    deadline: u128,
    now: u128,
)
    requires
        deadline < now,
    ensures
        expired(swapped_exact_tokens_for_tokens(s, router, caller, x, y, path, to, deadline, now)),
        expired(swapped_tokens_for_exact_tokens(s, router, caller, x, y, path, to, deadline, now)),
        expired(swapped_exact_cspr_for_tokens(s, router, caller, x, y, path, to, deadline, now)),
        expired(swapped_tokens_for_exact_cspr(s, router, caller, x, y, path, to, deadline, now)),
        expired(swapped_exact_tokens_for_cspr(s, router, caller, x, y, path, to, deadline, now)),
        expired(swapped_cspr_for_exact_tokens(s, router, caller, x, y, path, to, deadline, now)),
{
}

impl Router {
    /// A router under the identity `address`, which takes `wcspr` for the
    /// token that wraps the native coin.
    pub fn new(address: Address, wcspr: Address) -> (r: Router)
        ensures
            r.address == address,
            r.wcspr == wcspr,
    {
        Router { address, wcspr }
    }

    /// Quotes `amount_a` of one token in the other, at the ratio of the
    /// reserves.
    pub fn quote(&self, amount_a: Amount, reserve_a: Amount, reserve_b: Amount) -> (r: Result<
        Amount,
        Error,
    >)
        ensures
            agrees(r, quote_outcome(amount_a@, reserve_a@, reserve_b@)),
    {
        crate::library::quote(amount_a, reserve_a, reserve_b)
    }

    /// The output that `amount_in` buys from a pool with the given
    /// reserves.
    pub fn get_amount_out(&self, amount_in: Amount, reserve_in: Amount, reserve_out: Amount) -> (r:
        Result<Amount, Error>)
        ensures
            agrees(r, amount_out_outcome(amount_in@, reserve_in@, reserve_out@)),
    {
        crate::library::get_amount_out(amount_in, reserve_in, reserve_out)
    }

    /// The input that buys `amount_out` from a pool with the given
    /// reserves.
    pub fn get_amount_in(&self, amount_out: Amount, reserve_in: Amount, reserve_out: Amount) -> (r:
        Result<Amount, Error>)
        ensures
            agrees(r, amount_in_outcome(amount_out@, reserve_in@, reserve_out@)),
    {
        crate::library::get_amount_in(amount_out, reserve_in, reserve_out)
    }

    /// Adds liquidity to the pool of two tokens, which is made if it is not
    /// there: takes from the caller what keeps the pool's ratio, within what
    /// is offered, and has the pool issue shares to `to`. Returns the two
    /// amounts taken and the shares issued.
    /// The call does all of this or, where it fails, nothing.
    pub fn add_liquidity(
        &self,
        exchange: &mut Exchange,
        caller: Address,
        token_a: Address,
        token_b: Address,
        amount_a_desired: Amount,
        amount_b_desired: Amount,
        amount_a_min: Amount,
        amount_b_min: Amount,
        to: Address,
        deadline: u128,
        now: u128,
    ) -> (r: Result<(Amount, Amount, Amount), Error>)
        ensures
            match liquidity_added(
                old(exchange)@,
                *self,
                caller,
                token_a,
                token_b,
                amount_a_desired@,
                amount_b_desired@,
                amount_a_min@,
                amount_b_min@,
                to,
                deadline,
                now,
            ) {
                Ok((s, a, b, l)) => r is Ok && r->Ok_0.0@ == a && r->Ok_0.1@ == b && r->Ok_0.2@ == l
                    && final(exchange)@ == s,
                Err(e) => r is Err && r->Err_0 == e && *final(exchange) == *old(exchange),
            },
    {
        let mut work = exchange.duplicate();
        match work.add_liquidity_step(
            *self,
            caller,
            token_a,
            token_b,
            amount_a_desired,
            amount_b_desired,
            amount_a_min,
            amount_b_min,
            to,
            deadline,
            now,
        ) {
            Ok(x) => {
                *exchange = work;
                Ok(x)
            },
            Err(e) => Err(e),
        }
    }

    /// Adds liquidity to the pool of a token and the wrapped coin, paying the
    /// coin side in native coin: `amount_cspr_desired` is the caller's
    /// payment, of which the part that the deposit does not take goes back.
    /// Returns the amount of the token, the amount of coin and the shares
    /// issued.
    /// The call does all of this or, where it fails, nothing.
    pub fn add_liquidity_cspr(
        &self,
        exchange: &mut Exchange,
        caller: Address,
        token: Address,
        amount_token_desired: Amount,
        amount_cspr_desired: Amount,
        amount_token_min: Amount,
        amount_cspr_min: Amount,
        to: Address,
        deadline: u128,
        now: u128,
    ) -> (r: Result<(Amount, Amount, Amount), Error>)
        ensures
            match liquidity_added_cspr(
                old(exchange)@,
                *self,
                caller,
                token,
                amount_token_desired@,
                amount_cspr_desired@,
                amount_token_min@,
                amount_cspr_min@,
                to,
                deadline,
                now,
            ) {
                Ok((s, a, b, l)) => r is Ok && r->Ok_0.0@ == a && r->Ok_0.1@ == b && r->Ok_0.2@ == l
                    && final(exchange)@ == s,
                Err(e) => r is Err && r->Err_0 == e && *final(exchange) == *old(exchange),
            },
    {
        let mut work = exchange.duplicate();
        match work.add_liquidity_cspr_step(
            *self,
            caller,
            token,
            amount_token_desired,
            amount_cspr_desired,
            amount_token_min,
            amount_cspr_min,
            to,
            deadline,
            now,
        ) {
            Ok(x) => {
                *exchange = work;
                Ok(x)
            },
            Err(e) => Err(e),
        }
    }

    /// Removes liquidity: hands the caller's shares to the pool, which
    /// redeems them and pays `to`. Returns the two amounts paid, that of
    /// `token_a` first.
    /// The call does all of this or, where it fails, nothing.
    pub fn remove_liquidity(
        &self,
        exchange: &mut Exchange,
        caller: Address,
        token_a: Address,
        token_b: Address,
        liquidity: Amount,
        amount_a_min: Amount,
        amount_b_min: Amount,
        to: Address,
        deadline: u128,
        now: u128,
    ) -> (r: Result<(Amount, Amount), Error>)
        ensures
            match liquidity_removed(
                old(exchange)@,
                *self,
                caller,
                token_a,
                token_b,
                liquidity@,
                amount_a_min@,
                amount_b_min@,
                to,
                deadline,
                now,
            ) {
                Ok((s, a, b)) => r is Ok && r->Ok_0.0@ == a && r->Ok_0.1@ == b && final(exchange)@ == s,
                Err(e) => r is Err && r->Err_0 == e && *final(exchange) == *old(exchange),
            },
    {
        let mut work = exchange.duplicate();
        match work.remove_liquidity_step(
            *self,
            caller,
            token_a,
            token_b,
            liquidity,
            amount_a_min,
            amount_b_min,
            to,
            deadline,
            now,
        ) {
            Ok(x) => {
                *exchange = work;
                Ok(x)
            },
            Err(e) => Err(e),
        }
    }

    /// Removes liquidity from the pool of a token and the wrapped coin, and
    /// pays the coin side out in native coin. Returns the amount of the
    /// token and the amount of coin.
    /// The call does all of this or, where it fails, nothing.
    pub fn remove_liquidity_cspr(
        &self,
        exchange: &mut Exchange,
        caller: Address,
        token: Address,
        liquidity: Amount,
        amount_token_min: Amount,
        amount_cspr_min: Amount,
        to: Address,
        deadline: u128,
        now: u128,
    ) -> (r: Result<(Amount, Amount), Error>)
        ensures
            match liquidity_removed_cspr(
                old(exchange)@,
                *self,
                caller,
                token,
                liquidity@,
                amount_token_min@,
                amount_cspr_min@,
                to,
                deadline,
                now,
            ) {
                Ok((s, a, b)) => r is Ok && r->Ok_0.0@ == a && r->Ok_0.1@ == b && final(exchange)@ == s,
                Err(e) => r is Err && r->Err_0 == e && *final(exchange) == *old(exchange),
            },
    {
        let mut work = exchange.duplicate();
        match work.remove_liquidity_cspr_step(
            *self,
            caller,
            token,
            liquidity,
            amount_token_min,
            amount_cspr_min,
            to,
            deadline,
            now,
        ) {
            Ok(x) => {
                *exchange = work;
                Ok(x)
            },
            Err(e) => Err(e),
        }
    }

    /// Removes liquidity on a signed authorisation: the bank first takes the
    /// caller's authorisation of the router, for the shares to be removed or,
    /// with `approve_max`, without limit. `nonce` is the caller's counter for
    /// which the authorisation was signed and `signer` the identity that its
    /// signature recovers to.
    /// The call does all of this or, where it fails, nothing.
    pub fn remove_liquidity_with_permit(
        &self,
        exchange: &mut Exchange,
        caller: Address,
        token_a: Address,
        token_b: Address,
        liquidity: Amount,
        amount_a_min: Amount,
        amount_b_min: Amount,
        to: Address,
        deadline: u128,
        approve_max: bool,
        nonce: Amount,
        signer: Address,
        now: u128,
    ) -> (r: Result<(Amount, Amount), Error>)
        ensures
            match liquidity_removed_with_permit(
                old(exchange)@,
                *self,
                caller,
                token_a,
                token_b,
                liquidity,
                amount_a_min@,
                amount_b_min@,
                to,
                deadline,
                approve_max,
                nonce,
                signer,
                now,
            ) {
                Ok((s, a, b)) => r is Ok && r->Ok_0.0@ == a && r->Ok_0.1@ == b && final(exchange)@ == s,
                Err(e) => r is Err && r->Err_0 == e && *final(exchange) == *old(exchange),
            },
    {
        let mut work = exchange.duplicate();
        match work.permit_removal_step(
            *self,
            caller,
            token_a,
            token_b,
            liquidity,
            deadline,
            approve_max,
            nonce,
            signer,
            now,
        ) {
            Ok(_) => {},
            Err(e) => { return Err(e); },
        }
        match work.remove_liquidity_step(
            *self,
            caller,
            token_a,
            token_b,
            liquidity,
            amount_a_min,
            amount_b_min,
            to,
            deadline,
            now,
        ) {
            Ok(x) => {
                *exchange = work;
                Ok(x)
            },
            Err(e) => Err(e),
        }
    }

    /// Removes liquidity from the pool of a token and the wrapped coin on a
    /// signed authorisation, and pays the coin side out in native coin.
    /// The call does all of this or, where it fails, nothing.
    pub fn remove_liquidity_cspr_with_permit(
        &self,
        exchange: &mut Exchange,
        caller: Address,
        token: Address,
        liquidity: Amount,
        amount_token_min: Amount,
        amount_cspr_min: Amount,
        to: Address,
        deadline: u128,
        approve_max: bool,
        nonce: Amount,
        signer: Address,
        now: u128,
    ) -> (r: Result<(Amount, Amount), Error>)
        ensures
            match liquidity_removed_cspr_with_permit(
                old(exchange)@,
                *self,
                caller,
                token,
                liquidity,
                amount_token_min@,
                amount_cspr_min@,
                to,
                deadline,
                approve_max,
                nonce,
                signer,
                now,
            ) {
                Ok((s, a, b)) => r is Ok && r->Ok_0.0@ == a && r->Ok_0.1@ == b && final(exchange)@ == s,
                Err(e) => r is Err && r->Err_0 == e && *final(exchange) == *old(exchange),
            },
    {
        let mut work = exchange.duplicate();
        match work.permit_removal_step(
            *self,
            caller,
            token,
            self.wcspr,
            liquidity,
            deadline,
            approve_max,
            nonce,
            signer,
            now,
        ) {
            Ok(_) => {},
            Err(e) => { return Err(e); },
        }
        match work.remove_liquidity_cspr_step(
            *self,
            caller,
            token,
            liquidity,
            amount_token_min,
            amount_cspr_min,
            to,
            deadline,
            now,
        ) {
            Ok(x) => {
                *exchange = work;
                Ok(x)
            },
            Err(e) => Err(e),
        }
    }

    /// Trades `amount_in` of the first token of a path for as much of the
    /// last as it buys, which must be at least `amount_out_min`. Returns the
    /// amounts along the path.
    /// The call does all of this or, where it fails, nothing.
    pub fn swap_exact_tokens_for_tokens(
        &self,
        exchange: &mut Exchange,
        caller: Address,
        amount_in: Amount,
        amount_out_min: Amount,
        path: &Vec<Address>,
        to: Address,
        deadline: u128,
        now: u128,
    ) -> (r: Result<Vec<Amount>, Error>)
        ensures
            match swapped_exact_tokens_for_tokens(
                old(exchange)@,
                *self,
                caller,
                amount_in@,
                amount_out_min@,
                path@,
                to,
                deadline,
                now,
            ) {
                Ok((s, amounts)) => r is Ok && values(r->Ok_0@) == amounts && final(exchange)@ == s,
                Err(e) => r is Err && r->Err_0 == e && *final(exchange) == *old(exchange),
            },
    {
        let mut work = exchange.duplicate();
        match work.swap_exact_tokens_for_tokens_step(
            *self,
            caller,
            amount_in,
            amount_out_min,
            path,
            to,
            deadline,
            now,
        ) {
            Ok(x) => {
                *exchange = work;
                Ok(x)
            },
            Err(e) => Err(e),
        }
    }

    /// Buys `amount_out` of the last token of a path for as much of the first
    /// as it costs, which must be at most `amount_in_max`. Returns the
    /// amounts along the path.
    /// The call does all of this or, where it fails, nothing.
    pub fn swap_tokens_for_exact_tokens(
        &self,
        exchange: &mut Exchange,
        caller: Address,
        amount_out: Amount,
        amount_in_max: Amount,
        path: &Vec<Address>,
        to: Address,
        deadline: u128,
        now: u128,
    ) -> (r: Result<Vec<Amount>, Error>)
        ensures
            match swapped_tokens_for_exact_tokens(
                old(exchange)@,
                *self,
                caller,
                amount_out@,
                amount_in_max@,
                path@,
                to,
                deadline,
                now,
            ) {
                Ok((s, amounts)) => r is Ok && values(r->Ok_0@) == amounts && final(exchange)@ == s,
                Err(e) => r is Err && r->Err_0 == e && *final(exchange) == *old(exchange),
            },
    {
        let mut work = exchange.duplicate();
        match work.swap_tokens_for_exact_tokens_step(
            *self,
            caller,
            amount_out,
            amount_in_max,
            path,
            to,
            deadline,
            now,
        ) {
            Ok(x) => {
                *exchange = work;
                Ok(x)
            },
            Err(e) => Err(e),
        }
    }

    /// Trades the caller's payment of `amount_in` native coin along a path
    /// that starts at the wrapped coin. Returns the amounts along the path.
    /// The call does all of this or, where it fails, nothing.
    pub fn swap_exact_cspr_for_tokens(
        &self,
        exchange: &mut Exchange,
        caller: Address,
        amount_out_min: Amount,
        amount_in: Amount,
        path: &Vec<Address>,
        to: Address,
        deadline: u128,
        now: u128,
    ) -> (r: Result<Vec<Amount>, Error>)
        ensures
            match swapped_exact_cspr_for_tokens(
                old(exchange)@,
                *self,
                caller,
                amount_out_min@,
                amount_in@,
                path@,
                to,
                deadline,
                now,
            ) {
                Ok((s, amounts)) => r is Ok && values(r->Ok_0@) == amounts && final(exchange)@ == s,
                Err(e) => r is Err && r->Err_0 == e && *final(exchange) == *old(exchange),
            },
    {
        let mut work = exchange.duplicate();
        match work.swap_exact_cspr_for_tokens_step(
            *self,
            caller,
            amount_out_min,
            amount_in,
            path,
            to,
            deadline,
            now,
        ) {
            Ok(x) => {
                *exchange = work;
                Ok(x)
            },
            Err(e) => Err(e),
        }
    }

    /// Buys `amount_out` native coin along a path that ends at the wrapped
    /// coin. Returns the amounts along the path.
    /// The call does all of this or, where it fails, nothing.
    pub fn swap_tokens_for_exact_cspr(
        &self,
        exchange: &mut Exchange,
        caller: Address,
        amount_out: Amount,
        amount_in_max: Amount,
        path: &Vec<Address>,
        to: Address,
        deadline: u128,
        now: u128,
    ) -> (r: Result<Vec<Amount>, Error>)
        ensures
            match swapped_tokens_for_exact_cspr(
                old(exchange)@,
                *self,
                caller,
                amount_out@,
                amount_in_max@,
                path@,
                to,
                deadline,
                now,
            ) {
                Ok((s, amounts)) => r is Ok && values(r->Ok_0@) == amounts && final(exchange)@ == s,
                Err(e) => r is Err && r->Err_0 == e && *final(exchange) == *old(exchange),
            },
    {
        let mut work = exchange.duplicate();
        match work.swap_tokens_for_exact_cspr_step(
            *self,
            caller,
            amount_out,
            amount_in_max,
            path,
            to,
            deadline,
            now,
        ) {
            Ok(x) => {
                *exchange = work;
                Ok(x)
            },
            Err(e) => Err(e),
        }
    }

    /// Trades `amount_in` of a token for native coin along a path that ends
    /// at the wrapped coin. Returns the amounts along the path.
    /// The call does all of this or, where it fails, nothing.
    pub fn swap_exact_tokens_for_cspr(
        &self,
        exchange: &mut Exchange,
        caller: Address,
        amount_in: Amount,
        amount_out_min: Amount,
        path: &Vec<Address>,
        to: Address,
        deadline: u128,
        now: u128,
    ) -> (r: Result<Vec<Amount>, Error>)
        ensures
            match swapped_exact_tokens_for_cspr(
                old(exchange)@,
                *self,
                caller,
                amount_in@,
                amount_out_min@,
                path@,
                to,
                deadline,
                now,
            ) {
                Ok((s, amounts)) => r is Ok && values(r->Ok_0@) == amounts && final(exchange)@ == s,
                Err(e) => r is Err && r->Err_0 == e && *final(exchange) == *old(exchange),
            },
    {
        let mut work = exchange.duplicate();
        match work.swap_exact_tokens_for_cspr_step(
            *self,
            caller,
            amount_in,
            amount_out_min,
            path,
            to,
            deadline,
            now,
        ) {
            Ok(x) => {
                *exchange = work;
                Ok(x)
            },
            Err(e) => Err(e),
        }
    }

    /// Buys `amount_out` of the last token of a path with native coin, along
    /// a path that starts at the wrapped coin. `amount_in_max` is the
    /// caller's payment, of which the part that the trade does not cost goes
    /// back. Returns the amounts along the path.
    /// The call does all of this or, where it fails, nothing.
    pub fn swap_cspr_for_exact_tokens(
        &self,
        exchange: &mut Exchange,
        caller: Address,
        amount_out: Amount,
        amount_in_max: Amount,
        path: &Vec<Address>,
        to: Address,
        deadline: u128,
        now: u128,
    ) -> (r: Result<Vec<Amount>, Error>)
        ensures
            match swapped_cspr_for_exact_tokens(
                old(exchange)@,
                *self,
                caller,
                amount_out@,
                amount_in_max@,
                path@,
                to,
                deadline,
                now,
            ) {
                Ok((s, amounts)) => r is Ok && values(r->Ok_0@) == amounts && final(exchange)@ == s,
                Err(e) => r is Err && r->Err_0 == e && *final(exchange) == *old(exchange),
            },
    {
        let mut work = exchange.duplicate();
        match work.swap_cspr_for_exact_tokens_step(
            *self,
            caller,
            amount_out,
            amount_in_max,
            path,
            to,
            deadline,
            now,
        ) {
            Ok(x) => {
                *exchange = work;
                Ok(x)
            },
            Err(e) => Err(e),
        }
    }
}

} // verus!
