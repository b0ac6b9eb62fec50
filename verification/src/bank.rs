//! The bank: who holds how much of which token.
//!
//! Every token of the exchange, the liquidity shares of its pools and the
//! native coin among them, is a fungible token with balances, allowances
//! that owners grant to spenders, and signed authorisations. The bank keeps
//! them all, each under the token's identity. The native coin is kept under
//! the null identity.

use crate::address::{lemma_address_injective, Address};
use crate::amount::{lemma_amount_injective, modulus, Amount};
use crate::error::Error;
use crate::table::{blank, Table};
use vstd::prelude::*;

verus! {

/// The null identity.
pub open spec fn null() -> Address {
    Address { h0: 0, h1: 0, h2: 0, h3: 0 }
}

/// The bank as mathematics.
pub struct BankState {
    /// Of each token, how much exists.
    pub supplies: Map<Address, nat>,
    /// Of each token, what each account holds: by token and holder.
    pub balances: Map<(Address, Address), nat>,
    /// Of each token, what each owner lets each spender move: by token,
    /// owner and spender.
    pub allowances: Map<(Address, Address, Address), nat>,
    /// Of each token, how many authorisations of each owner were accepted:
    /// by token and owner.
    pub nonces: Map<(Address, Address), nat>,
}

/// A signed authorisation by which an owner grants a spender an allowance
/// without a call of their own. `nonce` is the owner's counter for which it
/// was signed. `signer` is the identity that the signature over the other
/// fields recovers to; recovering it is the caller's work.
#[derive(Clone, Copy, Debug, PartialEq, Eq, Structural)]
pub struct Permit {
    pub token: Address,
    pub owner: Address,
    pub spender: Address,
    pub value: Amount,
    pub deadline: u128,
    pub nonce: Amount,
    pub signer: Address,
}

/// The bank in which nobody holds anything.
pub open spec fn empty_bank() -> BankState {
    BankState {
        supplies: Map::total(|t: Address| 0nat),
        balances: Map::total(|k: (Address, Address)| 0nat),
        allowances: blank(),
        nonces: Map::total(|k: (Address, Address)| 0nat),
    }
}

/// New units of a token come into being in the account `to`.
pub open spec fn minted(s: BankState, token: Address, to: Address, amount: nat) -> Result<
    BankState,
    Error,
> {
    if s.supplies[token] + amount >= modulus() || s.balances[(token, to)] + amount >= modulus() {
        Err(Error::Overflow)
    } else {
        Ok(
            BankState {
                supplies: s.supplies.insert(token, s.supplies[token] + amount),
                balances: s.balances.insert((token, to), s.balances[(token, to)] + amount),
                ..s
            },
        )
    }
}

/// Units of a token that the account `from` holds cease to exist.
pub open spec fn burned(s: BankState, token: Address, from: Address, amount: nat) -> Result<
    BankState,
    Error,
> {
    if s.balances[(token, from)] < amount || s.supplies[token] < amount {
        Err(Error::InsufficientBalance)
    } else {
        Ok(
            BankState {
                supplies: s.supplies.insert(token, (s.supplies[token] - amount) as nat),
                balances: s.balances.insert(
                    (token, from),
                    (s.balances[(token, from)] - amount) as nat,
                ),
                ..s
            },
        )
    }
}

/// Units of a token move from one account to another.
pub open spec fn transferred(
    s: BankState,
    token: Address,
    from: Address,
    to: Address,
    amount: nat,
) -> Result<BankState, Error> {
    if s.balances[(token, from)] < amount {
        Err(Error::InsufficientBalance)
    } else if from == to {
        Ok(s)
    } else if s.balances[(token, to)] + amount >= modulus() {
        Err(Error::Overflow)
    } else {
        Ok(
            BankState {
                balances: s.balances.insert(
                    (token, from),
                    (s.balances[(token, from)] - amount) as nat,
                ).insert((token, to), s.balances[(token, to)] + amount),
                ..s
            },
        )
    }
}

/// An owner grants a spender an allowance, in place of any earlier one.
pub open spec fn approved(
    s: BankState,
    token: Address,
    owner: Address,
    spender: Address,
    amount: nat,
) -> BankState {
    BankState { allowances: s.allowances.insert((token, owner, spender), amount), ..s }
}

/// A spender uses up part of an allowance. The largest allowance there is
/// counts as unlimited and is never used up.
pub open spec fn drawn(
    s: BankState,
    token: Address,
    owner: Address,
    spender: Address,
    amount: nat,
) -> Result<BankState, Error> {
    let granted = s.allowances[(token, owner, spender)];
    if granted == modulus() - 1 {
        Ok(s)
    } else if granted < amount {
        Err(Error::InsufficientAllowance)
    } else {
        Ok(approved(s, token, owner, spender, (granted - amount) as nat))
    }
}

/// A spender moves an owner's units to another account, on the owner's
/// allowance.
pub open spec fn transferred_from(
    s: BankState,
    token: Address,
    spender: Address,
    owner: Address,
    to: Address,
    amount: nat,
) -> Result<BankState, Error> {
    match drawn(s, token, owner, spender, amount) {
        Err(e) => Err(e),
        Ok(t) => transferred(t, token, owner, to, amount),
    }
}

/// Whether an authorisation holds at the time `now`: signed by its owner,
/// who is somebody, not out of date, and made for the owner's present
/// counter.
pub open spec fn permit_holds(s: BankState, p: Permit, now: u128) -> bool {
    &&& p.signer == p.owner
    &&& p.owner != null()
    &&& p.deadline >= now
    &&& p.nonce@ == s.nonces[(p.token, p.owner)]
}

/// An authorisation is accepted: the allowance is granted and the owner's
/// counter moves on, so that the same authorisation never holds again.
pub open spec fn permitted(s: BankState, p: Permit, now: u128) -> Result<BankState, Error> {
    if !permit_holds(s, p, now) {
        Err(Error::InvalidPermit)
    } else if s.nonces[(p.token, p.owner)] + 1 >= modulus() {
        Err(Error::Overflow)
    } else {
        Ok(
            BankState {
                allowances: s.allowances.insert((p.token, p.owner, p.spender), p.value@),
                nonces: s.nonces.insert((p.token, p.owner), s.nonces[(p.token, p.owner)] + 1),
                ..s
            },
        )
    }
}

/// An authorisation that was accepted does not hold a second time.
pub proof fn lemma_permit_once(s: BankState, p: Permit, now: u128, later: u128)
    ensures
        match permitted(s, p, now) {
            Ok(t) => permitted(t, p, later) == Err::<BankState, Error>(Error::InvalidPermit),
            Err(_) => true,
        },
{
}

/// Native coin is wrapped: `amount` of it moves from `payer` to the
/// wrapping token's own account, and as many units of the wrapping token
/// come into being in the account `to`.
pub open spec fn wrapped(s: BankState, wrapper: Address, payer: Address, to: Address, amount: nat)
    -> Result<BankState, Error> {
    match transferred(s, null(), payer, wrapper, amount) {
        Err(e) => Err(e),
        Ok(t) => minted(t, wrapper, to, amount),
    }
}

/// Wrapped coin is unwrapped: `amount` units of the wrapping token that
/// `holder` holds cease to exist, and as much native coin moves from the
/// wrapping token's own account to `to`.
pub open spec fn unwrapped(
    s: BankState,
    wrapper: Address,
    holder: Address,
    to: Address,
    amount: nat,
) -> Result<BankState, Error> {
    match burned(s, wrapper, holder, amount) {
        Err(e) => Err(e),
        Ok(t) => transferred(t, null(), wrapper, to, amount),
    }
}

/// Whether a call did to the bank what the stated outcome says, where the
/// call works on a copy: on failure it returns the outcome's error, and
/// nothing is said of the bank.
pub open spec fn advances(after: Bank, r: Result<(), Error>, o: Result<BankState, Error>) -> bool {
    match o {
        Ok(s) => r is Ok && after@ == s,
        Err(e) => r == Err::<(), Error>(e),
    }
}

/// The bank.
#[derive(Debug)]
pub struct Bank {
    pub supplies: Table,
    pub balances: Table,
    pub allowances: Table,
    pub nonces: Table,
}

impl View for Bank {
    type V = BankState;

    open spec fn view(&self) -> BankState {
        BankState {
            supplies: Map::total(|t: Address| self.supplies@[(t, null(), null())]),
            balances: Map::total(|k: (Address, Address)| self.balances@[(k.0, k.1, null())]),
            allowances: self.allowances@,
            nonces: Map::total(|k: (Address, Address)| self.nonces@[(k.0, k.1, null())]),
        }
    }
}

/// Whether a call did to the bank what the stated outcome says: on success
/// the bank is the outcome's, on failure the call returns the outcome's
/// error and the bank is untouched.
pub open spec fn follows(before: Bank, after: Bank, r: Result<(), Error>, o: Result<BankState, Error>)
    -> bool {
    match o {
        Ok(s) => r is Ok && after@ == s,
        Err(e) => r == Err::<(), Error>(e) && after == before,
    }
}

impl Bank {
    /// A bank in which nobody holds anything.
    pub fn new() -> (r: Bank)
        ensures
            r@ == empty_bank(),
    {
        let r = Bank {
            supplies: Table::new(),
            balances: Table::new(),
            allowances: Table::new(),
            nonces: Table::new(),
        };
        proof {
            assert(r@.supplies =~= empty_bank().supplies);
            assert(r@.balances =~= empty_bank().balances);
            assert(r@.nonces =~= empty_bank().nonces);
        }
        r
    }

    /// A second bank in which everybody holds what they hold in this one.
    pub fn duplicate(&self) -> (r: Bank)
        ensures
            r@ == self@,
    {
        let r = Bank {
            supplies: self.supplies.duplicate(),
            balances: self.balances.duplicate(),
            allowances: self.allowances.duplicate(),
            nonces: self.nonces.duplicate(),
        };
        proof {
            assert(r@.supplies =~= self@.supplies);
            assert(r@.balances =~= self@.balances);
            assert(r@.nonces =~= self@.nonces);
        }
        r
    }

    /// How much of a token exists.
    pub fn total_supply(&self, token: Address) -> (r: Amount)
        ensures
            r@ == self@.supplies[token],
    {
        self.supplies.get(token, Address::zero(), Address::zero())
    }

    /// What an account holds of a token.
    pub fn balance_of(&self, token: Address, who: Address) -> (r: Amount)
        ensures
            r@ == self@.balances[(token, who)],
    {
        self.balances.get(token, who, Address::zero())
    }

    /// What an owner lets a spender move of a token.
    pub fn allowance(&self, token: Address, owner: Address, spender: Address) -> (r: Amount)
        ensures
            r@ == self@.allowances[(token, owner, spender)],
    {
        self.allowances.get(token, owner, spender)
    }

    /// How many authorisations of an owner were accepted for a token.
    pub fn nonce_of(&self, token: Address, owner: Address) -> (r: Amount)
        ensures
            r@ == self@.nonces[(token, owner)],
    {
        self.nonces.get(token, owner, Address::zero())
    }

    /// Writes how much of a token exists.
    fn set_supply(&mut self, token: Address, amount: Amount)
        ensures
            final(self)@ == (BankState {
                supplies: old(self)@.supplies.insert(token, amount@),
                ..old(self)@
            }),
    {
        self.supplies.set(token, Address::zero(), Address::zero(), amount);
        proof {
            assert(self@.supplies =~= old(self)@.supplies.insert(token, amount@));
            assert(self@.balances =~= old(self)@.balances);
            assert(self@.nonces =~= old(self)@.nonces);
        }
    }

    /// Writes what an account holds of a token.
    fn set_balance(&mut self, token: Address, who: Address, amount: Amount)
        ensures
            final(self)@ == (BankState {
                balances: old(self)@.balances.insert((token, who), amount@),
                ..old(self)@
            }),
    {
        self.balances.set(token, who, Address::zero(), amount);
        proof {
            assert(self@.supplies =~= old(self)@.supplies);
            assert(self@.balances =~= old(self)@.balances.insert((token, who), amount@));
            assert(self@.nonces =~= old(self)@.nonces);
        }
    }

    /// Brings `amount` new units of a token into being in the account `to`.
    pub fn mint(&mut self, token: Address, to: Address, amount: Amount) -> (r: Result<(), Error>)
        ensures
            follows(*old(self), *final(self), r, minted(old(self)@, token, to, amount@)),
    {
        let supply = match self.total_supply(token).checked_add(amount) {
            Some(x) => x,
            None => { return Err(Error::Overflow); },
        };
        let held = match self.balance_of(token, to).checked_add(amount) {
            Some(x) => x,
            None => { return Err(Error::Overflow); },
        };
        self.set_supply(token, supply);
        self.set_balance(token, to, held);
        Ok(())
    }

    /// Destroys `amount` units of a token that the account `from` holds.
    pub fn burn(&mut self, token: Address, from: Address, amount: Amount) -> (r: Result<
        (),
        Error,
    >)
        ensures
            follows(*old(self), *final(self), r, burned(old(self)@, token, from, amount@)),
    {
        let left = match self.balance_of(token, from).checked_sub(amount) {
            Some(x) => x,
            None => { return Err(Error::InsufficientBalance); },
        };
        let supply = match self.total_supply(token).checked_sub(amount) {
            Some(x) => x,
            None => { return Err(Error::InsufficientBalance); },
        };
        self.set_supply(token, supply);
        self.set_balance(token, from, left);
        Ok(())
    }

    /// Moves `amount` units of a token from one account to another.
    pub fn transfer(&mut self, token: Address, from: Address, to: Address, amount: Amount) -> (r:
        Result<(), Error>)
        ensures
            follows(*old(self), *final(self), r, transferred(old(self)@, token, from, to, amount@)),
    {
        let left = match self.balance_of(token, from).checked_sub(amount) {
            Some(x) => x,
            None => { return Err(Error::InsufficientBalance); },
        };
        if from.same(&to) {
            return Ok(());
        }
        let held = match self.balance_of(token, to).checked_add(amount) {
            Some(x) => x,
            None => { return Err(Error::Overflow); },
        };
        self.set_balance(token, from, left);
        self.set_balance(token, to, held);
        Ok(())
    }

    /// Grants a spender an allowance on an owner's units of a token.
    pub fn approve(&mut self, token: Address, owner: Address, spender: Address, amount: Amount)
        ensures
            final(self)@ == approved(old(self)@, token, owner, spender, amount@),
    {
        self.allowances.set(token, owner, spender, amount);
        proof {
            assert(self@.supplies =~= old(self)@.supplies);
            assert(self@.balances =~= old(self)@.balances);
            assert(self@.nonces =~= old(self)@.nonces);
        }
    }

    /// What is left of an allowance once `amount` of it is used, if it
    /// covers as much.
    fn allowance_left(&self, token: Address, owner: Address, spender: Address, amount: Amount)
        -> (r: Result<Amount, Error>)
        ensures
            match drawn(self@, token, owner, spender, amount@) {
                Ok(t) => r is Ok && t == approved(self@, token, owner, spender, r->Ok_0@),
                Err(e) => r == Err::<Amount, Error>(e),
            },
    {
        let granted = self.allowance(token, owner, spender);
        let most = Amount::max_value();
        proof {
            lemma_amount_injective(granted, most);
        }
        if granted == most {
            proof {
                assert(self@.allowances.insert((token, owner, spender), granted@)
                    =~= self@.allowances);
            }
            Ok(granted)
        } else {
            match granted.checked_sub(amount) {
                Some(x) => Ok(x),
                None => Err(Error::InsufficientAllowance),
            }
        }
    }

    /// Moves `amount` of an owner's units of a token to another account, on
    /// the allowance that the owner granted the spender.
    pub fn transfer_from(
        &mut self,
        token: Address,
        spender: Address,
        owner: Address,
        to: Address,
        amount: Amount,
    ) -> (r: Result<(), Error>)
        ensures
            follows(
                *old(self),
                *final(self),
                r,
                transferred_from(old(self)@, token, spender, owner, to, amount@),
            ),
    {
        let rest = match self.allowance_left(token, owner, spender, amount) {
            Ok(x) => x,
            Err(e) => { return Err(e); },
        };
        let left = match self.balance_of(token, owner).checked_sub(amount) {
            Some(x) => x,
            None => { return Err(Error::InsufficientBalance); },
        };
        if owner.same(&to) {
            self.approve(token, owner, spender, rest);
            return Ok(());
        }
        let held = match self.balance_of(token, to).checked_add(amount) {
            Some(x) => x,
            None => { return Err(Error::Overflow); },
        };
        self.approve(token, owner, spender, rest);
        self.set_balance(token, owner, left);
        self.set_balance(token, to, held);
        Ok(())
    }

    /// Accepts a signed authorisation, if it holds at the time `now`.
    pub fn permit(&mut self, p: Permit, now: u128) -> (r: Result<(), Error>)
        ensures
            follows(*old(self), *final(self), r, permitted(old(self)@, p, now)),
    {
        let counter = self.nonce_of(p.token, p.owner);
        proof {
            lemma_amount_injective(p.nonce, counter);
            lemma_address_injective(p.owner, null());
        }
        if !p.signer.same(&p.owner) || p.owner.is_zero() || p.deadline < now || p.nonce
            != counter {
            return Err(Error::InvalidPermit);
        }
        let next = match counter.checked_add(Amount::from_u64(1)) {
            Some(x) => x,
            None => { return Err(Error::Overflow); },
        };
        self.allowances.set(p.token, p.owner, p.spender, p.value);
        self.nonces.set(p.token, p.owner, Address::zero(), next);
        proof {
            assert(self@.supplies =~= old(self)@.supplies);
            assert(self@.balances =~= old(self)@.balances);
            assert(self@.nonces =~= old(self)@.nonces.insert((p.token, p.owner), next@));
        }
        Ok(())
    }

    /// Wraps native coin, as [`wrapped`] says. Where it fails, part of the
    /// work may have been done: it is for use on a copy.
    pub(crate) fn wrap_step(
        &mut self,
        wrapper: Address,
        payer: Address,
        to: Address,
        amount: Amount,
    ) -> (r: Result<(), Error>)
        ensures
            advances(*final(self), r, wrapped(old(self)@, wrapper, payer, to, amount@)),
    {
        match self.transfer(Address::zero(), payer, wrapper, amount) {
            Ok(_) => {},
            Err(e) => { return Err(e); },
        }
        self.mint(wrapper, to, amount)
    }

    /// Unwraps wrapped coin, as [`unwrapped`] says. Where it fails, part of
    /// the work may have been done: it is for use on a copy.
    pub(crate) fn unwrap_step(
        &mut self,
        wrapper: Address,
        holder: Address,
        to: Address,
        amount: Amount,
    ) -> (r: Result<(), Error>)
        ensures
            advances(*final(self), r, unwrapped(old(self)@, wrapper, holder, to, amount@)),
    {
        match self.burn(wrapper, holder, amount) {
            Ok(_) => {},
            Err(e) => { return Err(e); },
        }
        self.transfer(Address::zero(), wrapper, to, amount)
    }

    /// Wraps `amount` of an account's native coin into the wrapping token.
    pub fn deposit(&mut self, wrapper: Address, who: Address, amount: Amount) -> (r: Result<
        (),
        Error,
    >)
        ensures
            follows(*old(self), *final(self), r, wrapped(old(self)@, wrapper, who, who, amount@)),
    {
        let mut work = self.duplicate();
        match work.wrap_step(wrapper, who, who, amount) {
            Ok(_) => {
                *self = work;
                Ok(())
            },
            Err(e) => Err(e),
        }
    }

    /// Unwraps `amount` of an account's wrapping token into native coin.
    pub fn withdraw(&mut self, wrapper: Address, who: Address, amount: Amount) -> (r: Result<
        (),
        Error,
    >)
        ensures
            follows(*old(self), *final(self), r, unwrapped(old(self)@, wrapper, who, who, amount@)),
    {
        let mut work = self.duplicate();
        match work.unwrap_step(wrapper, who, who, amount) {
            Ok(_) => {
                *self = work;
                Ok(())
            },
            Err(e) => Err(e),
        }
    }
}

} // verus!
