//! Yield strategies: the interface, and one that lives in memory.

use super::types::{Effect, RefundVault};
use crate::error::Error;
use crate::primitives::Address;
use vstd::prelude::*;

verus! {

/// `a / b` rounded towards zero, for a positive `b`.
pub open spec fn trunc_div(a: int, b: int) -> int {
    if a >= 0 {
        a / b
    } else {
        -((-a) / b)
    }
}

/// Whether `x` fits the number type of token amounts.
pub open spec fn fits_amount(x: int) -> bool {
    i128::MIN <= x <= i128::MAX
}

/// Whether a harvest brought any yield. The vault refuses one that did not.
pub open spec fn brings_yield(reply: Result<i128, Error>) -> bool {
    reply matches Ok(amount) && amount > 0
}

/// The yield strategies that the vault can reach, by contract address.
///
/// A strategy returns tokens by transferring them to the vault itself before it
/// answers. `Model` stands for everything that the strategies store once the vault's call
/// is over. If the vault refuses the call, because the strategy failed or brought no yield,
/// the host undoes what the strategy wrote, and the model is as before. Each entry point
/// names what it answers and what an accepted call leaves stored as functions of the model
/// and the arguments. Where an implementation does not define a name, it stands for one fixed,
/// unspecified value, whatever the model and the arguments.
///
/// Strategies are other contracts, which may call back. So an entry point that changes
/// anything takes the vault that calls it, with its reentrancy flag set.
pub trait YieldStrategy: Sized {
    type Model;

    /// What the strategies store.
    open spec fn model(&self) -> Self::Model {
        arbitrary()
    }

    /// Whether the strategy can answer `deposit` at all.
    open spec fn can_deposit(m: Self::Model, strategy: Address, amount: i128) -> bool {
        arbitrary()
    }

    /// What the strategy answers to `deposit`.
    open spec fn deposit_reply(m: Self::Model, strategy: Address, amount: i128) -> Result<
        (),
        Error,
    > {
        arbitrary()
    }

    /// What is stored after a `deposit` that succeeded.
    open spec fn after_deposit(m: Self::Model, strategy: Address, amount: i128) -> Self::Model {
        arbitrary()
    }

    /// Whether the strategy can answer `withdraw` at all.
    open spec fn can_withdraw(m: Self::Model, strategy: Address, principal: i128) -> bool {
        arbitrary()
    }

    /// What the strategy answers to `withdraw`.
    open spec fn withdraw_reply(m: Self::Model, strategy: Address, principal: i128) -> Result<
        (i128, i128),
        Error,
    > {
        arbitrary()
    }

    /// What is stored after a `withdraw` that succeeded.
    open spec fn after_withdraw(m: Self::Model, strategy: Address, principal: i128) -> Self::Model {
        arbitrary()
    }

    /// Whether the strategy can answer `harvest` at all.
    open spec fn can_harvest(m: Self::Model, strategy: Address) -> bool {
        arbitrary()
    }

    /// What the strategy answers to `harvest`.
    open spec fn harvest_reply(m: Self::Model, strategy: Address) -> Result<i128, Error> {
        arbitrary()
    }

    /// What is stored after a `harvest` that brought yield.
    open spec fn after_harvest(m: Self::Model, strategy: Address) -> Self::Model {
        arbitrary()
    }

    /// What the strategy answers to `total_balance`.
    open spec fn total_balance_reply(m: Self::Model, strategy: Address) -> i128 {
        arbitrary()
    }

    /// What the strategy answers to `accrued_yield`.
    open spec fn accrued_yield_reply(m: Self::Model, strategy: Address) -> i128 {
        arbitrary()
    }

    /// The strategy was sent `amount` tokens.
    fn deposit(&mut self, vault: &RefundVault, strategy: Address, amount: i128) -> (r: Result<
        (),
        Error,
    >)
        requires
            vault.reentrancy_lock,
            Self::can_deposit(old(self).model(), strategy, amount),
        ensures
            r == Self::deposit_reply(old(self).model(), strategy, amount),
            final(self).model() == match r {
                Ok(()) => Self::after_deposit(old(self).model(), strategy, amount),
                Err(_) => old(self).model(),
            },
    ;

    /// Returns principal and its share of the yield, as `(principal, yield)`.
    fn withdraw(&mut self, vault: &RefundVault, strategy: Address, principal: i128) -> (r: Result<
        (i128, i128),
        Error,
    >)
        requires
            vault.reentrancy_lock,
            Self::can_withdraw(old(self).model(), strategy, principal),
        ensures
            r == Self::withdraw_reply(old(self).model(), strategy, principal),
            final(self).model() == match r {
                Ok(_) => Self::after_withdraw(old(self).model(), strategy, principal),
                Err(_) => old(self).model(),
            },
    ;

    /// Returns all accrued yield.
    fn harvest(&mut self, vault: &RefundVault, strategy: Address) -> (r: Result<i128, Error>)
        requires
            vault.reentrancy_lock,
            Self::can_harvest(old(self).model(), strategy),
        ensures
            r == Self::harvest_reply(old(self).model(), strategy),
            final(self).model() == if brings_yield(r) {
                Self::after_harvest(old(self).model(), strategy)
            } else {
                old(self).model()
            },
    ;

    /// All tokens that the strategy holds.
    fn total_balance(&self, strategy: Address) -> (r: i128)
        ensures
            r == Self::total_balance_reply(self.model(), strategy),
    ;

    /// The yield that has accrued.
    fn accrued_yield(&self, strategy: Address) -> (r: i128)
        ensures
            r == Self::accrued_yield_reply(self.model(), strategy),
    ;
}

/// Errors of the in-memory strategy's own administration.
#[derive(Clone, Copy, Debug, PartialEq, Eq, Structural)]
pub enum StrategyError {
    Unauthorized,
    InsufficientBalance,
    NothingToWithdraw,
    NothingToHarvest,
}

/// Names of the stored entries of the in-memory strategy.
#[derive(Clone, Copy, Debug, PartialEq, Eq, Structural)]
pub enum StrategyDataKey {
    Token,
    Admin,
    TotalDeposited,
    YieldAccrued,
}

/// A strategy kept in memory, which pays out a simulated yield in proportion to the
/// principal.
#[derive(Debug)]
pub struct MockYieldStrategy {
    /// The strategy's own address.
    pub contract: Address,
    pub token: Option<Address>,
    /// The vault that the strategy serves.
    pub admin: Option<Address>,
    pub total_deposited: i128,
    pub yield_accrued: i128,
    /// The strategy's balance in the token, moved by the transfers in `effects`.
    pub float: i128,
    /// Transfers that the strategy has asked for, in order.
    pub effects: Vec<Effect>,
}

/// What the in-memory strategy stores, as a mathematical value.
#[verifier::ext_equal]
pub struct StrategyState {
    pub contract: Address,
    pub token: Option<Address>,
    pub admin: Option<Address>,
    pub total_deposited: i128,
    pub yield_accrued: i128,
    pub float: i128,
    pub effects: Seq<Effect>,
}

impl View for MockYieldStrategy {
    type V = StrategyState;

    open spec fn view(&self) -> StrategyState {
        StrategyState {
            contract: self.contract,
            token: self.token,
            admin: self.admin,
            total_deposited: self.total_deposited,
            yield_accrued: self.yield_accrued,
            float: self.float,
            effects: self.effects@,
        }
    }
}

impl StrategyState {
    /// The share of the yield that goes with `principal`.
    pub open spec fn yield_portion(self, principal: int) -> int {
        trunc_div(self.yield_accrued * principal, self.total_deposited as int)
    }

    /// The transfer of `amount` to the vault.
    pub open spec fn payment(self, amount: int) -> Effect {
        Effect::Transfer {
            token: self.token->0,
            from: self.contract,
            to: self.admin->0,
            amount: amount as i128,
        }
    }

    /// Whether the strategy can pay `amount` to the vault.
    pub open spec fn can_pay(self, amount: int) -> bool {
        &&& self.token is Some
        &&& self.admin is Some
        &&& fits_amount(amount)
        &&& amount <= self.float
        &&& fits_amount(self.float - amount)
    }

    /// Whether `principal` can be asked back.
    pub open spec fn holds_principal(self, principal: int) -> bool {
        0 < principal <= self.total_deposited
    }

    /// A withdrawal is refused, or can be computed and paid.
    pub open spec fn withdrawable(self, principal: i128) -> bool {
        self.holds_principal(principal as int) ==> {
            let portion = self.yield_portion(principal as int);
            &&& fits_amount(self.yield_accrued * principal)
            &&& fits_amount(self.yield_accrued - portion)
            &&& self.can_pay(principal + portion)
        }
    }

    /// A harvest is refused, or can be paid.
    pub open spec fn harvestable(self) -> bool {
        self.yield_accrued > 0 ==> self.can_pay(self.yield_accrued as int)
    }

    /// Whether the strategy is set up and holds the tokens for all principal and yield, and
    /// these are small enough to compute shares of the yield.
    pub open spec fn solvent(self) -> bool {
        &&& self.token is Some
        &&& self.admin is Some
        &&& 0 <= self.total_deposited
        &&& 0 <= self.yield_accrued
        &&& self.total_deposited + self.yield_accrued <= self.float
        &&& fits_amount(self.yield_accrued * self.total_deposited)
    }

    /// The strategy set up for a vault, with nothing deposited.
    pub open spec fn set_up(self, token: Address, admin: Address) -> StrategyState {
        StrategyState {
            token: Some(token),
            admin: Some(admin),
            total_deposited: 0,
            yield_accrued: 0,
            ..self
        }
    }

    /// The strategy with more yield.
    pub open spec fn accrued(self, amount: i128) -> StrategyState {
        StrategyState { yield_accrued: (self.yield_accrued + amount) as i128, ..self }
    }

    /// What a deposit of `amount` leaves; one that is refused leaves everything as it is.
    pub open spec fn deposited(self, amount: i128) -> StrategyState {
        if amount > 0 {
            StrategyState {
                total_deposited: (self.total_deposited + amount) as i128,
                ..self
            }
        } else {
            self
        }
    }

    /// What the payment of `amount` to the vault leaves.
    pub open spec fn paid(self, amount: int) -> StrategyState {
        StrategyState {
            float: (self.float - amount) as i128,
            effects: self.effects.push(self.payment(amount)),
            ..self
        }
    }

    /// What a withdrawal of `principal` leaves: the principal and its share of the yield
    /// are paid and no longer held. One that is refused leaves everything as it is.
    pub open spec fn withdrawn(self, principal: i128) -> StrategyState {
        if self.holds_principal(principal as int) {
            let portion = self.yield_portion(principal as int);
            StrategyState {
                total_deposited: (self.total_deposited - principal) as i128,
                yield_accrued: (self.yield_accrued - portion) as i128,
                ..self.paid(principal + portion)
            }
        } else {
            self
        }
    }

    /// What a harvest leaves: the yield is paid and nothing is accrued. One that is
    /// refused leaves everything as it is.
    pub open spec fn harvested(self) -> StrategyState {
        if self.yield_accrued > 0 {
            StrategyState { yield_accrued: 0, ..self.paid(self.yield_accrued as int) }
        } else {
            self
        }
    }
}

impl MockYieldStrategy {
    /// A strategy at `contract` that has not been set up.
    pub fn new(contract: Address) -> (r: Self)
        ensures
            r@ == (StrategyState {
                contract,
                token: None,
                admin: None,
                total_deposited: 0,
                yield_accrued: 0,
                float: 0,
                effects: Seq::empty(),
            }),
    {
        MockYieldStrategy {
            contract,
            token: None,
            admin: None,
            total_deposited: 0,
            yield_accrued: 0,
            float: 0,
            effects: Vec::new(),
        }
    }

    /// Sets the token and the vault, and starts with nothing deposited.
    pub fn initialize(&mut self, token: Address, admin: Address)
        ensures
            final(self)@ == old(self)@.set_up(token, admin),
    {
        self.token = Some(token);
        self.admin = Some(admin);
        self.total_deposited = 0;
        self.yield_accrued = 0;
    }

    /// Lets yield accrue; `signer` has to be the vault that the strategy serves.
    pub fn simulate_yield(&mut self, signer: Address, amount: i128) -> (r: Result<
        (),
        StrategyError,
    >)
        requires
            old(self).admin is Some,
            signer == old(self).admin->0 ==> fits_amount(old(self).yield_accrued + amount),
        ensures
            if signer == old(self).admin->0 {
                &&& r is Ok
                &&& final(self)@ == old(self)@.accrued(amount)
            } else {
                &&& r == Err::<(), StrategyError>(StrategyError::Unauthorized)
                &&& final(self)@ == old(self)@
            },
    {
        if signer != self.admin.unwrap() {
            return Err(StrategyError::Unauthorized);
        }
        self.yield_accrued = self.yield_accrued + amount;
        Ok(())
    }

    /// Records that the vault sent `amount` tokens.
    pub fn deposit(&mut self, amount: i128) -> (r: Result<(), Error>)
        requires
            amount > 0 ==> fits_amount(old(self).total_deposited + amount),
        ensures
            if amount > 0 {
                r == Ok::<(), Error>(())
            } else {
                r == Err::<(), Error>(Error::InvalidAmount)
            },
            final(self)@ == old(self)@.deposited(amount),
    {
        if amount <= 0 {
            return Err(Error::InvalidAmount);
        }
        self.total_deposited = self.total_deposited + amount;
        Ok(())
    }

    /// Pays `amount` to the vault.
    fn pay(&mut self, amount: i128)
        requires
            old(self)@.can_pay(amount as int),
        ensures
            final(self)@ == old(self)@.paid(amount as int),
    {
        self.effects.push(
            Effect::Transfer {
                token: self.token.unwrap(),
                from: self.contract,
                to: self.admin.unwrap(),
                amount,
            },
        );
        self.float = self.float - amount;
    }

    /// Pays back principal with its share of the yield.
    pub fn withdraw(&mut self, principal: i128) -> (r: Result<(i128, i128), Error>)
        requires
            old(self)@.withdrawable(principal),
        ensures
            if old(self)@.holds_principal(principal as int) {
                r == Ok::<(i128, i128), Error>(
                    (principal, old(self)@.yield_portion(principal as int) as i128),
                )
            } else {
                r == Err::<(i128, i128), Error>(Error::NothingToWithdraw)
            },
            final(self)@ == old(self)@.withdrawn(principal),
    {
        let total: i128 = self.total_deposited;
        if principal > total || principal <= 0 {
            return Err(Error::NothingToWithdraw);
        }
        let portion: i128 = self.yield_accrued * principal / total;
        self.pay(principal + portion);
        self.total_deposited = total - principal;
        self.yield_accrued = self.yield_accrued - portion;
        Ok((principal, portion))
    }

    /// Pays out all accrued yield.
    pub fn harvest(&mut self) -> (r: Result<i128, Error>)
        requires
            old(self)@.harvestable(),
        ensures
            if old(self).yield_accrued > 0 {
                r == Ok::<i128, Error>(old(self).yield_accrued)
            } else {
                r == Err::<i128, Error>(Error::NothingToHarvest)
            },
            final(self)@ == old(self)@.harvested(),
    {
        let accrued: i128 = self.yield_accrued;
        if accrued <= 0 {
            return Err(Error::NothingToHarvest);
        }
        self.pay(accrued);
        self.yield_accrued = 0;
        Ok(accrued)
    }

    /// All tokens that the strategy holds.
    pub fn total_balance(&self) -> (r: i128)
        ensures
            r == self.float,
    {
        self.float
    }

    /// The yield that has accrued.
    pub fn accrued_yield(&self) -> (r: i128)
        ensures
            r == self.yield_accrued,
    {
        self.yield_accrued
    }
}

/// Only the strategy's own address is answered.
impl YieldStrategy for MockYieldStrategy {
    type Model = StrategyState;

    open spec fn model(&self) -> StrategyState {
        self@
    }

    open spec fn can_deposit(m: StrategyState, strategy: Address, amount: i128) -> bool {
        strategy == m.contract && (amount > 0 ==> fits_amount(m.total_deposited + amount))
    }

    open spec fn deposit_reply(m: StrategyState, strategy: Address, amount: i128) -> Result<
        (),
        Error,
    > {
        if amount > 0 {
            Ok(())
        } else {
            Err(Error::InvalidAmount)
        }
    }

    open spec fn after_deposit(m: StrategyState, strategy: Address, amount: i128) -> StrategyState {
        m.deposited(amount)
    }

    open spec fn can_withdraw(m: StrategyState, strategy: Address, principal: i128) -> bool {
        strategy == m.contract && m.withdrawable(principal)
    }

    open spec fn withdraw_reply(m: StrategyState, strategy: Address, principal: i128) -> Result<
        (i128, i128),
        Error,
    > {
        if m.holds_principal(principal as int) {
            Ok((principal, m.yield_portion(principal as int) as i128))
        } else {
            Err(Error::NothingToWithdraw)
        }
    }

    open spec fn after_withdraw(m: StrategyState, strategy: Address, principal: i128) -> StrategyState {
        m.withdrawn(principal)
    }

    open spec fn can_harvest(m: StrategyState, strategy: Address) -> bool {
        strategy == m.contract && m.harvestable()
    }

    open spec fn harvest_reply(m: StrategyState, strategy: Address) -> Result<i128, Error> {
        if m.yield_accrued > 0 {
            Ok(m.yield_accrued)
        } else {
            Err(Error::NothingToHarvest)
        }
    }

    open spec fn after_harvest(m: StrategyState, strategy: Address) -> StrategyState {
        m.harvested()
    }

    open spec fn total_balance_reply(m: StrategyState, strategy: Address) -> i128 {
        m.float
    }

    open spec fn accrued_yield_reply(m: StrategyState, strategy: Address) -> i128 {
        m.yield_accrued
    }

    fn deposit(&mut self, vault: &RefundVault, strategy: Address, amount: i128) -> (r: Result<
        (),
        Error,
    >) {
        self.deposit(amount)
    }

    fn withdraw(&mut self, vault: &RefundVault, strategy: Address, principal: i128) -> (r: Result<
        (i128, i128),
        Error,
    >) {
        self.withdraw(principal)
    }

    fn harvest(&mut self, vault: &RefundVault, strategy: Address) -> (r: Result<i128, Error>) {
        self.harvest()
    }

    fn total_balance(&self, strategy: Address) -> (r: i128) {
        self.total_balance()
    }

    fn accrued_yield(&self, strategy: Address) -> (r: i128) {
        self.accrued_yield()
    }
}

} // verus!
