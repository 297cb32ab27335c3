//! Moving float in and out of the vault.

use super::history;
use super::types;
use super::types::{DepositEvent, Effect, Env, Event, RefundVault, VaultState, WithdrawEvent};
use crate::error::Error;
use crate::primitives::Address;
use vstd::prelude::*;

verus! {

/// Why a deposit is refused.
pub open spec fn deposit_error(v: VaultState, env: Env, from: Address, amount: i128) -> Option<
    Error,
> {
    if v.reentrancy_lock {
        Some(Error::ReentrancyBlocked)
    } else if v.paused {
        Some(Error::Paused)
    } else if amount <= 0 {
        Some(Error::InvalidAmount)
    } else if v.merchant_error(env) is Some {
        v.merchant_error(env)
    } else if from != v.admin->0 {
        Some(Error::Unauthorized)
    } else {
        None
    }
}

/// What a deposit asks of the host.
pub open spec fn deposit_effects(v: VaultState, env: Env, from: Address, amount: i128) -> Seq<
    Effect,
> {
    seq![
        Effect::Transfer { token: v.token->0, from, to: env.ledger.contract, amount },
        Effect::Publish(Event::Deposit(DepositEvent { from, amount })),
        types::renewal(),
    ]
}

/// The float after a deposit. Tokens that the vault sends to itself stay.
pub open spec fn deposit_float(env: Env, from: Address, amount: i128) -> int {
    if from == env.ledger.contract {
        env.float as int
    } else {
        env.float + amount
    }
}

/// What a deposit books. One that the vault makes to itself brings nothing in.
pub open spec fn deposit_booking(env: Env, from: Address, amount: i128) -> history::Booking {
    history::Booking::Deposit(deposit_float(env, from, amount) - env.float)
}

/// Why a withdrawal is refused.
pub open spec fn withdraw_error(v: VaultState, env: Env, amount: i128, to: Address) -> Option<
    Error,
> {
    if v.reentrancy_lock {
        Some(Error::ReentrancyBlocked)
    } else if v.paused {
        Some(Error::Paused)
    } else if amount <= 0 {
        Some(Error::InvalidAmount)
    } else if to == env.ledger.contract {
        Some(Error::SelfTransfer)
    } else if v.merchant_error(env) is Some {
        v.merchant_error(env)
    } else if env.float < amount {
        Some(Error::InsufficientFloat)
    } else {
        None
    }
}

/// What a withdrawal asks of the host.
pub open spec fn withdraw_effects(v: VaultState, env: Env, amount: i128, to: Address) -> Seq<
    Effect,
> {
    seq![
        Effect::Transfer { token: v.token->0, from: env.ledger.contract, to, amount },
        Effect::Publish(Event::Withdraw(WithdrawEvent { to, amount })),
        types::renewal(),
    ]
}

/// Why the token cannot be replaced.
pub open spec fn set_token_error(v: VaultState, env: Env) -> Option<Error> {
    if v.merchant_error(env) is Some {
        v.merchant_error(env)
    } else if env.float > 0 {
        Some(Error::FloatNotEmpty)
    } else {
        None
    }
}

/// How float comes in.
pub open spec fn deposit_outcome(
    pre: RefundVault,
    env: Env,
    from: Address,
    amount: i128,
    r: Result<(), Error>,
    post: RefundVault,
    post_env: Env,
) -> bool {
    types::concludes(
        pre,
        env,
        deposit_error(pre@, env, from, amount),
        pre@,
        deposit_float(env, from, amount),
        types::under_lock(deposit_effects(pre@, env, from, amount)),
        deposit_booking(env, from, amount),
        r,
        post,
        post_env,
    )
}

/// How float goes out.
pub open spec fn withdraw_outcome(
    pre: RefundVault,
    env: Env,
    amount: i128,
    to: Address,
    r: Result<(), Error>,
    post: RefundVault,
    post_env: Env,
) -> bool {
    types::concludes(
        pre,
        env,
        withdraw_error(pre@, env, amount, to),
        pre@,
        env.float - amount,
        types::under_lock(withdraw_effects(pre@, env, amount, to)),
        history::Booking::Withdrawal(amount as int),
        r,
        post,
        post_env,
    )
}

/// How the settlement token is replaced.
pub open spec fn set_token_outcome(
    pre: RefundVault,
    env: Env,
    new_token: Address,
    r: Result<(), Error>,
    post: RefundVault,
    post_env: Env,
) -> bool {
    types::concludes(
        pre,
        env,
        set_token_error(pre@, env),
        (VaultState { token: Some(new_token), ..pre@ }),
        env.float as int,
        seq![types::renewal()],
        history::Booking::Nothing,
        r,
        post,
        post_env,
    )
}

impl RefundVault {
    /// The merchant tops up the float.
    ///
    /// The balance after the deposit has to fit the token's number type.
    pub fn deposit(&mut self, env: &mut Env, from: Address, amount: i128) -> (r: Result<(), Error>)
        requires
            old(self).wf(),
            deposit_error(old(self)@, *old(env), from, amount) is None ==> deposit_float(
                *old(env),
                from,
                amount,
            ) <= i128::MAX,
        ensures
            final(self).wf(),
            deposit_outcome(*old(self), *old(env), from, amount, r, *final(self), *final(env)),
    {
        assert(env.effects@ =~= old(env).effects@ + Seq::<Effect>::empty());
        if let Err(e) = self.acquire_reentrancy_lock(env) {
            return Err(e);
        }
        let result = self.deposit_locked(env, from, amount);
        proof {
            types::lemma_guarded_effects(old(env).effects@);
        }
        self.release_reentrancy_lock(env, result)
    }

    fn deposit_locked(&self, env: &mut Env, from: Address, amount: i128) -> (r: Result<(), Error>)
        requires
            self.reentrancy_lock,
            self.wf(),
            deposit_error(
                (VaultState { reentrancy_lock: false, ..self@ }),
                *old(env),
                from,
                amount,
            ) is None ==> deposit_float(*old(env), from, amount) <= i128::MAX,
        ensures
            types::concludes(
                *self,
                *old(env),
                deposit_error(
                    (VaultState { reentrancy_lock: false, ..self@ }),
                    *old(env),
                    from,
                    amount,
                ),
                self@,
                deposit_float(*old(env), from, amount),
                deposit_effects(self@, *old(env), from, amount),
                deposit_booking(*old(env), from, amount),
                r,
                *self,
                *final(env),
            ),
    {
        assert(env.effects@ =~= old(env).effects@ + Seq::<Effect>::empty());
        if self.paused {
            return Err(Error::Paused);
        }
        if amount <= 0 {
            return Err(Error::InvalidAmount);
        }
        let merchant = match self.require_merchant(env) {
            Err(e) => return Err(e),
            Ok(merchant) => merchant,
        };
        if from != merchant {
            return Err(Error::Unauthorized);
        }
        let contract = env.ledger.contract;
        env.ask(Effect::Transfer { token: self.token.unwrap(), from, to: contract, amount });
        if from != contract {
            env.float = env.float + amount;
        }
        env.publish(Event::Deposit(DepositEvent { from, amount }));
        env.renew_instance();
        assert(env.effects@ =~= old(env).effects@ + deposit_effects(self@, *old(env), from, amount));
        Ok(())
    }

    /// The merchant withdraws float.
    pub fn withdraw(&mut self, env: &mut Env, amount: i128, to: Address) -> (r: Result<(), Error>)
        requires
            old(self).wf(),
        ensures
            final(self).wf(),
            withdraw_outcome(*old(self), *old(env), amount, to, r, *final(self), *final(env)),
    {
        assert(env.effects@ =~= old(env).effects@ + Seq::<Effect>::empty());
        if let Err(e) = self.acquire_reentrancy_lock(env) {
            return Err(e);
        }
        let result = self.withdraw_locked(env, amount, to);
        proof {
            types::lemma_guarded_effects(old(env).effects@);
        }
        self.release_reentrancy_lock(env, result)
    }

    fn withdraw_locked(&self, env: &mut Env, amount: i128, to: Address) -> (r: Result<(), Error>)
        requires
            self.reentrancy_lock,
            self.wf(),
        ensures
            types::concludes(
                *self,
                *old(env),
                withdraw_error(
                    (VaultState { reentrancy_lock: false, ..self@ }),
                    *old(env),
                    amount,
                    to,
                ),
                self@,
                old(env).float - amount,
                withdraw_effects(self@, *old(env), amount, to),
                history::Booking::Withdrawal(amount as int),
                r,
                *self,
                *final(env),
            ),
    {
        assert(env.effects@ =~= old(env).effects@ + Seq::<Effect>::empty());
        if self.paused {
            return Err(Error::Paused);
        }
        if amount <= 0 {
            return Err(Error::InvalidAmount);
        }
        let contract = env.ledger.contract;
        if to == contract {
            return Err(Error::SelfTransfer);
        }
        if let Err(e) = self.require_merchant(env) {
            return Err(e);
        }
        if env.float < amount {
            return Err(Error::InsufficientFloat);
        }
        env.ask(Effect::Transfer { token: self.token.unwrap(), from: contract, to, amount });
        env.float = env.float - amount;
        env.publish(Event::Withdraw(WithdrawEvent { to, amount }));
        env.renew_instance();
        assert(env.effects@ =~= old(env).effects@ + withdraw_effects(self@, *old(env), amount, to));
        Ok(())
    }

    /// Replaces the settlement token, while the vault holds no float.
    pub fn set_token(&mut self, env: &mut Env, new_token: Address) -> (r: Result<(), Error>)
        requires
            old(self).wf(),
        ensures
            final(self).wf(),
            set_token_outcome(*old(self), *old(env), new_token, r, *final(self), *final(env)),
    {
        assert(env.effects@ =~= old(env).effects@ + Seq::<Effect>::empty());
        if let Err(e) = self.require_merchant(env) {
            return Err(e);
        }
        if env.float > 0 {
            return Err(Error::FloatNotEmpty);
        }
        self.token = Some(new_token);
        env.renew_instance();
        Ok(())
    }

    /// The settlement token.
    pub fn get_token(&self) -> (r: Result<Address, Error>)
        ensures
            match self.token {
                Some(token) => r == Ok::<Address, Error>(token),
                None => r == Err::<Address, Error>(Error::NotInitialized),
            },
    {
        match self.token {
            Some(token) => Ok(token),
            None => Err(Error::NotInitialized),
        }
    }
}

} // verus!
