//! Setting up and administering the vault: merchant, pause, fees, upgrades, records.

use super::claims;
use super::history;
use super::types;
use super::types::{
    AdminTransferAcceptedEvent, AdminTransferInitiatedEvent, DataKey, Effect, Env, Event,
    FeeConfigUpdatedEvent, FeeField, PauseEvent, RefundRecord, RefundVault, UnpauseEvent,
    VaultState, BASIS_POINTS, INITIAL_STORAGE_VERSION,
};
use crate::error::Error;
use crate::primitives::{Address, BytesN};
use vstd::prelude::*;

verus! {

/// Why a fee rate is refused.
pub open spec fn set_fee_bps_error(v: VaultState, env: Env, bps: u32) -> Option<Error> {
    if bps > BASIS_POINTS {
        Some(Error::InvalidRatio)
    } else {
        v.merchant_error(env)
    }
}

/// Why a fee recipient is refused.
pub open spec fn set_fee_recipient_error(v: VaultState, env: Env, recipient: Address) -> Option<
    Error,
> {
    if recipient == env.ledger.contract {
        Some(Error::SelfTransfer)
    } else {
        v.merchant_error(env)
    }
}

/// Why a migration is refused.
pub open spec fn migrate_error(v: VaultState, env: Env, target_version: u32) -> Option<Error> {
    if v.merchant_error(env) is Some {
        v.merchant_error(env)
    } else if target_version <= v.version() {
        Some(Error::InvalidMigrationVersion)
    } else {
        None
    }
}

/// Why an admin transfer cannot be accepted.
pub open spec fn accept_error(v: VaultState, env: Env) -> Option<Error> {
    match v.pending_admin {
        None => Some(Error::NoPendingTransfer),
        Some(pending) => if env.signed_by(pending) {
            None
        } else {
            Some(Error::Unauthorized)
        },
    }
}

/// Why an admin transfer cannot be cancelled.
pub open spec fn cancel_error(v: VaultState, env: Env) -> Option<Error> {
    if v.merchant_error(env) is Some {
        v.merchant_error(env)
    } else if v.pending_admin is None {
        Some(Error::NoPendingTransfer)
    } else {
        None
    }
}

/// How the vault is bound to a merchant: once.
pub open spec fn initialize_outcome(
    pre: RefundVault,
    env: Env,
    merchant: Address,
    token: Address,
    refund_window_ledgers: u32,
    r: Result<(), Error>,
    post: RefundVault,
    post_env: Env,
) -> bool {
    types::concludes(
        pre,
        env,
        if pre@.initialized() {
            Some(Error::AlreadyInitialized)
        } else {
            None
        },
        (VaultState {
            admin: Some(merchant),
            token: Some(token),
            refund_window: Some(refund_window_ledgers),
            storage_version: Some(INITIAL_STORAGE_VERSION),
            ..pre@
        }),
        env.float as int,
        seq![types::renewal()],
        history::Booking::Nothing,
        r,
        post,
        post_env,
    )
}

/// How the vault is halted.
pub open spec fn pause_outcome(
    pre: RefundVault,
    env: Env,
    r: Result<(), Error>,
    post: RefundVault,
    post_env: Env,
) -> bool {
    types::concludes(
        pre,
        env,
        pre@.merchant_error(env),
        (VaultState { paused: true, ..pre@ }),
        env.float as int,
        seq![
            Effect::Publish(
                Event::Pause(PauseEvent { ledger: env.ledger.sequence }),
            ),
            types::renewal(),
        ],
        history::Booking::Nothing,
        r,
        post,
        post_env,
    )
}

/// How the vault is resumed.
pub open spec fn unpause_outcome(
    pre: RefundVault,
    env: Env,
    r: Result<(), Error>,
    post: RefundVault,
    post_env: Env,
) -> bool {
    types::concludes(
        pre,
        env,
        pre@.merchant_error(env),
        (VaultState { paused: false, ..pre@ }),
        env.float as int,
        seq![
            Effect::Publish(
                Event::Unpause(UnpauseEvent { ledger: env.ledger.sequence }),
            ),
            types::renewal(),
        ],
        history::Booking::Nothing,
        r,
        post,
        post_env,
    )
}

/// How a new merchant is proposed.
pub open spec fn transfer_admin_outcome(
    pre: RefundVault,
    env: Env,
    new_admin: Address,
    r: Result<(), Error>,
    post: RefundVault,
    post_env: Env,
) -> bool {
    types::concludes(
        pre,
        env,
        pre@.merchant_error(env),
        (VaultState { pending_admin: Some(new_admin), ..pre@ }),
        env.float as int,
        seq![
            Effect::Publish(
                Event::AdminTransferInitiated(
                    AdminTransferInitiatedEvent {
                        from: pre.admin->0,
                        to: new_admin,
                    },
                ),
            ),
            types::renewal(),
        ],
        history::Booking::Nothing,
        r,
        post,
        post_env,
    )
}

/// How the proposed merchant takes over.
pub open spec fn accept_admin_outcome(
    pre: RefundVault,
    env: Env,
    r: Result<(), Error>,
    post: RefundVault,
    post_env: Env,
) -> bool {
    types::concludes(
        pre,
        env,
        accept_error(pre@, env),
        (VaultState { admin: pre.pending_admin, pending_admin: None, ..pre@ }),
        env.float as int,
        seq![
            Effect::Publish(
                Event::AdminTransferAccepted(
                    AdminTransferAcceptedEvent {
                        from: pre.admin->0,
                        to: pre.pending_admin->0,
                    },
                ),
            ),
            types::renewal(),
        ],
        history::Booking::Nothing,
        r,
        post,
        post_env,
    )
}

/// How a proposed transfer is withdrawn.
pub open spec fn cancel_admin_transfer_outcome(
    pre: RefundVault,
    env: Env,
    r: Result<(), Error>,
    post: RefundVault,
    post_env: Env,
) -> bool {
    types::concludes(
        pre,
        env,
        cancel_error(pre@, env),
        (VaultState { pending_admin: None, ..pre@ }),
        env.float as int,
        seq![types::renewal()],
        history::Booking::Nothing,
        r,
        post,
        post_env,
    )
}

/// How a migration is marked.
pub open spec fn migrate_state_outcome(
    pre: RefundVault,
    env: Env,
    target_version: u32,
    r: Result<(), Error>,
    post: RefundVault,
    post_env: Env,
) -> bool {
    types::concludes(
        pre,
        env,
        migrate_error(pre@, env, target_version),
        (VaultState { storage_version: Some(target_version), ..pre@ }),
        env.float as int,
        seq![types::renewal()],
        history::Booking::Nothing,
        r,
        post,
        post_env,
    )
}

/// How the code is replaced: the state stays.
pub open spec fn upgrade_wasm_outcome(
    pre: RefundVault,
    env: Env,
    wasm_hash: BytesN<32>,
    r: Result<(), Error>,
    post: RefundVault,
    post_env: Env,
) -> bool {
    types::concludes(
        pre,
        env,
        pre@.merchant_error(env),
        pre@,
        env.float as int,
        seq![Effect::UpgradeWasm { wasm_hash }],
        history::Booking::Nothing,
        r,
        post,
        post_env,
    )
}

/// How the fee rate is set.
pub open spec fn set_fee_bps_outcome(
    pre: RefundVault,
    env: Env,
    bps: u32,
    r: Result<(), Error>,
    post: RefundVault,
    post_env: Env,
) -> bool {
    types::concludes(
        pre,
        env,
        set_fee_bps_error(pre@, env, bps),
        (VaultState { fee_bps: bps, ..pre@ }),
        env.float as int,
        seq![
            Effect::Publish(
                Event::FeeConfigUpdated(
                    FeeConfigUpdatedEvent {
                        field: FeeField::FeeBps,
                        fee_bps: bps,
                        fee_recipient: pre@.fee_collector(),
                    },
                ),
            ),
            types::renewal(),
        ],
        history::Booking::Nothing,
        r,
        post,
        post_env,
    )
}

/// How the fee recipient is set.
pub open spec fn set_fee_recipient_outcome(
    pre: RefundVault,
    env: Env,
    recipient: Address,
    r: Result<(), Error>,
    post: RefundVault,
    post_env: Env,
) -> bool {
    types::concludes(
        pre,
        env,
        set_fee_recipient_error(pre@, env, recipient),
        (VaultState { fee_recipient: Some(recipient), ..pre@ }),
        env.float as int,
        seq![
            Effect::Publish(
                Event::FeeConfigUpdated(
                    FeeConfigUpdatedEvent {
                        field: FeeField::FeeRecipient,
                        fee_bps: pre.fee_bps,
                        fee_recipient: recipient,
                    },
                ),
            ),
            types::renewal(),
        ],
        history::Booking::Nothing,
        r,
        post,
        post_env,
    )
}

/// How a refund record is kept alive, by anyone.
pub open spec fn extend_refund_ttl_outcome(
    pre: RefundVault,
    env: Env,
    payment_ref: BytesN<32>,
    r: Result<(), Error>,
    post: RefundVault,
    post_env: Env,
) -> bool {
    types::concludes(
        pre,
        env,
        if pre@.refunds.contains_key(payment_ref) {
            None
        } else {
            Some(Error::RefundNotFound)
        },
        pre@,
        env.float as int,
        seq![
            claims::record_renewal(
                env.ledger,
                pre@.window(),
                payment_ref,
                pre@.refunds[payment_ref].paid_at_ledger,
            ),
        ],
        history::Booking::Nothing,
        r,
        post,
        post_env,
    )
}

impl RefundVault {
    /// Binds the vault to a merchant, a settlement token and a refund window.
    pub fn initialize(
        &mut self,
        env: &mut Env,
        merchant: Address,
        token: Address,
        refund_window_ledgers: u32,
    ) -> (r: Result<(), Error>)
        requires
            old(self).wf(),
        ensures
            final(self).wf(),
            initialize_outcome(
                *old(self),
                *old(env),
                merchant,
                token,
                refund_window_ledgers,
                r,
                *final(self),
                *final(env),
            ),
    {
        assert(env.effects@ =~= old(env).effects@ + Seq::<Effect>::empty());
        if self.admin.is_some() {
            return Err(Error::AlreadyInitialized);
        }
        self.admin = Some(merchant);
        self.token = Some(token);
        self.refund_window = Some(refund_window_ledgers);
        self.storage_version = Some(INITIAL_STORAGE_VERSION);
        env.renew_instance();
        Ok(())
    }

    /// Halts deposits, refunds, withdrawals and yield operations.
    pub fn pause(&mut self, env: &mut Env) -> (r: Result<(), Error>)
        requires
            old(self).wf(),
        ensures
            final(self).wf(),
            pause_outcome(*old(self), *old(env), r, *final(self), *final(env)),
    {
        assert(env.effects@ =~= old(env).effects@ + Seq::<Effect>::empty());
        if let Err(e) = self.require_merchant(env) {
            return Err(e);
        }
        self.paused = true;
        let ledger: u32 = env.ledger.sequence;
        env.publish(Event::Pause(PauseEvent { ledger }));
        env.renew_instance();
        assert(env.effects@ =~= old(env).effects@ + seq![
            Effect::Publish(Event::Pause(PauseEvent { ledger })),
            types::renewal(),
        ]);
        Ok(())
    }

    /// Resumes a paused vault.
    pub fn unpause(&mut self, env: &mut Env) -> (r: Result<(), Error>)
        requires
            old(self).wf(),
        ensures
            final(self).wf(),
            unpause_outcome(*old(self), *old(env), r, *final(self), *final(env)),
    {
        assert(env.effects@ =~= old(env).effects@ + Seq::<Effect>::empty());
        if let Err(e) = self.require_merchant(env) {
            return Err(e);
        }
        self.paused = false;
        let ledger: u32 = env.ledger.sequence;
        env.publish(Event::Unpause(UnpauseEvent { ledger }));
        env.renew_instance();
        assert(env.effects@ =~= old(env).effects@ + seq![
            Effect::Publish(Event::Unpause(UnpauseEvent { ledger })),
            types::renewal(),
        ]);
        Ok(())
    }

    /// Whether the vault is paused.
    pub fn is_paused(&self) -> (r: Result<bool, Error>)
        ensures
            r == (if self@.initialized() {
                Ok::<bool, Error>(self.paused)
            } else {
                Err::<bool, Error>(Error::NotInitialized)
            }),
    {
        if self.admin.is_none() {
            return Err(Error::NotInitialized);
        }
        Ok(self.paused)
    }

    /// The merchant.
    pub fn get_admin(&self) -> (r: Result<Address, Error>)
        ensures
            match self.admin {
                Some(merchant) => r == Ok::<Address, Error>(merchant),
                None => r == Err::<Address, Error>(Error::NotInitialized),
            },
    {
        match self.admin {
            Some(merchant) => Ok(merchant),
            None => Err(Error::NotInitialized),
        }
    }

    /// Proposes a new merchant, who has to accept.
    pub fn transfer_admin(&mut self, env: &mut Env, new_admin: Address) -> (r: Result<(), Error>)
        requires
            old(self).wf(),
        ensures
            final(self).wf(),
            transfer_admin_outcome(*old(self), *old(env), new_admin, r, *final(self), *final(env)),
    {
        assert(env.effects@ =~= old(env).effects@ + Seq::<Effect>::empty());
        let from = match self.require_merchant(env) {
            Err(e) => return Err(e),
            Ok(merchant) => merchant,
        };
        self.pending_admin = Some(new_admin);
        env.publish(
            Event::AdminTransferInitiated(AdminTransferInitiatedEvent { from, to: new_admin }),
        );
        env.renew_instance();
        assert(env.effects@ =~= old(env).effects@ + seq![
            Effect::Publish(
                Event::AdminTransferInitiated(AdminTransferInitiatedEvent { from, to: new_admin }),
            ),
            types::renewal(),
        ]);
        Ok(())
    }

    /// The proposed merchant takes over.
    pub fn accept_admin(&mut self, env: &mut Env) -> (r: Result<(), Error>)
        requires
            old(self).wf(),
        ensures
            final(self).wf(),
            accept_admin_outcome(*old(self), *old(env), r, *final(self), *final(env)),
    {
        assert(env.effects@ =~= old(env).effects@ + Seq::<Effect>::empty());
        let to = match self.pending_admin {
            None => return Err(Error::NoPendingTransfer),
            Some(pending) => pending,
        };
        if !env.is_signed_by(to) {
            return Err(Error::Unauthorized);
        }
        let from = self.admin.unwrap();
        self.admin = Some(to);
        self.pending_admin = None;
        env.publish(Event::AdminTransferAccepted(AdminTransferAcceptedEvent { from, to }));
        env.renew_instance();
        assert(env.effects@ =~= old(env).effects@ + seq![
            Effect::Publish(Event::AdminTransferAccepted(AdminTransferAcceptedEvent { from, to })),
            types::renewal(),
        ]);
        Ok(())
    }

    /// Withdraws a proposed admin transfer.
    pub fn cancel_admin_transfer(&mut self, env: &mut Env) -> (r: Result<(), Error>)
        requires
            old(self).wf(),
        ensures
            final(self).wf(),
            cancel_admin_transfer_outcome(*old(self), *old(env), r, *final(self), *final(env)),
    {
        assert(env.effects@ =~= old(env).effects@ + Seq::<Effect>::empty());
        if let Err(e) = self.require_merchant(env) {
            return Err(e);
        }
        if self.pending_admin.is_none() {
            return Err(Error::NoPendingTransfer);
        }
        self.pending_admin = None;
        env.renew_instance();
        Ok(())
    }

    /// The layout version.
    pub fn get_storage_version(&self) -> (r: Result<u32, Error>)
        ensures
            r == (if self@.initialized() {
                Ok::<u32, Error>(self@.version())
            } else {
                Err::<u32, Error>(Error::NotInitialized)
            }),
    {
        if self.admin.is_none() {
            return Err(Error::NotInitialized);
        }
        match self.storage_version {
            Some(version) => Ok(version),
            None => Ok(INITIAL_STORAGE_VERSION),
        }
    }

    /// Marks a completed migration to a later layout version.
    pub fn migrate_state(&mut self, env: &mut Env, target_version: u32) -> (r: Result<(), Error>)
        requires
            old(self).wf(),
        ensures
            final(self).wf(),
            migrate_state_outcome(
                *old(self),
                *old(env),
                target_version,
                r,
                *final(self),
                *final(env),
            ),
    {
        assert(env.effects@ =~= old(env).effects@ + Seq::<Effect>::empty());
        if let Err(e) = self.require_merchant(env) {
            return Err(e);
        }
        let current: u32 = match self.storage_version {
            Some(version) => version,
            None => INITIAL_STORAGE_VERSION,
        };
        if target_version <= current {
            return Err(Error::InvalidMigrationVersion);
        }
        self.storage_version = Some(target_version);
        env.renew_instance();
        Ok(())
    }

    /// Hands the contract over to code that was already uploaded.
    pub fn upgrade_wasm(&mut self, env: &mut Env, wasm_hash: BytesN<32>) -> (r: Result<(), Error>)
        requires
            old(self).wf(),
        ensures
            final(self).wf(),
            upgrade_wasm_outcome(*old(self), *old(env), wasm_hash, r, *final(self), *final(env)),
    {
        assert(env.effects@ =~= old(env).effects@ + Seq::<Effect>::empty());
        if let Err(e) = self.require_merchant(env) {
            return Err(e);
        }
        env.ask(Effect::UpgradeWasm { wasm_hash });
        Ok(())
    }

    /// Sets the refund fee rate in basis points.
    pub fn set_fee_bps(&mut self, env: &mut Env, bps: u32) -> (r: Result<(), Error>)
        requires
            old(self).wf(),
        ensures
            final(self).wf(),
            set_fee_bps_outcome(*old(self), *old(env), bps, r, *final(self), *final(env)),
    {
        assert(env.effects@ =~= old(env).effects@ + Seq::<Effect>::empty());
        if bps > BASIS_POINTS {
            return Err(Error::InvalidRatio);
        }
        if let Err(e) = self.require_merchant(env) {
            return Err(e);
        }
        self.fee_bps = bps;
        let event = FeeConfigUpdatedEvent {
            field: FeeField::FeeBps,
            fee_bps: bps,
            fee_recipient: self.active_fee_recipient(),
        };
        env.publish(Event::FeeConfigUpdated(event));
        env.renew_instance();
        assert(env.effects@ =~= old(env).effects@ + seq![
            Effect::Publish(Event::FeeConfigUpdated(event)),
            types::renewal(),
        ]);
        Ok(())
    }

    /// Sets the address that collects refund fees.
    pub fn set_fee_recipient(&mut self, env: &mut Env, recipient: Address) -> (r: Result<
        (),
        Error,
    >)
        requires
            old(self).wf(),
        ensures
            final(self).wf(),
            set_fee_recipient_outcome(
                *old(self),
                *old(env),
                recipient,
                r,
                *final(self),
                *final(env),
            ),
    {
        assert(env.effects@ =~= old(env).effects@ + Seq::<Effect>::empty());
        if recipient == env.ledger.contract {
            return Err(Error::SelfTransfer);
        }
        if let Err(e) = self.require_merchant(env) {
            return Err(e);
        }
        self.fee_recipient = Some(recipient);
        let event = FeeConfigUpdatedEvent {
            field: FeeField::FeeRecipient,
            fee_bps: self.fee_bps,
            fee_recipient: recipient,
        };
        env.publish(Event::FeeConfigUpdated(event));
        env.renew_instance();
        assert(env.effects@ =~= old(env).effects@ + seq![
            Effect::Publish(Event::FeeConfigUpdated(event)),
            types::renewal(),
        ]);
        Ok(())
    }

    /// The refund fee rate in basis points.
    pub fn get_fee_bps(&self) -> (r: u32)
        ensures
            r == self.fee_bps,
    {
        self.fee_bps
    }

    /// The configured fee recipient; without one the merchant collects fees.
    pub fn get_fee_recipient(&self) -> (r: Option<Address>)
        ensures
            r == self.fee_recipient,
    {
        self.fee_recipient
    }

    /// The refund record of a payment.
    pub fn get_refund(&self, payment_ref: BytesN<32>) -> (r: Option<RefundRecord>)
        ensures
            r == (if self@.refunds.contains_key(payment_ref) {
                Some(self@.refunds[payment_ref])
            } else {
                None
            }),
    {
        self.refunds.get(payment_ref)
    }

    /// Keeps a refund record alive for as long as its payment can be refunded.
    pub fn extend_refund_ttl(&mut self, env: &mut Env, payment_ref: BytesN<32>) -> (r: Result<
        (),
        Error,
    >)
        requires
            old(self).wf(),
        ensures
            final(self).wf(),
            extend_refund_ttl_outcome(
                *old(self),
                *old(env),
                payment_ref,
                r,
                *final(self),
                *final(env),
            ),
    {
        assert(env.effects@ =~= old(env).effects@ + Seq::<Effect>::empty());
        let record = match self.refunds.get(payment_ref) {
            None => return Err(Error::RefundNotFound),
            Some(record) => record,
        };
        let ttl: u32 = claims::refund_record_ttl_extend_to(
            &env.ledger,
            self.refund_window.unwrap(),
            record.paid_at_ledger,
        );
        env.ask(
            Effect::ExtendTtl {
                key: DataKey::RefundV2(payment_ref),
                threshold: ttl,
                extend_to: ttl,
            },
        );
        Ok(())
    }
}

} // verus!
