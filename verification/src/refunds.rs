//! Giving tips back.

use crate::env::{Env, Event};
use crate::model::{
    approve_refund_after, approve_refund_refusal, balance_after_refund, execute_refund_after,
    outcome, request_refund_after, request_refund_refusal, GRACE_PERIOD_SECS,
};
use crate::types::{Abort, Address, DataKey, TipJarError, TipRecord};
use crate::TipJarContract;
use vstd::prelude::*;

verus! {

impl TipJarContract {
    /// Takes a tip off the creator's balance, as far as it reaches, sends it
    /// back to its sender and marks it as refunded.
    fn execute_refund(env: &mut Env, record: TipRecord) -> (result: Result<(), Abort>)
        ensures
            result == if balance_after_refund(old(env)@.storage, record) > i128::MAX {
                Err::<(), Abort>(Abort::Overflow)
            } else {
                Ok::<(), Abort>(())
            },
            result is Ok ==> final(env)@ == execute_refund_after(old(env)@, record),
            result is Err ==> final(env)@ == old(env)@,
    {
        let key = DataKey::CreatorBalance(record.creator, record.token);
        let balance: i128 = env.storage.amount(key);
        let left: i128 = if balance >= record.amount {
            match balance.checked_sub(record.amount) {
                Some(left) => left,
                None => {
                    return Err(Abort::Overflow);
                },
            }
        } else {
            0
        };
        env.storage.amounts.set(key, left);
        let contract = env.contract;
        env.transfer(record.token, contract, record.sender, record.amount);
        let done = TipRecord { refunded: true, refund_requested: false, ..record };
        env.storage.tips.set(DataKey::TipRecord(record.id), done);
        Ok(())
    }

    /// The sender of a tip asks for it back.
    ///
    /// Within the grace period the tip goes back at once. After it, the request
    /// is noted, and the creator has to grant it with
    /// [`TipJarContract::approve_refund`]. Asking again while a request is
    /// pending changes nothing.
    pub fn request_refund(env: &mut Env, sender: Address, tip_id: u64) -> (result: Result<
        (),
        Abort,
    >)
        ensures
            result == outcome(
                request_refund_refusal(old(env)@.storage, old(env)@.timestamp, sender, tip_id),
                (),
            ),
            final(env)@ == request_refund_after(old(env)@, sender, tip_id),
    {
        if Self::is_paused(env) {
            return Err(Abort::Paused);
        }
        env.require_auth(sender);
        let record: TipRecord = match Self::get_tip_record(env, tip_id) {
            Ok(record) => record,
            Err(abort) => {
                return Err(abort);
            },
        };
        if record.sender != sender {
            return Err(Abort::Error(TipJarError::Unauthorized));
        }
        if record.refunded {
            return Err(Abort::Error(TipJarError::AlreadyRefunded));
        }
        if record.refund_requested {
            return Ok(());
        }
        let deadline: u64 = match record.timestamp.checked_add(GRACE_PERIOD_SECS) {
            Some(deadline) => deadline,
            None => {
                return Err(Abort::Overflow);
            },
        };
        if env.timestamp <= deadline {
            match Self::execute_refund(env, record) {
                Ok(()) => {},
                Err(abort) => {
                    return Err(abort);
                },
            }
            env.publish(
                Event::Refund {
                    creator: record.creator,
                    token: record.token,
                    sender,
                    tip_id,
                    amount: record.amount,
                    automatic: true,
                },
            );
        } else {
            let pending = TipRecord { refund_requested: true, ..record };
            env.storage.tips.set(DataKey::TipRecord(tip_id), pending);
            env.publish(
                Event::RefundRequested {
                    creator: record.creator,
                    token: record.token,
                    sender,
                    tip_id,
                    amount: record.amount,
                },
            );
        }
        Ok(())
    }

    /// The creator grants a pending request for a refund.
    pub fn approve_refund(env: &mut Env, creator: Address, tip_id: u64) -> (result: Result<
        (),
        Abort,
    >)
        ensures
            result == outcome(approve_refund_refusal(old(env)@.storage, creator, tip_id), ()),
            final(env)@ == approve_refund_after(old(env)@, creator, tip_id),
    {
        if Self::is_paused(env) {
            return Err(Abort::Paused);
        }
        env.require_auth(creator);
        let record: TipRecord = match Self::get_tip_record(env, tip_id) {
            Ok(record) => record,
            Err(abort) => {
                return Err(abort);
            },
        };
        if record.creator != creator {
            return Err(Abort::Error(TipJarError::Unauthorized));
        }
        if record.refunded {
            return Err(Abort::Error(TipJarError::AlreadyRefunded));
        }
        if !record.refund_requested {
            return Err(Abort::Error(TipJarError::RefundNotRequested));
        }
        match Self::execute_refund(env, record) {
            Ok(()) => {},
            Err(abort) => {
                return Err(abort);
            },
        }
        env.publish(
            Event::Refund {
                creator,
                token: record.token,
                sender: record.sender,
                tip_id,
                amount: record.amount,
                automatic: false,
            },
        );
        Ok(())
    }
}

} // verus!
