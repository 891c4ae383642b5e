//! Tipping, withdrawing, and looking up what was tipped.

use crate::env::{Env, Event};
use crate::model::{
    can_book, new_tip, next_tip_id, outcome, tip_after, tip_refusal, tip_with_message_after,
    tip_with_message_refusal, withdraw_after, withdraw_refusal, MAX_MESSAGE_LEN,
};
use crate::types::{
    copy_bytes, Abort, Address, DataKey, Metadata, TipJarError, TipRecord, TipWithMessage,
};
use crate::TipJarContract;
use vstd::prelude::*;

verus! {

impl TipJarContract {
    /// Counts one more tip and returns its number; nothing changes where the
    /// count is full.
    pub(crate) fn next_tip_id(env: &mut Env) -> (result: Result<u64, Abort>)
        ensures
            result == if old(env)@.storage.tip_count() < u64::MAX {
                Ok::<u64, Abort>(next_tip_id(old(env)@.storage))
            } else {
                Err::<u64, Abort>(Abort::Overflow)
            },
            result is Ok ==> final(env)@ == old(env)@.storing(
                old(env)@.storage.with_counter(DataKey::TipCounter, next_tip_id(old(env)@.storage)),
            ),
            result is Err ==> final(env)@ == old(env)@,
    {
        match env.storage.counter(DataKey::TipCounter).checked_add(1) {
            Some(next) => {
                env.storage.counters.set(DataKey::TipCounter, next);
                Ok(next)
            },
            None => Err(Abort::Overflow),
        }
    }

    /// Credits a creator and records the tip, or changes nothing where the
    /// books cannot hold it. Returns the number of the tip.
    pub(crate) fn book(
        env: &mut Env,
        sender: Address,
        creator: Address,
        token: Address,
        amount: i128,
        credit: i128,
    ) -> (result: Result<u64, Abort>)
        requires
            credit >= 0,
        ensures
            result == if can_book(old(env)@.storage, creator, token, credit as int) {
                Ok::<u64, Abort>(next_tip_id(old(env)@.storage))
            } else {
                Err::<u64, Abort>(Abort::Overflow)
            },
            result is Ok ==> final(env)@ == old(env)@.storing(
                old(env)@.storage.with_credit(creator, token, credit as int).with_new_tip(
                    new_tip(old(env)@, sender, creator, token, amount),
                ),
            ),
            result is Err ==> final(env)@ == old(env)@,
    {
        if env.storage.counter(DataKey::TipCounter) == u64::MAX {
            return Err(Abort::Overflow);
        }
        if !env.storage.credit(creator, token, credit) {
            return Err(Abort::Overflow);
        }
        let tip_id: u64 = match Self::next_tip_id(env) {
            Ok(tip_id) => tip_id,
            Err(abort) => {
                return Err(abort);
            },
        };
        let record = TipRecord {
            id: tip_id,
            sender,
            creator,
            token,
            amount,
            timestamp: env.timestamp,
            refunded: false,
            refund_requested: false,
        };
        env.storage.tips.set(DataKey::TipRecord(tip_id), record);
        Ok(tip_id)
    }

    /// Moves `amount` tokens from `sender` into escrow for `creator`. Returns
    /// the number of the tip, under which it can be refunded.
    pub fn tip(
        env: &mut Env,
        sender: Address,
        creator: Address,
        token: Address,
        amount: i128,
    ) -> (result: Result<u64, Abort>)
        ensures
            result == outcome(
                tip_refusal(old(env)@.storage, creator, token, amount),
                next_tip_id(old(env)@.storage),
            ),
            final(env)@ == tip_after(old(env)@, sender, creator, token, amount),
    {
        if Self::is_paused(env) {
            return Err(Abort::Paused);
        }
        if amount <= 0 {
            return Err(Abort::Error(TipJarError::InvalidAmount));
        }
        if !Self::is_whitelisted(env, token) {
            return Err(Abort::Error(TipJarError::TokenNotWhitelisted));
        }
        env.require_auth(sender);
        let contract = env.contract;
        env.transfer(token, sender, contract, amount);
        let tip_id: u64 = match Self::book(env, sender, creator, token, amount, amount) {
            Ok(tip_id) => tip_id,
            Err(abort) => {
                return Err(abort);
            },
        };
        env.publish(Event::Tip { creator, token, sender, amount, tip_id });
        Ok(tip_id)
    }

    /// Like [`TipJarContract::tip`], with a note and metadata for the creator.
    /// Any token will do.
    pub fn tip_with_message(
        env: &mut Env,
        sender: Address,
        creator: Address,
        token: Address,
        amount: i128,
        message: Vec<u8>,
        metadata: Metadata,
    ) -> (result: Result<u64, Abort>)
        ensures
            result == outcome(
                tip_with_message_refusal(old(env)@.storage, creator, token, amount, message@),
                next_tip_id(old(env)@.storage),
            ),
            final(env)@ == tip_with_message_after(
                old(env)@,
                sender,
                creator,
                token,
                amount,
                message,
                metadata,
            ),
    {
        if Self::is_paused(env) {
            return Err(Abort::Paused);
        }
        if amount <= 0 {
            return Err(Abort::Error(TipJarError::InvalidAmount));
        }
        if message.len() > MAX_MESSAGE_LEN {
            return Err(Abort::Error(TipJarError::MessageTooLong));
        }
        env.require_auth(sender);
        let contract = env.contract;
        env.transfer(token, sender, contract, amount);
        let tip_id: u64 = match Self::book(env, sender, creator, token, amount, amount) {
            Ok(tip_id) => tip_id,
            Err(abort) => {
                return Err(abort);
            },
        };
        let note = TipWithMessage {
            sender,
            creator,
            amount,
            message: copy_bytes(&message),
            metadata: metadata.clone(),
            timestamp: env.timestamp,
        };
        let ghost noted = note@;
        let mut notes = env.storage.messages_for(creator);
        let ghost before = notes@;
        notes.list.push(note);
        assert(notes@ =~= before.push(noted));
        env.storage.messages.set(DataKey::CreatorMessages(creator), notes);
        env.publish(Event::TipMessage { creator, sender, amount, message, metadata, tip_id });
        Ok(tip_id)
    }

    /// Pays a creator all that is in escrow for it in one token.
    pub fn withdraw(env: &mut Env, creator: Address, token: Address) -> (result: Result<(), Abort>)
        ensures
            result == outcome(withdraw_refusal(old(env)@.storage, creator, token), ()),
            final(env)@ == withdraw_after(old(env)@, creator, token),
    {
        if Self::is_paused(env) {
            return Err(Abort::Paused);
        }
        env.require_auth(creator);
        let key = DataKey::CreatorBalance(creator, token);
        let amount: i128 = env.storage.amount(key);
        if amount <= 0 {
            return Err(Abort::Error(TipJarError::NothingToWithdraw));
        }
        let contract = env.contract;
        env.transfer(token, contract, creator, amount);
        env.storage.amounts.set(key, 0);
        env.publish(Event::Withdraw { creator, token, amount });
        Ok(())
    }

    /// The record of a tip.
    pub fn get_tip_record(env: &Env, tip_id: u64) -> (result: Result<TipRecord, Abort>)
        ensures
            result == match env@.storage.tip(tip_id) {
                Some(record) => Ok::<TipRecord, Abort>(record),
                None => Err::<TipRecord, Abort>(Abort::Error(TipJarError::TipNotFound)),
            },
    {
        match env.storage.tips.get(DataKey::TipRecord(tip_id)) {
            Some(record) => Ok(*record),
            None => Err(Abort::Error(TipJarError::TipNotFound)),
        }
    }

    /// All that a creator was ever tipped in a token, matches included.
    pub fn get_total_tips(env: &Env, creator: Address, token: Address) -> (total: i128)
        ensures
            total == env@.storage.total(creator, token),
    {
        env.storage.amount(DataKey::CreatorTotal(creator, token))
    }

    /// The notes that a creator has received, oldest first.
    pub fn get_messages(env: &Env, creator: Address) -> (notes: Vec<TipWithMessage>)
        ensures
            notes@.map_values(|note: TipWithMessage| note@) == env@.storage.messages_for(creator),
    {
        env.storage.messages_for(creator).list
    }

    /// What a creator can withdraw of a token.
    pub fn get_withdrawable_balance(env: &Env, creator: Address, token: Address) -> (balance: i128)
        ensures
            balance == env@.storage.balance(creator, token),
    {
        env.storage.amount(DataKey::CreatorBalance(creator, token))
    }
}

} // verus!
