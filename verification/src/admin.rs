//! Setting up the jar, its whitelist and the emergency pause.

use crate::env::Env;
use crate::model::{
    admin_refusal, flag_after, init_after, init_refusal, listing_after, listing_refusal, outcome,
};
use crate::types::{Abort, Address, DataKey, TipJarError};
use crate::TipJarContract;
use vstd::prelude::*;

verus! {

impl TipJarContract {
    /// One-time setup to choose the administrator of the jar.
    pub fn init(env: &mut Env, admin: Address) -> (result: Result<(), Abort>)
        ensures
            result == outcome(init_refusal(old(env)@.storage), ()),
            final(env)@ == init_after(old(env)@, admin),
    {
        if env.storage.admins.has(DataKey::Admin) {
            return Err(Abort::Error(TipJarError::AlreadyInitialized));
        }
        env.storage.admins.set(DataKey::Admin, admin);
        env.storage.flags.set(DataKey::Paused, false);
        Ok(())
    }

    /// Sets a flag for the administrator.
    fn set_flag(env: &mut Env, caller: Address, key: DataKey, value: bool) -> (result: Result<
        (),
        Abort,
    >)
        ensures
            result == outcome(admin_refusal(old(env)@.storage, caller), ()),
            final(env)@ == flag_after(old(env)@, caller, key, value),
    {
        env.require_auth(caller);
        let admin: Address = match env.storage.admins.get(DataKey::Admin) {
            Some(admin) => *admin,
            None => {
                return Err(Abort::NotInitialized);
            },
        };
        if caller != admin {
            return Err(Abort::Error(TipJarError::Unauthorized));
        }
        env.storage.flags.set(key, value);
        Ok(())
    }

    /// Adds a token to the whitelist (administrator only).
    pub fn add_token(env: &mut Env, admin: Address, token: Address) -> (result: Result<(), Abort>)
        ensures
            result == outcome(listing_refusal(old(env)@.storage, admin), ()),
            final(env)@ == listing_after(old(env)@, admin, token, true),
    {
        if Self::is_paused(env) {
            return Err(Abort::Paused);
        }
        Self::set_flag(env, admin, DataKey::TokenWhitelist(token), true)
    }

    /// Removes a token from the whitelist (administrator only).
    pub fn remove_token(env: &mut Env, admin: Address, token: Address) -> (result: Result<
        (),
        Abort,
    >)
        ensures
            result == outcome(listing_refusal(old(env)@.storage, admin), ()),
            final(env)@ == listing_after(old(env)@, admin, token, false),
    {
        if Self::is_paused(env) {
            return Err(Abort::Paused);
        }
        Self::set_flag(env, admin, DataKey::TokenWhitelist(token), false)
    }

    /// Emergency pause to stop all state-changing activities (administrator
    /// only) until [`TipJarContract::unpause`].
    pub fn pause(env: &mut Env, admin: Address) -> (result: Result<(), Abort>)
        ensures
            result == outcome(admin_refusal(old(env)@.storage, admin), ()),
            final(env)@ == flag_after(old(env)@, admin, DataKey::Paused, true),
    {
        Self::set_flag(env, admin, DataKey::Paused, true)
    }

    /// Resumes the jar after an emergency pause (administrator only).
    pub fn unpause(env: &mut Env, admin: Address) -> (result: Result<(), Abort>)
        ensures
            result == outcome(admin_refusal(old(env)@.storage, admin), ()),
            final(env)@ == flag_after(old(env)@, admin, DataKey::Paused, false),
    {
        Self::set_flag(env, admin, DataKey::Paused, false)
    }

    /// Whether a token may be tipped.
    pub fn is_whitelisted(env: &Env, token: Address) -> (listed: bool)
        ensures
            listed == env@.storage.whitelisted(token),
    {
        env.storage.flag(DataKey::TokenWhitelist(token))
    }

    /// Whether the jar is paused.
    pub(crate) fn is_paused(env: &Env) -> (paused: bool)
        ensures
            paused == env@.storage.paused(),
    {
        env.storage.flag(DataKey::Paused)
    }
}

} // verus!
