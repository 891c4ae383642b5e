//! Sponsors who match other people's tips.

use crate::env::{Env, Event};
use crate::model::{
    backer, cancel_after, cancel_refusal, create_after, create_refusal, first_backer, match_amount,
    matched, next_matching_id, next_tip_id, outcome, remaining, tip_with_match_after,
    tip_with_match_refusal,
};
use crate::types::{Abort, Address, DataKey, MatchingProgram, TipJarError};
use crate::TipJarContract;
use vstd::prelude::*;

verus! {

/// What `program` adds to a tip of `amount`, with `left` of its budget unspent.
fn compute_match(amount: i128, program: &MatchingProgram, left: i128) -> (added: i128)
    requires
        amount > 0,
        left > 0,
        left == remaining(*program),
    ensures
        added == match_amount(amount, *program),
        0 <= added <= left,
        100 * added <= amount * program.match_ratio,
        added < left ==> amount * program.match_ratio < 100 * (added + 1),
{
    let ratio: i128 = program.match_ratio as i128;
    let whole: i128 = amount / 100;
    let part: i128 = amount % 100;
    proof {
        assert(0 <= part * ratio <= 99 * u32::MAX) by (nonlinear_arith)
            requires
                0 <= part <= 99,
                0 <= ratio <= u32::MAX,
        ;
        assert(whole * ratio >= 0) by (nonlinear_arith)
            requires
                whole >= 0,
                ratio >= 0,
        ;
        assert(amount * ratio == 100 * (whole * ratio) + part * ratio) by (nonlinear_arith)
            requires
                amount == 100 * whole + part,
        ;
    }
    let low: i128 = part * ratio / 100;
    match whole.checked_mul(ratio) {
        Some(high) => match high.checked_add(low) {
            Some(raw) => if raw > left {
                left
            } else {
                raw
            },
            None => left,
        },
        None => left,
    }
}

impl TipJarContract {
    /// Counts one more matching program and returns its number; nothing
    /// changes where the count is full.
    fn next_matching_id(env: &mut Env) -> (result: Result<u64, Abort>)
        ensures
            result == if old(env)@.storage.program_count() < u64::MAX {
                Ok::<u64, Abort>(next_matching_id(old(env)@.storage))
            } else {
                Err::<u64, Abort>(Abort::Overflow)
            },
            result is Ok ==> final(env)@ == old(env)@.storing(
                old(env)@.storage.with_counter(
                    DataKey::MatchingCounter,
                    next_matching_id(old(env)@.storage),
                ),
            ),
            result is Err ==> final(env)@ == old(env)@,
    {
        match env.storage.counter(DataKey::MatchingCounter).checked_add(1) {
            Some(next) => {
                env.storage.counters.set(DataKey::MatchingCounter, next);
                Ok(next)
            },
            None => Err(Abort::Overflow),
        }
    }

    /// The first program of a creator that backs a tip in `token`, with its
    /// number and what is left of its budget.
    fn find_backer(env: &Env, creator: Address, token: Address) -> (result: Result<
        Option<(u64, MatchingProgram, i128)>,
        Abort,
    >)
        ensures
            match backer(env@.storage, creator, token) {
                None => result == Ok::<Option<(u64, MatchingProgram, i128)>, Abort>(None),
                Some(id) => {
                    let program = env@.storage.program(id)->0;
                    if i128::MIN <= remaining(program) <= i128::MAX {
                        &&& result == Ok::<Option<(u64, MatchingProgram, i128)>, Abort>(
                            Some((id, program, remaining(program) as i128)),
                        )
                        &&& remaining(program) > 0
                        &&& program.active
                    } else {
                        result == Err::<Option<(u64, MatchingProgram, i128)>, Abort>(
                            Abort::Overflow,
                        )
                    }
                },
            },
    {
        let ids: Vec<u64> = env.storage.programs_for(creator);
        let mut i: usize = 0;
        assert(ids@.skip(0) =~= ids@);
        while i < ids.len()
            invariant
                i <= ids@.len(),
                first_backer(env@.storage, ids@.skip(i as int), token) == backer(
                    env@.storage,
                    creator,
                    token,
                ),
            decreases ids@.len() - i,
        {
            let id: u64 = ids[i];
            assert(ids@.skip(i as int).drop_first() =~= ids@.skip(i + 1));
            i += 1;
            let program: MatchingProgram = match env.storage.programs.get(
                DataKey::MatchingProgram(id),
            ) {
                Some(program) => *program,
                None => {
                    continue ;
                },
            };
            if !program.active || program.token != token {
                continue ;
            }
            let left: i128 = match program.max_match_amount.checked_sub(program.current_matched) {
                Some(left) => left,
                None => {
                    return Err(Abort::Overflow);
                },
            };
            if left > 0 {
                return Ok(Some((id, program, left)));
            }
        }
        Ok(None)
    }

    /// A sponsor creates a matching program and deposits its whole budget with
    /// the jar. Returns the number of the program.
    ///
    /// A `match_ratio` of 100 matches a tip one to one, 200 two to one.
    pub fn create_matching_program(
        env: &mut Env,
        sponsor: Address,
        creator: Address,
        token: Address,
        match_ratio: u32,
        max_match_amount: i128,
    ) -> (result: Result<u64, Abort>)
        ensures
            result == outcome(
                create_refusal(old(env)@.storage, token, match_ratio, max_match_amount),
                next_matching_id(old(env)@.storage),
            ),
            final(env)@ == create_after(
                old(env)@,
                sponsor,
                creator,
                token,
                match_ratio,
                max_match_amount,
            ),
    {
        if Self::is_paused(env) {
            return Err(Abort::Paused);
        }
        if match_ratio == 0 {
            return Err(Abort::Error(TipJarError::InvalidMatchRatio));
        }
        if max_match_amount <= 0 {
            return Err(Abort::Error(TipJarError::InvalidAmount));
        }
        if !Self::is_whitelisted(env, token) {
            return Err(Abort::Error(TipJarError::TokenNotWhitelisted));
        }
        env.require_auth(sponsor);
        let contract = env.contract;
        env.transfer(token, sponsor, contract, max_match_amount);
        let program_id: u64 = match Self::next_matching_id(env) {
            Ok(program_id) => program_id,
            Err(abort) => {
                return Err(abort);
            },
        };
        let program = MatchingProgram {
            id: program_id,
            sponsor,
            creator,
            token,
            match_ratio,
            max_match_amount,
            current_matched: 0,
            active: true,
        };
        env.storage.programs.set(DataKey::MatchingProgram(program_id), program);
        let mut programs: Vec<u64> = env.storage.programs_for(creator);
        programs.push(program_id);
        env.storage.program_lists.set(DataKey::CreatorMatchingPrograms(creator), programs);
        env.publish(
            Event::MatchingCreated {
                creator,
                token,
                sponsor,
                program_id,
                match_ratio,
                max_match_amount,
            },
        );
        Ok(program_id)
    }

    /// Tips a creator, and adds to the tip from the first of the creator's
    /// programs that is active, pays in this token and has budget left.
    /// Returns the number of the tip and the amount that was added.
    pub fn tip_with_match(
        env: &mut Env,
        sender: Address,
        creator: Address,
        token: Address,
        amount: i128,
    ) -> (result: Result<(u64, i128), Abort>)
        ensures
            result == outcome(
                tip_with_match_refusal(old(env)@.storage, creator, token, amount),
                (
                    next_tip_id(old(env)@.storage),
                    matched(old(env)@.storage, creator, token, amount) as i128,
                ),
            ),
            final(env)@ == tip_with_match_after(old(env)@, sender, creator, token, amount),
    {
        if Self::is_paused(env) {
            return Err(Abort::Paused);
        }
        if amount <= 0 {
            return Err(Abort::Error(TipJarError::InvalidAmount));
        }
        if !Self::is_whitelisted(env, token) {
            return Err(Abort::Error(TipJarError::TokenNotWhitelisted));
        }
        env.require_auth(sender);
        let contract = env.contract;
        env.transfer(token, sender, contract, amount);
        let backing = match Self::find_backer(env, creator, token) {
            Ok(backing) => backing,
            Err(abort) => {
                return Err(abort);
            },
        };
        let added: i128 = match &backing {
            Some((_, program, left)) => compute_match(amount, program, *left),
            None => 0,
        };
        let credit: i128 = match amount.checked_add(added) {
            Some(credit) => credit,
            None => {
                return Err(Abort::Overflow);
            },
        };
        let tip_id: u64 = match Self::book(env, sender, creator, token, amount, credit) {
            Ok(tip_id) => tip_id,
            Err(abort) => {
                return Err(abort);
            },
        };
        match backing {
            Some((id, program, _)) => {
                let current_matched: i128 = program.current_matched + added;
                let spent = MatchingProgram {
                    current_matched,
                    active: current_matched < program.max_match_amount,
                    ..program
                };
                env.storage.programs.set(DataKey::MatchingProgram(id), spent);
                if !spent.active {
                    env.storage.unlist_program(creator, id);
                }
            },
            None => {},
        }
        env.publish(
            Event::TipMatched { creator, token, sender, tip_id, amount, matched_amount: added },
        );
        Ok((tip_id, added))
    }

    /// A sponsor ends its matching program and gets back what was not spent.
    pub fn cancel_matching_program(env: &mut Env, sponsor: Address, program_id: u64) -> (result:
        Result<(), Abort>)
        ensures
            result == outcome(cancel_refusal(old(env)@.storage, sponsor, program_id), ()),
            final(env)@ == cancel_after(old(env)@, sponsor, program_id),
    {
        if Self::is_paused(env) {
            return Err(Abort::Paused);
        }
        env.require_auth(sponsor);
        let program: MatchingProgram = match Self::get_matching_program(env, program_id) {
            Ok(program) => program,
            Err(abort) => {
                return Err(abort);
            },
        };
        if program.sponsor != sponsor {
            return Err(Abort::Error(TipJarError::Unauthorized));
        }
        if !program.active {
            return Err(Abort::Error(TipJarError::MatchingProgramInactive));
        }
        let unspent: i128 = match program.max_match_amount.checked_sub(program.current_matched) {
            Some(unspent) => unspent,
            None => {
                return Err(Abort::Overflow);
            },
        };
        let ended = MatchingProgram { active: false, ..program };
        env.storage.programs.set(DataKey::MatchingProgram(program_id), ended);
        env.storage.unlist_program(program.creator, program_id);
        if unspent > 0 {
            let contract = env.contract;
            env.transfer(program.token, contract, sponsor, unspent);
        }
        env.publish(
            Event::MatchingEnded {
                creator: program.creator,
                token: program.token,
                sponsor,
                program_id,
                unspent,
            },
        );
        Ok(())
    }

    /// A matching program by its number.
    pub fn get_matching_program(env: &Env, program_id: u64) -> (result: Result<
        MatchingProgram,
        Abort,
    >)
        ensures
            result == match env@.storage.program(program_id) {
                Some(program) => Ok::<MatchingProgram, Abort>(program),
                None => Err::<MatchingProgram, Abort>(
                    Abort::Error(TipJarError::MatchingProgramNotFound),
                ),
            },
    {
        match env.storage.programs.get(DataKey::MatchingProgram(program_id)) {
            Some(program) => Ok(*program),
            None => Err(Abort::Error(TipJarError::MatchingProgramNotFound)),
        }
    }
}

} // verus!
