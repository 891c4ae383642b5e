//! Single calls: what they refuse, what they ask of the host, and where their
//! sums end.

use tipjar::model::{GRACE_PERIOD_SECS, MAX_MESSAGE_LEN};
use tipjar::{
    Abort, Address, Call, DataKey, Env, Event, HostCall, MatchingProgram, Metadata, Storage, Table,
    TipJarContract, TipJarError, TipRecord,
};

const JAR: Address = Address { id: 100 };
const ADMIN: Address = Address { id: 1 };
const TOKEN: Address = Address { id: 2 };
const SENDER: Address = Address { id: 3 };
const CREATOR: Address = Address { id: 4 };
const SPONSOR: Address = Address { id: 5 };
const OTHER: Address = Address { id: 6 };

fn refused<T>(error: TipJarError) -> Result<T, Abort> {
    Err(Abort::Error(error))
}

/// A jar with one whitelisted token, and nothing asked of the host.
fn jar() -> Env {
    let mut env = Env::new(JAR, 1_000);
    TipJarContract::init(&mut env, ADMIN).unwrap();
    TipJarContract::add_token(&mut env, ADMIN, TOKEN).unwrap();
    env.calls.clear();
    env
}

fn metadata(key: &[u8], value: &[u8]) -> Metadata {
    Metadata { pairs: vec![(key.to_vec(), value.to_vec())] }
}

#[test]
fn setup_happens_once() {
    let mut env = Env::new(JAR, 0);
    assert_eq!(TipJarContract::init(&mut env, ADMIN), Ok(()));
    assert_eq!(env.storage.admins.get(DataKey::Admin), Some(&ADMIN));
    assert_eq!(env.storage.flags.get(DataKey::Paused), Some(&false));
    assert_eq!(env.calls, vec![]);
    assert_eq!(TipJarContract::init(&mut env, OTHER), refused(TipJarError::AlreadyInitialized));
    assert_eq!(env.storage.admins.get(DataKey::Admin), Some(&ADMIN));
}

#[test]
fn administration_needs_an_administrator() {
    let mut env = Env::new(JAR, 0);
    assert_eq!(TipJarContract::add_token(&mut env, ADMIN, TOKEN), Err(Abort::NotInitialized));
    assert_eq!(TipJarContract::pause(&mut env, ADMIN), Err(Abort::NotInitialized));
    assert_eq!(env.calls, vec![HostCall::RequireAuth(ADMIN), HostCall::RequireAuth(ADMIN)]);
}

#[test]
fn only_the_administrator_sets_flags() {
    let mut env = jar();
    assert_eq!(TipJarContract::add_token(&mut env, OTHER, OTHER), refused(TipJarError::Unauthorized));
    assert_eq!(
        TipJarContract::remove_token(&mut env, OTHER, TOKEN),
        refused(TipJarError::Unauthorized)
    );
    assert_eq!(TipJarContract::pause(&mut env, OTHER), refused(TipJarError::Unauthorized));
    assert_eq!(TipJarContract::unpause(&mut env, OTHER), refused(TipJarError::Unauthorized));
    assert!(TipJarContract::is_whitelisted(&env, TOKEN));
    assert!(!TipJarContract::is_whitelisted(&env, OTHER));
}

#[test]
fn a_removed_token_cannot_be_tipped() {
    let mut env = jar();
    TipJarContract::remove_token(&mut env, ADMIN, TOKEN).unwrap();
    assert!(!TipJarContract::is_whitelisted(&env, TOKEN));
    assert_eq!(
        TipJarContract::tip(&mut env, SENDER, CREATOR, TOKEN, 1),
        refused(TipJarError::TokenNotWhitelisted)
    );
    assert_eq!(
        TipJarContract::tip_with_match(&mut env, SENDER, CREATOR, TOKEN, 1),
        refused(TipJarError::TokenNotWhitelisted)
    );
    assert_eq!(
        TipJarContract::create_matching_program(&mut env, SPONSOR, CREATOR, TOKEN, 100, 1),
        refused(TipJarError::TokenNotWhitelisted)
    );
}

#[test]
fn a_paused_jar_stands_still() {
    let mut env = jar();
    TipJarContract::tip(&mut env, SENDER, CREATOR, TOKEN, 9).unwrap();
    TipJarContract::create_matching_program(&mut env, SPONSOR, CREATOR, TOKEN, 100, 9).unwrap();
    TipJarContract::pause(&mut env, ADMIN).unwrap();
    env.calls.clear();
    assert_eq!(TipJarContract::tip(&mut env, SENDER, CREATOR, TOKEN, 1), Err(Abort::Paused));
    assert_eq!(
        TipJarContract::tip_with_message(
            &mut env, SENDER, CREATOR, TOKEN, 1, vec![], metadata(b"", b""),
        ),
        Err(Abort::Paused)
    );
    assert_eq!(
        TipJarContract::tip_with_match(&mut env, SENDER, CREATOR, TOKEN, 1),
        Err(Abort::Paused)
    );
    assert_eq!(TipJarContract::request_refund(&mut env, SENDER, 1), Err(Abort::Paused));
    assert_eq!(TipJarContract::approve_refund(&mut env, CREATOR, 1), Err(Abort::Paused));
    assert_eq!(TipJarContract::withdraw(&mut env, CREATOR, TOKEN), Err(Abort::Paused));
    assert_eq!(
        TipJarContract::create_matching_program(&mut env, SPONSOR, CREATOR, TOKEN, 100, 1),
        Err(Abort::Paused)
    );
    assert_eq!(TipJarContract::cancel_matching_program(&mut env, SPONSOR, 1), Err(Abort::Paused));
    assert_eq!(TipJarContract::add_token(&mut env, ADMIN, OTHER), Err(Abort::Paused));
    assert_eq!(TipJarContract::remove_token(&mut env, ADMIN, TOKEN), Err(Abort::Paused));
    assert!(!TipJarContract::is_whitelisted(&env, OTHER));
    assert!(TipJarContract::is_whitelisted(&env, TOKEN));
    assert_eq!(env.calls, vec![]);
    assert_eq!(TipJarContract::get_withdrawable_balance(&env, CREATOR, TOKEN), 9);
    // Pausing again and resuming still go through.
    assert_eq!(TipJarContract::pause(&mut env, ADMIN), Ok(()));
    assert_eq!(TipJarContract::unpause(&mut env, ADMIN), Ok(()));
    assert_eq!(TipJarContract::add_token(&mut env, ADMIN, OTHER), Ok(()));
}

#[test]
fn a_tip_is_booked_and_announced() {
    let mut env = jar();
    assert_eq!(TipJarContract::tip(&mut env, SENDER, CREATOR, TOKEN, 250), Ok(1));
    assert_eq!(TipJarContract::tip(&mut env, SENDER, CREATOR, TOKEN, 1), Ok(2));
    assert_eq!(
        env.calls[0..3].to_vec(),
        vec![
            HostCall::RequireAuth(SENDER),
            HostCall::Transfer { token: TOKEN, from: SENDER, to: JAR, amount: 250 },
            HostCall::Publish(Event::Tip {
                creator: CREATOR,
                token: TOKEN,
                sender: SENDER,
                amount: 250,
                tip_id: 1,
            }),
        ]
    );
    assert_eq!(
        TipJarContract::get_tip_record(&env, 1),
        Ok(TipRecord {
            id: 1,
            sender: SENDER,
            creator: CREATOR,
            token: TOKEN,
            amount: 250,
            timestamp: 1_000,
            refunded: false,
            refund_requested: false,
        })
    );
    assert_eq!(TipJarContract::get_tip_record(&env, 3), refused(TipJarError::TipNotFound));
}

#[test]
fn amounts_must_be_positive() {
    let mut env = jar();
    for amount in [0, -1, i128::MIN] {
        assert_eq!(
            TipJarContract::tip(&mut env, SENDER, CREATOR, TOKEN, amount),
            refused(TipJarError::InvalidAmount)
        );
        assert_eq!(
            TipJarContract::tip_with_message(
                &mut env, SENDER, CREATOR, TOKEN, amount, vec![], metadata(b"", b""),
            ),
            refused(TipJarError::InvalidAmount)
        );
        assert_eq!(
            TipJarContract::tip_with_match(&mut env, SENDER, CREATOR, TOKEN, amount),
            refused(TipJarError::InvalidAmount)
        );
        assert_eq!(
            TipJarContract::create_matching_program(&mut env, SPONSOR, CREATOR, TOKEN, 1, amount),
            refused(TipJarError::InvalidAmount)
        );
    }
    assert_eq!(env.calls, vec![]);
}

#[test]
fn notes_are_kept_in_order() {
    let mut env = jar();
    let id = TipJarContract::tip_with_message(
        &mut env, SENDER, CREATOR, TOKEN, 10, b"first".to_vec(), metadata(b"k", b"v"),
    );
    assert_eq!(id, Ok(1));
    assert_eq!(
        env.calls[2],
        HostCall::Publish(Event::TipMessage {
            creator: CREATOR,
            sender: SENDER,
            amount: 10,
            message: b"first".to_vec(),
            metadata: metadata(b"k", b"v"),
            tip_id: 1,
        })
    );
    env.timestamp = 2_000;
    // A token that is not whitelisted will do for a tip with a message.
    TipJarContract::tip_with_message(
        &mut env, OTHER, CREATOR, OTHER, 20, b"second".to_vec(), Metadata { pairs: vec![] },
    )
    .unwrap();
    let notes = TipJarContract::get_messages(&env, CREATOR);
    assert_eq!(notes.len(), 2);
    assert_eq!(notes[0].message, b"first".to_vec());
    assert_eq!(notes[0].metadata, metadata(b"k", b"v"));
    assert_eq!(notes[0].sender, SENDER);
    assert_eq!(notes[1].message, b"second".to_vec());
    assert_eq!(notes[1].amount, 20);
    assert_eq!(notes[1].timestamp, 2_000);
    assert_eq!(TipJarContract::get_messages(&env, OTHER).len(), 0);
    assert_eq!(TipJarContract::get_total_tips(&env, CREATOR, OTHER), 20);
    assert_eq!(TipJarContract::get_withdrawable_balance(&env, CREATOR, TOKEN), 10);
}

#[test]
fn notes_have_at_most_280_bytes() {
    let mut env = jar();
    assert_eq!(MAX_MESSAGE_LEN, 280);
    assert_eq!(
        TipJarContract::tip_with_message(
            &mut env, SENDER, CREATOR, TOKEN, 1, vec![b'x'; 281], metadata(b"", b""),
        ),
        refused(TipJarError::MessageTooLong)
    );
    assert_eq!(
        TipJarContract::tip_with_message(
            &mut env, SENDER, CREATOR, TOKEN, 1, vec![b'x'; 280], metadata(b"", b""),
        ),
        Ok(1)
    );
}

#[test]
fn a_withdrawal_takes_everything_once() {
    let mut env = jar();
    assert_eq!(
        TipJarContract::withdraw(&mut env, CREATOR, TOKEN),
        refused(TipJarError::NothingToWithdraw)
    );
    assert_eq!(env.calls, vec![HostCall::RequireAuth(CREATOR)]);
    TipJarContract::tip(&mut env, SENDER, CREATOR, TOKEN, 70).unwrap();
    TipJarContract::tip(&mut env, SENDER, OTHER, TOKEN, 5).unwrap();
    env.calls.clear();
    TipJarContract::withdraw(&mut env, CREATOR, TOKEN).unwrap();
    assert_eq!(
        env.calls,
        vec![
            HostCall::RequireAuth(CREATOR),
            HostCall::Transfer { token: TOKEN, from: JAR, to: CREATOR, amount: 70 },
            HostCall::Publish(Event::Withdraw { creator: CREATOR, token: TOKEN, amount: 70 }),
        ]
    );
    assert_eq!(
        TipJarContract::withdraw(&mut env, CREATOR, TOKEN),
        refused(TipJarError::NothingToWithdraw)
    );
    assert_eq!(TipJarContract::get_total_tips(&env, CREATOR, TOKEN), 70);
    assert_eq!(TipJarContract::get_withdrawable_balance(&env, OTHER, TOKEN), 5);
}

#[test]
fn sums_that_do_not_fit_are_refused() {
    let mut env = jar();
    TipJarContract::tip(&mut env, SENDER, CREATOR, TOKEN, i128::MAX).unwrap();
    env.calls.clear();
    assert_eq!(TipJarContract::tip(&mut env, SENDER, CREATOR, TOKEN, 1), Err(Abort::Overflow));
    // The host was asked for the money before the sum was made.
    assert_eq!(
        env.calls,
        vec![
            HostCall::RequireAuth(SENDER),
            HostCall::Transfer { token: TOKEN, from: SENDER, to: JAR, amount: 1 },
        ]
    );
    assert_eq!(TipJarContract::get_withdrawable_balance(&env, CREATOR, TOKEN), i128::MAX);
    // The total is full even after the balance is gone.
    TipJarContract::withdraw(&mut env, CREATOR, TOKEN).unwrap();
    assert_eq!(
        TipJarContract::tip_with_message(
            &mut env, SENDER, CREATOR, TOKEN, 1, vec![], metadata(b"", b""),
        ),
        Err(Abort::Overflow)
    );
    assert_eq!(
        TipJarContract::tip_with_match(&mut env, SENDER, CREATOR, TOKEN, 1),
        Err(Abort::Overflow)
    );
    assert_eq!(TipJarContract::get_messages(&env, CREATOR).len(), 0);
}

#[test]
fn full_counters_are_refused() {
    let mut env = jar();
    env.storage.counters.set(DataKey::TipCounter, u64::MAX);
    env.storage.counters.set(DataKey::MatchingCounter, u64::MAX - 1);
    assert_eq!(TipJarContract::tip(&mut env, SENDER, CREATOR, TOKEN, 1), Err(Abort::Overflow));
    assert_eq!(TipJarContract::get_total_tips(&env, CREATOR, TOKEN), 0);
    assert_eq!(
        TipJarContract::create_matching_program(&mut env, SPONSOR, CREATOR, TOKEN, 1, 1),
        Ok(u64::MAX)
    );
    assert_eq!(
        TipJarContract::create_matching_program(&mut env, SPONSOR, CREATOR, TOKEN, 1, 1),
        Err(Abort::Overflow)
    );
}

#[test]
fn the_grace_period_ends_with_its_last_second() {
    assert_eq!(GRACE_PERIOD_SECS, 86_400);
    let mut env = jar();
    TipJarContract::tip(&mut env, SENDER, CREATOR, TOKEN, 5).unwrap();
    TipJarContract::tip(&mut env, SENDER, CREATOR, TOKEN, 6).unwrap();
    env.calls.clear();
    env.timestamp = 1_000 + 86_400;
    TipJarContract::request_refund(&mut env, SENDER, 1).unwrap();
    assert_eq!(
        env.calls,
        vec![
            HostCall::RequireAuth(SENDER),
            HostCall::Transfer { token: TOKEN, from: JAR, to: SENDER, amount: 5 },
            HostCall::Publish(Event::Refund {
                creator: CREATOR,
                token: TOKEN,
                sender: SENDER,
                tip_id: 1,
                amount: 5,
                automatic: true,
            }),
        ]
    );
    env.calls.clear();
    env.timestamp = 1_000 + 86_401;
    TipJarContract::request_refund(&mut env, SENDER, 2).unwrap();
    assert_eq!(
        env.calls,
        vec![
            HostCall::RequireAuth(SENDER),
            HostCall::Publish(Event::RefundRequested {
                creator: CREATOR,
                token: TOKEN,
                sender: SENDER,
                tip_id: 2,
                amount: 6,
            }),
        ]
    );
    // Asking again changes nothing, and is announced to nobody.
    env.calls.clear();
    assert_eq!(TipJarContract::request_refund(&mut env, SENDER, 2), Ok(()));
    assert_eq!(env.calls, vec![HostCall::RequireAuth(SENDER)]);
    assert_eq!(TipJarContract::get_withdrawable_balance(&env, CREATOR, TOKEN), 6);
    env.calls.clear();
    TipJarContract::approve_refund(&mut env, CREATOR, 2).unwrap();
    assert_eq!(
        env.calls[2],
        HostCall::Publish(Event::Refund {
            creator: CREATOR,
            token: TOKEN,
            sender: SENDER,
            tip_id: 2,
            amount: 6,
            automatic: false,
        })
    );
}

#[test]
fn refunds_are_refused_by_name() {
    let mut env = jar();
    assert_eq!(
        TipJarContract::request_refund(&mut env, SENDER, 1),
        refused(TipJarError::TipNotFound)
    );
    assert_eq!(
        TipJarContract::approve_refund(&mut env, CREATOR, 1),
        refused(TipJarError::TipNotFound)
    );
    TipJarContract::tip(&mut env, SENDER, CREATOR, TOKEN, 5).unwrap();
    assert_eq!(
        TipJarContract::request_refund(&mut env, OTHER, 1),
        refused(TipJarError::Unauthorized)
    );
    assert_eq!(
        TipJarContract::approve_refund(&mut env, OTHER, 1),
        refused(TipJarError::Unauthorized)
    );
    assert_eq!(
        TipJarContract::approve_refund(&mut env, CREATOR, 1),
        refused(TipJarError::RefundNotRequested)
    );
}

#[test]
fn a_refund_undoes_a_tip() {
    let mut env = jar();
    TipJarContract::tip(&mut env, OTHER, CREATOR, TOKEN, 30).unwrap();
    TipJarContract::tip(&mut env, SENDER, CREATOR, TOKEN, 12).unwrap();
    TipJarContract::request_refund(&mut env, SENDER, 2).unwrap();
    assert_eq!(TipJarContract::get_withdrawable_balance(&env, CREATOR, TOKEN), 30);
    // What was ever tipped stays on record.
    assert_eq!(TipJarContract::get_total_tips(&env, CREATOR, TOKEN), 42);
}

#[test]
fn a_tip_at_the_end_of_time_cannot_be_asked_back() {
    let mut env = jar();
    env.timestamp = u64::MAX - 86_399;
    TipJarContract::tip(&mut env, SENDER, CREATOR, TOKEN, 5).unwrap();
    assert_eq!(TipJarContract::request_refund(&mut env, SENDER, 1), Err(Abort::Overflow));
    env.timestamp = u64::MAX - 86_400;
    TipJarContract::tip(&mut env, SENDER, CREATOR, TOKEN, 5).unwrap();
    assert_eq!(TipJarContract::request_refund(&mut env, SENDER, 2), Ok(()));
}

#[test]
fn odd_records_do_not_break_the_sums() {
    let mut env = jar();
    let record = TipRecord {
        id: 1,
        sender: SENDER,
        creator: CREATOR,
        token: TOKEN,
        amount: i128::MIN,
        timestamp: 1_000,
        refunded: false,
        refund_requested: false,
    };
    env.storage.tips.set(DataKey::TipRecord(1), record);
    assert_eq!(TipJarContract::request_refund(&mut env, SENDER, 1), Err(Abort::Overflow));

    let program = MatchingProgram {
        id: 1,
        sponsor: SPONSOR,
        creator: CREATOR,
        token: TOKEN,
        match_ratio: 100,
        max_match_amount: 1,
        current_matched: i128::MIN,
        active: true,
    };
    env.storage.programs.set(DataKey::MatchingProgram(1), program);
    env.storage.program_lists.set(DataKey::CreatorMatchingPrograms(CREATOR), vec![1]);
    assert_eq!(
        TipJarContract::tip_with_match(&mut env, SENDER, CREATOR, TOKEN, 1),
        Err(Abort::Overflow)
    );
    assert_eq!(
        TipJarContract::cancel_matching_program(&mut env, SPONSOR, 1),
        Err(Abort::Overflow)
    );
}

#[test]
fn a_program_is_created_and_announced() {
    let mut env = jar();
    assert_eq!(
        TipJarContract::create_matching_program(&mut env, SPONSOR, CREATOR, TOKEN, 0, 1),
        refused(TipJarError::InvalidMatchRatio)
    );
    assert_eq!(
        TipJarContract::create_matching_program(&mut env, SPONSOR, CREATOR, TOKEN, 150, 1_000),
        Ok(1)
    );
    assert_eq!(
        env.calls,
        vec![
            HostCall::RequireAuth(SPONSOR),
            HostCall::Transfer { token: TOKEN, from: SPONSOR, to: JAR, amount: 1_000 },
            HostCall::Publish(Event::MatchingCreated {
                creator: CREATOR,
                token: TOKEN,
                sponsor: SPONSOR,
                program_id: 1,
                match_ratio: 150,
                max_match_amount: 1_000,
            }),
        ]
    );
    assert_eq!(
        TipJarContract::get_matching_program(&env, 1),
        Ok(MatchingProgram {
            id: 1,
            sponsor: SPONSOR,
            creator: CREATOR,
            token: TOKEN,
            match_ratio: 150,
            max_match_amount: 1_000,
            current_matched: 0,
            active: true,
        })
    );
    assert_eq!(
        TipJarContract::get_matching_program(&env, 2),
        refused(TipJarError::MatchingProgramNotFound)
    );
}

#[test]
fn matches_are_rounded_down() {
    let mut env = jar();
    TipJarContract::create_matching_program(&mut env, SPONSOR, CREATOR, TOKEN, 150, 1_000).unwrap();
    env.calls.clear();
    // 333 * 150 / 100 = 499.5
    assert_eq!(TipJarContract::tip_with_match(&mut env, SENDER, CREATOR, TOKEN, 333), Ok((1, 499)));
    assert_eq!(
        env.calls,
        vec![
            HostCall::RequireAuth(SENDER),
            HostCall::Transfer { token: TOKEN, from: SENDER, to: JAR, amount: 333 },
            HostCall::Publish(Event::TipMatched {
                creator: CREATOR,
                token: TOKEN,
                sender: SENDER,
                tip_id: 1,
                amount: 333,
                matched_amount: 499,
            }),
        ]
    );
    assert_eq!(TipJarContract::get_withdrawable_balance(&env, CREATOR, TOKEN), 832);
    assert_eq!(TipJarContract::get_total_tips(&env, CREATOR, TOKEN), 832);
    assert_eq!(TipJarContract::get_tip_record(&env, 1).unwrap().amount, 333);
    assert_eq!(TipJarContract::get_matching_program(&env, 1).unwrap().current_matched, 499);
}

#[test]
fn a_one_to_one_match_of_a_huge_tip_equals_the_tip() {
    let mut env = jar();
    let amount: i128 = 1701411834604692317316873037158841058;
    assert_eq!(amount, i128::MAX / 100 + 1);
    TipJarContract::create_matching_program(&mut env, SPONSOR, CREATOR, TOKEN, 100, amount)
        .unwrap();
    assert_eq!(
        TipJarContract::tip_with_match(&mut env, SENDER, CREATOR, TOKEN, amount),
        Ok((1, amount))
    );
    assert!(!TipJarContract::get_matching_program(&env, 1).unwrap().active);
}

#[test]
fn huge_matches_are_exact_or_capped() {
    let mut env = jar();
    // 150 percent of a tip whose product with 150 no i128 can hold.
    let amount: i128 = i128::MAX / 100 + 33;
    let exact: i128 = amount + amount / 2;
    TipJarContract::create_matching_program(&mut env, SPONSOR, CREATOR, TOKEN, 150, exact + 9)
        .unwrap();
    assert_eq!(
        TipJarContract::tip_with_match(&mut env, SENDER, CREATOR, TOKEN, amount),
        Ok((1, exact))
    );
    // A match that no i128 can hold is capped at the budget.
    TipJarContract::create_matching_program(&mut env, SPONSOR, OTHER, TOKEN, u32::MAX, 12_345)
        .unwrap();
    assert_eq!(
        TipJarContract::tip_with_match(&mut env, SENDER, OTHER, TOKEN, i128::MAX / 2),
        Ok((2, 12_345))
    );
}

#[test]
fn only_active_programs_are_listed() {
    let mut env = jar();
    let key = DataKey::CreatorMatchingPrograms(CREATOR);
    TipJarContract::create_matching_program(&mut env, SPONSOR, CREATOR, TOKEN, 100, 500).unwrap();
    TipJarContract::cancel_matching_program(&mut env, SPONSOR, 1).unwrap();
    assert_eq!(env.storage.program_lists.get(key), Some(&vec![]));
    for _ in 0..3 {
        TipJarContract::create_matching_program(&mut env, SPONSOR, CREATOR, TOKEN, 100, 50)
            .unwrap();
    }
    assert_eq!(env.storage.program_lists.get(key), Some(&vec![2, 3, 4]));
    TipJarContract::cancel_matching_program(&mut env, SPONSOR, 3).unwrap();
    assert_eq!(env.storage.program_lists.get(key), Some(&vec![2, 4]));
    // A match that leaves some of the budget keeps the program listed.
    TipJarContract::tip_with_match(&mut env, SENDER, CREATOR, TOKEN, 49).unwrap();
    assert_eq!(env.storage.program_lists.get(key), Some(&vec![2, 4]));
    TipJarContract::tip_with_match(&mut env, SENDER, CREATOR, TOKEN, 49).unwrap();
    assert_eq!(env.storage.program_lists.get(key), Some(&vec![4]));
    assert!(!TipJarContract::get_matching_program(&env, 2).unwrap().active);
}

#[test]
fn a_matched_tip_without_a_program_is_a_tip() {
    let mut plain = jar();
    let mut matched = jar();
    TipJarContract::tip(&mut plain, SENDER, CREATOR, TOKEN, 8).unwrap();
    assert_eq!(
        TipJarContract::tip_with_match(&mut matched, SENDER, CREATOR, TOKEN, 8),
        Ok((1, 0))
    );
    assert_eq!(plain.storage.amounts.rows, matched.storage.amounts.rows);
    assert_eq!(plain.storage.tips.rows, matched.storage.tips.rows);
    assert_eq!(plain.storage.counters.rows, matched.storage.counters.rows);
}

#[test]
fn sums_add_up() {
    let mut env = jar();
    TipJarContract::create_matching_program(&mut env, SPONSOR, CREATOR, TOKEN, 100, 50).unwrap();
    let mut credits: i128 = 0;
    let mut payments: i128 = 0;
    for amount in [7, 20, 3] {
        let (_, added) =
            TipJarContract::tip_with_match(&mut env, SENDER, CREATOR, TOKEN, amount).unwrap();
        credits += amount + added;
        payments += added;
        TipJarContract::tip(&mut env, SENDER, CREATOR, TOKEN, amount).unwrap();
        credits += amount;
    }
    TipJarContract::withdraw(&mut env, CREATOR, TOKEN).unwrap();
    assert_eq!(credits, 90);
    assert_eq!(TipJarContract::get_total_tips(&env, CREATOR, TOKEN), credits);
    assert_eq!(TipJarContract::get_matching_program(&env, 1).unwrap().current_matched, payments);
    // Every number up to the count has its record.
    for id in 1..=6 {
        assert!(TipJarContract::get_tip_record(&env, id).is_ok());
    }
}

#[test]
fn the_first_program_that_can_pay_pays() {
    let mut env = jar();
    TipJarContract::add_token(&mut env, ADMIN, OTHER).unwrap();
    // Another token, cancelled, another creator, and two that fit.
    TipJarContract::create_matching_program(&mut env, SPONSOR, CREATOR, OTHER, 100, 50).unwrap();
    TipJarContract::create_matching_program(&mut env, SPONSOR, CREATOR, TOKEN, 100, 50).unwrap();
    TipJarContract::cancel_matching_program(&mut env, SPONSOR, 2).unwrap();
    TipJarContract::create_matching_program(&mut env, SPONSOR, OTHER, TOKEN, 100, 50).unwrap();
    TipJarContract::create_matching_program(&mut env, SPONSOR, CREATOR, TOKEN, 100, 50).unwrap();
    TipJarContract::create_matching_program(&mut env, SPONSOR, CREATOR, TOKEN, 300, 50).unwrap();
    assert_eq!(TipJarContract::tip_with_match(&mut env, SENDER, CREATOR, TOKEN, 10), Ok((1, 10)));
    assert_eq!(TipJarContract::tip_with_match(&mut env, SENDER, CREATOR, TOKEN, 60), Ok((2, 40)));
    assert_eq!(TipJarContract::tip_with_match(&mut env, SENDER, CREATOR, TOKEN, 10), Ok((3, 30)));
    let spent: Vec<i128> = (1..=5)
        .map(|id| TipJarContract::get_matching_program(&env, id).unwrap().current_matched)
        .collect();
    assert_eq!(spent, vec![0, 0, 0, 50, 30]);
    // A tip without a match leaves the programs alone.
    TipJarContract::tip(&mut env, SENDER, CREATOR, TOKEN, 10).unwrap();
    assert_eq!(TipJarContract::get_matching_program(&env, 5).unwrap().current_matched, 30);
}

#[test]
fn a_listed_program_that_is_missing_is_passed_over() {
    let mut env = jar();
    TipJarContract::create_matching_program(&mut env, SPONSOR, CREATOR, TOKEN, 100, 50).unwrap();
    env.storage.program_lists.set(DataKey::CreatorMatchingPrograms(CREATOR), vec![9, 1]);
    assert_eq!(TipJarContract::tip_with_match(&mut env, SENDER, CREATOR, TOKEN, 10), Ok((1, 10)));
}

#[test]
fn cancelling_returns_the_rest_once() {
    let mut env = jar();
    assert_eq!(
        TipJarContract::cancel_matching_program(&mut env, SPONSOR, 1),
        refused(TipJarError::MatchingProgramNotFound)
    );
    TipJarContract::create_matching_program(&mut env, SPONSOR, CREATOR, TOKEN, 100, 500).unwrap();
    TipJarContract::tip_with_match(&mut env, SENDER, CREATOR, TOKEN, 100).unwrap();
    assert_eq!(
        TipJarContract::cancel_matching_program(&mut env, OTHER, 1),
        refused(TipJarError::Unauthorized)
    );
    env.calls.clear();
    TipJarContract::cancel_matching_program(&mut env, SPONSOR, 1).unwrap();
    assert_eq!(
        env.calls,
        vec![
            HostCall::RequireAuth(SPONSOR),
            HostCall::Transfer { token: TOKEN, from: JAR, to: SPONSOR, amount: 400 },
            HostCall::Publish(Event::MatchingEnded {
                creator: CREATOR,
                token: TOKEN,
                sponsor: SPONSOR,
                program_id: 1,
                unspent: 400,
            }),
        ]
    );
    assert_eq!(
        TipJarContract::cancel_matching_program(&mut env, SPONSOR, 1),
        refused(TipJarError::MatchingProgramInactive)
    );
    assert_eq!(TipJarContract::tip_with_match(&mut env, SENDER, CREATOR, TOKEN, 10), Ok((2, 0)));
}

#[test]
fn a_program_without_a_rest_ends_without_a_payment() {
    let mut env = jar();
    TipJarContract::create_matching_program(&mut env, SPONSOR, CREATOR, TOKEN, 100, 500).unwrap();
    let mut program = TipJarContract::get_matching_program(&env, 1).unwrap();
    program.current_matched = 500;
    env.storage.programs.set(DataKey::MatchingProgram(1), program);
    env.calls.clear();
    TipJarContract::cancel_matching_program(&mut env, SPONSOR, 1).unwrap();
    assert_eq!(
        env.calls,
        vec![
            HostCall::RequireAuth(SPONSOR),
            HostCall::Publish(Event::MatchingEnded {
                creator: CREATOR,
                token: TOKEN,
                sponsor: SPONSOR,
                program_id: 1,
                unspent: 0,
            }),
        ]
    );
}

#[test]
fn errors_have_their_numbers() {
    let all = [
        TipJarError::AlreadyInitialized,
        TipJarError::TokenNotWhitelisted,
        TipJarError::InvalidAmount,
        TipJarError::NothingToWithdraw,
        TipJarError::MessageTooLong,
        TipJarError::MilestoneNotFound,
        TipJarError::MilestoneAlreadyCompleted,
        TipJarError::InvalidGoalAmount,
        TipJarError::Unauthorized,
        TipJarError::TipNotFound,
        TipJarError::AlreadyRefunded,
        TipJarError::RefundNotRequested,
        TipJarError::GracePeriodExpired,
        TipJarError::MatchingProgramNotFound,
        TipJarError::MatchingProgramInactive,
        TipJarError::InvalidMatchRatio,
    ];
    for (i, error) in all.iter().enumerate() {
        assert_eq!(error.code(), i as u32 + 1);
    }
}

#[test]
fn events_have_their_topics() {
    let event = Event::Withdraw { creator: CREATOR, token: TOKEN, amount: 1 };
    assert_eq!(event.topic(), "withdraw");
    let event = Event::Tip { creator: CREATOR, token: TOKEN, sender: SENDER, amount: 1, tip_id: 1 };
    assert_eq!(event.topic(), "tip");
    let event = Event::TipMessage {
        creator: CREATOR,
        sender: SENDER,
        amount: 1,
        message: vec![],
        metadata: metadata(b"", b""),
        tip_id: 1,
    };
    assert_eq!(event.topic(), "tip_msg");
    let event = Event::Refund {
        creator: CREATOR,
        token: TOKEN,
        sender: SENDER,
        tip_id: 1,
        amount: 1,
        automatic: true,
    };
    assert_eq!(event.topic(), "refund");
    let event = Event::RefundRequested {
        creator: CREATOR,
        token: TOKEN,
        sender: SENDER,
        tip_id: 1,
        amount: 1,
    };
    assert_eq!(event.topic(), "ref_req");
    let event = Event::MatchingCreated {
        creator: CREATOR,
        token: TOKEN,
        sponsor: SPONSOR,
        program_id: 1,
        match_ratio: 1,
        max_match_amount: 1,
    };
    assert_eq!(event.topic(), "match_new");
    let event = Event::TipMatched {
        creator: CREATOR,
        token: TOKEN,
        sender: SENDER,
        tip_id: 1,
        amount: 1,
        matched_amount: 1,
    };
    assert_eq!(event.topic(), "tip_match");
    let event = Event::MatchingEnded {
        creator: CREATOR,
        token: TOKEN,
        sponsor: SPONSOR,
        program_id: 1,
        unspent: 1,
    };
    assert_eq!(event.topic(), "match_end");
}

#[test]
fn tables_find_the_first_row() {
    let mut table: Table<u64> = Table::new();
    assert!(!table.has(DataKey::TipCounter));
    table.set(DataKey::TipCounter, 1);
    table.set(DataKey::MatchingCounter, 2);
    table.set(DataKey::TipCounter, 3);
    assert_eq!(table.rows.len(), 2);
    assert_eq!(table.get(DataKey::TipCounter), Some(&3));
    table.rows.push((DataKey::MatchingCounter, 9));
    assert_eq!(table.get(DataKey::MatchingCounter), Some(&2));
    assert_eq!(table.get(DataKey::Paused), None);
}

#[test]
fn footprints_grow_with_what_is_at_hand() {
    let mut env = jar();
    let refund = Call::RequestRefund { sender: SENDER, tip_id: 1 };
    assert_eq!(refund.footprint(&env.storage), vec![DataKey::Paused, DataKey::TipRecord(1)]);
    TipJarContract::tip(&mut env, SENDER, CREATOR, TOKEN, 5).unwrap();
    assert_eq!(
        refund.footprint(&env.storage),
        vec![
            DataKey::Paused,
            DataKey::TipRecord(1),
            DataKey::CreatorBalance(CREATOR, TOKEN),
        ]
    );
    let tip = Call::TipWithMatch { sender: SENDER, creator: CREATOR, token: TOKEN, amount: 5 };
    TipJarContract::create_matching_program(&mut env, SPONSOR, CREATOR, TOKEN, 100, 50).unwrap();
    assert_eq!(
        tip.footprint(&env.storage),
        vec![
            DataKey::Paused,
            DataKey::CreatorBalance(CREATOR, TOKEN),
            DataKey::CreatorTotal(CREATOR, TOKEN),
            DataKey::TipCounter,
            DataKey::TokenWhitelist(TOKEN),
            DataKey::CreatorMatchingPrograms(CREATOR),
            DataKey::MatchingProgram(1),
        ]
    );
    let cancel = Call::CancelMatchingProgram { sponsor: SPONSOR, program_id: 1 };
    assert_eq!(
        cancel.footprint(&Storage::new()),
        vec![DataKey::Paused, DataKey::MatchingProgram(1)]
    );
    assert_eq!(
        cancel.footprint(&env.storage),
        vec![
            DataKey::Paused,
            DataKey::MatchingProgram(1),
            DataKey::CreatorMatchingPrograms(CREATOR),
        ]
    );
    let add = Call::AddToken { admin: ADMIN, token: TOKEN };
    assert_eq!(add.footprint(&env.storage), vec![DataKey::Admin, DataKey::Paused]);
}

#[test]
fn the_footprint_is_enough() {
    let mut full = jar();
    TipJarContract::create_matching_program(&mut full, SPONSOR, CREATOR, TOKEN, 100, 50).unwrap();
    TipJarContract::tip(&mut full, SENDER, OTHER, TOKEN, 5).unwrap();
    full.calls.clear();
    // Only what a matched tip needs.
    let mut part = Env::new(JAR, 1_000);
    part.storage = Storage::new();
    part.storage.flags.set(DataKey::TokenWhitelist(TOKEN), true);
    part.storage.counters.set(DataKey::TipCounter, 1);
    part.storage.program_lists.set(DataKey::CreatorMatchingPrograms(CREATOR), vec![1]);
    let program = TipJarContract::get_matching_program(&full, 1).unwrap();
    part.storage.programs.set(DataKey::MatchingProgram(1), program);
    assert_eq!(
        TipJarContract::tip_with_match(&mut part, SENDER, CREATOR, TOKEN, 20),
        TipJarContract::tip_with_match(&mut full, SENDER, CREATOR, TOKEN, 20)
    );
    assert_eq!(part.calls, full.calls);
    assert_eq!(
        TipJarContract::get_matching_program(&part, 1),
        TipJarContract::get_matching_program(&full, 1)
    );
    assert_eq!(
        TipJarContract::get_withdrawable_balance(&part, CREATOR, TOKEN),
        TipJarContract::get_withdrawable_balance(&full, CREATOR, TOKEN)
    );
}

#[test]
fn a_note_does_not_change_the_tip() {
    let mut plain = jar();
    let mut noted = jar();
    TipJarContract::tip(&mut plain, SENDER, CREATOR, TOKEN, 8).unwrap();
    TipJarContract::tip_with_message(
        &mut noted, SENDER, CREATOR, TOKEN, 8, b"hi".to_vec(), metadata(b"a", b"b"),
    )
    .unwrap();
    assert_eq!(
        TipJarContract::get_tip_record(&plain, 1),
        TipJarContract::get_tip_record(&noted, 1)
    );
    assert_eq!(TipJarContract::get_withdrawable_balance(&noted, CREATOR, TOKEN), 8);
    assert_eq!(TipJarContract::get_total_tips(&noted, CREATOR, TOKEN), 8);
    assert_eq!(plain.calls[0..2].to_vec(), noted.calls[0..2].to_vec());
}

#[test]
fn tips_of_every_kind_can_be_taken_back() {
    let mut env = jar();
    TipJarContract::create_matching_program(&mut env, SPONSOR, CREATOR, TOKEN, 100, 50).unwrap();
    TipJarContract::tip(&mut env, SENDER, CREATOR, TOKEN, 1).unwrap();
    TipJarContract::tip_with_message(
        &mut env, SENDER, CREATOR, TOKEN, 2, b"hi".to_vec(), metadata(b"a", b"b"),
    )
    .unwrap();
    TipJarContract::tip_with_match(&mut env, SENDER, CREATOR, TOKEN, 4).unwrap();
    for tip_id in [1, 2, 3] {
        assert_eq!(TipJarContract::request_refund(&mut env, SENDER, tip_id), Ok(()));
    }
    // What the sponsor added stays with the creator.
    assert_eq!(TipJarContract::get_withdrawable_balance(&env, CREATOR, TOKEN), 4);
    assert_eq!(TipJarContract::get_messages(&env, CREATOR).len(), 1);
}

#[test]
fn history_is_kept() {
    let mut env = jar();
    TipJarContract::tip(&mut env, SENDER, CREATOR, TOKEN, 10).unwrap();
    TipJarContract::create_matching_program(&mut env, SPONSOR, CREATOR, TOKEN, 100, 5).unwrap();
    TipJarContract::tip_with_match(&mut env, SENDER, CREATOR, TOKEN, 9).unwrap();
    TipJarContract::request_refund(&mut env, SENDER, 1).unwrap();
    let refunded = TipJarContract::get_tip_record(&env, 1).unwrap();
    let ended = TipJarContract::get_matching_program(&env, 1).unwrap();
    assert!(refunded.refunded);
    assert!(!ended.active);

    TipJarContract::withdraw(&mut env, CREATOR, TOKEN).unwrap();
    TipJarContract::pause(&mut env, ADMIN).unwrap();
    TipJarContract::unpause(&mut env, ADMIN).unwrap();
    TipJarContract::tip_with_match(&mut env, SENDER, CREATOR, TOKEN, 3).unwrap();
    let _ = TipJarContract::request_refund(&mut env, SENDER, 1);
    let _ = TipJarContract::cancel_matching_program(&mut env, SPONSOR, 1);
    let _ = TipJarContract::init(&mut env, OTHER);

    assert_eq!(TipJarContract::get_tip_record(&env, 1), Ok(refunded));
    assert_eq!(TipJarContract::get_matching_program(&env, 1), Ok(ended));
    assert_eq!(TipJarContract::get_total_tips(&env, CREATOR, TOKEN), 10 + 14 + 3);
    assert_eq!(env.storage.admins.get(DataKey::Admin), Some(&ADMIN));
}
