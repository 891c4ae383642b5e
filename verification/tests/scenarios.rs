//! The jar as its users see it: whole stories, with the tokens that change
//! hands.

use tipjar::{Abort, Address, Env, HostCall, TipJarContract, TipJarError};

const GRACE_PERIOD_SECS: u64 = 86_400;

/// A jar, and the tokens that were minted for the people around it.
struct World {
    env: Env,
    minted: Vec<(Address, Address, i128)>,
    addresses: u64,
}

impl World {
    fn generate(&mut self) -> Address {
        self.addresses += 1;
        Address { id: self.addresses }
    }

    fn mint(&mut self, token: Address, to: Address, amount: i128) {
        self.minted.push((token, to, amount));
    }

    /// What `who` holds of `token` after everything that the jar has asked for.
    fn balance(&self, token: Address, who: Address) -> i128 {
        let mut held: i128 = 0;
        for (of, to, amount) in &self.minted {
            if *of == token && *to == who {
                held += amount;
            }
        }
        for call in &self.env.calls {
            if let HostCall::Transfer { token: of, from, to, amount } = call {
                if *of == token && *from == who {
                    held -= amount;
                }
                if *of == token && *to == who {
                    held += amount;
                }
            }
        }
        held
    }
}

fn setup() -> (World, Address, Address, Address, Address) {
    let mut world = World {
        env: Env::new(Address { id: 0 }, 0),
        minted: Vec::new(),
        addresses: 0,
    };
    let token_id_1 = world.generate();
    let token_id_2 = world.generate();
    let admin = world.generate();
    TipJarContract::init(&mut world.env, admin).unwrap();
    TipJarContract::add_token(&mut world.env, admin, token_id_1).unwrap();
    let contract_id = world.env.contract;
    (world, contract_id, token_id_1, token_id_2, admin)
}

#[test]
fn test_tipping_functionality_multi_token() {
    let (mut world, contract_id, token_id_1, token_id_2, admin) = setup();
    let sender = world.generate();
    let creator = world.generate();

    world.mint(token_id_1, sender, 1_000);
    world.mint(token_id_2, sender, 1_000);

    // Success for whitelisted token 1
    TipJarContract::tip(&mut world.env, sender, creator, token_id_1, 250).unwrap();
    assert_eq!(world.balance(token_id_1, sender), 750);
    assert_eq!(world.balance(token_id_1, contract_id), 250);
    assert_eq!(TipJarContract::get_total_tips(&world.env, creator, token_id_1), 250);

    // Failure for non-whitelisted token 2
    let result = TipJarContract::tip(&mut world.env, sender, creator, token_id_2, 100);
    assert!(result.is_err());

    // Success after whitelisting token 2
    TipJarContract::add_token(&mut world.env, admin, token_id_2).unwrap();
    TipJarContract::tip(&mut world.env, sender, creator, token_id_2, 300).unwrap();
    assert_eq!(TipJarContract::get_total_tips(&world.env, creator, token_id_2), 300);
}

#[test]
fn test_balance_tracking_and_withdraw() {
    let (mut world, _, token_id, _, _) = setup();
    let sender_a = world.generate();
    let sender_b = world.generate();
    let creator = world.generate();

    world.mint(token_id, sender_a, 1_000);
    world.mint(token_id, sender_b, 1_000);

    TipJarContract::tip(&mut world.env, sender_a, creator, token_id, 100).unwrap();
    TipJarContract::tip(&mut world.env, sender_b, creator, token_id, 300).unwrap();

    assert_eq!(TipJarContract::get_total_tips(&world.env, creator, token_id), 400);
    assert_eq!(TipJarContract::get_withdrawable_balance(&world.env, creator, token_id), 400);

    TipJarContract::withdraw(&mut world.env, creator, token_id).unwrap();

    assert_eq!(TipJarContract::get_withdrawable_balance(&world.env, creator, token_id), 0);
    assert_eq!(world.balance(token_id, creator), 400);
}

#[test]
#[should_panic]
fn test_invalid_tip_amount() {
    let (mut world, _, token_id_1, _, _) = setup();
    let sender = world.generate();
    let creator = world.generate();

    world.mint(token_id_1, sender, 100);
    TipJarContract::tip(&mut world.env, sender, creator, token_id_1, 0).unwrap();
}

#[test]
fn test_pause_unpause() {
    let (mut world, _, token_id_1, _, admin) = setup();

    TipJarContract::pause(&mut world.env, admin).unwrap();

    let sender = world.generate();
    let creator = world.generate();

    let result = TipJarContract::tip(&mut world.env, sender, creator, token_id_1, 100);
    assert!(result.is_err());

    TipJarContract::unpause(&mut world.env, admin).unwrap();

    world.mint(token_id_1, sender, 100);
    TipJarContract::tip(&mut world.env, sender, creator, token_id_1, 100).unwrap();
    assert_eq!(TipJarContract::get_total_tips(&world.env, creator, token_id_1), 100);
}

#[test]
#[should_panic]
fn test_pause_admin_only() {
    let (mut world, _, _, _, _) = setup();
    let non_admin = world.generate();

    TipJarContract::pause(&mut world.env, non_admin).unwrap();
}

#[test]
fn test_refund_within_grace_period() {
    let (mut world, _, token_id, _, _) = setup();
    let sender = world.generate();
    let creator = world.generate();

    world.mint(token_id, sender, 500);

    world.env.timestamp = 1_000;
    let tip_id = TipJarContract::tip(&mut world.env, sender, creator, token_id, 200).unwrap();

    assert_eq!(TipJarContract::get_withdrawable_balance(&world.env, creator, token_id), 200);

    // Still within 24 h grace period.
    world.env.timestamp = 1_000 + GRACE_PERIOD_SECS - 1;
    TipJarContract::request_refund(&mut world.env, sender, tip_id).unwrap();

    // Creator balance reduced, sender got money back.
    assert_eq!(TipJarContract::get_withdrawable_balance(&world.env, creator, token_id), 0);
    assert_eq!(world.balance(token_id, sender), 500); // full balance restored

    // Record marked as refunded.
    let record = TipJarContract::get_tip_record(&world.env, tip_id).unwrap();
    assert!(record.refunded);
    assert!(!record.refund_requested);
}

#[test]
fn test_refund_after_grace_period_requires_approval() {
    let (mut world, _, token_id, _, _) = setup();
    let sender = world.generate();
    let creator = world.generate();

    world.mint(token_id, sender, 500);

    world.env.timestamp = 1_000;
    let tip_id = TipJarContract::tip(&mut world.env, sender, creator, token_id, 200).unwrap();

    // Past grace period.
    world.env.timestamp = 1_000 + GRACE_PERIOD_SECS + 1;
    TipJarContract::request_refund(&mut world.env, sender, tip_id).unwrap();

    // Funds still held; refund_requested flag set.
    assert_eq!(TipJarContract::get_withdrawable_balance(&world.env, creator, token_id), 200);
    let record = TipJarContract::get_tip_record(&world.env, tip_id).unwrap();
    assert!(!record.refunded);
    assert!(record.refund_requested);

    // Creator approves.
    TipJarContract::approve_refund(&mut world.env, creator, tip_id).unwrap();

    assert_eq!(TipJarContract::get_withdrawable_balance(&world.env, creator, token_id), 0);
    assert_eq!(world.balance(token_id, sender), 500);

    let record = TipJarContract::get_tip_record(&world.env, tip_id).unwrap();
    assert!(record.refunded);
    assert!(!record.refund_requested);
}

#[test]
#[should_panic]
fn test_double_refund_prevented() {
    let (mut world, _, token_id, _, _) = setup();
    let sender = world.generate();
    let creator = world.generate();

    world.mint(token_id, sender, 500);

    world.env.timestamp = 1_000;
    let tip_id = TipJarContract::tip(&mut world.env, sender, creator, token_id, 200).unwrap();

    // First refund within grace period: succeeds.
    let first = TipJarContract::request_refund(&mut world.env, sender, tip_id);
    if first.is_err() {
        return;
    }

    // Second attempt: should panic with AlreadyRefunded.
    TipJarContract::request_refund(&mut world.env, sender, tip_id).unwrap();
}

#[test]
#[should_panic]
fn test_approve_refund_without_request_fails() {
    let (mut world, _, token_id, _, _) = setup();
    let sender = world.generate();
    let creator = world.generate();

    world.mint(token_id, sender, 500);

    world.env.timestamp = 1_000;
    let tip_id = TipJarContract::tip(&mut world.env, sender, creator, token_id, 200).unwrap();

    // No request was made: creator cannot approve.
    TipJarContract::approve_refund(&mut world.env, creator, tip_id).unwrap();
}

#[test]
#[should_panic]
fn test_wrong_sender_cannot_request_refund() {
    let (mut world, _, token_id, _, _) = setup();
    let sender = world.generate();
    let attacker = world.generate();
    let creator = world.generate();

    world.mint(token_id, sender, 500);

    world.env.timestamp = 1_000;
    let tip_id = TipJarContract::tip(&mut world.env, sender, creator, token_id, 200).unwrap();

    // Different address tries to refund.
    TipJarContract::request_refund(&mut world.env, attacker, tip_id).unwrap();
}

#[test]
fn test_refund_balance_updates_correctly_with_multiple_tips() {
    let (mut world, _, token_id, _, _) = setup();
    let sender = world.generate();
    let creator = world.generate();

    world.mint(token_id, sender, 1_000);

    world.env.timestamp = 1_000;
    let tip_id_1 = TipJarContract::tip(&mut world.env, sender, creator, token_id, 300).unwrap();
    let tip_id_2 = TipJarContract::tip(&mut world.env, sender, creator, token_id, 200).unwrap();

    assert_eq!(TipJarContract::get_withdrawable_balance(&world.env, creator, token_id), 500);

    // Refund only the first tip within grace period.
    TipJarContract::request_refund(&mut world.env, sender, tip_id_1).unwrap();

    assert_eq!(TipJarContract::get_withdrawable_balance(&world.env, creator, token_id), 200);
    assert_eq!(world.balance(token_id, sender), 800); // 1000 - 500 + 300

    // Second tip still intact.
    let record2 = TipJarContract::get_tip_record(&world.env, tip_id_2).unwrap();
    assert!(!record2.refunded);
}

#[test]
fn test_match_calculation_1_to_1() {
    let (mut world, _, token_id, _, _) = setup();
    let sponsor = world.generate();
    let sender = world.generate();
    let creator = world.generate();

    world.mint(token_id, sponsor, 1_000);
    world.mint(token_id, sender, 500);

    // 1:1 match, budget = 500
    let program_id = TipJarContract::create_matching_program(
        &mut world.env, sponsor, creator, token_id, 100u32, 500i128,
    ).unwrap();
    assert_eq!(world.balance(token_id, sponsor), 500); // 500 deposited

    let (_, matched) =
        TipJarContract::tip_with_match(&mut world.env, sender, creator, token_id, 200).unwrap();

    assert_eq!(matched, 200); // 1:1
    assert_eq!(TipJarContract::get_withdrawable_balance(&world.env, creator, token_id), 400);
    assert_eq!(TipJarContract::get_total_tips(&world.env, creator, token_id), 400);

    let program = TipJarContract::get_matching_program(&world.env, program_id).unwrap();
    assert_eq!(program.current_matched, 200);
    assert!(program.active);
}

#[test]
fn test_match_calculation_2_to_1() {
    let (mut world, _, token_id, _, _) = setup();
    let sponsor = world.generate();
    let sender = world.generate();
    let creator = world.generate();

    world.mint(token_id, sponsor, 1_000);
    world.mint(token_id, sender, 500);

    // 2:1 match (ratio=200), budget = 1000
    TipJarContract::create_matching_program(
        &mut world.env, sponsor, creator, token_id, 200u32, 1_000i128,
    ).unwrap();

    let (_, matched) =
        TipJarContract::tip_with_match(&mut world.env, sender, creator, token_id, 100).unwrap();

    assert_eq!(matched, 200); // 2:1
    assert_eq!(TipJarContract::get_withdrawable_balance(&world.env, creator, token_id), 300);
}

#[test]
fn test_match_limit_caps_at_budget() {
    let (mut world, _, token_id, _, _) = setup();
    let sponsor = world.generate();
    let sender = world.generate();
    let creator = world.generate();

    world.mint(token_id, sponsor, 150);
    world.mint(token_id, sender, 1_000);

    // 1:1 match but only 150 budget
    TipJarContract::create_matching_program(
        &mut world.env, sponsor, creator, token_id, 100u32, 150i128,
    ).unwrap();

    // Tip of 200: match capped at 150
    let (_, matched) =
        TipJarContract::tip_with_match(&mut world.env, sender, creator, token_id, 200).unwrap();
    assert_eq!(matched, 150);
    assert_eq!(TipJarContract::get_withdrawable_balance(&world.env, creator, token_id), 350);
}

#[test]
fn test_program_exhaustion_deactivates() {
    let (mut world, _, token_id, _, _) = setup();
    let sponsor = world.generate();
    let sender = world.generate();
    let creator = world.generate();

    world.mint(token_id, sponsor, 100);
    world.mint(token_id, sender, 1_000);

    let program_id = TipJarContract::create_matching_program(
        &mut world.env, sponsor, creator, token_id, 100u32, 100i128,
    ).unwrap();

    // Exhaust the budget in one tip
    let (_, matched) =
        TipJarContract::tip_with_match(&mut world.env, sender, creator, token_id, 100).unwrap();
    assert_eq!(matched, 100);

    let program = TipJarContract::get_matching_program(&world.env, program_id).unwrap();
    assert!(!program.active); // exhausted

    // Next tip gets no match
    let (_, matched2) =
        TipJarContract::tip_with_match(&mut world.env, sender, creator, token_id, 100).unwrap();
    assert_eq!(matched2, 0);
}

#[test]
fn test_cancel_matching_program_returns_unspent() {
    let (mut world, _, token_id, _, _) = setup();
    let sponsor = world.generate();
    let sender = world.generate();
    let creator = world.generate();

    world.mint(token_id, sponsor, 500);
    world.mint(token_id, sender, 200);

    let program_id = TipJarContract::create_matching_program(
        &mut world.env, sponsor, creator, token_id, 100u32, 500i128,
    ).unwrap();

    // Use 100 of the budget
    TipJarContract::tip_with_match(&mut world.env, sender, creator, token_id, 100).unwrap();

    // Cancel: should return 400 unspent
    TipJarContract::cancel_matching_program(&mut world.env, sponsor, program_id).unwrap();
    assert_eq!(world.balance(token_id, sponsor), 400);

    let program = TipJarContract::get_matching_program(&world.env, program_id).unwrap();
    assert!(!program.active);
}

#[test]
fn test_multiple_concurrent_matching_programs() {
    let (mut world, _, token_id, _, _) = setup();
    let sponsor1 = world.generate();
    let sponsor2 = world.generate();
    let sender = world.generate();
    let creator = world.generate();

    world.mint(token_id, sponsor1, 200);
    world.mint(token_id, sponsor2, 300);
    world.mint(token_id, sender, 1_000);

    // Two programs: first one (sponsor1) used first
    TipJarContract::create_matching_program(
        &mut world.env, sponsor1, creator, token_id, 100u32, 200i128,
    ).unwrap();
    TipJarContract::create_matching_program(
        &mut world.env, sponsor2, creator, token_id, 100u32, 300i128,
    ).unwrap();

    // Tip 300: sponsor1 covers up to 200 (its full budget)
    let (_, matched) =
        TipJarContract::tip_with_match(&mut world.env, sender, creator, token_id, 300).unwrap();
    assert_eq!(matched, 200); // sponsor1 exhausted

    // Next tip picks up sponsor2
    let (_, matched2) =
        TipJarContract::tip_with_match(&mut world.env, sender, creator, token_id, 100).unwrap();
    assert_eq!(matched2, 100);
}

#[test]
fn the_jar_holds_what_it_owes() {
    let (mut world, jar, token, _, _) = setup();
    let sponsor = world.generate();
    let sender = world.generate();
    let creator = world.generate();
    let other = world.generate();

    TipJarContract::create_matching_program(&mut world.env, sponsor, creator, token, 50, 1_000)
        .unwrap();
    let (first, added) =
        TipJarContract::tip_with_match(&mut world.env, sender, creator, token, 101).unwrap();
    assert_eq!(added, 50);
    TipJarContract::tip(&mut world.env, sender, other, token, 7).unwrap();
    // 950 left of the budget, 151 for one creator, 7 for the other.
    assert_eq!(world.balance(token, jar), 950 + 151 + 7);

    TipJarContract::request_refund(&mut world.env, sender, first).unwrap();
    TipJarContract::withdraw(&mut world.env, creator, token).unwrap();
    TipJarContract::cancel_matching_program(&mut world.env, sponsor, 1).unwrap();
    assert_eq!(world.balance(token, jar), 7);
    assert_eq!(world.balance(token, creator), 50);
    assert_eq!(world.balance(token, sponsor), -50);
}

#[test]
fn a_withdrawn_tip_is_refunded_out_of_what_others_own() {
    let (mut world, jar, token, _, _) = setup();
    let sender = world.generate();
    let creator = world.generate();
    let other = world.generate();

    let tip_id = TipJarContract::tip(&mut world.env, sender, creator, token, 100).unwrap();
    TipJarContract::tip(&mut world.env, sender, other, token, 500).unwrap();
    TipJarContract::withdraw(&mut world.env, creator, token).unwrap();
    TipJarContract::request_refund(&mut world.env, sender, tip_id).unwrap();

    assert_eq!(TipJarContract::get_withdrawable_balance(&world.env, creator, token), 0);
    assert_eq!(TipJarContract::get_withdrawable_balance(&world.env, other, token), 500);
    assert_eq!(world.balance(token, jar), 400);
}

#[test]
fn a_second_refund_is_refused_by_name() {
    let (mut world, _, token, _, _) = setup();
    let sender = world.generate();
    let creator = world.generate();
    let tip_id = TipJarContract::tip(&mut world.env, sender, creator, token, 200).unwrap();
    TipJarContract::request_refund(&mut world.env, sender, tip_id).unwrap();
    assert_eq!(
        TipJarContract::request_refund(&mut world.env, sender, tip_id),
        Err(Abort::Error(TipJarError::AlreadyRefunded))
    );
    assert_eq!(
        TipJarContract::approve_refund(&mut world.env, creator, tip_id),
        Err(Abort::Error(TipJarError::AlreadyRefunded))
    );
}
