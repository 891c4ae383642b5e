//! What each call means.
//!
//! For every entry point there are two functions of the environment before the
//! call: `.._refusal` says why the call is abandoned, if it is, and `.._after`
//! is the environment that it leaves behind. An abandoned call changes no
//! ledger entry; what it asked of the host before it was abandoned stays
//! asked.

use crate::env::{EnvView, Event, HostCall, StorageView};
use crate::types::{
    Abort, Address, DataKey, MatchingProgram, Metadata, TipJarError, TipRecord, TipWithMessageView,
};
use vstd::prelude::*;

verus! {

/// For how long after a tip its sender gets it back for the asking: 24 hours,
/// in seconds.
pub const GRACE_PERIOD_SECS: u64 = 86_400;

/// The most bytes that a note may have.
pub const MAX_MESSAGE_LEN: usize = 280;

/// The outcome of a call that is worth `value` unless it is refused.
pub open spec fn outcome<T>(refusal: Option<Abort>, value: T) -> Result<T, Abort> {
    match refusal {
        Some(abort) => Err(abort),
        None => Ok(value),
    }
}

pub open spec fn error(e: TipJarError) -> Option<Abort> {
    Some(Abort::Error(e))
}

// Administration

pub open spec fn init_refusal(s: StorageView) -> Option<Abort> {
    if s.admin() is Some {
        error(TipJarError::AlreadyInitialized)
    } else {
        None
    }
}

pub open spec fn init_after(e: EnvView, admin: Address) -> EnvView {
    if init_refusal(e.storage) is None {
        e.storing(e.storage.with_admin(admin).with_flag(DataKey::Paused, false))
    } else {
        e
    }
}

/// Only the administrator may change a flag.
pub open spec fn admin_refusal(s: StorageView, caller: Address) -> Option<Abort> {
    match s.admin() {
        None => Some(Abort::NotInitialized),
        Some(admin) => if caller != admin {
            error(TipJarError::Unauthorized)
        } else {
            None
        },
    }
}

/// `caller` has set a flag, if it is the administrator.
pub open spec fn flag_after(e: EnvView, caller: Address, key: DataKey, value: bool) -> EnvView {
    let asked = e.asking(seq![HostCall::RequireAuth(caller)]);
    if admin_refusal(e.storage, caller) is None {
        asked.storing(e.storage.with_flag(key, value))
    } else {
        asked
    }
}

/// Only the administrator may change the whitelist, and only while the jar is
/// not paused.
pub open spec fn listing_refusal(s: StorageView, caller: Address) -> Option<Abort> {
    if s.paused() {
        Some(Abort::Paused)
    } else {
        admin_refusal(s, caller)
    }
}

/// `caller` has listed or delisted a token, if it is the administrator and the
/// jar is not paused.
pub open spec fn listing_after(e: EnvView, caller: Address, token: Address, listed: bool) -> EnvView {
    if e.storage.paused() {
        e
    } else {
        flag_after(e, caller, DataKey::TokenWhitelist(token), listed)
    }
}

// Tips

/// The number that the next tip will get.
pub open spec fn next_tip_id(s: StorageView) -> u64 {
    (s.tip_count() + 1) as u64
}

/// The record of a tip that was just made.
pub open spec fn new_tip(
    e: EnvView,
    sender: Address,
    creator: Address,
    token: Address,
    amount: i128,
) -> TipRecord {
    TipRecord {
        id: next_tip_id(e.storage),
        sender,
        creator,
        token,
        amount,
        timestamp: e.timestamp,
        refunded: false,
        refund_requested: false,
    }
}

/// `sender` is asked to authorise the call, and to pay the jar.
pub open spec fn deposit_calls(
    e: EnvView,
    payer: Address,
    token: Address,
    amount: i128,
) -> Seq<HostCall> {
    seq![
        HostCall::RequireAuth(payer),
        HostCall::Transfer { token, from: payer, to: e.contract, amount },
    ]
}

/// Whether one more tip, worth `credit` to the creator, fits into the books.
pub open spec fn can_book(s: StorageView, creator: Address, token: Address, credit: int) -> bool {
    s.can_credit(creator, token, credit) && s.tip_count() < u64::MAX
}

pub open spec fn tip_refusal(
    s: StorageView,
    creator: Address,
    token: Address,
    amount: i128,
) -> Option<Abort> {
    if s.paused() {
        Some(Abort::Paused)
    } else if amount <= 0 {
        error(TipJarError::InvalidAmount)
    } else if !s.whitelisted(token) {
        error(TipJarError::TokenNotWhitelisted)
    } else if !can_book(s, creator, token, amount as int) {
        Some(Abort::Overflow)
    } else {
        None
    }
}

pub open spec fn tip_after(
    e: EnvView,
    sender: Address,
    creator: Address,
    token: Address,
    amount: i128,
) -> EnvView {
    let deposit = deposit_calls(e, sender, token, amount);
    match tip_refusal(e.storage, creator, token, amount) {
        None => {
            let record = new_tip(e, sender, creator, token, amount);
            e.storing(
                e.storage.with_credit(creator, token, amount as int).with_new_tip(record),
            ).asking(
                deposit + seq![
                    HostCall::Publish(
                        Event::Tip { creator, token, sender, amount, tip_id: record.id },
                    ),
                ],
            )
        },
        Some(Abort::Overflow) => e.asking(deposit),
        Some(_) => e,
    }
}

pub open spec fn tip_with_message_refusal(
    s: StorageView,
    creator: Address,
    token: Address,
    amount: i128,
    message: Seq<u8>,
) -> Option<Abort> {
    if s.paused() {
        Some(Abort::Paused)
    } else if amount <= 0 {
        error(TipJarError::InvalidAmount)
    } else if message.len() > MAX_MESSAGE_LEN {
        error(TipJarError::MessageTooLong)
    } else if !can_book(s, creator, token, amount as int) {
        Some(Abort::Overflow)
    } else {
        None
    }
}

pub open spec fn tip_with_message_after(
    e: EnvView,
    sender: Address,
    creator: Address,
    token: Address,
    amount: i128,
    message: Vec<u8>,
    metadata: Metadata,
) -> EnvView {
    let deposit = deposit_calls(e, sender, token, amount);
    match tip_with_message_refusal(e.storage, creator, token, amount, message@) {
        None => {
            let record = new_tip(e, sender, creator, token, amount);
            let note = TipWithMessageView {
                sender,
                creator,
                amount,
                message: message@,
                metadata: metadata@,
                timestamp: e.timestamp,
            };
            e.storing(
                e.storage.with_credit(creator, token, amount as int).with_message(
                    creator,
                    note,
                ).with_new_tip(record),
            ).asking(
                deposit + seq![
                    HostCall::Publish(
                        Event::TipMessage {
                            creator,
                            sender,
                            amount,
                            message,
                            metadata,
                            tip_id: record.id,
                        },
                    ),
                ],
            )
        },
        Some(Abort::Overflow) => e.asking(deposit),
        Some(_) => e,
    }
}

pub open spec fn withdraw_refusal(s: StorageView, creator: Address, token: Address) -> Option<
    Abort,
> {
    if s.paused() {
        Some(Abort::Paused)
    } else if s.balance(creator, token) <= 0 {
        error(TipJarError::NothingToWithdraw)
    } else {
        None
    }
}

pub open spec fn withdraw_after(e: EnvView, creator: Address, token: Address) -> EnvView {
    let auth = HostCall::RequireAuth(creator);
    let amount = e.storage.balance(creator, token);
    match withdraw_refusal(e.storage, creator, token) {
        None => e.storing(e.storage.with_balance(creator, token, 0)).asking(
            seq![
                auth,
                HostCall::Transfer { token, from: e.contract, to: creator, amount },
                HostCall::Publish(Event::Withdraw { creator, token, amount }),
            ],
        ),
        Some(Abort::Paused) => e,
        Some(_) => e.asking(seq![auth]),
    }
}

// Refunds

/// What a creator keeps when a tip goes back: the balance less the tip, or
/// nothing where the tip is more than the balance.
pub open spec fn balance_after_refund(s: StorageView, record: TipRecord) -> int {
    let balance = s.balance(record.creator, record.token);
    if balance >= record.amount {
        balance - record.amount
    } else {
        0
    }
}

/// The tip has gone back to its sender.
pub open spec fn refunded(record: TipRecord) -> TipRecord {
    TipRecord { refunded: true, refund_requested: false, ..record }
}

/// The books after a tip has gone back.
pub open spec fn refund_storage(s: StorageView, record: TipRecord) -> StorageView {
    s.with_balance(
        record.creator,
        record.token,
        balance_after_refund(s, record) as i128,
    ).with_tip(record.id, refunded(record))
}

/// The environment after a tip has been sent back.
pub open spec fn execute_refund_after(e: EnvView, record: TipRecord) -> EnvView {
    e.storing(refund_storage(e.storage, record)).asking(
        seq![
            HostCall::Transfer {
                token: record.token,
                from: e.contract,
                to: record.sender,
                amount: record.amount,
            },
        ],
    )
}

/// The tip goes back to its sender, and this is announced.
pub open spec fn refund_calls(
    e: EnvView,
    record: TipRecord,
    tip_id: u64,
    automatic: bool,
) -> Seq<HostCall> {
    seq![
        HostCall::Transfer {
            token: record.token,
            from: e.contract,
            to: record.sender,
            amount: record.amount,
        },
        HostCall::Publish(
            Event::Refund {
                creator: record.creator,
                token: record.token,
                sender: record.sender,
                tip_id,
                amount: record.amount,
                automatic,
            },
        ),
    ]
}

/// Whether a tip can still go back without its creator's leave.
pub open spec fn within_grace(now: u64, record: TipRecord) -> bool {
    now <= record.timestamp + GRACE_PERIOD_SECS
}

pub open spec fn request_refund_refusal(
    s: StorageView,
    now: u64,
    sender: Address,
    tip_id: u64,
) -> Option<Abort> {
    if s.paused() {
        Some(Abort::Paused)
    } else {
        match s.tip(tip_id) {
            None => error(TipJarError::TipNotFound),
            Some(record) => if record.sender != sender {
                error(TipJarError::Unauthorized)
            } else if record.refunded {
                error(TipJarError::AlreadyRefunded)
            } else if record.refund_requested {
                None
            } else if record.timestamp + GRACE_PERIOD_SECS > u64::MAX {
                Some(Abort::Overflow)
            } else if within_grace(now, record) && balance_after_refund(s, record) > i128::MAX {
                Some(Abort::Overflow)
            } else {
                None
            },
        }
    }
}

pub open spec fn request_refund_after(e: EnvView, sender: Address, tip_id: u64) -> EnvView {
    let asked = e.asking(seq![HostCall::RequireAuth(sender)]);
    match request_refund_refusal(e.storage, e.timestamp, sender, tip_id) {
        Some(Abort::Paused) => e,
        Some(_) => asked,
        None => {
            let record = e.storage.tip(tip_id)->0;
            if record.refund_requested {
                asked
            } else if within_grace(e.timestamp, record) {
                asked.storing(refund_storage(e.storage, record)).asking(
                    refund_calls(e, record, tip_id, true),
                )
            } else {
                asked.storing(
                    e.storage.with_tip(tip_id, TipRecord { refund_requested: true, ..record }),
                ).asking(
                    seq![
                        HostCall::Publish(
                            Event::RefundRequested {
                                creator: record.creator,
                                token: record.token,
                                sender,
                                tip_id,
                                amount: record.amount,
                            },
                        ),
                    ],
                )
            }
        },
    }
}

pub open spec fn approve_refund_refusal(s: StorageView, creator: Address, tip_id: u64) -> Option<
    Abort,
> {
    if s.paused() {
        Some(Abort::Paused)
    } else {
        match s.tip(tip_id) {
            None => error(TipJarError::TipNotFound),
            Some(record) => if record.creator != creator {
                error(TipJarError::Unauthorized)
            } else if record.refunded {
                error(TipJarError::AlreadyRefunded)
            } else if !record.refund_requested {
                error(TipJarError::RefundNotRequested)
            } else if balance_after_refund(s, record) > i128::MAX {
                Some(Abort::Overflow)
            } else {
                None
            },
        }
    }
}

pub open spec fn approve_refund_after(e: EnvView, creator: Address, tip_id: u64) -> EnvView {
    let asked = e.asking(seq![HostCall::RequireAuth(creator)]);
    match approve_refund_refusal(e.storage, creator, tip_id) {
        Some(Abort::Paused) => e,
        Some(_) => asked,
        None => {
            let record = e.storage.tip(tip_id)->0;
            asked.storing(refund_storage(e.storage, record)).asking(
                refund_calls(e, record, tip_id, false),
            )
        },
    }
}

// Matching

/// What is left of a program's budget.
pub open spec fn remaining(program: MatchingProgram) -> int {
    program.max_match_amount - program.current_matched
}

/// Whether the search for a backer ends at this program: it is active, for
/// this token, and has budget left. (A budget that no `i128` can hold ends the
/// search too, and the call with it.)
pub open spec fn backs(program: Option<MatchingProgram>, token: Address) -> bool {
    match program {
        None => false,
        Some(p) => p.active && p.token == token && !(i128::MIN <= remaining(p) <= 0),
    }
}

/// The first of the listed programs that backs a tip in this token.
pub open spec fn first_backer(s: StorageView, ids: Seq<u64>, token: Address) -> Option<u64>
    decreases ids.len(),
{
    if ids.len() == 0 {
        None
    } else if backs(s.program(ids[0]), token) {
        Some(ids[0])
    } else {
        first_backer(s, ids.drop_first(), token)
    }
}

/// The program that a tip is matched from, if there is one.
pub open spec fn backer(s: StorageView, creator: Address, token: Address) -> Option<u64> {
    first_backer(s, s.programs_for(creator), token)
}

/// What a program adds to a tip: the tip times the ratio over 100, but never
/// more than is left of the budget.
pub open spec fn match_amount(amount: i128, program: MatchingProgram) -> int {
    let raw = (amount * program.match_ratio) / 100;
    if raw > remaining(program) {
        remaining(program)
    } else {
        raw
    }
}

/// What is added to a tip of `amount`.
pub open spec fn matched(s: StorageView, creator: Address, token: Address, amount: i128) -> int {
    match backer(s, creator, token) {
        None => 0,
        Some(id) => match_amount(amount, s.program(id)->0),
    }
}

/// The program after it has spent `spent`; it ends with its budget.
pub open spec fn program_after_match(program: MatchingProgram, spent: int) -> MatchingProgram {
    let current = program.current_matched + spent;
    MatchingProgram {
        current_matched: current as i128,
        active: program.active && current < program.max_match_amount,
        ..program
    }
}

/// The books after the backer, if there is one, has paid its part. A program
/// that this ends leaves the creator's list.
pub open spec fn with_match(s: StorageView, creator: Address, token: Address, amount: i128) -> StorageView {
    match backer(s, creator, token) {
        None => s,
        Some(id) => {
            let program = program_after_match(
                s.program(id)->0,
                matched(s, creator, token, amount),
            );
            if program.active {
                s.with_program(id, program)
            } else {
                s.with_program(id, program).with_unlisted_program(creator, id)
            }
        },
    }
}

pub open spec fn tip_with_match_refusal(
    s: StorageView,
    creator: Address,
    token: Address,
    amount: i128,
) -> Option<Abort> {
    if s.paused() {
        Some(Abort::Paused)
    } else if amount <= 0 {
        error(TipJarError::InvalidAmount)
    } else if !s.whitelisted(token) {
        error(TipJarError::TokenNotWhitelisted)
    } else if backer(s, creator, token) matches Some(id) && !(i128::MIN <= remaining(
        s.program(id)->0,
    ) <= i128::MAX) {
        Some(Abort::Overflow)
    } else if !can_book(s, creator, token, amount + matched(s, creator, token, amount)) {
        Some(Abort::Overflow)
    } else {
        None
    }
}

pub open spec fn tip_with_match_after(
    e: EnvView,
    sender: Address,
    creator: Address,
    token: Address,
    amount: i128,
) -> EnvView {
    let deposit = deposit_calls(e, sender, token, amount);
    match tip_with_match_refusal(e.storage, creator, token, amount) {
        None => {
            let record = new_tip(e, sender, creator, token, amount);
            let extra = matched(e.storage, creator, token, amount);
            e.storing(
                with_match(e.storage, creator, token, amount).with_credit(
                    creator,
                    token,
                    amount + extra,
                ).with_new_tip(record),
            ).asking(
                deposit + seq![
                    HostCall::Publish(
                        Event::TipMatched {
                            creator,
                            token,
                            sender,
                            tip_id: record.id,
                            amount,
                            matched_amount: extra as i128,
                        },
                    ),
                ],
            )
        },
        Some(Abort::Overflow) => e.asking(deposit),
        Some(_) => e,
    }
}

/// The number that the next matching program will get.
pub open spec fn next_matching_id(s: StorageView) -> u64 {
    (s.program_count() + 1) as u64
}

pub open spec fn create_refusal(
    s: StorageView,
    token: Address,
    match_ratio: u32,
    max_match_amount: i128,
) -> Option<Abort> {
    if s.paused() {
        Some(Abort::Paused)
    } else if match_ratio == 0 {
        error(TipJarError::InvalidMatchRatio)
    } else if max_match_amount <= 0 {
        error(TipJarError::InvalidAmount)
    } else if !s.whitelisted(token) {
        error(TipJarError::TokenNotWhitelisted)
    } else if s.program_count() == u64::MAX {
        Some(Abort::Overflow)
    } else {
        None
    }
}

pub open spec fn create_after(
    e: EnvView,
    sponsor: Address,
    creator: Address,
    token: Address,
    match_ratio: u32,
    max_match_amount: i128,
) -> EnvView {
    let deposit = deposit_calls(e, sponsor, token, max_match_amount);
    match create_refusal(e.storage, token, match_ratio, max_match_amount) {
        None => {
            let program = MatchingProgram {
                id: next_matching_id(e.storage),
                sponsor,
                creator,
                token,
                match_ratio,
                max_match_amount,
                current_matched: 0,
                active: true,
            };
            e.storing(e.storage.with_new_program(program)).asking(
                deposit + seq![
                    HostCall::Publish(
                        Event::MatchingCreated {
                            creator,
                            token,
                            sponsor,
                            program_id: program.id,
                            match_ratio,
                            max_match_amount,
                        },
                    ),
                ],
            )
        },
        Some(Abort::Overflow) => e.asking(deposit),
        Some(_) => e,
    }
}

pub open spec fn cancel_refusal(s: StorageView, sponsor: Address, program_id: u64) -> Option<
    Abort,
> {
    if s.paused() {
        Some(Abort::Paused)
    } else {
        match s.program(program_id) {
            None => error(TipJarError::MatchingProgramNotFound),
            Some(program) => if program.sponsor != sponsor {
                error(TipJarError::Unauthorized)
            } else if !program.active {
                error(TipJarError::MatchingProgramInactive)
            } else if !(i128::MIN <= remaining(program) <= i128::MAX) {
                Some(Abort::Overflow)
            } else {
                None
            },
        }
    }
}

pub open spec fn cancel_after(e: EnvView, sponsor: Address, program_id: u64) -> EnvView {
    let asked = e.asking(seq![HostCall::RequireAuth(sponsor)]);
    match cancel_refusal(e.storage, sponsor, program_id) {
        Some(Abort::Paused) => e,
        Some(_) => asked,
        None => {
            let program = e.storage.program(program_id)->0;
            let unspent = remaining(program) as i128;
            let payback = if unspent > 0 {
                seq![
                    HostCall::Transfer {
                        token: program.token,
                        from: e.contract,
                        to: sponsor,
                        amount: unspent,
                    },
                ]
            } else {
                Seq::empty()
            };
            asked.storing(
                e.storage.with_program(
                    program_id,
                    MatchingProgram { active: false, ..program },
                ).with_unlisted_program(program.creator, program_id),
            ).asking(
                payback + seq![
                    HostCall::Publish(
                        Event::MatchingEnded {
                            creator: program.creator,
                            token: program.token,
                            sponsor,
                            program_id,
                            unspent,
                        },
                    ),
                ],
            )
        },
    }
}

} // verus!
