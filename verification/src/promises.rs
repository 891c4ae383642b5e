//! What the jar promises of each call, said of the entries, numbers and
//! requests themselves: exactly when a call goes through, why it is refused
//! otherwise, what every entry reads afterwards, and what the host was asked.

use crate::books::{lemma_first_backer, valid};
use crate::env::{without, Env, EnvView, Event, HostCall, Messages, StorageView};
use crate::model::{
    admin_refusal, approve_refund_after, approve_refund_refusal, backer, cancel_after,
    cancel_refusal, create_after, create_refusal, flag_after, init_after, init_refusal,
    listing_after, listing_refusal, match_amount, matched, next_matching_id,
    next_tip_id, outcome, request_refund_after, request_refund_refusal, tip_after, tip_refusal,
    tip_with_match_after, tip_with_match_refusal, tip_with_message_after,
    tip_with_message_refusal, withdraw_after, withdraw_refusal,
};
use crate::table::{lemma_rows_lookup, rows_map};
use crate::types::{
    Abort, Address, DataKey, MatchingProgram, Metadata, TipJarError, TipRecord, TipWithMessage,
    TipWithMessageView,
};
use vstd::prelude::*;

verus! {

// Reading

/// What a ledger reads under each kind of key: the entry, or, where there is
/// none, no flag, zero, nothing.
pub proof fn law_missing_entries_read_as_nothing(
    s: StorageView,
    a: Address,
    b: Address,
    id: u64,
)
    ensures
        s.admin() == if s.admins.contains_key(DataKey::Admin) {
            Some(s.admins[DataKey::Admin])
        } else {
            None
        },
        s.paused() <==> s.flags.contains_key(DataKey::Paused) && s.flags[DataKey::Paused],
        s.whitelisted(a) <==> s.flags.contains_key(DataKey::TokenWhitelist(a))
            && s.flags[DataKey::TokenWhitelist(a)],
        s.tip_count() == if s.counters.contains_key(DataKey::TipCounter) {
            s.counters[DataKey::TipCounter]
        } else {
            0
        },
        s.program_count() == if s.counters.contains_key(DataKey::MatchingCounter) {
            s.counters[DataKey::MatchingCounter]
        } else {
            0
        },
        s.balance(a, b) == if s.amounts.contains_key(DataKey::CreatorBalance(a, b)) {
            s.amounts[DataKey::CreatorBalance(a, b)]
        } else {
            0
        },
        s.total(a, b) == if s.amounts.contains_key(DataKey::CreatorTotal(a, b)) {
            s.amounts[DataKey::CreatorTotal(a, b)]
        } else {
            0
        },
        s.tip(id) == if s.tips.contains_key(DataKey::TipRecord(id)) {
            Some(s.tips[DataKey::TipRecord(id)])
        } else {
            None
        },
        s.program(id) == if s.programs.contains_key(DataKey::MatchingProgram(id)) {
            Some(s.programs[DataKey::MatchingProgram(id)])
        } else {
            None
        },
        s.messages_for(a) == if s.messages.contains_key(DataKey::CreatorMessages(a)) {
            s.messages[DataKey::CreatorMessages(a)]
        } else {
            Seq::empty()
        },
        s.programs_for(a) == if s.program_lists.contains_key(
            DataKey::CreatorMatchingPrograms(a),
        ) {
            s.program_lists[DataKey::CreatorMatchingPrograms(a)]
        } else {
            Seq::empty()
        },
{
}

/// What flags, counters and amounts read under any key, for whoever asks by
/// key.
pub proof fn law_missing_values_read_as_nothing(s: StorageView, key: DataKey)
    ensures
        s.flag(key) <==> s.flags.contains_key(key) && s.flags[key],
        s.counters.contains_key(key) ==> s.counter(key) == s.counters[key],
        !s.counters.contains_key(key) ==> s.counter(key) == 0,
        s.amounts.contains_key(key) ==> s.amount(key) == s.amounts[key],
        !s.amounts.contains_key(key) ==> s.amount(key) == 0,
{
}

/// The first row with a key counts for the key, and without such a row there is
/// no entry.
pub proof fn law_the_first_row_counts<V: View>(rows: Seq<(DataKey, V)>, at: int, key: DataKey)
    requires
        0 <= at <= rows.len(),
        forall|j: int| 0 <= j < at ==> (#[trigger] rows[j]).0 != key,
    ensures
        at < rows.len() && rows[at].0 == key ==> rows_map(rows).contains_key(key) && rows_map(
            rows,
        )[key] == rows[at].1@,
        at == rows.len() ==> !rows_map(rows).contains_key(key),
{
    lemma_rows_lookup(rows, at, key);
}

/// A view leaves nothing out: every part of a note, of a creator's notes, of
/// the ledger entries and of the environment can be read off it.
pub proof fn law_views_leave_nothing_out(note: TipWithMessage, notes: Messages, env: Env)
    ensures
        note@.sender == note.sender,
        note@.creator == note.creator,
        note@.amount == note.amount,
        note@.message == note.message@,
        note@.timestamp == note.timestamp,
        note@.metadata.len() == note.metadata.pairs@.len(),
        forall|i: int|
            0 <= i < note.metadata.pairs@.len() ==> (#[trigger] note@.metadata[i]).0
                == note.metadata.pairs@[i].0@ && note@.metadata[i].1 == note.metadata.pairs@[i].1@,
        notes@.len() == notes.list@.len(),
        forall|i: int| 0 <= i < notes.list@.len() ==> #[trigger] notes@[i] == notes.list@[i]@,
        env@.contract == env.contract,
        env@.timestamp == env.timestamp,
        env@.calls == env.calls@,
        env@.storage.admins == rows_map(env.storage.admins.rows@),
        env@.storage.flags == rows_map(env.storage.flags.rows@),
        env@.storage.counters == rows_map(env.storage.counters.rows@),
        env@.storage.amounts == rows_map(env.storage.amounts.rows@),
        env@.storage.messages == rows_map(env.storage.messages.rows@),
        env@.storage.tips == rows_map(env.storage.tips.rows@),
        env@.storage.programs == rows_map(env.storage.programs.rows@),
        env@.storage.program_lists == rows_map(env.storage.program_lists.rows@),
{
}

/// Records and addresses stand for themselves.
pub proof fn law_records_stand_for_themselves(
    a: Address,
    record: TipRecord,
    program: MatchingProgram,
)
    ensures
        a@ == a,
        record@ == record,
        program@ == program,
{
}

/// A fresh ledger has no entries.
pub proof fn law_a_fresh_ledger_is_empty(key: DataKey)
    ensures
        !StorageView::empty().admins.contains_key(key),
        !StorageView::empty().flags.contains_key(key),
        !StorageView::empty().counters.contains_key(key),
        !StorageView::empty().amounts.contains_key(key),
        !StorageView::empty().messages.contains_key(key),
        !StorageView::empty().tips.contains_key(key),
        !StorageView::empty().programs.contains_key(key),
        !StorageView::empty().program_lists.contains_key(key),
{
}

/// A refused call is an error with its reason; any other is worth its value.
pub proof fn law_refusals_are_errors<T>(abort: Abort, value: T)
    ensures
        outcome::<T>(Some(abort), value) == Err::<T, Abort>(abort),
        outcome::<T>(None, value) == Ok::<T, Abort>(value),
{
}

/// The errors are numbered from 1 to 16, in their order.
pub proof fn law_errors_are_numbered(x: TipJarError, y: TipJarError)
    ensures
        1 <= x.spec_code() <= 16,
        x.spec_code() == y.spec_code() ==> x == y,
        TipJarError::AlreadyInitialized.spec_code() + 1
            == TipJarError::TokenNotWhitelisted.spec_code(),
        TipJarError::TokenNotWhitelisted.spec_code() + 1 == TipJarError::InvalidAmount.spec_code(),
        TipJarError::InvalidAmount.spec_code() + 1 == TipJarError::NothingToWithdraw.spec_code(),
        TipJarError::NothingToWithdraw.spec_code() + 1 == TipJarError::MessageTooLong.spec_code(),
        TipJarError::MessageTooLong.spec_code() + 1 == TipJarError::MilestoneNotFound.spec_code(),
        TipJarError::MilestoneNotFound.spec_code() + 1
            == TipJarError::MilestoneAlreadyCompleted.spec_code(),
        TipJarError::MilestoneAlreadyCompleted.spec_code() + 1
            == TipJarError::InvalidGoalAmount.spec_code(),
        TipJarError::InvalidGoalAmount.spec_code() + 1 == TipJarError::Unauthorized.spec_code(),
        TipJarError::Unauthorized.spec_code() + 1 == TipJarError::TipNotFound.spec_code(),
        TipJarError::TipNotFound.spec_code() + 1 == TipJarError::AlreadyRefunded.spec_code(),
        TipJarError::AlreadyRefunded.spec_code() + 1 == TipJarError::RefundNotRequested.spec_code(),
        TipJarError::RefundNotRequested.spec_code() + 1
            == TipJarError::GracePeriodExpired.spec_code(),
        TipJarError::GracePeriodExpired.spec_code() + 1
            == TipJarError::MatchingProgramNotFound.spec_code(),
        TipJarError::MatchingProgramNotFound.spec_code() + 1
            == TipJarError::MatchingProgramInactive.spec_code(),
        TipJarError::MatchingProgramInactive.spec_code() + 1
            == TipJarError::InvalidMatchRatio.spec_code(),
{
}

/// Listeners find each kind of event under its own name, which is short enough
/// for a ledger symbol of nine characters.
pub proof fn law_topics(event: Event)
    ensures
        event is Tip ==> event.spec_topic() == "tip"@,
        event is TipMessage ==> event.spec_topic() == "tip_msg"@,
        event is Refund ==> event.spec_topic() == "refund"@,
        event is RefundRequested ==> event.spec_topic() == "ref_req"@,
        event is Withdraw ==> event.spec_topic() == "withdraw"@,
        event is MatchingCreated ==> event.spec_topic() == "match_new"@,
        event is TipMatched ==> event.spec_topic() == "tip_match"@,
        event is MatchingEnded ==> event.spec_topic() == "match_end"@,
        event.spec_topic().len() <= 9,
{
    reveal_strlit("tip");
    reveal_strlit("tip_msg");
    reveal_strlit("refund");
    reveal_strlit("ref_req");
    reveal_strlit("withdraw");
    reveal_strlit("match_new");
    reveal_strlit("tip_match");
    reveal_strlit("match_end");
}

// Administration

/// Setup goes through exactly where there is no administrator yet. It then
/// makes the given address the administrator of a jar that is not paused, and
/// asks nothing of the host.
pub proof fn law_init(e: EnvView, admin: Address)
    ensures
        ({
            let s = e.storage;
            let r = init_refusal(s);
            let f = init_after(e, admin);
            &&& f.contract == e.contract && f.timestamp == e.timestamp && f.calls == e.calls
            &&& r is None <==> !s.admins.contains_key(DataKey::Admin)
            &&& r is Some ==> r == Some(Abort::Error(TipJarError::AlreadyInitialized)) && f == e
            &&& r is None ==> f.storage == (StorageView {
                admins: s.admins.insert(DataKey::Admin, admin),
                flags: s.flags.insert(DataKey::Paused, false),
                ..s
            })
        }),
{
}

/// A flag is set for the administrator and for nobody else; the host is asked
/// for the caller's authorisation in any case.
pub proof fn law_flags(e: EnvView, caller: Address, key: DataKey, value: bool)
    ensures
        ({
            let s = e.storage;
            let r = admin_refusal(s, caller);
            let f = flag_after(e, caller, key, value);
            let known = s.admins.contains_key(DataKey::Admin);
            &&& f.contract == e.contract && f.timestamp == e.timestamp
            &&& f.calls == e.calls + seq![HostCall::RequireAuth(caller)]
            &&& r == Some(Abort::NotInitialized) <==> !known
            &&& r == Some(Abort::Error(TipJarError::Unauthorized)) <==> known
                && s.admins[DataKey::Admin] != caller
            &&& r is None <==> known && s.admins[DataKey::Admin] == caller
            &&& r is Some ==> f.storage == s
            &&& r is None ==> f.storage == (StorageView { flags: s.flags.insert(key, value), ..s })
        }),
{
}

/// A token is listed or delisted for the administrator of a jar that is not
/// paused, and for nobody else. Nothing else changes.
pub proof fn law_listing(e: EnvView, caller: Address, token: Address, listed: bool)
    ensures
        ({
            let s = e.storage;
            let r = listing_refusal(s, caller);
            let f = listing_after(e, caller, token, listed);
            let known = s.admins.contains_key(DataKey::Admin);
            &&& f.contract == e.contract && f.timestamp == e.timestamp
            &&& r == Some(Abort::Paused) <==> s.paused()
            &&& r == Some(Abort::NotInitialized) <==> !s.paused() && !known
            &&& r == Some(Abort::Error(TipJarError::Unauthorized)) <==> !s.paused() && known
                && s.admins[DataKey::Admin] != caller
            &&& r is None <==> !s.paused() && known && s.admins[DataKey::Admin] == caller
            &&& s.paused() ==> f.calls == e.calls
            &&& !s.paused() ==> f.calls == e.calls + seq![HostCall::RequireAuth(caller)]
            &&& r is Some ==> f.storage == s
            &&& r is None ==> f.storage == (StorageView {
                flags: s.flags.insert(DataKey::TokenWhitelist(token), listed),
                ..s
            })
        }),
{
}

// Tips

/// A tip goes through exactly where the jar is not paused, the amount is
/// positive, the token is whitelisted, and the sums and the count have room.
pub proof fn law_tip_goes_through(s: StorageView, creator: Address, token: Address, amount: i128)
    ensures
        ({
            let r = tip_refusal(s, creator, token, amount);
            let fits = s.balance(creator, token) + amount <= i128::MAX && s.total(creator, token)
                + amount <= i128::MAX && s.tip_count() < u64::MAX;
            &&& r == Some(Abort::Paused) <==> s.paused()
            &&& r == Some(Abort::Error(TipJarError::InvalidAmount)) <==> !s.paused() && amount <= 0
            &&& r == Some(Abort::Error(TipJarError::TokenNotWhitelisted)) <==> !s.paused() && amount
                > 0 && !s.whitelisted(token)
            &&& r == Some(Abort::Overflow) <==> !s.paused() && amount > 0 && s.whitelisted(token)
                && !fits
            &&& r is None <==> !s.paused() && amount > 0 && s.whitelisted(token) && fits
        }),
{
}

/// What a tip does: the sender pays the jar the amount; the creator's balance
/// and total grow by it; the tip is recorded as it was made, under the number
/// after the last. No other entry changes.
pub proof fn law_tip(e: EnvView, sender: Address, creator: Address, token: Address, amount: i128)
    ensures
        ({
            let s = e.storage;
            let r = tip_refusal(s, creator, token, amount);
            let f = tip_after(e, sender, creator, token, amount);
            let t = f.storage;
            let id = t.tip_count();
            let auth = HostCall::RequireAuth(sender);
            let pay = HostCall::Transfer { token, from: sender, to: e.contract, amount };
            &&& f.contract == e.contract && f.timestamp == e.timestamp
            &&& r is Some ==> t == s
            &&& r == Some(Abort::Overflow) ==> f.calls == e.calls + seq![auth, pay]
            &&& r is Some && r != Some(Abort::Overflow) ==> f.calls == e.calls
            &&& r is None ==> {
                &&& id == s.tip_count() + 1
                &&& next_tip_id(s) == id
                &&& t.balance(creator, token) == s.balance(creator, token) + amount
                &&& t.total(creator, token) == s.total(creator, token) + amount
                &&& t == (StorageView {
                    amounts: s.amounts.insert(
                        DataKey::CreatorBalance(creator, token),
                        t.balance(creator, token),
                    ).insert(DataKey::CreatorTotal(creator, token), t.total(creator, token)),
                    counters: s.counters.insert(DataKey::TipCounter, id),
                    tips: s.tips.insert(
                        DataKey::TipRecord(id),
                        TipRecord {
                            id,
                            sender,
                            creator,
                            token,
                            amount,
                            timestamp: e.timestamp,
                            refunded: false,
                            refund_requested: false,
                        },
                    ),
                    ..s
                })
                &&& f.calls == e.calls + seq![
                    auth,
                    pay,
                    HostCall::Publish(Event::Tip { creator, token, sender, amount, tip_id: id }),
                ]
            }
        }),
{
}

/// A tip with a message goes through exactly where the jar is not paused, the
/// amount is positive, the message has at most 280 bytes, and the sums and the
/// count have room.
pub proof fn law_note_goes_through(
    s: StorageView,
    creator: Address,
    token: Address,
    amount: i128,
    message: Seq<u8>,
)
    ensures
        ({
            let r = tip_with_message_refusal(s, creator, token, amount, message);
            let fits = s.balance(creator, token) + amount <= i128::MAX && s.total(creator, token)
                + amount <= i128::MAX && s.tip_count() < u64::MAX;
            &&& r == Some(Abort::Paused) <==> s.paused()
            &&& r == Some(Abort::Error(TipJarError::InvalidAmount)) <==> !s.paused() && amount <= 0
            &&& r == Some(Abort::Error(TipJarError::MessageTooLong)) <==> !s.paused() && amount > 0
                && message.len() > 280
            &&& r == Some(Abort::Overflow) <==> !s.paused() && amount > 0 && message.len() <= 280
                && !fits
            &&& r is None <==> !s.paused() && amount > 0 && message.len() <= 280 && fits
        }),
{
}

/// What a tip with a message does: all that a tip does, and the note, as it was
/// given, comes last among the creator's notes.
pub proof fn law_note(
    e: EnvView,
    sender: Address,
    creator: Address,
    token: Address,
    amount: i128,
    message: Vec<u8>,
    metadata: Metadata,
)
    ensures
        ({
            let s = e.storage;
            let r = tip_with_message_refusal(s, creator, token, amount, message@);
            let f = tip_with_message_after(e, sender, creator, token, amount, message, metadata);
            let t = f.storage;
            let id = t.tip_count();
            let auth = HostCall::RequireAuth(sender);
            let pay = HostCall::Transfer { token, from: sender, to: e.contract, amount };
            &&& f.contract == e.contract && f.timestamp == e.timestamp
            &&& r is Some ==> t == s
            &&& r == Some(Abort::Overflow) ==> f.calls == e.calls + seq![auth, pay]
            &&& r is Some && r != Some(Abort::Overflow) ==> f.calls == e.calls
            &&& r is None ==> {
                &&& id == s.tip_count() + 1
                &&& next_tip_id(s) == id
                &&& t.balance(creator, token) == s.balance(creator, token) + amount
                &&& t.total(creator, token) == s.total(creator, token) + amount
                &&& t == (StorageView {
                    amounts: s.amounts.insert(
                        DataKey::CreatorBalance(creator, token),
                        t.balance(creator, token),
                    ).insert(DataKey::CreatorTotal(creator, token), t.total(creator, token)),
                    counters: s.counters.insert(DataKey::TipCounter, id),
                    messages: s.messages.insert(
                        DataKey::CreatorMessages(creator),
                        s.messages_for(creator).push(
                            TipWithMessageView {
                                sender,
                                creator,
                                amount,
                                message: message@,
                                metadata: metadata@,
                                timestamp: e.timestamp,
                            },
                        ),
                    ),
                    tips: s.tips.insert(
                        DataKey::TipRecord(id),
                        TipRecord {
                            id,
                            sender,
                            creator,
                            token,
                            amount,
                            timestamp: e.timestamp,
                            refunded: false,
                            refund_requested: false,
                        },
                    ),
                    ..s
                })
                &&& f.calls == e.calls + seq![
                    auth,
                    pay,
                    HostCall::Publish(
                        Event::TipMessage {
                            creator,
                            sender,
                            amount,
                            message,
                            metadata,
                            tip_id: id,
                        },
                    ),
                ]
            }
        }),
{
}

/// A withdrawal goes through exactly where the jar is not paused and the
/// balance is positive, however large it is. It pays the creator the whole
/// balance, leaves a balance of zero, and changes nothing else.
pub proof fn law_withdrawal(e: EnvView, creator: Address, token: Address)
    ensures
        ({
            let s = e.storage;
            let r = withdraw_refusal(s, creator, token);
            let f = withdraw_after(e, creator, token);
            let amount = s.balance(creator, token);
            let auth = HostCall::RequireAuth(creator);
            &&& f.contract == e.contract && f.timestamp == e.timestamp
            &&& r == Some(Abort::Paused) <==> s.paused()
            &&& r == Some(Abort::Error(TipJarError::NothingToWithdraw)) <==> !s.paused() && amount
                <= 0
            &&& r is None <==> !s.paused() && amount > 0
            &&& r is Some ==> f.storage == s
            &&& r == Some(Abort::Paused) ==> f.calls == e.calls
            &&& r is Some && r != Some(Abort::Paused) ==> f.calls == e.calls + seq![auth]
            &&& r is None ==> {
                &&& f.storage == (StorageView {
                    amounts: s.amounts.insert(DataKey::CreatorBalance(creator, token), 0),
                    ..s
                })
                &&& f.calls == e.calls + seq![
                    auth,
                    HostCall::Transfer { token, from: e.contract, to: creator, amount },
                    HostCall::Publish(Event::Withdraw { creator, token, amount }),
                ]
            }
        }),
{
}

// Refunds

/// A request for a refund goes through exactly where the jar is not paused and
/// the caller is the sender of a tip on record that has not been refunded, as
/// far as the sums have room. A request that is pending already is never
/// refused.
pub proof fn law_request_goes_through(s: StorageView, now: u64, sender: Address, tip_id: u64)
    ensures
        ({
            let r = request_refund_refusal(s, now, sender, tip_id);
            let found = s.tip(tip_id) is Some;
            let record = s.tip(tip_id)->0;
            let own = found && record.sender == sender;
            let balance = s.balance(record.creator, record.token);
            let open = own && !record.refunded && !record.refund_requested;
            let full = record.timestamp + 86_400 > u64::MAX || (now <= record.timestamp + 86_400
                && balance >= record.amount && balance - record.amount > i128::MAX);
            &&& r == Some(Abort::Paused) <==> s.paused()
            &&& r == Some(Abort::Error(TipJarError::TipNotFound)) <==> !s.paused() && !found
            &&& r == Some(Abort::Error(TipJarError::Unauthorized)) <==> !s.paused() && found && !own
            &&& r == Some(Abort::Error(TipJarError::AlreadyRefunded)) <==> !s.paused() && own
                && record.refunded
            &&& r == Some(Abort::Overflow) <==> !s.paused() && open && full
            &&& r is None <==> !s.paused() && own && !record.refunded && (record.refund_requested
                || !full)
        }),
{
}

/// What a request for a refund does. Up to 86400 seconds after the tip it sends
/// the tip back at once. Any later it moves no tokens and changes no balance:
/// it only marks the record. Where the request is pending already, nothing
/// changes.
pub proof fn law_request(e: EnvView, sender: Address, tip_id: u64)
    ensures
        ({
            let s = e.storage;
            let r = request_refund_refusal(s, e.timestamp, sender, tip_id);
            let f = request_refund_after(e, sender, tip_id);
            let t = f.storage;
            let record = s.tip(tip_id)->0;
            let (creator, token, amount) = (record.creator, record.token, record.amount);
            let auth = HostCall::RequireAuth(sender);
            &&& f.contract == e.contract && f.timestamp == e.timestamp
            &&& r == Some(Abort::Paused) ==> f == e
            &&& r is Some && r != Some(Abort::Paused) ==> t == s && f.calls == e.calls + seq![auth]
            &&& r is None && record.refund_requested ==> t == s && f.calls == e.calls + seq![auth]
            &&& r is None && !record.refund_requested && e.timestamp > record.timestamp
                + 86_400 ==> {
                &&& t == (StorageView {
                    tips: s.tips.insert(
                        DataKey::TipRecord(tip_id),
                        TipRecord { refund_requested: true, ..record },
                    ),
                    ..s
                })
                &&& f.calls == e.calls + seq![
                    auth,
                    HostCall::Publish(
                        Event::RefundRequested { creator, token, sender, tip_id, amount },
                    ),
                ]
            }
            &&& r is None && !record.refund_requested && e.timestamp <= record.timestamp
                + 86_400 ==> {
                let before = s.balance(creator, token);
                let left = t.balance(creator, token);
                &&& before >= amount ==> left == before - amount
                &&& before < amount ==> left == 0
                &&& t == (StorageView {
                    amounts: s.amounts.insert(DataKey::CreatorBalance(creator, token), left),
                    tips: s.tips.insert(
                        DataKey::TipRecord(record.id),
                        TipRecord { refunded: true, refund_requested: false, ..record },
                    ),
                    ..s
                })
                &&& f.calls == e.calls + seq![
                    auth,
                    HostCall::Transfer { token, from: e.contract, to: sender, amount },
                    HostCall::Publish(
                        Event::Refund { creator, token, sender, tip_id, amount, automatic: true },
                    ),
                ]
            }
        }),
{
    let asked = e.calls + seq![HostCall::RequireAuth(sender)];
    let f = request_refund_after(e, sender, tip_id);
    if f.calls.len() > asked.len() {
        let more = f.calls.skip(asked.len() as int);
        assert(f.calls =~= e.calls + (seq![HostCall::RequireAuth(sender)] + more));
    }
}

/// A refund is granted exactly where the jar is not paused, the caller is the
/// creator of a tip on record that has not been refunded, the refund has been
/// requested, and the sum has room.
pub proof fn law_approval_goes_through(s: StorageView, creator: Address, tip_id: u64)
    ensures
        ({
            let r = approve_refund_refusal(s, creator, tip_id);
            let found = s.tip(tip_id) is Some;
            let record = s.tip(tip_id)->0;
            let own = found && record.creator == creator;
            let balance = s.balance(record.creator, record.token);
            let pending = own && !record.refunded && record.refund_requested;
            let full = balance >= record.amount && balance - record.amount > i128::MAX;
            &&& r == Some(Abort::Paused) <==> s.paused()
            &&& r == Some(Abort::Error(TipJarError::TipNotFound)) <==> !s.paused() && !found
            &&& r == Some(Abort::Error(TipJarError::Unauthorized)) <==> !s.paused() && found && !own
            &&& r == Some(Abort::Error(TipJarError::AlreadyRefunded)) <==> !s.paused() && own
                && record.refunded
            &&& r == Some(Abort::Error(TipJarError::RefundNotRequested)) <==> !s.paused() && own
                && !record.refunded && !record.refund_requested
            &&& r == Some(Abort::Overflow) <==> !s.paused() && pending && full
            &&& r is None <==> !s.paused() && pending && !full
        }),
{
}

/// What granting a refund does: the jar pays the sender the tip, the tip comes
/// off the creator's balance as far as that reaches, and the record is marked
/// as refunded. Nothing else changes.
pub proof fn law_approval(e: EnvView, creator: Address, tip_id: u64)
    ensures
        ({
            let s = e.storage;
            let r = approve_refund_refusal(s, creator, tip_id);
            let f = approve_refund_after(e, creator, tip_id);
            let t = f.storage;
            let record = s.tip(tip_id)->0;
            let (sender, token, amount) = (record.sender, record.token, record.amount);
            let auth = HostCall::RequireAuth(creator);
            &&& f.contract == e.contract && f.timestamp == e.timestamp
            &&& r == Some(Abort::Paused) ==> f == e
            &&& r is Some && r != Some(Abort::Paused) ==> t == s && f.calls == e.calls + seq![auth]
            &&& r is None ==> {
                let before = s.balance(creator, token);
                let left = t.balance(creator, token);
                &&& before >= amount ==> left == before - amount
                &&& before < amount ==> left == 0
                &&& t == (StorageView {
                    amounts: s.amounts.insert(DataKey::CreatorBalance(creator, token), left),
                    tips: s.tips.insert(
                        DataKey::TipRecord(record.id),
                        TipRecord { refunded: true, refund_requested: false, ..record },
                    ),
                    ..s
                })
                &&& f.calls == e.calls + seq![
                    auth,
                    HostCall::Transfer { token, from: e.contract, to: sender, amount },
                    HostCall::Publish(
                        Event::Refund { creator, token, sender, tip_id, amount, automatic: false },
                    ),
                ]
            }
        }),
{
    let asked = e.calls + seq![HostCall::RequireAuth(creator)];
    let f = approve_refund_after(e, creator, tip_id);
    if f.calls.len() > asked.len() {
        let more = f.calls.skip(asked.len() as int);
        assert(f.calls =~= e.calls + (seq![HostCall::RequireAuth(creator)] + more));
    }
}

// Matching

/// Taking a number out of a list goes through the list front to back: the
/// number itself disappears wherever it stands, every other stays in its place
/// in the order.
pub proof fn law_taking_out(front: Seq<u64>, x: u64, id: u64)
    ensures
        without(Seq::empty(), id) == Seq::<u64>::empty(),
        x == id ==> without(front.push(x), id) == without(front, id),
        x != id ==> without(front.push(x), id) == without(front, id).push(x),
{
    assert(front.push(x).drop_last() =~= front);
}

/// The backer is the first program in the creator's list that is active, pays
/// in the token, and has a rest of its budget (or a rest that no `i128` can
/// hold, on which the tip is refused); there is none where no program in the
/// list is like that.
pub proof fn law_backer(s: StorageView, creator: Address, token: Address)
    ensures
        ({
            let ids = s.programs_for(creator);
            match backer(s, creator, token) {
                Some(id) => exists|i: int|
                    {
                        &&& 0 <= i < ids.len()
                        &&& #[trigger] ids[i] == id
                        &&& s.program(id) matches Some(p)
                        &&& p.active
                        &&& p.token == token
                        &&& p.max_match_amount - p.current_matched > 0 || p.max_match_amount
                            - p.current_matched < i128::MIN
                        &&& forall|j: int|
                            0 <= j < i ==> !((#[trigger] s.program(ids[j])) matches Some(q)
                                && q.active && q.token == token && (q.max_match_amount
                                - q.current_matched > 0 || q.max_match_amount - q.current_matched
                                < i128::MIN))
                    },
                None => forall|j: int|
                    0 <= j < ids.len() ==> !((#[trigger] s.program(ids[j])) matches Some(q)
                        && q.active && q.token == token && (q.max_match_amount - q.current_matched
                        > 0 || q.max_match_amount - q.current_matched < i128::MIN)),
            }
        }),
{
    lemma_first_backer(s, s.programs_for(creator), token);
}

/// A match is the largest whole amount that is neither more than the ratio's
/// hundredths of the tip nor more than the rest of the budget.
pub proof fn law_match(amount: i128, p: MatchingProgram)
    requires
        amount > 0,
        p.max_match_amount - p.current_matched > 0,
    ensures
        ({
            let added = match_amount(amount, p);
            let rest = p.max_match_amount - p.current_matched;
            &&& 0 <= added <= rest
            &&& 100 * added <= amount * p.match_ratio
            &&& added < rest ==> amount * p.match_ratio < 100 * (added + 1)
            &&& p.match_ratio == 100 && amount <= rest ==> added == amount
        }),
{
    assert(amount * p.match_ratio >= 0) by (nonlinear_arith)
        requires
            amount > 0,
    ;
    if p.match_ratio == 100 {
        assert(amount * p.match_ratio == amount * 100) by (nonlinear_arith)
            requires
                p.match_ratio == 100,
        ;
    }
}

/// What is added to a tip: the match of the backer, as [`law_match`] has it,
/// and nothing where there is no backer.
pub proof fn law_added(s: StorageView, creator: Address, token: Address, amount: i128)
    requires
        amount > 0,
    ensures
        ({
            let added = matched(s, creator, token, amount);
            match backer(s, creator, token) {
                None => added == 0,
                Some(id) => {
                    let p = s.program(id)->0;
                    let rest = p.max_match_amount - p.current_matched;
                    rest > 0 ==> {
                        &&& 0 <= added <= rest
                        &&& 100 * added <= amount * p.match_ratio
                        &&& added < rest ==> amount * p.match_ratio < 100 * (added + 1)
                    }
                },
            }
        }),
{
    match backer(s, creator, token) {
        None => {},
        Some(id) => {
            let p = s.program(id)->0;
            if p.max_match_amount - p.current_matched > 0 {
                law_match(amount, p);
            }
        },
    }
}

/// A matched tip goes through exactly where the jar is not paused, the amount
/// is positive, the token is whitelisted, and the sums and the count have room
/// for the tip and what is added to it.
pub proof fn law_matched_tip_goes_through(
    s: StorageView,
    creator: Address,
    token: Address,
    amount: i128,
)
    ensures
        ({
            let r = tip_with_match_refusal(s, creator, token, amount);
            let worth = amount + matched(s, creator, token, amount);
            let odd = backer(s, creator, token) matches Some(id) && {
                let rest = s.program(id)->0.max_match_amount - s.program(id)->0.current_matched;
                rest > i128::MAX || rest < i128::MIN
            };
            let fits = !odd && worth <= i128::MAX && s.balance(creator, token) + worth <= i128::MAX
                && s.total(creator, token) + worth <= i128::MAX && s.tip_count() < u64::MAX;
            &&& r == Some(Abort::Paused) <==> s.paused()
            &&& r == Some(Abort::Error(TipJarError::InvalidAmount)) <==> !s.paused() && amount <= 0
            &&& r == Some(Abort::Error(TipJarError::TokenNotWhitelisted)) <==> !s.paused() && amount
                > 0 && !s.whitelisted(token)
            &&& r == Some(Abort::Overflow) <==> !s.paused() && amount > 0 && s.whitelisted(token)
                && !fits
            &&& r is None <==> !s.paused() && amount > 0 && s.whitelisted(token) && fits
        }),
{
}

/// What a matched tip does: all that a tip does, with what is added going to
/// the creator too and coming out of the backer's budget. A program whose
/// budget is spent ends, and leaves the creator's list. The record is of the
/// tip alone. No other entry changes.
pub proof fn law_matched_tip(
    e: EnvView,
    sender: Address,
    creator: Address,
    token: Address,
    amount: i128,
)
    ensures
        ({
            let s = e.storage;
            let r = tip_with_match_refusal(s, creator, token, amount);
            let f = tip_with_match_after(e, sender, creator, token, amount);
            let t = f.storage;
            let id = t.tip_count();
            let added = matched(s, creator, token, amount);
            let auth = HostCall::RequireAuth(sender);
            let pay = HostCall::Transfer { token, from: sender, to: e.contract, amount };
            &&& f.contract == e.contract && f.timestamp == e.timestamp
            &&& r is Some ==> t == s
            &&& r == Some(Abort::Overflow) ==> f.calls == e.calls + seq![auth, pay]
            &&& r is Some && r != Some(Abort::Overflow) ==> f.calls == e.calls
            &&& r is None ==> {
                &&& id == s.tip_count() + 1
                &&& next_tip_id(s) == id
                &&& 0 <= added <= i128::MAX
                &&& t.balance(creator, token) == s.balance(creator, token) + amount + added
                &&& t.total(creator, token) == s.total(creator, token) + amount + added
                &&& t == (StorageView {
                    amounts: s.amounts.insert(
                        DataKey::CreatorBalance(creator, token),
                        t.balance(creator, token),
                    ).insert(DataKey::CreatorTotal(creator, token), t.total(creator, token)),
                    counters: s.counters.insert(DataKey::TipCounter, id),
                    tips: s.tips.insert(
                        DataKey::TipRecord(id),
                        TipRecord {
                            id,
                            sender,
                            creator,
                            token,
                            amount,
                            timestamp: e.timestamp,
                            refunded: false,
                            refund_requested: false,
                        },
                    ),
                    programs: t.programs,
                    program_lists: t.program_lists,
                    ..s
                })
                &&& match backer(s, creator, token) {
                    None => t.programs == s.programs && t.program_lists == s.program_lists,
                    Some(program_id) => {
                        let p = s.program(program_id)->0;
                        let q = t.program(program_id)->0;
                        let ids = s.programs_for(creator);
                        &&& q.current_matched == p.current_matched + added
                        &&& q.active <==> p.current_matched + added < p.max_match_amount
                        &&& q == (MatchingProgram {
                            current_matched: q.current_matched,
                            active: q.active,
                            ..p
                        })
                        &&& t.programs == s.programs.insert(
                            DataKey::MatchingProgram(program_id),
                            q,
                        )
                        &&& q.active ==> t.program_lists == s.program_lists
                        &&& !q.active ==> t.program_lists == s.program_lists.insert(
                            DataKey::CreatorMatchingPrograms(creator),
                            without(ids, program_id),
                        )
                    },
                }
                &&& f.calls == e.calls + seq![
                    auth,
                    pay,
                    HostCall::Publish(
                        Event::TipMatched {
                            creator,
                            token,
                            sender,
                            tip_id: id,
                            amount,
                            matched_amount: added as i128,
                        },
                    ),
                ]
            }
        }),
{
    let s = e.storage;
    if tip_with_match_refusal(s, creator, token, amount) is None {
        law_backer(s, creator, token);
        law_added(s, creator, token, amount);
    }
}

/// What is added to a tip, seen from outside: where `ids[i]` is the first
/// program in the creator's list that is active, pays in the token and has a
/// rest of its budget, the totals, the balance, the program and the event all
/// show the same addition, and it is the largest whole amount that is neither
/// more than the ratio's hundredths of the tip nor more than the rest.
pub proof fn law_match_is_the_exact_share(
    e: EnvView,
    sender: Address,
    creator: Address,
    token: Address,
    amount: i128,
    i: int,
)
    requires
        tip_with_match_refusal(e.storage, creator, token, amount) is None,
        0 <= i < e.storage.programs_for(creator).len(),
        e.storage.program(e.storage.programs_for(creator)[i]) matches Some(p) && p.active && p.token
            == token && p.max_match_amount - p.current_matched > 0,
        forall|j: int|
            0 <= j < i ==> !((#[trigger] e.storage.program(e.storage.programs_for(creator)[j]))
                matches Some(q) && q.active && q.token == token && (q.max_match_amount
                - q.current_matched > 0 || q.max_match_amount - q.current_matched < i128::MIN)),
    ensures
        ({
            let s = e.storage;
            let f = tip_with_match_after(e, sender, creator, token, amount);
            let t = f.storage;
            let id = s.programs_for(creator)[i];
            let p = s.program(id)->0;
            let rest = p.max_match_amount - p.current_matched;
            let added = t.total(creator, token) - s.total(creator, token) - amount;
            &&& 0 <= added <= rest
            &&& 100 * added <= amount * p.match_ratio
            &&& added < rest ==> amount * p.match_ratio < 100 * (added + 1)
            &&& t.balance(creator, token) - s.balance(creator, token) - amount == added
            &&& t.program(id) matches Some(q) && q.current_matched - p.current_matched == added
            &&& f.calls.last() matches HostCall::Publish(
                Event::TipMatched { matched_amount, .. },
            ) && matched_amount == added
            &&& matched(s, creator, token, amount) == added
        }),
{
    let s = e.storage;
    let ids = s.programs_for(creator);
    law_backer(s, creator, token);
    law_added(s, creator, token, amount);
    law_matched_tip(e, sender, creator, token, amount);
    assert(s.program(ids[i]) is Some);
    assert(backer(s, creator, token) == Some(ids[i]));
}

/// Where no program in the creator's list is active, pays in the token and has
/// a rest of its budget, nothing is added to a tip and no program changes.
pub proof fn law_without_a_backer_nothing_is_added(
    e: EnvView,
    sender: Address,
    creator: Address,
    token: Address,
    amount: i128,
)
    requires
        tip_with_match_refusal(e.storage, creator, token, amount) is None,
        forall|j: int|
            0 <= j < e.storage.programs_for(creator).len() ==> !((#[trigger] e.storage.program(
                e.storage.programs_for(creator)[j],
            )) matches Some(q) && q.active && q.token == token && (q.max_match_amount
                - q.current_matched > 0 || q.max_match_amount - q.current_matched < i128::MIN)),
    ensures
        ({
            let s = e.storage;
            let f = tip_with_match_after(e, sender, creator, token, amount);
            let t = f.storage;
            &&& t.total(creator, token) == s.total(creator, token) + amount
            &&& t.balance(creator, token) == s.balance(creator, token) + amount
            &&& t.programs == s.programs
            &&& t.program_lists == s.program_lists
            &&& f.calls.last() matches HostCall::Publish(
                Event::TipMatched { matched_amount, .. },
            ) && matched_amount == 0
            &&& matched(s, creator, token, amount) == 0
        }),
{
    law_backer(e.storage, creator, token);
    law_matched_tip(e, sender, creator, token, amount);
}

/// A larger tip never gets a smaller addition from the same program, and one
/// tip gets no less than two that make up the same amount would get together,
/// as far as the budget reaches.
pub proof fn law_matches_grow_with_the_tip(a: i128, b: i128, p: MatchingProgram)
    requires
        a > 0,
        b > 0,
        a + b <= i128::MAX,
        p.max_match_amount - p.current_matched > 0,
    ensures
        match_amount(a, p) <= match_amount((a + b) as i128, p),
        ({
            let rest = p.max_match_amount - p.current_matched;
            let together = match_amount(a, p) + match_amount(b, p);
            match_amount((a + b) as i128, p) >= if together <= rest {
                together
            } else {
                rest
            }
        }),
{
    law_match(a, p);
    law_match(b, p);
    law_match((a + b) as i128, p);
    let ratio = p.match_ratio as int;
    assert((a + b) * ratio == a * ratio + b * ratio) by (nonlinear_arith);
    assert(b * ratio >= 0) by (nonlinear_arith)
        requires
            b > 0,
            ratio >= 0,
    ;
}

/// A program is created exactly where the jar is not paused, the ratio and the
/// budget are positive, the token is whitelisted and the count has room.
pub proof fn law_creation_goes_through(
    s: StorageView,
    token: Address,
    match_ratio: u32,
    max_match_amount: i128,
)
    ensures
        ({
            let r = create_refusal(s, token, match_ratio, max_match_amount);
            let sound = !s.paused() && match_ratio > 0 && max_match_amount > 0;
            &&& r == Some(Abort::Paused) <==> s.paused()
            &&& r == Some(Abort::Error(TipJarError::InvalidMatchRatio)) <==> !s.paused()
                && match_ratio == 0
            &&& r == Some(Abort::Error(TipJarError::InvalidAmount)) <==> !s.paused() && match_ratio
                > 0 && max_match_amount <= 0
            &&& r == Some(Abort::Error(TipJarError::TokenNotWhitelisted)) <==> sound
                && !s.whitelisted(token)
            &&& r == Some(Abort::Overflow) <==> sound && s.whitelisted(token) && s.program_count()
                == u64::MAX
            &&& r is None <==> sound && s.whitelisted(token) && s.program_count() < u64::MAX
        }),
{
}

/// What creating a program does: the sponsor pays the jar the whole budget; the
/// program is recorded exactly as it was asked for, active and unspent, under
/// the number after the last, and comes last in the creator's list. No other
/// entry changes.
pub proof fn law_creation(
    e: EnvView,
    sponsor: Address,
    creator: Address,
    token: Address,
    match_ratio: u32,
    max_match_amount: i128,
)
    ensures
        ({
            let s = e.storage;
            let r = create_refusal(s, token, match_ratio, max_match_amount);
            let f = create_after(e, sponsor, creator, token, match_ratio, max_match_amount);
            let t = f.storage;
            let id = t.program_count();
            let auth = HostCall::RequireAuth(sponsor);
            let pay = HostCall::Transfer {
                token,
                from: sponsor,
                to: e.contract,
                amount: max_match_amount,
            };
            &&& f.contract == e.contract && f.timestamp == e.timestamp
            &&& r is Some ==> t == s
            &&& r == Some(Abort::Overflow) ==> f.calls == e.calls + seq![auth, pay]
            &&& r is Some && r != Some(Abort::Overflow) ==> f.calls == e.calls
            &&& r is None ==> {
                &&& id == s.program_count() + 1
                &&& next_matching_id(s) == id
                &&& t == (StorageView {
                    counters: s.counters.insert(DataKey::MatchingCounter, id),
                    programs: s.programs.insert(
                        DataKey::MatchingProgram(id),
                        MatchingProgram {
                            id,
                            sponsor,
                            creator,
                            token,
                            match_ratio,
                            max_match_amount,
                            current_matched: 0,
                            active: true,
                        },
                    ),
                    program_lists: s.program_lists.insert(
                        DataKey::CreatorMatchingPrograms(creator),
                        s.programs_for(creator).push(id),
                    ),
                    ..s
                })
                &&& f.calls == e.calls + seq![
                    auth,
                    pay,
                    HostCall::Publish(
                        Event::MatchingCreated {
                            creator,
                            token,
                            sponsor,
                            program_id: id,
                            match_ratio,
                            max_match_amount,
                        },
                    ),
                ]
            }
        }),
{
}

/// A program is cancelled exactly where the jar is not paused and the caller is
/// the sponsor of an active program on record, however much of its budget is
/// spent (as long as an `i128` can hold the rest).
pub proof fn law_cancellation_goes_through(s: StorageView, sponsor: Address, program_id: u64)
    ensures
        ({
            let r = cancel_refusal(s, sponsor, program_id);
            let found = s.program(program_id) is Some;
            let p = s.program(program_id)->0;
            let own = found && p.sponsor == sponsor;
            let rest = p.max_match_amount - p.current_matched;
            let fits = i128::MIN <= rest <= i128::MAX;
            &&& r == Some(Abort::Paused) <==> s.paused()
            &&& r == Some(Abort::Error(TipJarError::MatchingProgramNotFound)) <==> !s.paused()
                && !found
            &&& r == Some(Abort::Error(TipJarError::Unauthorized)) <==> !s.paused() && found && !own
            &&& r == Some(Abort::Error(TipJarError::MatchingProgramInactive)) <==> !s.paused()
                && own && !p.active
            &&& r == Some(Abort::Overflow) <==> !s.paused() && own && p.active && !fits
            &&& r is None <==> !s.paused() && own && p.active && fits
        }),
{
}

/// What a cancellation does: the program ends with what it has spent, leaves
/// its creator's list, and the sponsor gets exactly the rest of the budget, if
/// there is one. Nothing else changes.
pub proof fn law_cancellation(e: EnvView, sponsor: Address, program_id: u64)
    ensures
        ({
            let s = e.storage;
            let r = cancel_refusal(s, sponsor, program_id);
            let f = cancel_after(e, sponsor, program_id);
            let p = s.program(program_id)->0;
            let (creator, token) = (p.creator, p.token);
            let unspent = (p.max_match_amount - p.current_matched) as i128;
            let auth = HostCall::RequireAuth(sponsor);
            let refund = HostCall::Transfer {
                token,
                from: e.contract,
                to: sponsor,
                amount: unspent,
            };
            let news = HostCall::Publish(
                Event::MatchingEnded { creator, token, sponsor, program_id, unspent },
            );
            &&& f.contract == e.contract && f.timestamp == e.timestamp
            &&& r == Some(Abort::Paused) ==> f == e
            &&& r is Some && r != Some(Abort::Paused) ==> f.storage == s && f.calls == e.calls
                + seq![auth]
            &&& r is None ==> {
                &&& f.storage == (StorageView {
                    programs: s.programs.insert(
                        DataKey::MatchingProgram(program_id),
                        MatchingProgram { active: false, ..p },
                    ),
                    program_lists: s.program_lists.insert(
                        DataKey::CreatorMatchingPrograms(creator),
                        without(s.programs_for(creator), program_id),
                    ),
                    ..s
                })
                &&& unspent == p.max_match_amount - p.current_matched
                &&& unspent > 0 ==> f.calls == e.calls + seq![auth, refund, news]
                &&& unspent <= 0 ==> f.calls == e.calls + seq![auth, news]
            }
        }),
{
    let f = cancel_after(e, sponsor, program_id);
    let asked = e.calls + seq![HostCall::RequireAuth(sponsor)];
    if f.calls.len() > asked.len() {
        let more = f.calls.skip(asked.len() as int);
        assert(f.calls =~= e.calls + (seq![HostCall::RequireAuth(sponsor)] + more));
    }
}

/// While the books are in order, the sponsor of an active program can always
/// cancel it on a jar that is not paused, however much has been spent; nothing
/// else stands in the way, and nobody else can.
pub proof fn law_sponsor_can_always_cancel(s: StorageView, sponsor: Address, program_id: u64)
    requires
        valid(s),
    ensures
        cancel_refusal(s, sponsor, program_id) is None <==> !s.paused() && s.program(
            program_id,
        ) is Some && s.program(program_id)->0.sponsor == sponsor && s.program(program_id)->0.active,
{
    law_cancellation_goes_through(s, sponsor, program_id);
}

} // verus!
