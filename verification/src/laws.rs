//! What holds of the jar as a whole.

use crate::books::{
    balance_valid, lemma_backer_is_listed, lemma_first_backer, lemma_matched_not_negative,
    lemma_without, list_valid, listed, program_valid, tip_valid, valid,
};
use crate::calls::{actor, administers, after, at_time, refusal, run, Call};
use crate::env::{without, EnvView, HostCall, StorageView};
use crate::history::law_history_is_kept_for_good;
use crate::model::{
    approve_refund_refusal, backer, backs, matched, new_tip, next_matching_id, next_tip_id,
    remaining, request_refund_refusal, tip_refusal, tip_with_match_refusal, within_grace,
    GRACE_PERIOD_SECS, MAX_MESSAGE_LEN,
};
use crate::types::{
    Abort, Address, DataKey, MatchingProgram, Metadata, TipJarError, TipRecord, TipWithMessageView,
};
use vstd::prelude::*;

verus! {

// Refused calls

/// A call that is abandoned changes no ledger entry and announces nothing.
pub proof fn law_refused_call_changes_nothing(e: EnvView, call: Call)
    requires
        refusal(e, call) is Some,
    ensures
        after(e, call).storage == e.storage,
        forall|i: int|
            e.calls.len() <= i < after(e, call).calls.len() ==> !((#[trigger] after(
                e,
                call,
            ).calls[i]) is Publish),
{
}

/// While the jar is paused, every call but those that set it up, pause it or
/// resume it is refused, changes nothing and asks nothing of the host.
pub proof fn law_paused_jar_stands_still(e: EnvView, call: Call)
    requires
        e.storage.paused(),
        !(call is Init || call is Pause || call is Unpause),
    ensures
        refusal(e, call) == Some(Abort::Paused),
        after(e, call) == e,
{
}

/// The administrator can pause the jar and resume it, and then everything is
/// as it was.
pub proof fn law_unpause_undoes_pause(e: EnvView, admin: Address)
    requires
        e.storage.admin() == Some(admin),
        !e.storage.paused(),
    ensures
        refusal(e, (Call::Pause { admin })) is None,
        after(e, (Call::Pause { admin })).storage.paused(),
        refusal(after(e, (Call::Pause { admin })), (Call::Unpause { admin })) is None,
        ({
            let t = after(after(e, (Call::Pause { admin })), (Call::Unpause { admin })).storage;
            &&& forall|key: DataKey| #[trigger] t.flag(key) == e.storage.flag(key)
            &&& t == (StorageView { flags: t.flags, ..e.storage })
        }),
{
}

// Who may do what

/// A call that goes through first asks for the authorisation of whoever makes
/// it; only the one-time setup needs none. What was asked before stays asked.
pub proof fn law_actor_authorises(e: EnvView, call: Call)
    ensures
        e.calls.is_prefix_of(after(e, call).calls),
        refusal(e, call) is None && !(call is Init) ==> after(e, call).calls.len() > e.calls.len()
            && after(e, call).calls[e.calls.len() as int] == HostCall::RequireAuth(actor(call)),
        after(e, call).storage != e.storage && !(call is Init) ==> after(e, call).calls.len()
            > e.calls.len() && after(e, call).calls[e.calls.len() as int] == HostCall::RequireAuth(
            actor(call),
        ),
{
    assert(e.calls =~= after(e, call).calls.take(e.calls.len() as int));
}

#[verifier::rlimit(40)]
proof fn lemma_payer(e: EnvView, call: Call, i: int)
    requires
        e.calls.len() <= i < after(e, call).calls.len(),
    ensures
        after(e, call).calls[i] matches HostCall::Transfer { token, from, to, amount } ==> from
            == actor(call) || from == e.contract,
{
}

/// A call takes tokens only from whoever makes it, or from the jar.
pub proof fn law_only_the_actor_pays(e: EnvView, call: Call)
    ensures
        forall|i: int|
            e.calls.len() <= i < after(e, call).calls.len() ==> ((#[trigger] after(
                e,
                call,
            ).calls[i]) matches HostCall::Transfer { token, from, to, amount } ==> from == actor(
                call,
            ) || from == e.contract),
{
    assert forall|i: int| e.calls.len() <= i < after(e, call).calls.len() implies ((
    #[trigger] after(e, call).calls[i]) matches HostCall::Transfer { token, from, to, amount }
        ==> from == actor(call) || from == e.contract) by {
        lemma_payer(e, call, i);
    }
}

/// The administrator is chosen once.
pub proof fn law_administrator_is_chosen_once(e: EnvView, admin: Address)
    ensures
        e.storage.admin() is Some ==> refusal(e, (Call::Init { admin })) == Some(
            Abort::Error(TipJarError::AlreadyInitialized),
        ),
        e.storage.admin() is None ==> {
            let t = after(e, (Call::Init { admin })).storage;
            t.admin() == Some(admin) && !t.paused()
        },
{
}

/// Nobody but the administrator changes the whitelist or the pause.
pub proof fn law_only_the_administrator_sets_flags(e: EnvView, call: Call)
    requires
        after(e, call).storage.flags != e.storage.flags,
    ensures
        administers(call),
        e.storage.admin() == Some(actor(call)) || (call is Init && e.storage.admin() is None),
{
}

/// Adding a token lists that token and no other; removing it takes it off the
/// list again, and then it can neither be tipped nor matched. (A paused jar
/// does neither.)
pub proof fn law_whitelist(e: EnvView, admin: Address, token: Address)
    requires
        e.storage.admin() == Some(admin),
        !e.storage.paused(),
    ensures
        after(e, (Call::AddToken { admin, token })).storage.whitelisted(token),
        !after(e, (Call::RemoveToken { admin, token })).storage.whitelisted(token),
        forall|other: Address|
            other != token ==> (#[trigger] after(
                e,
                (Call::AddToken { admin, token }),
            ).storage.whitelisted(other)) == e.storage.whitelisted(other),
        forall|other: Address|
            other != token ==> (#[trigger] after(
                e,
                (Call::RemoveToken { admin, token }),
            ).storage.whitelisted(other)) == e.storage.whitelisted(other),
        forall|creator: Address, amount: i128|
            #![trigger tip_refusal(
                after(e, (Call::RemoveToken { admin, token })).storage,
                creator,
                token,
                amount,
            )]
            tip_refusal(
                after(e, (Call::RemoveToken { admin, token })).storage,
                creator,
                token,
                amount,
            ) is Some,
        forall|creator: Address, amount: i128|
            #![trigger tip_with_match_refusal(
                after(e, (Call::RemoveToken { admin, token })).storage,
                creator,
                token,
                amount,
            )]
            tip_with_match_refusal(
                after(e, (Call::RemoveToken { admin, token })).storage,
                creator,
                token,
                amount,
            ) is Some,
{
}

// Tips

/// A tip that goes through gets a number that no tip had before; its record can
/// be looked up under that number; the creator's balance and total grow by the
/// tip, and no other balance, total or tip changes.
pub proof fn law_tip_is_booked(
    e: EnvView,
    sender: Address,
    creator: Address,
    token: Address,
    amount: i128,
)
    requires
        valid(e.storage),
        refusal(e, (Call::Tip { sender, creator, token, amount })) is None,
    ensures
        ({
            let s = e.storage;
            let t = after(e, (Call::Tip { sender, creator, token, amount })).storage;
            let id = next_tip_id(s);
            &&& id == s.tip_count() + 1
            &&& s.tip(id) is None
            &&& t.tip(id) == Some(new_tip(e, sender, creator, token, amount))
            &&& t.balance(creator, token) == s.balance(creator, token) + amount
            &&& t.total(creator, token) == s.total(creator, token) + amount
            &&& forall|c: Address, k: Address|
                c != creator || k != token ==> #[trigger] t.balance(c, k) == s.balance(c, k)
            &&& forall|c: Address, k: Address|
                c != creator || k != token ==> #[trigger] t.total(c, k) == s.total(c, k)
            &&& forall|other: u64| other != id ==> #[trigger] t.tip(other) == s.tip(other)
        }),
{
    let id = next_tip_id(e.storage);
    assert(e.storage.tip(id) is None);
}

/// A note that came with a tip can be read back: it is the creator's latest,
/// and all other notes are as they were.
pub proof fn law_note_is_kept(
    e: EnvView,
    sender: Address,
    creator: Address,
    token: Address,
    amount: i128,
    message: Vec<u8>,
    metadata: Metadata,
)
    requires
        refusal(
            e,
            (Call::TipWithMessage { sender, creator, token, amount, message, metadata }),
        ) is None,
    ensures
        ({
            let s = e.storage;
            let t = after(
                e,
                (Call::TipWithMessage { sender, creator, token, amount, message, metadata }),
            ).storage;
            let note = TipWithMessageView {
                sender,
                creator,
                amount,
                message: message@,
                metadata: metadata@,
                timestamp: e.timestamp,
            };
            &&& t.messages_for(creator) == s.messages_for(creator).push(note)
            &&& forall|c: Address|
                c != creator ==> #[trigger] t.messages_for(c) == s.messages_for(c)
        }),
{
}

/// But for the note and the whitelist, a tip with a message is a tip: where
/// both go through, they leave the same balances, totals and records.
pub proof fn law_note_does_not_change_the_tip(
    e: EnvView,
    sender: Address,
    creator: Address,
    token: Address,
    amount: i128,
    message: Vec<u8>,
    metadata: Metadata,
)
    requires
        refusal(e, (Call::Tip { sender, creator, token, amount })) is None,
        message@.len() <= MAX_MESSAGE_LEN,
    ensures
        ({
            let noted = Call::TipWithMessage { sender, creator, token, amount, message, metadata };
            let t = after(e, (Call::Tip { sender, creator, token, amount })).storage;
            let u = after(e, noted).storage;
            &&& refusal(e, noted) is None
            &&& u == (StorageView { messages: u.messages, ..t })
        }),
{
}

/// A withdrawal pays out the whole balance, at once and only once; what was
/// tipped in all stays on the books, and so does every other balance.
pub proof fn law_withdrawal_empties_the_balance(e: EnvView, creator: Address, token: Address)
    requires
        refusal(e, (Call::Withdraw { creator, token })) is None,
    ensures
        ({
            let f = after(e, (Call::Withdraw { creator, token }));
            &&& f.storage.balance(creator, token) == 0
            &&& f.storage.total(creator, token) == e.storage.total(creator, token)
            &&& f.calls[e.calls.len() as int + 1] == (HostCall::Transfer {
                token,
                from: e.contract,
                to: creator,
                amount: e.storage.balance(creator, token),
            })
            &&& refusal(f, (Call::Withdraw { creator, token })) == Some(
                Abort::Error(TipJarError::NothingToWithdraw),
            )
            &&& forall|c: Address, k: Address|
                c != creator || k != token ==> #[trigger] f.storage.balance(c, k)
                    == e.storage.balance(c, k)
        }),
{
}

// Refunds

/// Whether a call would send a tip back to its sender.
pub open spec fn refunds(e: EnvView, call: Call, tip_id: u64) -> bool {
    &&& refusal(e, call) is None
    &&& e.storage.tip(tip_id) is Some
    &&& match call {
        Call::RequestRefund { sender, tip_id: id } => id == tip_id && !e.storage.tip(
            tip_id,
        )->0.refund_requested && within_grace(e.timestamp, e.storage.tip(tip_id)->0),
        Call::ApproveRefund { creator, tip_id: id } => id == tip_id,
        _ => false,
    }
}

/// A refund pays the sender the tip, marks it as refunded, and takes it off the
/// creator's balance as far as the balance reaches. Nothing else changes.
pub proof fn law_refund_pays_the_tip_back(e: EnvView, call: Call, tip_id: u64)
    requires
        valid(e.storage),
        refunds(e, call, tip_id),
    ensures
        ({
            let f = after(e, call);
            let record = e.storage.tip(tip_id)->0;
            let balance = e.storage.balance(record.creator, record.token);
            &&& f.calls[e.calls.len() as int + 1] == (HostCall::Transfer {
                token: record.token,
                from: e.contract,
                to: record.sender,
                amount: record.amount,
            })
            &&& f.storage.tip(tip_id) == Some(
                (TipRecord { refunded: true, refund_requested: false, ..record }),
            )
            &&& f.storage.balance(record.creator, record.token) == if balance >= record.amount {
                balance - record.amount
            } else {
                0
            }
            &&& forall|c: Address, k: Address|
                c != record.creator || k != record.token ==> #[trigger] f.storage.balance(c, k)
                    == e.storage.balance(c, k)
            &&& forall|c: Address, k: Address| #[trigger]
                f.storage.total(c, k) == e.storage.total(c, k)
            &&& forall|other: u64|
                other != tip_id ==> #[trigger] f.storage.tip(other) == e.storage.tip(other)
        }),
{
}

/// The record of the tip that a call makes, where it makes one.
pub open spec fn tip_made(e: EnvView, call: Call) -> Option<TipRecord> {
    match call {
        Call::Tip { sender, creator, token, amount } => Some(
            new_tip(e, sender, creator, token, amount),
        ),
        Call::TipWithMessage { sender, creator, token, amount, message, metadata } => Some(
            new_tip(e, sender, creator, token, amount),
        ),
        Call::TipWithMatch { sender, creator, token, amount } => Some(
            new_tip(e, sender, creator, token, amount),
        ),
        _ => None,
    }
}

/// What a sponsor adds to the tip that a call makes.
pub open spec fn added_by_sponsor(e: EnvView, call: Call) -> int {
    match call {
        Call::TipWithMatch { sender, creator, token, amount } => matched(
            e.storage,
            creator,
            token,
            amount,
        ),
        _ => 0,
    }
}

/// A tip of any kind can be taken back under its number within the grace
/// period. Every balance is then as it was before the tip, but for what a
/// sponsor added, which the creator keeps; and what the sender paid is what the
/// sender gets.
pub proof fn law_refund_undoes_a_tip(e: EnvView, call: Call, now: u64)
    requires
        valid(e.storage),
        refusal(e, call) is None,
        tip_made(e, call) is Some,
        e.timestamp + GRACE_PERIOD_SECS <= u64::MAX,
        now <= e.timestamp + GRACE_PERIOD_SECS,
    ensures
        ({
            let record = tip_made(e, call)->0;
            let (sender, creator, token) = (record.sender, record.creator, record.token);
            let request = Call::RequestRefund { sender, tip_id: next_tip_id(e.storage) };
            let tipped = at_time(after(e, call), now);
            let back = after(tipped, request);
            &&& refusal(tipped, request) is None
            &&& forall|c: Address, k: Address| #[trigger]
                back.storage.balance(c, k) == e.storage.balance(c, k) + (if c == creator && k
                    == token {
                    added_by_sponsor(e, call)
                } else {
                    0
                })
            &&& tipped.calls[e.calls.len() as int + 1] == (HostCall::Transfer {
                token,
                from: sender,
                to: e.contract,
                amount: record.amount,
            })
            &&& back.calls[tipped.calls.len() as int + 1] == (HostCall::Transfer {
                token,
                from: e.contract,
                to: sender,
                amount: record.amount,
            })
        }),
{
    let record = tip_made(e, call)->0;
    assert(balance_valid(e.storage, record.creator, record.token));
    match call {
        Call::TipWithMatch { sender, creator, token, amount } => {
            lemma_matched_not_negative(e.storage, creator, token, amount);
        },
        _ => {},
    }
}

/// After the grace period a request moves no money: it only waits for the
/// creator. Asking again changes nothing. The creator can then grant it.
pub proof fn law_late_refund_waits_for_the_creator(e: EnvView, sender: Address, tip_id: u64)
    requires
        valid(e.storage),
        refusal(e, (Call::RequestRefund { sender, tip_id })) is None,
        !e.storage.tip(tip_id)->0.refund_requested,
        !within_grace(e.timestamp, e.storage.tip(tip_id)->0),
    ensures
        ({
            let asked = after(e, (Call::RequestRefund { sender, tip_id }));
            let record = e.storage.tip(tip_id)->0;
            &&& asked.storage.amounts == e.storage.amounts
            &&& asked.storage.tip(tip_id) == Some((TipRecord { refund_requested: true, ..record }))
            &&& forall|i: int|
                e.calls.len() <= i < asked.calls.len() ==> !((
                #[trigger] asked.calls[i]) is Transfer)
            &&& after(asked, (Call::RequestRefund { sender, tip_id })).storage == asked.storage
            &&& refunds(asked, (Call::ApproveRefund { creator: record.creator, tip_id }), tip_id)
        }),
{
    let record = e.storage.tip(tip_id)->0;
    assert(tip_valid(e.storage, tip_id, record));
    assert(balance_valid(e.storage, record.creator, record.token));
}

/// A creator cannot send a tip back that nobody asked for.
pub proof fn law_no_refund_without_request(e: EnvView, creator: Address, tip_id: u64)
    requires
        e.storage.tip(tip_id) is Some,
        !e.storage.tip(tip_id)->0.refund_requested,
    ensures
        refusal(e, (Call::ApproveRefund { creator, tip_id })) is Some,
{
}

/// A stranger gets nothing: only its sender can ask for a tip, and only its
/// creator can grant the request.
pub proof fn law_strangers_get_no_refund(e: EnvView, stranger: Address, tip_id: u64)
    requires
        e.storage.tip(tip_id) is Some,
    ensures
        stranger != e.storage.tip(tip_id)->0.sender ==> refusal(
            e,
            (Call::RequestRefund { sender: stranger, tip_id }),
        ) is Some,
        stranger != e.storage.tip(tip_id)->0.creator ==> refusal(
            e,
            (Call::ApproveRefund { creator: stranger, tip_id }),
        ) is Some,
{
}

/// No tip is refunded twice: once it is, whatever happens afterwards, nobody
/// can ask for it or grant it again.
pub proof fn law_no_second_refund(
    e: EnvView,
    tip_id: u64,
    history: Seq<(u64, Call)>,
    now: u64,
    who: Address,
)
    requires
        valid(e.storage),
        e.storage.tip(tip_id) is Some,
        e.storage.tip(tip_id)->0.refunded,
    ensures
        ({
            let later = run(e, history).storage;
            let record = e.storage.tip(tip_id)->0;
            &&& later.tip(tip_id) == Some(record)
            &&& request_refund_refusal(later, now, who, tip_id) is Some
            &&& approve_refund_refusal(later, who, tip_id) is Some
            &&& !later.paused() && who == record.sender ==> request_refund_refusal(
                later,
                now,
                who,
                tip_id,
            ) == Some(Abort::Error(TipJarError::AlreadyRefunded))
            &&& !later.paused() && who == record.creator ==> approve_refund_refusal(
                later,
                who,
                tip_id,
            ) == Some(Abort::Error(TipJarError::AlreadyRefunded))
        }),
{
    law_history_is_kept_for_good(e, history);
}

// Matching

/// Whether a program can add to a tip in this token.
pub open spec fn funds(program: MatchingProgram, token: Address) -> bool {
    program.active && program.token == token && program.current_matched < program.max_match_amount
}

/// A tip is matched from the first of the creator's programs that can add to
/// it, and from none where no program can.
pub proof fn law_backer_is_the_first_that_can_pay(s: StorageView, creator: Address, token: Address)
    requires
        valid(s),
    ensures
        ({
            let ids = s.programs_for(creator);
            match backer(s, creator, token) {
                Some(id) => {
                    &&& listed(s, creator, id)
                    &&& funds(s.program(id)->0, token)
                    &&& exists|i: int|
                        0 <= i < ids.len() && #[trigger] ids[i] == id && forall|j: int|
                            0 <= j < i ==> !funds((#[trigger] s.program(ids[j]))->0, token)
                },
                None => forall|j: int|
                    0 <= j < ids.len() ==> !funds((#[trigger] s.program(ids[j]))->0, token),
            }
        }),
{
    let ids = s.programs_for(creator);
    assert(list_valid(s, creator));
    lemma_first_backer(s, ids, token);
    lemma_backer_is_listed(s, creator, token);
    assert forall|j: int| 0 <= j < ids.len() implies backs(#[trigger] s.program(ids[j]), token)
        == funds(s.program(ids[j])->0, token) by {
        assert(ids.contains(ids[j]));
        assert(listed(s, creator, ids[j]));
        assert(program_valid(s, ids[j], s.program(ids[j])->0));
    }
    match backer(s, creator, token) {
        Some(id) => {
            let i = choose|i: int|
                0 <= i < ids.len() && #[trigger] ids[i] == id && forall|j: int|
                    0 <= j < i ==> !backs(#[trigger] s.program(ids[j]), token);
            assert(ids[i] == id);
        },
        None => {},
    }
}

/// A matched tip is worth the tip and the match to its creator; the match comes
/// out of the backer's budget; a program whose budget is spent ends and leaves
/// the creator's list; every other program is left alone.
pub proof fn law_match_comes_out_of_the_budget(
    e: EnvView,
    sender: Address,
    creator: Address,
    token: Address,
    amount: i128,
)
    requires
        valid(e.storage),
        refusal(e, (Call::TipWithMatch { sender, creator, token, amount })) is None,
    ensures
        ({
            let s = e.storage;
            let t = after(e, (Call::TipWithMatch { sender, creator, token, amount })).storage;
            let added = matched(s, creator, token, amount);
            &&& t.balance(creator, token) == s.balance(creator, token) + amount + added
            &&& t.total(creator, token) == s.total(creator, token) + amount + added
            &&& t.tip(next_tip_id(s)) == Some(new_tip(e, sender, creator, token, amount))
            &&& match backer(s, creator, token) {
                None => added == 0 && t.programs == s.programs,
                Some(id) => {
                    let p = s.program(id)->0;
                    let q = t.program(id)->0;
                    &&& t.program(id) is Some
                    &&& 0 <= added <= p.max_match_amount - p.current_matched
                    &&& q.current_matched == p.current_matched + added
                    &&& q.active <==> q.current_matched < q.max_match_amount
                    &&& q.active ==> t.programs_for(creator) == s.programs_for(creator)
                    &&& !q.active ==> t.programs_for(creator) == without(
                        s.programs_for(creator),
                        id,
                    )
                    &&& forall|other: u64|
                        other != id ==> #[trigger] t.program(other) == s.program(other)
                },
            }
        }),
{
    lemma_matched_not_negative(e.storage, creator, token, amount);
}

/// Where a creator has no active program in a token, a matched tip is a tip:
/// it is refused for the same reasons, leaves the same ledger, and adds
/// nothing.
pub proof fn law_match_without_a_program_is_a_tip(
    e: EnvView,
    sender: Address,
    creator: Address,
    token: Address,
    amount: i128,
)
    requires
        valid(e.storage),
        forall|id: u64|
            listed(e.storage, creator, id) ==> (#[trigger] e.storage.program(id))->0.token != token,
    ensures
        ({
            let plain = Call::Tip { sender, creator, token, amount };
            let matching = Call::TipWithMatch { sender, creator, token, amount };
            &&& matched(e.storage, creator, token, amount) == 0
            &&& refusal(e, matching) == refusal(e, plain)
            &&& after(e, matching).storage == after(e, plain).storage
        }),
{
    assert(list_valid(e.storage, creator));
    lemma_first_backer(e.storage, e.storage.programs_for(creator), token);
    lemma_backer_is_listed(e.storage, creator, token);
    assert(backer(e.storage, creator, token) is None) by {
        match backer(e.storage, creator, token) {
            Some(id) => {
                assert(listed(e.storage, creator, id));
                assert(e.storage.program(id)->0.token == token);
            },
            None => {},
        }
    }
}

/// A program that has ended, by its budget or by its sponsor, never adds to a
/// tip again.
pub proof fn law_ended_program_never_pays_again(
    e: EnvView,
    program_id: u64,
    history: Seq<(u64, Call)>,
    creator: Address,
    token: Address,
)
    requires
        valid(e.storage),
        e.storage.program(program_id) is Some,
        !e.storage.program(program_id)->0.active,
    ensures
        run(e, history).storage.program(program_id) == e.storage.program(program_id),
        backer(run(e, history).storage, creator, token) != Some(program_id),
{
    law_history_is_kept_for_good(e, history);
    let s = run(e, history).storage;
    lemma_first_backer(s, s.programs_for(creator), token);
}

/// A new program gets a number that no program had before, can be looked up
/// under it, is last in its creator's list, and has its whole budget.
pub proof fn law_program_is_created(
    e: EnvView,
    sponsor: Address,
    creator: Address,
    token: Address,
    match_ratio: u32,
    max_match_amount: i128,
)
    requires
        valid(e.storage),
        refusal(
            e,
            (Call::CreateMatchingProgram {
                sponsor,
                creator,
                token,
                match_ratio,
                max_match_amount,
            }),
        ) is None,
    ensures
        ({
            let s = e.storage;
            let t = after(
                e,
                (Call::CreateMatchingProgram {
                    sponsor,
                    creator,
                    token,
                    match_ratio,
                    max_match_amount,
                }),
            ).storage;
            let id = next_matching_id(s);
            &&& id == s.program_count() + 1
            &&& s.program(id) is None
            &&& t.program(id) is Some
            &&& funds(t.program(id)->0, token)
            &&& t.program(id)->0.sponsor == sponsor
            &&& remaining(t.program(id)->0) == max_match_amount
            &&& t.programs_for(creator) == s.programs_for(creator).push(id)
            &&& forall|other: u64| other != id ==> #[trigger] t.program(other) == s.program(other)
        }),
{
    let id = next_matching_id(e.storage);
    assert(e.storage.program(id) is None);
}

/// A sponsor who cancels gets back exactly what was not spent, and can do so
/// only once. The program leaves its creator's list; the others stay in it, in
/// the same order.
pub proof fn law_cancelling_returns_the_rest(e: EnvView, sponsor: Address, program_id: u64)
    requires
        valid(e.storage),
        refusal(e, (Call::CancelMatchingProgram { sponsor, program_id })) is None,
    ensures
        ({
            let f = after(e, (Call::CancelMatchingProgram { sponsor, program_id }));
            let p = e.storage.program(program_id)->0;
            &&& f.calls[e.calls.len() as int + 1] == (HostCall::Transfer {
                token: p.token,
                from: e.contract,
                to: sponsor,
                amount: (p.max_match_amount - p.current_matched) as i128,
            })
            &&& f.storage.program(program_id) == Some((MatchingProgram { active: false, ..p }))
            &&& f.storage.programs_for(p.creator) == without(
                e.storage.programs_for(p.creator),
                program_id,
            )
            &&& !f.storage.programs_for(p.creator).contains(program_id)
            &&& refusal(f, (Call::CancelMatchingProgram { sponsor, program_id })) == Some(
                Abort::Error(TipJarError::MatchingProgramInactive),
            )
        }),
{
    let p = e.storage.program(program_id)->0;
    assert(program_valid(e.storage, program_id, p));
    lemma_without(e.storage.programs_for(p.creator), program_id);
}

/// With valid books no refund and no cancellation ever fails for want of room;
/// a refund can fail so only where its tip was made within a day of the end of
/// time.
pub proof fn law_valid_books_leave_room(e: EnvView, call: Call)
    requires
        valid(e.storage),
        refusal(e, call) == Some(Abort::Overflow),
    ensures
        !(call is ApproveRefund),
        !(call is CancelMatchingProgram),
        call matches Call::RequestRefund { sender, tip_id } ==> e.storage.tip(tip_id)->0.timestamp
            > u64::MAX - GRACE_PERIOD_SECS,
{
    match call {
        Call::RequestRefund { sender, tip_id } => {
            let r = e.storage.tip(tip_id)->0;
            assert(tip_valid(e.storage, tip_id, r));
            assert(balance_valid(e.storage, r.creator, r.token));
        },
        Call::ApproveRefund { creator, tip_id } => {
            let r = e.storage.tip(tip_id)->0;
            assert(tip_valid(e.storage, tip_id, r));
            assert(balance_valid(e.storage, r.creator, r.token));
        },
        Call::CancelMatchingProgram { sponsor, program_id } => {
            assert(program_valid(e.storage, program_id, e.storage.program(program_id)->0));
        },
        _ => {},
    }
}

} // verus!
