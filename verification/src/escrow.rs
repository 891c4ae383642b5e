//! What the jar owes, and that it holds as much.

use crate::books::{
    balance_valid, law_books_always_valid, lemma_matched_not_negative, program_valid, tip_valid,
    valid,
};
use crate::calls::{actor, after, at_time, fresh, refund_subject, refusal, run, Call};
use crate::env::{EnvView, HostCall, StorageView};
use crate::laws::refunds;
use crate::model::{
    backer, balance_after_refund, execute_refund_after, matched, next_matching_id,
    program_after_match, remaining,
};
use crate::types::{Address, DataKey, MatchingProgram, Metadata, TipRecord};
use vstd::prelude::*;

verus! {

/// The sum of `weight` over the entries of a map.
pub open spec fn map_sum<K, V>(m: Map<K, V>, weight: spec_fn(K, V) -> int) -> int
    decreases m.dom().len(),
{
    if m.dom().finite() && m.dom().len() > 0 {
        let key = m.dom().choose();
        proof {
            assert(m.dom().contains(key));
            assert(m.remove(key).dom() =~= m.dom().remove(key));
        }
        weight(key, m[key]) + map_sum(m.remove(key), weight)
    } else {
        0
    }
}

proof fn lemma_sum_remove<K, V>(m: Map<K, V>, weight: spec_fn(K, V) -> int, key: K)
    requires
        m.dom().finite(),
        m.contains_key(key),
    ensures
        map_sum(m, weight) == weight(key, m[key]) + map_sum(m.remove(key), weight),
    decreases m.dom().len(),
{
    assert(m.dom().len() > 0) by {
        if m.dom().len() == 0 {
            assert(m.dom() =~= Set::empty());
        }
    }
    let first = m.dom().choose();
    assert(m.dom().contains(first));
    if first != key {
        assert(m.remove(first).dom() =~= m.dom().remove(first));
        assert(m.remove(key).dom() =~= m.dom().remove(key));
        lemma_sum_remove(m.remove(first), weight, key);
        lemma_sum_remove(m.remove(key), weight, first);
        assert(m.remove(first).remove(key) =~= m.remove(key).remove(first));
    }
}

proof fn lemma_sum_insert<K, V>(m: Map<K, V>, weight: spec_fn(K, V) -> int, key: K, value: V)
    requires
        m.dom().finite(),
    ensures
        map_sum(m.insert(key, value), weight) == map_sum(m, weight) + weight(key, value) - (
        if m.contains_key(key) {
            weight(key, m[key])
        } else {
            0
        }),
{
    lemma_sum_remove(m.insert(key, value), weight, key);
    if m.contains_key(key) {
        assert(m.insert(key, value).remove(key) =~= m.remove(key));
        lemma_sum_remove(m, weight, key);
    } else {
        assert(m.insert(key, value).remove(key) =~= m);
    }
}

/// What an amount on the books adds to the debts in a token.
pub open spec fn balance_weight(token: Address) -> spec_fn(DataKey, i128) -> int {
    |key: DataKey, value: i128|
        match key {
            DataKey::CreatorBalance(creator, of) => if of == token {
                value as int
            } else {
                0
            },
            _ => 0,
        }
}

/// What a program adds to the debts in a token: the rest of its budget, until
/// it ends.
pub open spec fn budget_weight(token: Address) -> spec_fn(DataKey, MatchingProgram) -> int {
    |key: DataKey, program: MatchingProgram|
        match key {
            DataKey::MatchingProgram(id) => if program.active && program.token == token {
                remaining(program)
            } else {
                0
            },
            _ => 0,
        }
}

/// What the jar owes in a token: all creators' balances, and what is left of
/// the budgets of all active programs.
pub open spec fn owed(s: StorageView, token: Address) -> int {
    map_sum(s.amounts, balance_weight(token)) + map_sum(s.programs, budget_weight(token))
}

/// What one request brings the jar in a token, less what it takes.
pub open spec fn gain(call: HostCall, jar: Address, token: Address) -> int {
    match call {
        HostCall::Transfer { token: of, from, to, amount } => if of == token {
            (if to == jar {
                amount as int
            } else {
                0
            }) - (if from == jar {
                amount as int
            } else {
                0
            })
        } else {
            0
        },
        _ => 0,
    }
}

/// What the requests have brought the jar in a token, less what they took.
pub open spec fn gains(calls: Seq<HostCall>, jar: Address, token: Address) -> int
    decreases calls.len(),
{
    if calls.len() == 0 {
        0
    } else {
        gains(calls.drop_last(), jar, token) + gain(calls.last(), jar, token)
    }
}

proof fn lemma_gains_add(a: Seq<HostCall>, b: Seq<HostCall>, jar: Address, token: Address)
    ensures
        gains(a + b, jar, token) == gains(a, jar, token) + gains(b, jar, token),
    decreases b.len(),
{
    if b.len() == 0 {
        assert(a + b =~= a);
    } else {
        assert((a + b).drop_last() =~= a + b.drop_last());
        lemma_gains_add(a, b.drop_last(), jar, token);
    }
}

proof fn lemma_gains_push(calls: Seq<HostCall>, call: HostCall, jar: Address, token: Address)
    ensures
        gains(calls.push(call), jar, token) == gains(calls, jar, token) + gain(call, jar, token),
{
    assert(calls.push(call).drop_last() =~= calls);
}

/// A balance that changes changes the debts by as much.
proof fn lemma_owed_with_balance(
    s: StorageView,
    creator: Address,
    of: Address,
    value: i128,
    token: Address,
)
    requires
        s.amounts.dom().finite(),
    ensures
        map_sum(s.with_balance(creator, of, value).amounts, balance_weight(token)) == map_sum(
            s.amounts,
            balance_weight(token),
        ) + (if of == token {
            value - s.balance(creator, of)
        } else {
            0
        }),
{
    lemma_sum_insert(
        s.amounts,
        balance_weight(token),
        DataKey::CreatorBalance(creator, of),
        value,
    );
}

/// A credit raises the debts by as much.
proof fn lemma_owed_with_credit(
    s: StorageView,
    creator: Address,
    of: Address,
    credit: int,
    token: Address,
)
    requires
        s.amounts.dom().finite(),
        credit >= 0,
        s.can_credit(creator, of, credit),
    ensures
        map_sum(s.with_credit(creator, of, credit).amounts, balance_weight(token)) == map_sum(
            s.amounts,
            balance_weight(token),
        ) + (if of == token {
            credit
        } else {
            0
        }),
{
    let balance = (s.balance(creator, of) + credit) as i128;
    let total = (s.total(creator, of) + credit) as i128;
    let first = s.with_balance(creator, of, balance);
    lemma_owed_with_balance(s, creator, of, balance, token);
    lemma_sum_insert(
        first.amounts,
        balance_weight(token),
        DataKey::CreatorTotal(creator, of),
        total,
    );
}

/// Who pays the jar in a call, or is paid by it.
pub open spec fn counterpart(e: EnvView, call: Call) -> Option<Address> {
    match call {
        Call::Tip { sender, .. } => Some(sender),
        Call::TipWithMessage { sender, .. } => Some(sender),
        Call::TipWithMatch { sender, .. } => Some(sender),
        Call::Withdraw { creator, token } => Some(creator),
        Call::CreateMatchingProgram { sponsor, .. } => Some(sponsor),
        Call::CancelMatchingProgram { sponsor, program_id } => Some(sponsor),
        _ => match refund_subject(call) {
            Some(tip_id) => if refunds(e, call, tip_id) {
                Some(e.storage.tip(tip_id)->0.sender)
            } else {
                None
            },
            None => None,
        },
    }
}

/// The jar does not pay itself.
pub open spec fn between_strangers(e: EnvView, call: Call) -> bool {
    counterpart(e, call) != Some(e.contract)
}

/// By how much a call sends more of a token back than its creator's balance
/// holds, because the creator has withdrawn the tip already.
pub open spec fn shortfall(e: EnvView, call: Call, token: Address) -> int {
    match refund_subject(call) {
        Some(tip_id) => {
            let record = e.storage.tip(tip_id)->0;
            let balance = e.storage.balance(record.creator, record.token);
            if refunds(e, call, tip_id) && record.token == token && balance < record.amount {
                record.amount - balance
            } else {
                0
            }
        },
        None => 0,
    }
}

proof fn lemma_deposit_gains(
    calls: Seq<HostCall>,
    payer: Address,
    jar: Address,
    of: Address,
    amount: i128,
    announced: HostCall,
    token: Address,
)
    requires
        payer != jar,
        announced is Publish,
    ensures
        gains(
            calls + (seq![
                HostCall::RequireAuth(payer),
                HostCall::Transfer { token: of, from: payer, to: jar, amount },
            ] + seq![announced]),
            jar,
            token,
        ) == gains(calls, jar, token) + (if of == token {
            amount as int
        } else {
            0
        }),
{
    let auth = HostCall::RequireAuth(payer);
    let transfer = HostCall::Transfer { token: of, from: payer, to: jar, amount };
    assert(calls + (seq![auth, transfer] + seq![announced]) =~= calls.push(auth).push(
        transfer,
    ).push(announced));
    lemma_gains_push(calls, auth, jar, token);
    lemma_gains_push(calls.push(auth), transfer, jar, token);
    lemma_gains_push(calls.push(auth).push(transfer), announced, jar, token);
}

proof fn lemma_payout_gains(
    calls: Seq<HostCall>,
    who: Address,
    payee: Address,
    jar: Address,
    of: Address,
    amount: i128,
    announced: HostCall,
    token: Address,
)
    requires
        payee != jar,
        announced is Publish,
    ensures
        gains(
            calls.push(HostCall::RequireAuth(who)).push(
                HostCall::Transfer { token: of, from: jar, to: payee, amount },
            ).push(announced),
            jar,
            token,
        ) == gains(calls, jar, token) - (if of == token {
            amount as int
        } else {
            0
        }),
{
    let auth = HostCall::RequireAuth(who);
    let transfer = HostCall::Transfer { token: of, from: jar, to: payee, amount };
    lemma_gains_push(calls, auth, jar, token);
    lemma_gains_push(calls.push(auth), transfer, jar, token);
    lemma_gains_push(calls.push(auth).push(transfer), announced, jar, token);
}

/// How much more the jar owes after a call than before.
pub open spec fn new_debt(e: EnvView, call: Call, token: Address) -> int {
    owed(after(e, call).storage, token) - owed(e.storage, token)
}

/// How much more the jar holds after a call than before.
pub open spec fn new_funds(e: EnvView, call: Call, token: Address) -> int {
    gains(after(e, call).calls, e.contract, token) - gains(e.calls, e.contract, token)
}

proof fn lemma_even_tip(
    e: EnvView,
    sender: Address,
    creator: Address,
    of: Address,
    amount: i128,
    token: Address,
)
    requires
        e.storage.is_finite(),
        sender != e.contract,
        refusal(e, (Call::Tip { sender, creator, token: of, amount })) is None,
    ensures
        new_debt(e, (Call::Tip { sender, creator, token: of, amount }), token) == new_funds(
            e,
            (Call::Tip { sender, creator, token: of, amount }),
            token,
        ),
{
    let f = after(e, (Call::Tip { sender, creator, token: of, amount }));
    lemma_owed_with_credit(e.storage, creator, of, amount as int, token);
    lemma_deposit_gains(e.calls, sender, e.contract, of, amount, f.calls.last(), token);
}

proof fn lemma_even_note(
    e: EnvView,
    sender: Address,
    creator: Address,
    of: Address,
    amount: i128,
    message: Vec<u8>,
    metadata: Metadata,
    token: Address,
)
    requires
        e.storage.is_finite(),
        sender != e.contract,
        refusal(
            e,
            (Call::TipWithMessage { sender, creator, token: of, amount, message, metadata }),
        ) is None,
    ensures
        new_debt(
            e,
            (Call::TipWithMessage { sender, creator, token: of, amount, message, metadata }),
            token,
        ) == new_funds(
            e,
            (Call::TipWithMessage { sender, creator, token: of, amount, message, metadata }),
            token,
        ),
{
    let f = after(
        e,
        (Call::TipWithMessage { sender, creator, token: of, amount, message, metadata }),
    );
    lemma_owed_with_credit(e.storage, creator, of, amount as int, token);
    lemma_deposit_gains(e.calls, sender, e.contract, of, amount, f.calls.last(), token);
}

proof fn lemma_even_match(
    e: EnvView,
    sender: Address,
    creator: Address,
    of: Address,
    amount: i128,
    token: Address,
)
    requires
        e.storage.is_finite(),
        sender != e.contract,
        refusal(e, (Call::TipWithMatch { sender, creator, token: of, amount })) is None,
    ensures
        new_debt(e, (Call::TipWithMatch { sender, creator, token: of, amount }), token)
            == new_funds(e, (Call::TipWithMatch { sender, creator, token: of, amount }), token),
{
    let s = e.storage;
    let f = after(e, (Call::TipWithMatch { sender, creator, token: of, amount }));
    let added = matched(s, creator, of, amount);
    lemma_matched_not_negative(s, creator, of, amount);
    lemma_owed_with_credit(s, creator, of, amount + added, token);
    lemma_deposit_gains(e.calls, sender, e.contract, of, amount, f.calls.last(), token);
    match backer(s, creator, of) {
        Some(id) => {
            lemma_sum_insert(
                s.programs,
                budget_weight(token),
                DataKey::MatchingProgram(id),
                program_after_match(s.program(id)->0, added),
            );
        },
        None => {},
    }
}

proof fn lemma_even_create(
    e: EnvView,
    sponsor: Address,
    creator: Address,
    of: Address,
    match_ratio: u32,
    max_match_amount: i128,
    token: Address,
)
    requires
        valid(e.storage),
        e.storage.is_finite(),
        sponsor != e.contract,
        refusal(
            e,
            (Call::CreateMatchingProgram {
                sponsor,
                creator,
                token: of,
                match_ratio,
                max_match_amount,
            }),
        ) is None,
    ensures
        ({
            let call = Call::CreateMatchingProgram {
                sponsor,
                creator,
                token: of,
                match_ratio,
                max_match_amount,
            };
            new_debt(e, call, token) == new_funds(e, call, token)
        }),
{
    let call = Call::CreateMatchingProgram {
        sponsor,
        creator,
        token: of,
        match_ratio,
        max_match_amount,
    };
    let f = after(e, call);
    let id = next_matching_id(e.storage);
    assert(e.storage.program(id) is None);
    lemma_sum_insert(
        e.storage.programs,
        budget_weight(token),
        DataKey::MatchingProgram(id),
        f.storage.program(id)->0,
    );
    lemma_deposit_gains(e.calls, sponsor, e.contract, of, max_match_amount, f.calls.last(), token);
}

proof fn lemma_even_withdrawal(e: EnvView, creator: Address, of: Address, token: Address)
    requires
        e.storage.is_finite(),
        creator != e.contract,
        refusal(e, (Call::Withdraw { creator, token: of })) is None,
    ensures
        new_debt(e, (Call::Withdraw { creator, token: of }), token) == new_funds(
            e,
            (Call::Withdraw { creator, token: of }),
            token,
        ),
{
    let f = after(e, (Call::Withdraw { creator, token: of }));
    let amount = e.storage.balance(creator, of);
    let announced = f.calls.last();
    lemma_owed_with_balance(e.storage, creator, of, 0, token);
    lemma_payout_gains(e.calls, creator, creator, e.contract, of, amount, announced, token);
    assert(f.calls =~= e.calls.push(HostCall::RequireAuth(creator)).push(
        HostCall::Transfer { token: of, from: e.contract, to: creator, amount },
    ).push(announced));
}

proof fn lemma_even_cancellation(e: EnvView, sponsor: Address, program_id: u64, token: Address)
    requires
        valid(e.storage),
        e.storage.is_finite(),
        sponsor != e.contract,
        refusal(e, (Call::CancelMatchingProgram { sponsor, program_id })) is None,
    ensures
        new_debt(e, (Call::CancelMatchingProgram { sponsor, program_id }), token) == new_funds(
            e,
            (Call::CancelMatchingProgram { sponsor, program_id }),
            token,
        ),
{
    let f = after(e, (Call::CancelMatchingProgram { sponsor, program_id }));
    let p = e.storage.program(program_id)->0;
    assert(program_valid(e.storage, program_id, p));
    let unspent = remaining(p) as i128;
    let announced = f.calls.last();
    lemma_sum_insert(
        e.storage.programs,
        budget_weight(token),
        DataKey::MatchingProgram(program_id),
        MatchingProgram { active: false, ..p },
    );
    lemma_payout_gains(e.calls, sponsor, sponsor, e.contract, p.token, unspent, announced, token);
    assert(f.calls =~= e.calls.push(HostCall::RequireAuth(sponsor)).push(
        HostCall::Transfer { token: p.token, from: e.contract, to: sponsor, amount: unspent },
    ).push(announced));
}

proof fn lemma_refund_accounts(e: EnvView, call: Call, tip_id: u64, token: Address)
    requires
        valid(e.storage),
        e.storage.is_finite(),
        refund_subject(call) == Some(tip_id),
        refunds(e, call, tip_id),
        between_strangers(e, call),
    ensures
        new_debt(e, call, token) == new_funds(e, call, token) + shortfall(e, call, token),
{
    let f = after(e, call);
    let record = e.storage.tip(tip_id)->0;
    assert(tip_valid(e.storage, tip_id, record));
    assert(balance_valid(e.storage, record.creator, record.token));
    let announced = f.calls.last();
    lemma_owed_with_balance(
        e.storage,
        record.creator,
        record.token,
        balance_after_refund(e.storage, record) as i128,
        token,
    );
    lemma_payout_gains(
        e.calls,
        actor(call),
        record.sender,
        e.contract,
        record.token,
        record.amount,
        announced,
        token,
    );
    assert(f.calls =~= e.calls.push(HostCall::RequireAuth(actor(call))).push(
        HostCall::Transfer {
            token: record.token,
            from: e.contract,
            to: record.sender,
            amount: record.amount,
        },
    ).push(announced));
}

/// A call that moves no tokens and writes no balance and no program.
proof fn lemma_even_otherwise(e: EnvView, call: Call, token: Address)
    requires
        after(e, call).storage.amounts == e.storage.amounts,
        after(e, call).storage.programs == e.storage.programs,
        e.calls.len() <= after(e, call).calls.len(),
        e.calls =~= after(e, call).calls.take(e.calls.len() as int),
        forall|i: int|
            e.calls.len() <= i < after(e, call).calls.len() ==> !((#[trigger] after(
                e,
                call,
            ).calls[i]) is Transfer),
    ensures
        new_debt(e, call, token) == new_funds(e, call, token),
{
    let calls = after(e, call).calls;
    let more = calls.skip(e.calls.len() as int);
    assert(calls =~= e.calls + more);
    lemma_gains_add(e.calls, more, e.contract, token);
    lemma_no_gains(more, e.contract, token);
}

proof fn lemma_no_gains(calls: Seq<HostCall>, jar: Address, token: Address)
    requires
        forall|i: int| 0 <= i < calls.len() ==> !((#[trigger] calls[i]) is Transfer),
    ensures
        gains(calls, jar, token) == 0,
    decreases calls.len(),
{
    if calls.len() > 0 {
        assert(!(calls[calls.len() - 1] is Transfer));
        lemma_no_gains(calls.drop_last(), jar, token);
    }
}

/// Every call that goes through changes what the jar owes in a token by exactly
/// what it makes the jar hold of it. The one exception is a refund of a tip
/// that its creator has withdrawn: what the balance cannot cover is paid out
/// of what is owed to others.
pub proof fn law_accounts_stay_even(e: EnvView, call: Call, token: Address)
    requires
        valid(e.storage),
        e.storage.is_finite(),
        refusal(e, call) is None,
        between_strangers(e, call),
    ensures
        owed(after(e, call).storage, token) - owed(e.storage, token) == gains(
            after(e, call).calls,
            e.contract,
            token,
        ) - gains(e.calls, e.contract, token) + shortfall(e, call, token),
{
    match call {
        Call::Tip { sender, creator, token: of, amount } => {
            lemma_even_tip(e, sender, creator, of, amount, token);
        },
        Call::TipWithMessage { sender, creator, token: of, amount, message, metadata } => {
            lemma_even_note(e, sender, creator, of, amount, message, metadata, token);
        },
        Call::TipWithMatch { sender, creator, token: of, amount } => {
            lemma_even_match(e, sender, creator, of, amount, token);
        },
        Call::CreateMatchingProgram {
            sponsor,
            creator,
            token: of,
            match_ratio,
            max_match_amount,
        } => {
            lemma_even_create(e, sponsor, creator, of, match_ratio, max_match_amount, token);
        },
        Call::CancelMatchingProgram { sponsor, program_id } => {
            lemma_even_cancellation(e, sponsor, program_id, token);
        },
        Call::Withdraw { creator, token: of } => {
            lemma_even_withdrawal(e, creator, of, token);
        },
        Call::RequestRefund { sender, tip_id } => {
            if refunds(e, call, tip_id) {
                lemma_refund_accounts(e, call, tip_id, token);
            } else {
                lemma_even_otherwise(e, call, token);
            }
        },
        Call::ApproveRefund { creator, tip_id } => {
            lemma_refund_accounts(e, call, tip_id, token);
        },
        _ => {
            lemma_even_otherwise(e, call, token);
        },
    }
}

/// Whether the jar pays itself in no call of a run that goes through.
pub open spec fn run_between_strangers(e: EnvView, history: Seq<(u64, Call)>) -> bool
    decreases history.len(),
{
    history.len() > 0 ==> {
        let now = at_time(run(e, history.drop_last()), history.last().0);
        let call = history.last().1;
        &&& run_between_strangers(e, history.drop_last())
        &&& refusal(now, call) is None ==> between_strangers(now, call)
    }
}

/// By how much a run has sent more of a token back than the creators' balances
/// held.
pub open spec fn shortfalls(e: EnvView, history: Seq<(u64, Call)>, token: Address) -> int
    decreases history.len(),
{
    if history.len() == 0 {
        0
    } else {
        let now = at_time(run(e, history.drop_last()), history.last().0);
        let call = history.last().1;
        shortfalls(e, history.drop_last(), token) + (if refusal(now, call) is None {
            shortfall(now, call, token)
        } else {
            0
        })
    }
}

#[verifier::rlimit(40)]
proof fn lemma_stays_finite(e: EnvView, call: Call)
    requires
        e.storage.is_finite(),
    ensures
        after(e, call).storage.is_finite(),
        after(e, call).contract == e.contract,
{
}

proof fn lemma_run_finite(contract: Address, history: Seq<(u64, Call)>)
    ensures
        run(fresh(contract), history).storage.is_finite(),
        run(fresh(contract), history).contract == contract,
    decreases history.len(),
{
    if history.len() > 0 {
        lemma_run_finite(contract, history.drop_last());
        lemma_stays_finite(
            at_time(run(fresh(contract), history.drop_last()), history.last().0),
            history.last().1,
        );
    }
}

/// At any time, what the jar has taken in of a token, less what it has paid
/// out, is what it owes (the creators' balances and the unspent budgets of the
/// active matching programs), less what it has sent back of tips that their
/// creators had withdrawn.
pub proof fn law_jar_holds_what_it_owes(
    contract: Address,
    history: Seq<(u64, Call)>,
    token: Address,
)
    requires
        run_between_strangers(fresh(contract), history),
    ensures
        gains(run(fresh(contract), history).calls, contract, token) + shortfalls(
            fresh(contract),
            history,
            token,
        ) == owed(run(fresh(contract), history).storage, token),
    decreases history.len(),
{
    let e = fresh(contract);
    if history.len() > 0 {
        let before = run(e, history.drop_last());
        let now = at_time(before, history.last().0);
        law_jar_holds_what_it_owes(contract, history.drop_last(), token);
        lemma_run_finite(contract, history.drop_last());
        law_books_always_valid(contract, history.drop_last());
        if refusal(now, history.last().1) is None {
            law_accounts_stay_even(now, history.last().1, token);
        }
    } else {
        assert(e.storage.amounts.dom() =~= Set::empty());
        assert(e.storage.programs.dom() =~= Set::empty());
    }
}

proof fn lemma_sum_not_negative<K, V>(m: Map<K, V>, weight: spec_fn(K, V) -> int)
    requires
        forall|key: K| #[trigger] m.contains_key(key) ==> weight(key, m[key]) >= 0,
    ensures
        map_sum(m, weight) >= 0,
    decreases m.dom().len(),
{
    if m.dom().finite() && m.dom().len() > 0 {
        let key = m.dom().choose();
        assert(m.contains_key(key));
        assert(m.remove(key).dom() =~= m.dom().remove(key));
        assert forall|other: K| #[trigger] m.remove(key).contains_key(other) implies weight(
            other,
            m.remove(key)[other],
        ) >= 0 by {
            assert(m.contains_key(other));
        }
        lemma_sum_not_negative(m.remove(key), weight);
    }
}

proof fn lemma_sum_at_least<K, V>(m: Map<K, V>, weight: spec_fn(K, V) -> int, key: K)
    requires
        m.dom().finite(),
        m.contains_key(key),
        forall|other: K| #[trigger] m.contains_key(other) ==> weight(other, m[other]) >= 0,
    ensures
        weight(key, m[key]) <= map_sum(m, weight),
{
    lemma_sum_remove(m, weight, key);
    assert forall|other: K| #[trigger] m.remove(key).contains_key(other) implies weight(
        other,
        m.remove(key)[other],
    ) >= 0 by {
        assert(m.contains_key(other));
    }
    lemma_sum_not_negative(m.remove(key), weight);
}

proof fn lemma_weights_not_negative(s: StorageView, token: Address)
    requires
        valid(s),
    ensures
        forall|key: DataKey| #[trigger]
            s.amounts.contains_key(key) ==> balance_weight(token)(key, s.amounts[key]) >= 0,
        forall|key: DataKey| #[trigger]
            s.programs.contains_key(key) ==> budget_weight(token)(key, s.programs[key]) >= 0,
{
    assert forall|key: DataKey| #[trigger] s.amounts.contains_key(key) implies balance_weight(
        token,
    )(key, s.amounts[key]) >= 0 by {
        match key {
            DataKey::CreatorBalance(creator, of) => {
                assert(balance_valid(s, creator, of));
            },
            _ => {},
        }
    }
    assert forall|key: DataKey| #[trigger] s.programs.contains_key(key) implies budget_weight(
        token,
    )(key, s.programs[key]) >= 0 by {
        match key {
            DataKey::MatchingProgram(id) => {
                assert(s.program(id) is Some);
                assert(program_valid(s, id, s.program(id)->0));
            },
            _ => {},
        }
    }
}

/// Every single claim is part of what the jar owes: a creator's balance, and
/// the rest of an active program's budget.
pub proof fn law_claims_are_owed(s: StorageView, creator: Address, token: Address, program_id: u64)
    requires
        valid(s),
        s.is_finite(),
    ensures
        0 <= s.balance(creator, token) <= owed(s, token),
        s.program(program_id) matches Some(program) ==> program.active ==> 0 <= remaining(program)
            <= owed(s, program.token),
{
    assert(balance_valid(s, creator, token));
    lemma_weights_not_negative(s, token);
    lemma_sum_not_negative(s.amounts, balance_weight(token));
    lemma_sum_not_negative(s.programs, budget_weight(token));
    let key = DataKey::CreatorBalance(creator, token);
    if s.amounts.contains_key(key) {
        lemma_sum_at_least(s.amounts, balance_weight(token), key);
    }
    match s.program(program_id) {
        Some(program) => {
            let of = program.token;
            assert(program_valid(s, program_id, program));
            lemma_weights_not_negative(s, of);
            lemma_sum_not_negative(s.amounts, balance_weight(of));
            lemma_sum_at_least(
                s.programs,
                budget_weight(of),
                DataKey::MatchingProgram(program_id),
            );
        },
        None => {},
    }
}

/// As long as no withdrawn tip has been sent back, the jar has the funds for
/// every withdrawal and every cancellation.
pub proof fn law_claims_are_funded(
    contract: Address,
    history: Seq<(u64, Call)>,
    creator: Address,
    token: Address,
    program_id: u64,
)
    requires
        run_between_strangers(fresh(contract), history),
        shortfalls(fresh(contract), history, token) == 0,
    ensures
        ({
            let e = run(fresh(contract), history);
            &&& e.storage.balance(creator, token) <= gains(e.calls, contract, token)
            &&& e.storage.program(program_id) matches Some(program) ==> program.active
                && program.token == token ==> remaining(program) <= gains(
                e.calls,
                contract,
                token,
            )
        }),
{
    let e = run(fresh(contract), history);
    law_jar_holds_what_it_owes(contract, history, token);
    lemma_run_finite(contract, history);
    law_books_always_valid(contract, history);
    law_claims_are_owed(e.storage, creator, token, program_id);
}

/// What the jar holds of a token beyond what it owes.
pub open spec fn surplus(e: EnvView, token: Address) -> int {
    gains(e.calls, e.contract, token) - owed(e.storage, token)
}

/// Sending a tip back leaves the surplus as it is where the creator's balance
/// still covers the tip. Where it does not, the surplus falls by what is
/// missing: only the refund of a tip already withdrawn draws on other people's
/// escrow.
pub proof fn law_refund_draws_on_others_only_for_a_withdrawn_tip(
    e: EnvView,
    record: TipRecord,
    token: Address,
)
    requires
        e.storage.is_finite(),
        e.storage.balance(record.creator, record.token) >= 0,
        balance_after_refund(e.storage, record) <= i128::MAX,
        record.sender != e.contract,
    ensures
        ({
            let balance = e.storage.balance(record.creator, record.token);
            surplus(execute_refund_after(e, record), token) == surplus(e, token) - (if token
                == record.token && balance < record.amount {
                record.amount - balance
            } else {
                0
            })
        }),
{
    let f = execute_refund_after(e, record);
    lemma_owed_with_balance(
        e.storage,
        record.creator,
        record.token,
        balance_after_refund(e.storage, record) as i128,
        token,
    );
    assert(f.calls =~= e.calls.push(f.calls.last()));
    lemma_gains_push(e.calls, f.calls.last(), e.contract, token);
}

} // verus!
