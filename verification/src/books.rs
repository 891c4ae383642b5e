//! The books that the jar keeps, and that every call keeps them valid.

use crate::calls::{after, at_time, fresh, refusal, run, Call};
use crate::env::{without, EnvView, StorageView};
use crate::model::{
    backer, backs, balance_after_refund, first_backer, match_amount, matched, next_matching_id,
    program_after_match, refund_storage, remaining, tip_with_match_refusal, with_match,
    MAX_MESSAGE_LEN,
};
use crate::types::{Address, MatchingProgram, TipRecord, TipWithMessageView};
use vstd::prelude::*;

verus! {

/// A tip record that the jar can have written under `id`.
pub open spec fn tip_valid(s: StorageView, id: u64, record: TipRecord) -> bool {
    &&& record.id == id
    &&& 1 <= id <= s.tip_count()
    &&& record.amount > 0
    &&& !(record.refunded && record.refund_requested)
}

/// A matching program that the jar can have written under `id`.
pub open spec fn program_valid(s: StorageView, id: u64, program: MatchingProgram) -> bool {
    &&& program.id == id
    &&& 1 <= id <= s.program_count()
    &&& program.match_ratio > 0
    &&& program.max_match_amount > 0
    &&& 0 <= program.current_matched <= program.max_match_amount
    &&& program.active ==> program.current_matched < program.max_match_amount
}

/// A note that the jar can have kept for `creator`.
pub open spec fn note_valid(creator: Address, note: TipWithMessageView) -> bool {
    &&& note.creator == creator
    &&& note.amount > 0
    &&& note.message.len() <= MAX_MESSAGE_LEN
}

/// Whether a program belongs in a creator's list: it is that creator's, and
/// active.
pub open spec fn listed(s: StorageView, creator: Address, id: u64) -> bool {
    s.program(id) matches Some(program) && program.creator == creator && program.active
}

/// Each number is greater than those before it.
pub open spec fn increasing(ids: Seq<u64>) -> bool {
    forall|i: int, j: int| 0 <= i < j < ids.len() ==> (#[trigger] ids[i]) < (#[trigger] ids[j])
}

/// A creator's list names exactly the creator's active programs, each once, in
/// the order of their numbers.
pub open spec fn list_valid(s: StorageView, creator: Address) -> bool {
    &&& increasing(s.programs_for(creator))
    &&& forall|id: u64|
        #![trigger s.programs_for(creator).contains(id)]
        #![trigger listed(s, creator, id)]
        s.programs_for(creator).contains(id) <==> listed(s, creator, id)
}

/// A balance is never negative, and never more than all that was tipped.
pub open spec fn balance_valid(s: StorageView, creator: Address, token: Address) -> bool {
    0 <= s.balance(creator, token) <= s.total(creator, token)
}

/// The numbers from 1 to the count, and no others, have a tip record.
pub open spec fn tips_valid(s: StorageView) -> bool {
    &&& forall|id: u64|
        (#[trigger] s.tip(id)) matches Some(record) ==> tip_valid(s, id, record)
    &&& forall|id: u64| 1 <= id <= s.tip_count() ==> (#[trigger] s.tip(id)) is Some
}

/// The numbers from 1 to the count, and no others, have a program.
pub open spec fn programs_valid(s: StorageView) -> bool {
    &&& forall|id: u64|
        (#[trigger] s.program(id)) matches Some(program) ==> program_valid(s, id, program)
    &&& forall|id: u64| 1 <= id <= s.program_count() ==> (#[trigger] s.program(id)) is Some
}

pub open spec fn notes_valid(s: StorageView) -> bool {
    forall|creator: Address, i: int|
        0 <= i < s.messages_for(creator).len() ==> note_valid(
            creator,
            #[trigger] s.messages_for(creator)[i],
        )
}

pub open spec fn listings_valid(s: StorageView) -> bool {
    forall|creator: Address| #[trigger] list_valid(s, creator)
}

pub open spec fn balances_valid(s: StorageView) -> bool {
    forall|creator: Address, token: Address| #[trigger] balance_valid(s, creator, token)
}

/// The books of a jar that only its own calls have written.
pub open spec fn valid(s: StorageView) -> bool {
    &&& tips_valid(s)
    &&& programs_valid(s)
    &&& notes_valid(s)
    &&& listings_valid(s)
    &&& balances_valid(s)
}

/// A fresh jar has valid books.
pub proof fn law_fresh_books_valid(contract: Address)
    ensures
        valid(fresh(contract).storage),
{
}

/// No match is negative or more than is left of the budget.
pub proof fn law_match_within_budget(amount: i128, program: MatchingProgram)
    requires
        amount >= 0,
        remaining(program) >= 0,
    ensures
        0 <= match_amount(amount, program) <= remaining(program),
{
    assert(amount * program.match_ratio >= 0) by (nonlinear_arith)
        requires
            amount >= 0,
    ;
}

/// The backer is one of the listed programs, and backs the tip.
pub(crate) proof fn lemma_first_backer(s: StorageView, ids: Seq<u64>, token: Address)
    ensures
        first_backer(s, ids, token) matches Some(id) ==> backs(s.program(id), token) && exists|
            i: int,
        |
            0 <= i < ids.len() && #[trigger] ids[i] == id && forall|j: int|
                0 <= j < i ==> !backs(#[trigger] s.program(ids[j]), token),
        first_backer(s, ids, token) is None ==> forall|j: int|
            0 <= j < ids.len() ==> !backs(#[trigger] s.program(ids[j]), token),
    decreases ids.len(),
{
    if ids.len() > 0 {
        let rest = ids.drop_first();
        if backs(s.program(ids[0]), token) {
            assert(ids[0] == ids[0]);
        } else {
            lemma_first_backer(s, rest, token);
            match first_backer(s, rest, token) {
                Some(id) => {
                    let i = choose|i: int|
                        0 <= i < rest.len() && #[trigger] rest[i] == id && forall|j: int|
                            0 <= j < i ==> !backs(#[trigger] s.program(rest[j]), token);
                    assert(ids[i + 1] == id);
                    assert forall|j: int| 0 <= j < i + 1 implies !backs(
                        #[trigger] s.program(ids[j]),
                        token,
                    ) by {
                        if j > 0 {
                            assert(ids[j] == rest[j - 1]);
                        }
                    }
                },
                None => {
                    assert forall|j: int| 0 <= j < ids.len() implies !backs(
                        #[trigger] s.program(ids[j]),
                        token,
                    ) by {
                        if j > 0 {
                            assert(ids[j] == rest[j - 1]);
                        }
                    }
                },
            }
        }
    }
}

proof fn lemma_tips_stay_valid(e: EnvView, call: Call)
    requires
        tips_valid(e.storage),
    ensures
        tips_valid(after(e, call).storage),
{
    let s = e.storage;
    let t = after(e, call).storage;
    assert(t.tip_count() >= s.tip_count());
    assert forall|id: u64| (#[trigger] t.tip(id)) matches Some(record) implies tip_valid(
        t,
        id,
        t.tip(id)->0,
    ) by {
        let before = s.tip(id);
        match call {
            Call::RequestRefund { sender, tip_id } => {
                let own = s.tip(tip_id);
            },
            Call::ApproveRefund { creator, tip_id } => {
                let own = s.tip(tip_id);
            },
            _ => {},
        }
    }
    assert forall|id: u64| 1 <= id <= t.tip_count() implies (#[trigger] t.tip(id)) is Some by {
        let before = s.tip(id);
    }
}

#[verifier::rlimit(40)]
proof fn lemma_programs_stay_valid(e: EnvView, call: Call)
    requires
        programs_valid(e.storage),
    ensures
        programs_valid(after(e, call).storage),
{
    let s = e.storage;
    let t = after(e, call).storage;
    assert(t.program_count() >= s.program_count());
    match call {
        Call::TipWithMatch { sender, creator, token, amount } => {
            if refusal(e, call) is None {
                lemma_matched_not_negative(s, creator, token, amount);
            }
        },
        _ => {},
    }
    assert forall|id: u64| (#[trigger] t.program(id)) matches Some(program) implies program_valid(
        t,
        id,
        t.program(id)->0,
    ) by {
        let before = s.program(id);
    }
    assert forall|id: u64| 1 <= id <= t.program_count() implies (
    #[trigger] t.program(id)) is Some by {
        let before = s.program(id);
    }
}

proof fn lemma_notes_stay_valid(e: EnvView, call: Call)
    requires
        notes_valid(e.storage),
    ensures
        notes_valid(after(e, call).storage),
{
    let s = e.storage;
    let t = after(e, call).storage;
    assert forall|creator: Address, i: int| 0 <= i < t.messages_for(creator).len() implies note_valid(
        creator,
        #[trigger] t.messages_for(creator)[i],
    ) by {
        if i < s.messages_for(creator).len() {
            assert(note_valid(creator, s.messages_for(creator)[i]));
        }
    }
}

proof fn lemma_credit_keeps_balances_valid(
    s: StorageView,
    t: StorageView,
    creator: Address,
    token: Address,
    credit: int,
)
    requires
        balances_valid(s),
        credit >= 0,
        s.can_credit(creator, token, credit),
        t.amounts == s.with_credit(creator, token, credit).amounts,
    ensures
        balances_valid(t),
{
    assert(balance_valid(s, creator, token));
    assert forall|c: Address, k: Address| #[trigger] balance_valid(t, c, k) by {
        assert(balance_valid(s, c, k));
    }
}

proof fn lemma_lowering_keeps_balances_valid(
    s: StorageView,
    t: StorageView,
    creator: Address,
    token: Address,
    balance: i128,
)
    requires
        balances_valid(s),
        0 <= balance <= s.balance(creator, token),
        t.amounts == s.with_balance(creator, token, balance).amounts,
    ensures
        balances_valid(t),
{
    assert(balance_valid(s, creator, token));
    assert forall|c: Address, k: Address| #[trigger] balance_valid(t, c, k) by {
        assert(balance_valid(s, c, k));
    }
}

proof fn lemma_refund_keeps_balances_valid(s: StorageView, record: TipRecord)
    requires
        balances_valid(s),
        record.amount > 0,
    ensures
        balances_valid(refund_storage(s, record)),
{
    assert(balance_valid(s, record.creator, record.token));
    lemma_lowering_keeps_balances_valid(
        s,
        refund_storage(s, record),
        record.creator,
        record.token,
        balance_after_refund(s, record) as i128,
    );
}

/// What a backer adds is never negative.
pub(crate) proof fn lemma_matched_not_negative(
    s: StorageView,
    creator: Address,
    token: Address,
    amount: i128,
)
    requires
        tip_with_match_refusal(s, creator, token, amount) is None,
    ensures
        0 <= matched(s, creator, token, amount),
        backer(s, creator, token) matches Some(id) ==> {
            &&& s.program(id) is Some
            &&& backs(s.program(id), token)
            &&& 0 < remaining(s.program(id)->0) <= i128::MAX
            &&& matched(s, creator, token, amount) <= remaining(s.program(id)->0)
        },
{
    lemma_first_backer(s, s.programs_for(creator), token);
    match backer(s, creator, token) {
        Some(id) => {
            law_match_within_budget(amount, s.program(id)->0);
        },
        None => {},
    }
}

proof fn lemma_balances_stay_valid(e: EnvView, call: Call)
    requires
        balances_valid(e.storage),
        tips_valid(e.storage),
    ensures
        balances_valid(after(e, call).storage),
{
    let s = e.storage;
    let t = after(e, call).storage;
    if refusal(e, call) is None {
        match call {
            Call::Tip { sender, creator, token, amount } => {
                lemma_credit_keeps_balances_valid(s, t, creator, token, amount as int);
            },
            Call::TipWithMessage { sender, creator, token, amount, message, metadata } => {
                lemma_credit_keeps_balances_valid(s, t, creator, token, amount as int);
            },
            Call::TipWithMatch { sender, creator, token, amount } => {
                lemma_matched_not_negative(s, creator, token, amount);
                lemma_credit_keeps_balances_valid(
                    s,
                    t,
                    creator,
                    token,
                    amount + matched(s, creator, token, amount),
                );
            },
            Call::RequestRefund { sender, tip_id } => {
                lemma_refund_keeps_balances_valid(s, s.tip(tip_id)->0);
            },
            Call::ApproveRefund { creator, tip_id } => {
                lemma_refund_keeps_balances_valid(s, s.tip(tip_id)->0);
            },
            Call::Withdraw { creator, token } => {
                lemma_lowering_keeps_balances_valid(s, t, creator, token, 0);
            },
            _ => {},
        }
    }
    if t.amounts == s.amounts {
        assert forall|c: Address, k: Address| #[trigger] balance_valid(t, c, k) by {
            assert(balance_valid(s, c, k));
        }
    }
}

/// Taking a number out of a list leaves the others, in the same order.
pub proof fn lemma_without(ids: Seq<u64>, id: u64)
    ensures
        !without(ids, id).contains(id),
        forall|x: u64|
            x != id ==> (#[trigger] without(ids, id).contains(x) <==> ids.contains(x)),
        increasing(ids) ==> increasing(without(ids, id)),
    decreases ids.len(),
{
    if ids.len() > 0 {
        let front = ids.drop_last();
        let rest = without(front, id);
        let all = without(ids, id);
        lemma_without(front, id);
        assert(ids =~= front.push(ids.last()));
        assert forall|x: u64| #[trigger] ids.contains(x) <==> front.contains(x) || x
            == ids.last() by {
            lemma_push_contains(front, ids.last(), x);
        }
        if ids.last() != id {
            assert forall|x: u64| #[trigger] all.contains(x) <==> rest.contains(x) || x
                == ids.last() by {
                lemma_push_contains(rest, ids.last(), x);
            }
            if increasing(ids) {
                assert(increasing(front)) by {
                    assert forall|i: int, j: int| 0 <= i < j < front.len() implies (
                    #[trigger] front[i]) < (#[trigger] front[j]) by {
                        assert(ids[i] < ids[j]);
                    }
                }
                assert forall|i: int, j: int| 0 <= i < j < all.len() implies (#[trigger] all[i])
                    < (#[trigger] all[j]) by {
                    if j == rest.len() {
                        assert(rest.contains(rest[i]));
                        assert(rest[i] != id);
                        assert(front.contains(rest[i]));
                        let k = choose|k: int| 0 <= k < front.len() && front[k] == rest[i];
                        assert(ids[k] < ids[ids.len() - 1]);
                    }
                }
            }
        } else if increasing(ids) {
            assert forall|i: int, j: int| 0 <= i < j < front.len() implies (#[trigger] front[i])
                < (#[trigger] front[j]) by {
                assert(ids[i] < ids[j]);
            }
        }
    }
}

proof fn lemma_push_contains(ids: Seq<u64>, last: u64, x: u64)
    ensures
        ids.push(last).contains(x) <==> ids.contains(x) || x == last,
{
    let all = ids.push(last);
    if ids.contains(x) {
        let k = choose|k: int| 0 <= k < ids.len() && ids[k] == x;
        assert(all[k] == x);
    }
    if x == last {
        assert(all[ids.len() as int] == x);
    }
    if all.contains(x) {
        let k = choose|k: int| 0 <= k < all.len() && all[k] == x;
        if k < ids.len() {
            assert(ids[k] == x);
        }
    }
}

/// A program that ends leaves the list of its creator, and no other.
proof fn lemma_ending_keeps_list_valid(
    s: StorageView,
    t: StorageView,
    id: u64,
    ended: MatchingProgram,
    c: Address,
)
    requires
        list_valid(s, c),
        s.program(id) is Some,
        !ended.active,
        t.programs == s.with_program(id, ended).programs,
        t.program_lists == s.with_unlisted_program(s.program(id)->0.creator, id).program_lists,
    ensures
        list_valid(t, c),
{
    let creator = s.program(id)->0.creator;
    lemma_without(s.programs_for(creator), id);
    assert forall|x: u64| t.programs_for(c).contains(x) <==> #[trigger] listed(t, c, x) by {
        assert(s.programs_for(c).contains(x) <==> listed(s, c, x));
    }
}

proof fn lemma_creation_keeps_list_valid(
    s: StorageView,
    t: StorageView,
    program: MatchingProgram,
    c: Address,
)
    requires
        list_valid(s, c),
        programs_valid(s),
        program.id == s.program_count() + 1,
        program.active,
        t.programs == s.with_program(program.id, program).programs,
        t.program_lists == s.with_listed_program(program.creator, program.id).program_lists,
    ensures
        list_valid(t, c),
{
    let ids = s.programs_for(c);
    assert(s.program(program.id) is None);
    assert forall|x: u64| t.programs_for(c).contains(x) <==> #[trigger] listed(t, c, x) by {
        assert(ids.contains(x) <==> listed(s, c, x));
        lemma_push_contains(ids, program.id, x);
    }
    assert forall|i: int, j: int| 0 <= i < j < t.programs_for(c).len() implies (
    #[trigger] t.programs_for(c)[i]) < (#[trigger] t.programs_for(c)[j]) by {
        assert(ids.contains(ids[i]));
        assert(listed(s, c, ids[i]));
        assert(program_valid(s, ids[i], s.program(ids[i])->0));
    }
}

/// The backer of a tip is one of the creator's own programs.
pub(crate) proof fn lemma_backer_is_listed(s: StorageView, creator: Address, token: Address)
    requires
        list_valid(s, creator),
    ensures
        backer(s, creator, token) matches Some(id) ==> listed(s, creator, id),
{
    let ids = s.programs_for(creator);
    lemma_first_backer(s, ids, token);
    match backer(s, creator, token) {
        Some(id) => {
            let i = choose|i: int|
                0 <= i < ids.len() && #[trigger] ids[i] == id && forall|j: int|
                    0 <= j < i ==> !backs(#[trigger] s.program(ids[j]), token);
            assert(ids.contains(ids[i]));
        },
        None => {},
    }
}

proof fn lemma_match_keeps_list_valid(
    s: StorageView,
    creator: Address,
    token: Address,
    amount: i128,
    c: Address,
)
    requires
        list_valid(s, c),
        list_valid(s, creator),
    ensures
        list_valid(with_match(s, creator, token, amount), c),
{
    let t = with_match(s, creator, token, amount);
    lemma_backer_is_listed(s, creator, token);
    match backer(s, creator, token) {
        Some(id) => {
            let program = program_after_match(
                s.program(id)->0,
                matched(s, creator, token, amount),
            );
            if program.active {
                assert forall|x: u64| t.programs_for(c).contains(x) <==> #[trigger] listed(
                    t,
                    c,
                    x,
                ) by {
                    assert(s.programs_for(c).contains(x) <==> listed(s, c, x));
                }
            } else {
                lemma_ending_keeps_list_valid(s, t, id, program, c);
            }
        },
        None => {},
    }
}

/// A list stays valid where neither it nor the programs change.
proof fn lemma_same_list_valid(s: StorageView, t: StorageView, c: Address)
    requires
        list_valid(s, c),
        t.programs == s.programs,
        t.program_lists == s.program_lists,
    ensures
        list_valid(t, c),
{
    assert forall|x: u64| t.programs_for(c).contains(x) <==> #[trigger] listed(t, c, x) by {
        assert(s.programs_for(c).contains(x) <==> listed(s, c, x));
    }
}

proof fn lemma_listings_stay_valid(e: EnvView, call: Call)
    requires
        listings_valid(e.storage),
        programs_valid(e.storage),
    ensures
        listings_valid(after(e, call).storage),
{
    let s = e.storage;
    let t = after(e, call).storage;
    assert forall|c: Address| #[trigger] list_valid(t, c) by {
        assert(list_valid(s, c));
        if refusal(e, call) is None {
            match call {
                Call::TipWithMatch { sender, creator, token, amount } => {
                    assert(list_valid(s, creator));
                    lemma_match_keeps_list_valid(s, creator, token, amount, c);
                    lemma_same_list_valid(with_match(s, creator, token, amount), t, c);
                },
                Call::CreateMatchingProgram {
                    sponsor,
                    creator,
                    token,
                    match_ratio,
                    max_match_amount,
                } => {
                    let id = next_matching_id(s);
                    lemma_creation_keeps_list_valid(s, t, t.program(id)->0, c);
                },
                Call::CancelMatchingProgram { sponsor, program_id } => {
                    let ended = MatchingProgram { active: false, ..s.program(program_id)->0 };
                    lemma_ending_keeps_list_valid(s, t, program_id, ended, c);
                },
                _ => {
                    lemma_same_list_valid(s, t, c);
                },
            }
        } else {
            lemma_same_list_valid(s, t, c);
        }
    }
}

/// Every call keeps the books valid.
pub proof fn law_books_stay_valid(e: EnvView, call: Call)
    requires
        valid(e.storage),
    ensures
        valid(after(e, call).storage),
{
    lemma_tips_stay_valid(e, call);
    lemma_programs_stay_valid(e, call);
    lemma_notes_stay_valid(e, call);
    lemma_listings_stay_valid(e, call);
    lemma_balances_stay_valid(e, call);
}

/// Whatever is called, and whenever: the books of a jar are valid.
pub proof fn law_books_always_valid(contract: Address, history: Seq<(u64, Call)>)
    ensures
        valid(run(fresh(contract), history).storage),
    decreases history.len(),
{
    if history.len() > 0 {
        let e = run(fresh(contract), history.drop_last());
        law_books_always_valid(contract, history.drop_last());
        law_books_stay_valid(at_time(e, history.last().0), history.last().1);
    }
}

} // verus!
