//! What no call undoes.

use crate::books::{
    law_books_stay_valid, lemma_matched_not_negative, list_valid, listed, programs_valid,
    tip_valid, tips_valid, valid,
};
use crate::calls::{after, at_time, refund_subject, refusal, run, Call};
use crate::env::{EnvView, StorageView};
use crate::model::{backer, matched, next_matching_id};
use crate::types::{Address, MatchingProgram, TipRecord};
use vstd::prelude::*;

verus! {

/// The same tip, except for what has become of its refund.
pub open spec fn same_tip(r: TipRecord, q: TipRecord) -> bool {
    q == (TipRecord { refunded: q.refunded, refund_requested: q.refund_requested, ..r })
}

/// The same program, except for how much it has spent and whether it has ended.
pub open spec fn same_program(p: MatchingProgram, q: MatchingProgram) -> bool {
    q == (MatchingProgram { current_matched: q.current_matched, active: q.active, ..p })
}

/// What a tip record can become: the same tip, and, once it is refunded, the
/// same record.
pub open spec fn tip_follows(r: TipRecord, q: TipRecord) -> bool {
    same_tip(r, q) && (r.refunded ==> q == r)
}

/// What a program can become: the same program that has spent no less, and,
/// once it has ended, the same record.
pub open spec fn program_follows(p: MatchingProgram, q: MatchingProgram) -> bool {
    same_program(p, q) && p.current_matched <= q.current_matched && (!p.active ==> q == p)
}

pub open spec fn total_follows(
    s: StorageView,
    t: StorageView,
    creator: Address,
    token: Address,
) -> bool {
    s.total(creator, token) <= t.total(creator, token)
}

pub open spec fn notes_follow(s: StorageView, t: StorageView, creator: Address) -> bool {
    s.messages_for(creator).is_prefix_of(t.messages_for(creator))
}

/// A program leaves its creator's list only by ending.
pub open spec fn listing_follows(
    s: StorageView,
    t: StorageView,
    creator: Address,
    id: u64,
) -> bool {
    s.programs_for(creator).contains(id) ==> t.programs_for(creator).contains(id) || (t.program(
        id,
    ) matches Some(program) && !program.active)
}

/// Whether `t` can be a later state of the ledger `s`: the administrator stays,
/// no count and no historical total falls, every tip and every program is still
/// there, refunds are final, ended programs stay ended, notes are only ever
/// added behind those already there, and programs leave a list only by ending.
pub open spec fn follows(s: StorageView, t: StorageView) -> bool {
    &&& s.admin() is Some ==> t.admin() == s.admin()
    &&& s.tip_count() <= t.tip_count()
    &&& s.program_count() <= t.program_count()
    &&& forall|id: u64|
        (#[trigger] s.tip(id)) is Some ==> t.tip(id) is Some && tip_follows(
            s.tip(id)->0,
            t.tip(id)->0,
        )
    &&& forall|id: u64|
        (#[trigger] s.program(id)) is Some ==> t.program(id) is Some && program_follows(
            s.program(id)->0,
            t.program(id)->0,
        )
    &&& forall|creator: Address, token: Address| #[trigger] total_follows(s, t, creator, token)
    &&& forall|creator: Address| #[trigger] notes_follow(s, t, creator)
    &&& forall|creator: Address, id: u64| #[trigger] listing_follows(s, t, creator, id)
}

/// What a call does to a tip, where the tip that it is about has its own number
/// on record.
proof fn lemma_tip_follows(e: EnvView, call: Call, id: u64)
    requires
        e.storage.tip(id) is Some,
        id <= e.storage.tip_count(),
        refund_subject(call) matches Some(subject) ==> (e.storage.tip(subject) matches Some(record)
            ==> record.id == subject),
    ensures
        after(e, call).storage.tip(id) is Some,
        tip_follows(e.storage.tip(id)->0, after(e, call).storage.tip(id)->0),
{
}

proof fn lemma_tips_follow(e: EnvView, call: Call, id: u64)
    requires
        tips_valid(e.storage),
        e.storage.tip(id) is Some,
    ensures
        after(e, call).storage.tip(id) is Some,
        tip_follows(e.storage.tip(id)->0, after(e, call).storage.tip(id)->0),
{
    assert(tip_valid(e.storage, id, e.storage.tip(id)->0));
    match refund_subject(call) {
        Some(subject) => {
            let record = e.storage.tip(subject);
        },
        None => {},
    }
    lemma_tip_follows(e, call, id);
}

proof fn lemma_programs_follow(e: EnvView, call: Call, id: u64)
    requires
        programs_valid(e.storage),
        e.storage.program(id) is Some,
    ensures
        after(e, call).storage.program(id) is Some,
        program_follows(e.storage.program(id)->0, after(e, call).storage.program(id)->0),
{
    match call {
        Call::TipWithMatch { sender, creator, token, amount } => {
            if refusal(e, call) is None {
                lemma_matched_not_negative(e.storage, creator, token, amount);
            }
        },
        _ => {},
    }
}

proof fn lemma_totals_follow(e: EnvView, call: Call, c: Address, k: Address)
    ensures
        total_follows(e.storage, after(e, call).storage, c, k),
{
    match call {
        Call::TipWithMatch { sender, creator, token, amount } => {
            if refusal(e, call) is None {
                lemma_matched_not_negative(e.storage, creator, token, amount);
            }
        },
        _ => {},
    }
}

#[verifier::rlimit(40)]
proof fn lemma_notes_follow(e: EnvView, call: Call, c: Address)
    ensures
        notes_follow(e.storage, after(e, call).storage, c),
{
}

proof fn lemma_listing_follows(e: EnvView, call: Call, c: Address, id: u64)
    requires
        valid(e.storage),
    ensures
        listing_follows(e.storage, after(e, call).storage, c, id),
{
    let s = e.storage;
    let t = after(e, call).storage;
    if s.programs_for(c).contains(id) {
        assert(list_valid(s, c));
        assert(listed(s, c, id));
        law_books_stay_valid(e, call);
        lemma_programs_follow(e, call, id);
        assert(list_valid(t, c));
        if t.program(id)->0.active {
            assert(listed(t, c, id));
        }
    }
}

proof fn lemma_counts_follow(e: EnvView, call: Call)
    ensures
        e.storage.admin() is Some ==> after(e, call).storage.admin() == e.storage.admin(),
        e.storage.tip_count() <= after(e, call).storage.tip_count(),
        e.storage.program_count() <= after(e, call).storage.program_count(),
{
}

/// No call undoes the history of the jar.
pub proof fn law_history_is_kept(e: EnvView, call: Call)
    requires
        valid(e.storage),
    ensures
        follows(e.storage, after(e, call).storage),
{
    let s = e.storage;
    let t = after(e, call).storage;
    lemma_counts_follow(e, call);
    assert forall|id: u64| (#[trigger] s.tip(id)) is Some implies t.tip(id) is Some && tip_follows(
        s.tip(id)->0,
        t.tip(id)->0,
    ) by {
        lemma_tips_follow(e, call, id);
    }
    assert forall|id: u64| (#[trigger] s.program(id)) is Some implies t.program(id) is Some
        && program_follows(s.program(id)->0, t.program(id)->0) by {
        lemma_programs_follow(e, call, id);
    }
    assert forall|c: Address, k: Address| #[trigger] total_follows(s, t, c, k) by {
        lemma_totals_follow(e, call, c, k);
    }
    assert forall|c: Address| #[trigger] notes_follow(s, t, c) by {
        lemma_notes_follow(e, call, c);
    }
    assert forall|c: Address, id: u64| #[trigger] listing_follows(s, t, c, id) by {
        lemma_listing_follows(e, call, c, id);
    }
}

proof fn lemma_follows_is_transitive(s: StorageView, t: StorageView, u: StorageView)
    requires
        follows(s, t),
        follows(t, u),
    ensures
        follows(s, u),
{
    assert forall|id: u64| (#[trigger] s.tip(id)) is Some implies u.tip(id) is Some && tip_follows(
        s.tip(id)->0,
        u.tip(id)->0,
    ) by {
        assert(t.tip(id) is Some);
    }
    assert forall|id: u64| (#[trigger] s.program(id)) is Some implies u.program(id) is Some
        && program_follows(s.program(id)->0, u.program(id)->0) by {
        assert(t.program(id) is Some);
    }
    assert forall|c: Address, k: Address| #[trigger] total_follows(s, u, c, k) by {
        assert(total_follows(s, t, c, k));
        assert(total_follows(t, u, c, k));
    }
    assert forall|c: Address| #[trigger] notes_follow(s, u, c) by {
        assert(notes_follow(s, t, c));
        assert(notes_follow(t, u, c));
    }
    assert forall|c: Address, id: u64| #[trigger] listing_follows(s, u, c, id) by {
        assert(listing_follows(s, t, c, id));
        assert(listing_follows(t, u, c, id));
        let between = t.program(id);
    }
}

/// No run of calls undoes the history of the jar.
pub proof fn law_history_is_kept_for_good(e: EnvView, history: Seq<(u64, Call)>)
    requires
        valid(e.storage),
    ensures
        valid(run(e, history).storage),
        follows(e.storage, run(e, history).storage),
    decreases history.len(),
{
    if history.len() > 0 {
        let before = run(e, history.drop_last());
        let now = at_time(before, history.last().0);
        law_history_is_kept_for_good(e, history.drop_last());
        law_books_stay_valid(now, history.last().1);
        law_history_is_kept(now, history.last().1);
        lemma_follows_is_transitive(e.storage, before.storage, run(e, history).storage);
    } else {
        assert forall|c: Address| #[trigger] notes_follow(e.storage, e.storage, c) by {}
    }
}

// What the running sums add up

/// What a call credits to a creator in a token, if it goes through.
pub open spec fn credited(e: EnvView, call: Call, creator: Address, token: Address) -> int {
    if refusal(e, call) is Some {
        0
    } else {
        match call {
            Call::Tip { sender, creator: c, token: t, amount } => if c == creator && t == token {
                amount as int
            } else {
                0
            },
            Call::TipWithMessage { sender, creator: c, token: t, amount, message, metadata } =>
                if c == creator && t == token {
                    amount as int
                } else {
                    0
                },
            Call::TipWithMatch { sender, creator: c, token: t, amount } => if c == creator && t
                == token {
                amount + matched(e.storage, creator, token, amount)
            } else {
                0
            },
            _ => 0,
        }
    }
}

/// What a run credits to a creator in a token.
pub open spec fn credits(
    e: EnvView,
    history: Seq<(u64, Call)>,
    creator: Address,
    token: Address,
) -> int
    decreases history.len(),
{
    if history.len() == 0 {
        0
    } else {
        let now = at_time(run(e, history.drop_last()), history.last().0);
        credits(e, history.drop_last(), creator, token) + credited(
            now,
            history.last().1,
            creator,
            token,
        )
    }
}

proof fn lemma_credited(e: EnvView, call: Call, creator: Address, token: Address)
    requires
        refusal(e, call) is None,
    ensures
        after(e, call).storage.total(creator, token) == e.storage.total(creator, token) + credited(
            e,
            call,
            creator,
            token,
        ),
{
    match call {
        Call::TipWithMatch { sender, creator: c, token: t, amount } => {
            lemma_matched_not_negative(e.storage, c, t, amount);
        },
        _ => {},
    }
}

/// A creator's total in a token is the sum of what all tips have credited,
/// matches included.
pub proof fn law_total_is_the_sum_of_the_credits(
    e: EnvView,
    history: Seq<(u64, Call)>,
    creator: Address,
    token: Address,
)
    ensures
        run(e, history).storage.total(creator, token) == e.storage.total(creator, token) + credits(
            e,
            history,
            creator,
            token,
        ),
    decreases history.len(),
{
    if history.len() > 0 {
        let now = at_time(run(e, history.drop_last()), history.last().0);
        law_total_is_the_sum_of_the_credits(e, history.drop_last(), creator, token);
        if refusal(now, history.last().1) is None {
            lemma_credited(now, history.last().1, creator, token);
        }
    }
}

/// How much of its budget a program has spent; nothing where there is none.
pub open spec fn spent(s: StorageView, program_id: u64) -> int {
    match s.program(program_id) {
        Some(program) => program.current_matched as int,
        None => 0,
    }
}

/// What a program adds to the tip that a call makes, if it goes through.
pub open spec fn paid(e: EnvView, call: Call, program_id: u64) -> int {
    match call {
        Call::TipWithMatch { sender, creator, token, amount } => if refusal(e, call) is None
            && backer(e.storage, creator, token) == Some(program_id) {
            matched(e.storage, creator, token, amount)
        } else {
            0
        },
        _ => 0,
    }
}

/// What a program adds to the tips of a run.
pub open spec fn payments(e: EnvView, history: Seq<(u64, Call)>, program_id: u64) -> int
    decreases history.len(),
{
    if history.len() == 0 {
        0
    } else {
        let now = at_time(run(e, history.drop_last()), history.last().0);
        payments(e, history.drop_last(), program_id) + paid(now, history.last().1, program_id)
    }
}

proof fn lemma_paid(e: EnvView, call: Call, program_id: u64)
    requires
        programs_valid(e.storage),
        refusal(e, call) is None,
    ensures
        spent(after(e, call).storage, program_id) == spent(e.storage, program_id) + paid(
            e,
            call,
            program_id,
        ),
{
    match call {
        Call::TipWithMatch { sender, creator, token, amount } => {
            lemma_matched_not_negative(e.storage, creator, token, amount);
        },
        Call::CreateMatchingProgram { sponsor, creator, token, match_ratio, max_match_amount } => {
            assert(e.storage.program(next_matching_id(e.storage)) is None);
        },
        _ => {},
    }
}

/// What a program has spent is the sum of what it has added to tips.
pub proof fn law_spent_is_the_sum_of_the_payments(
    e: EnvView,
    history: Seq<(u64, Call)>,
    program_id: u64,
)
    requires
        valid(e.storage),
    ensures
        spent(run(e, history).storage, program_id) == spent(e.storage, program_id) + payments(
            e,
            history,
            program_id,
        ),
    decreases history.len(),
{
    if history.len() > 0 {
        let before = run(e, history.drop_last());
        let now = at_time(before, history.last().0);
        law_spent_is_the_sum_of_the_payments(e, history.drop_last(), program_id);
        law_history_is_kept_for_good(e, history.drop_last());
        if refusal(now, history.last().1) is None {
            lemma_paid(now, history.last().1, program_id);
        }
    }
}

} // verus!
