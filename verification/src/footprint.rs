//! Which ledger entries a call needs at hand.
//!
//! The host reads entries one by one, so it has to know beforehand which ones a
//! call will look at. [`Call::footprint`] tells it, and
//! [`law_footprint_is_enough`] says that nothing else matters;
//! [`law_footprint_holds_nothing_else`] says what it never asks for.

use crate::calls::{administers, after, refusal, Call};
use crate::env::{EnvView, Storage, StorageView};
use crate::model::{backer, first_backer};
use crate::types::{Address, DataKey, MatchingProgram, TipRecord};
use vstd::prelude::*;

verus! {

/// The entries that every tip needs.
pub open spec fn tip_footprint(creator: Address, token: Address) -> Seq<DataKey> {
    seq![
        DataKey::Paused,
        DataKey::CreatorBalance(creator, token),
        DataKey::CreatorTotal(creator, token),
        DataKey::TipCounter,
    ]
}

/// The entries that a refund needs: the tip, and, once that is known, the
/// balance that it comes out of.
pub open spec fn refund_footprint(s: StorageView, tip_id: u64) -> Seq<DataKey> {
    let first = seq![DataKey::Paused, DataKey::TipRecord(tip_id)];
    match s.tip(tip_id) {
        Some(record) => first.push(DataKey::CreatorBalance(record.creator, record.token)),
        None => first,
    }
}

/// The entries that a cancellation needs: the program, and, once that is known,
/// its creator's list.
pub open spec fn cancel_footprint(s: StorageView, program_id: u64) -> Seq<DataKey> {
    let first = seq![DataKey::Paused, DataKey::MatchingProgram(program_id)];
    match s.program(program_id) {
        Some(program) => first.push(DataKey::CreatorMatchingPrograms(program.creator)),
        None => first,
    }
}

/// The entries of the listed programs.
pub open spec fn program_keys(ids: Seq<u64>) -> Seq<DataKey> {
    ids.map_values(|id: u64| DataKey::MatchingProgram(id))
}

/// The entries that a call needs at hand, as far as those already at hand tell.
pub open spec fn footprint(s: StorageView, call: Call) -> Seq<DataKey> {
    match call {
        Call::Init { admin } => seq![DataKey::Admin],
        Call::AddToken { admin, token } => seq![DataKey::Admin, DataKey::Paused],
        Call::RemoveToken { admin, token } => seq![DataKey::Admin, DataKey::Paused],
        Call::Pause { admin } => seq![DataKey::Admin],
        Call::Unpause { admin } => seq![DataKey::Admin],
        Call::Tip { sender, creator, token, amount } => tip_footprint(creator, token).push(
            DataKey::TokenWhitelist(token),
        ),
        Call::TipWithMessage { sender, creator, token, amount, message, metadata } =>
            tip_footprint(creator, token).push(DataKey::CreatorMessages(creator)),
        Call::RequestRefund { sender, tip_id } => refund_footprint(s, tip_id),
        Call::ApproveRefund { creator, tip_id } => refund_footprint(s, tip_id),
        Call::Withdraw { creator, token } => seq![
            DataKey::Paused,
            DataKey::CreatorBalance(creator, token),
        ],
        Call::CreateMatchingProgram { sponsor, creator, token, match_ratio, max_match_amount } =>
            seq![
                DataKey::Paused,
                DataKey::TokenWhitelist(token),
                DataKey::MatchingCounter,
                DataKey::CreatorMatchingPrograms(creator),
            ],
        Call::TipWithMatch { sender, creator, token, amount } => tip_footprint(creator, token).push(
            DataKey::TokenWhitelist(token),
        ).push(DataKey::CreatorMatchingPrograms(creator)) + program_keys(s.programs_for(creator)),
        Call::CancelMatchingProgram { sponsor, program_id } => cancel_footprint(s, program_id),
    }
}

fn tip_keys(creator: Address, token: Address) -> (keys: Vec<DataKey>)
    ensures
        keys@ == tip_footprint(creator, token),
{
    let keys: Vec<DataKey> = vec![
        DataKey::Paused,
        DataKey::CreatorBalance(creator, token),
        DataKey::CreatorTotal(creator, token),
        DataKey::TipCounter,
    ];
    assert(keys@ =~= tip_footprint(creator, token));
    keys
}

fn refund_keys(storage: &Storage, tip_id: u64) -> (keys: Vec<DataKey>)
    ensures
        keys@ == refund_footprint(storage@, tip_id),
{
    let mut keys: Vec<DataKey> = vec![DataKey::Paused, DataKey::TipRecord(tip_id)];
    assert(keys@ =~= seq![DataKey::Paused, DataKey::TipRecord(tip_id)]);
    match storage.tips.get(DataKey::TipRecord(tip_id)) {
        Some(record) => {
            keys.push(DataKey::CreatorBalance(record.creator, record.token));
        },
        None => {},
    }
    keys
}

fn cancel_keys(storage: &Storage, program_id: u64) -> (keys: Vec<DataKey>)
    ensures
        keys@ == cancel_footprint(storage@, program_id),
{
    let mut keys: Vec<DataKey> = vec![DataKey::Paused, DataKey::MatchingProgram(program_id)];
    assert(keys@ =~= seq![DataKey::Paused, DataKey::MatchingProgram(program_id)]);
    match storage.programs.get(DataKey::MatchingProgram(program_id)) {
        Some(program) => {
            keys.push(DataKey::CreatorMatchingPrograms(program.creator));
        },
        None => {},
    }
    keys
}

fn match_keys(storage: &Storage, creator: Address, token: Address) -> (keys: Vec<DataKey>)
    ensures
        keys@ == tip_footprint(creator, token).push(DataKey::TokenWhitelist(token)).push(
            DataKey::CreatorMatchingPrograms(creator),
        ) + program_keys(storage@.programs_for(creator)),
{
    let mut keys = tip_keys(creator, token);
    keys.push(DataKey::TokenWhitelist(token));
    keys.push(DataKey::CreatorMatchingPrograms(creator));
    let ghost first = keys@;
    let ids: Vec<u64> = storage.programs_for(creator);
    let mut i: usize = 0;
    assert(first + program_keys(ids@.take(0)) =~= first);
    while i < ids.len()
        invariant
            i <= ids@.len(),
            keys@ == first + program_keys(ids@.take(i as int)),
        decreases ids@.len() - i,
    {
        keys.push(DataKey::MatchingProgram(ids[i]));
        i += 1;
        assert(keys@ =~= first + program_keys(ids@.take(i as int)));
    }
    assert(ids@.take(i as int) =~= ids@);
    keys
}

impl Call {
    /// The entries that this call needs at hand, as far as those already at
    /// hand tell. The host fetches them and asks again, until it has them all.
    pub fn footprint(&self, storage: &Storage) -> (keys: Vec<DataKey>)
        ensures
            keys@ == footprint(storage@, *self),
    {
        let keys: Vec<DataKey> = match self {
            Call::Init { .. } => vec![DataKey::Admin],
            Call::AddToken { .. } => vec![DataKey::Admin, DataKey::Paused],
            Call::RemoveToken { .. } => vec![DataKey::Admin, DataKey::Paused],
            Call::Pause { .. } => vec![DataKey::Admin],
            Call::Unpause { .. } => vec![DataKey::Admin],
            Call::Tip { creator, token, .. } => {
                let mut keys = tip_keys(*creator, *token);
                keys.push(DataKey::TokenWhitelist(*token));
                keys
            },
            Call::TipWithMessage { creator, token, .. } => {
                let mut keys = tip_keys(*creator, *token);
                keys.push(DataKey::CreatorMessages(*creator));
                keys
            },
            Call::RequestRefund { tip_id, .. } => refund_keys(storage, *tip_id),
            Call::ApproveRefund { tip_id, .. } => refund_keys(storage, *tip_id),
            Call::Withdraw { creator, token } => vec![
                DataKey::Paused,
                DataKey::CreatorBalance(*creator, *token),
            ],
            Call::CreateMatchingProgram { creator, token, .. } => vec![
                DataKey::Paused,
                DataKey::TokenWhitelist(*token),
                DataKey::MatchingCounter,
                DataKey::CreatorMatchingPrograms(*creator),
            ],
            Call::TipWithMatch { creator, token, .. } => match_keys(storage, *creator, *token),
            Call::CancelMatchingProgram { program_id, .. } => cancel_keys(storage, *program_id),
        };
        assert(keys@ =~= footprint(storage@, *self));
        keys
    }
}

/// Whether two ledgers read the same under a key.
pub open spec fn same_entry(s: StorageView, t: StorageView, key: DataKey) -> bool {
    match key {
        DataKey::Admin => s.admin() == t.admin(),
        DataKey::Paused => s.flag(key) == t.flag(key),
        DataKey::TokenWhitelist(token) => s.flag(key) == t.flag(key),
        DataKey::CreatorBalance(creator, token) => s.amount(key) == t.amount(key),
        DataKey::CreatorTotal(creator, token) => s.amount(key) == t.amount(key),
        DataKey::CreatorMessages(creator) => s.messages_for(creator) == t.messages_for(creator),
        DataKey::TipCounter => s.counter(key) == t.counter(key),
        DataKey::MatchingCounter => s.counter(key) == t.counter(key),
        DataKey::TipRecord(id) => s.tip(id) == t.tip(id),
        DataKey::MatchingProgram(id) => s.program(id) == t.program(id),
        DataKey::CreatorMatchingPrograms(creator) => s.programs_for(creator) == t.programs_for(
            creator,
        ),
        _ => true,
    }
}

/// Whether two ledgers read the same under all of some keys.
pub open spec fn agree(s: StorageView, t: StorageView, keys: Seq<DataKey>) -> bool {
    forall|i: int| 0 <= i < keys.len() ==> same_entry(s, t, #[trigger] keys[i])
}

/// Whether the two changes, from `s` to `s2` and from `t` to `t2`, are the same
/// under a key: either nothing changes, or both end up the same.
pub open spec fn same_change(
    s: StorageView,
    s2: StorageView,
    t: StorageView,
    t2: StorageView,
    key: DataKey,
) -> bool {
    same_entry(s, s2, key) && same_entry(t, t2, key) || same_entry(s2, t2, key)
}

proof fn lemma_first_backer_agrees(s: StorageView, t: StorageView, ids: Seq<u64>, token: Address)
    requires
        forall|i: int|
            0 <= i < ids.len() ==> s.program(#[trigger] ids[i]) == t.program(ids[i]),
    ensures
        first_backer(s, ids, token) == first_backer(t, ids, token),
        first_backer(s, ids, token) matches Some(id) ==> s.program(id) == t.program(id),
    decreases ids.len(),
{
    if ids.len() > 0 {
        assert(s.program(ids[0]) == t.program(ids[0]));
        let rest = ids.drop_first();
        assert forall|i: int| 0 <= i < rest.len() implies s.program(#[trigger] rest[i])
            == t.program(rest[i]) by {
            assert(rest[i] == ids[i + 1]);
        }
        lemma_first_backer_agrees(s, t, rest, token);
    }
}

/// The first keys of a footprint, read one by one.
proof fn lemma_agree_at(s: StorageView, t: StorageView, keys: Seq<DataKey>)
    requires
        agree(s, t, keys),
    ensures
        keys.len() > 0 ==> same_entry(s, t, keys[0]),
        keys.len() > 1 ==> same_entry(s, t, keys[1]),
        keys.len() > 2 ==> same_entry(s, t, keys[2]),
        keys.len() > 3 ==> same_entry(s, t, keys[3]),
        keys.len() > 4 ==> same_entry(s, t, keys[4]),
        keys.len() > 5 ==> same_entry(s, t, keys[5]),
{
}

/// Whether two ledgers read the same as far as a tip goes.
spec fn same_for_tip(s: StorageView, t: StorageView, creator: Address, token: Address) -> bool {
    &&& s.paused() == t.paused()
    &&& s.balance(creator, token) == t.balance(creator, token)
    &&& s.total(creator, token) == t.total(creator, token)
    &&& s.tip_count() == t.tip_count()
}

/// Whether two ledgers read the same as far as a refund goes.
spec fn same_for_refund(s: StorageView, t: StorageView, tip_id: u64) -> bool {
    &&& s.paused() == t.paused()
    &&& s.tip(tip_id) == t.tip(tip_id)
    &&& s.tip(tip_id) matches Some(record) ==> s.balance(record.creator, record.token)
        == t.balance(record.creator, record.token)
}

/// Whether two ledgers read the same as far as a call goes.
spec fn same_for(s: StorageView, t: StorageView, call: Call) -> bool {
    match call {
        Call::Init { admin } => s.admin() == t.admin(),
        Call::AddToken { admin, token } => s.admin() == t.admin() && s.paused() == t.paused(),
        Call::RemoveToken { admin, token } => s.admin() == t.admin() && s.paused() == t.paused(),
        Call::Pause { admin } => s.admin() == t.admin(),
        Call::Unpause { admin } => s.admin() == t.admin(),
        Call::Tip { sender, creator, token, amount } => same_for_tip(s, t, creator, token)
            && s.whitelisted(token) == t.whitelisted(token),
        Call::TipWithMessage { sender, creator, token, amount, message, metadata } => same_for_tip(
            s,
            t,
            creator,
            token,
        ) && s.messages_for(creator) == t.messages_for(creator),
        Call::RequestRefund { sender, tip_id } => same_for_refund(s, t, tip_id),
        Call::ApproveRefund { creator, tip_id } => same_for_refund(s, t, tip_id),
        Call::Withdraw { creator, token } => s.paused() == t.paused() && s.balance(creator, token)
            == t.balance(creator, token),
        Call::CreateMatchingProgram { sponsor, creator, token, match_ratio, max_match_amount } =>
            s.paused() == t.paused() && s.whitelisted(token) == t.whitelisted(token)
                && s.program_count() == t.program_count() && s.programs_for(creator)
                == t.programs_for(creator),
        Call::TipWithMatch { sender, creator, token, amount } => {
            &&& same_for_tip(s, t, creator, token)
            &&& s.whitelisted(token) == t.whitelisted(token)
            &&& s.programs_for(creator) == t.programs_for(creator)
            &&& backer(s, creator, token) == backer(t, creator, token)
            &&& backer(s, creator, token) matches Some(id) ==> s.program(id) == t.program(id)
        },
        Call::CancelMatchingProgram { sponsor, program_id } => {
            &&& s.paused() == t.paused()
            &&& s.program(program_id) == t.program(program_id)
            &&& s.program(program_id) matches Some(program) ==> s.programs_for(program.creator)
                == t.programs_for(program.creator)
        },
    }
}

proof fn lemma_tip_reads_agree(
    s: StorageView,
    t: StorageView,
    creator: Address,
    token: Address,
    keys: Seq<DataKey>,
)
    requires
        agree(s, t, keys),
        keys.len() >= 4,
        keys.take(4) =~= tip_footprint(creator, token),
    ensures
        same_for_tip(s, t, creator, token),
{
    lemma_agree_at(s, t, keys);
    assert(keys.take(4)[0] == keys[0]);
    assert(keys.take(4)[1] == keys[1]);
    assert(keys.take(4)[2] == keys[2]);
    assert(keys.take(4)[3] == keys[3]);
}

proof fn lemma_reads_agree(s: StorageView, t: StorageView, call: Call)
    requires
        agree(s, t, footprint(s, call)),
    ensures
        same_for(s, t, call),
{
    let keys = footprint(s, call);
    lemma_agree_at(s, t, keys);
    match call {
        Call::Tip { sender, creator, token, amount } => {
            lemma_tip_reads_agree(s, t, creator, token, keys);
        },
        Call::TipWithMessage { sender, creator, token, amount, message, metadata } => {
            lemma_tip_reads_agree(s, t, creator, token, keys);
        },
        Call::TipWithMatch { sender, creator, token, amount } => {
            lemma_tip_reads_agree(s, t, creator, token, keys);
            let ids = s.programs_for(creator);
            assert(keys[4] == DataKey::TokenWhitelist(token));
            assert(keys[5] == DataKey::CreatorMatchingPrograms(creator));
            assert forall|i: int| 0 <= i < ids.len() implies s.program(#[trigger] ids[i])
                == t.program(ids[i]) by {
                assert(keys[i + 6] == DataKey::MatchingProgram(ids[i]));
                assert(same_entry(s, t, keys[i + 6]));
            }
            lemma_first_backer_agrees(s, t, ids, token);
        },
        _ => {},
    }
}

#[verifier::rlimit(40)]
proof fn lemma_same_outcome(e: EnvView, t: StorageView, call: Call)
    requires
        same_for(e.storage, t, call),
    ensures
        refusal(e, call) == refusal(e.storing(t), call),
        after(e, call).calls == after(e.storing(t), call).calls,
{
}

proof fn lemma_same_tip_change(e: EnvView, t: StorageView, call: Call, key: DataKey)
    requires
        same_for(e.storage, t, call),
        call is Tip || call is TipWithMessage,
    ensures
        same_change(
            e.storage,
            after(e, call).storage,
            t,
            after(e.storing(t), call).storage,
            key,
        ),
{
    lemma_same_outcome(e, t, call);
}

proof fn lemma_same_match_change(e: EnvView, t: StorageView, call: Call, key: DataKey)
    requires
        same_for(e.storage, t, call),
        call is TipWithMatch,
    ensures
        same_change(
            e.storage,
            after(e, call).storage,
            t,
            after(e.storing(t), call).storage,
            key,
        ),
{
    lemma_same_outcome(e, t, call);
}

proof fn lemma_same_refund_change(e: EnvView, t: StorageView, call: Call, key: DataKey)
    requires
        same_for(e.storage, t, call),
        call is RequestRefund || call is ApproveRefund,
    ensures
        same_change(
            e.storage,
            after(e, call).storage,
            t,
            after(e.storing(t), call).storage,
            key,
        ),
{
    lemma_same_outcome(e, t, call);
}

proof fn lemma_same_program_change(e: EnvView, t: StorageView, call: Call, key: DataKey)
    requires
        same_for(e.storage, t, call),
        call is CreateMatchingProgram || call is CancelMatchingProgram,
    ensures
        same_change(
            e.storage,
            after(e, call).storage,
            t,
            after(e.storing(t), call).storage,
            key,
        ),
{
    lemma_same_outcome(e, t, call);
}

proof fn lemma_same_other_change(e: EnvView, t: StorageView, call: Call, key: DataKey)
    requires
        same_for(e.storage, t, call),
        administers(call) || call is Withdraw,
    ensures
        same_change(
            e.storage,
            after(e, call).storage,
            t,
            after(e.storing(t), call).storage,
            key,
        ),
{
    lemma_same_outcome(e, t, call);
}

proof fn lemma_same_change(e: EnvView, t: StorageView, call: Call, key: DataKey)
    requires
        same_for(e.storage, t, call),
    ensures
        same_change(
            e.storage,
            after(e, call).storage,
            t,
            after(e.storing(t), call).storage,
            key,
        ),
{
    if call is Tip || call is TipWithMessage {
        lemma_same_tip_change(e, t, call, key);
    } else if call is TipWithMatch {
        lemma_same_match_change(e, t, call, key);
    } else if call is RequestRefund || call is ApproveRefund {
        lemma_same_refund_change(e, t, call, key);
    } else if call is CreateMatchingProgram || call is CancelMatchingProgram {
        lemma_same_program_change(e, t, call, key);
    } else {
        lemma_same_other_change(e, t, call, key);
    }
}

/// The footprint is all that counts: on two ledgers that read the same under
/// the footprint of a call, the call has the same outcome, asks the same of the
/// host, and makes the same changes.
pub proof fn law_footprint_is_enough(e: EnvView, t: StorageView, call: Call)
    requires
        agree(e.storage, t, footprint(e.storage, call)),
    ensures
        refusal(e, call) == refusal(e.storing(t), call),
        after(e, call).calls == after(e.storing(t), call).calls,
        forall|key: DataKey| #[trigger]
            same_change(
                e.storage,
                after(e, call).storage,
                t,
                after(e.storing(t), call).storage,
                key,
            ),
{
    lemma_reads_agree(e.storage, t, call);
    lemma_same_outcome(e, t, call);
    assert forall|key: DataKey| #[trigger]
        same_change(
            e.storage,
            after(e, call).storage,
            t,
            after(e.storing(t), call).storage,
            key,
        ) by {
        lemma_same_change(e, t, call, key);
    }
}

/// A call asks for no entry that is not its business: the administrator only
/// to check who administers, the pause only where it matters, and otherwise the
/// entries of its own creator, token, tip and programs.
pub proof fn law_footprint_holds_nothing_else(s: StorageView, call: Call, i: int)
    requires
        0 <= i < footprint(s, call).len(),
    ensures
        match footprint(s, call)[i] {
            DataKey::Admin => call is Init || call is AddToken || call is RemoveToken
                || call is Pause || call is Unpause,
            DataKey::Paused => !(call is Init || call is Pause || call is Unpause),
            DataKey::TokenWhitelist(k) => match call {
                Call::Tip { sender, creator, token, amount } => k == token,
                Call::TipWithMatch { sender, creator, token, amount } => k == token,
                Call::CreateMatchingProgram {
                    sponsor,
                    creator,
                    token,
                    match_ratio,
                    max_match_amount,
                } => k == token,
                _ => false,
            },
            DataKey::CreatorBalance(c, k) => match call {
                Call::Tip { sender, creator, token, amount } => c == creator && k == token,
                Call::TipWithMessage { sender, creator, token, amount, message, metadata } => c
                    == creator && k == token,
                Call::TipWithMatch { sender, creator, token, amount } => c == creator && k == token,
                Call::Withdraw { creator, token } => c == creator && k == token,
                Call::RequestRefund { sender, tip_id } => s.tip(tip_id) matches Some(record) && c
                    == record.creator && k == record.token,
                Call::ApproveRefund { creator, tip_id } => s.tip(tip_id) matches Some(record) && c
                    == record.creator && k == record.token,
                _ => false,
            },
            DataKey::CreatorTotal(c, k) => match call {
                Call::Tip { sender, creator, token, amount } => c == creator && k == token,
                Call::TipWithMessage { sender, creator, token, amount, message, metadata } => c
                    == creator && k == token,
                Call::TipWithMatch { sender, creator, token, amount } => c == creator && k == token,
                _ => false,
            },
            DataKey::CreatorMessages(c) => match call {
                Call::TipWithMessage { sender, creator, token, amount, message, metadata } => c
                    == creator,
                _ => false,
            },
            DataKey::TipCounter => call is Tip || call is TipWithMessage || call is TipWithMatch,
            DataKey::TipRecord(id) => match call {
                Call::RequestRefund { sender, tip_id } => id == tip_id,
                Call::ApproveRefund { creator, tip_id } => id == tip_id,
                _ => false,
            },
            DataKey::MatchingCounter => call is CreateMatchingProgram,
            DataKey::MatchingProgram(id) => match call {
                Call::TipWithMatch { sender, creator, token, amount } => s.programs_for(
                    creator,
                ).contains(id),
                Call::CancelMatchingProgram { sponsor, program_id } => id == program_id,
                _ => false,
            },
            DataKey::CreatorMatchingPrograms(c) => match call {
                Call::CreateMatchingProgram {
                    sponsor,
                    creator,
                    token,
                    match_ratio,
                    max_match_amount,
                } => c == creator,
                Call::TipWithMatch { sender, creator, token, amount } => c == creator,
                Call::CancelMatchingProgram { sponsor, program_id } => s.program(
                    program_id,
                ) matches Some(program) && c == program.creator,
                _ => false,
            },
            DataKey::MilestoneCounter(_) => false,
            DataKey::Milestone(_, _) => false,
            DataKey::ActiveMilestones(_) => false,
        },
{
    match call {
        Call::TipWithMatch { sender, creator, token, amount } => {
            let ids = s.programs_for(creator);
            if i >= 6 {
                assert(footprint(s, call)[i] == DataKey::MatchingProgram(ids[i - 6]));
                assert(ids.contains(ids[i - 6]));
            }
        },
        _ => {},
    }
}

} // verus!
