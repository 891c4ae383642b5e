//! Calls as values, and what a run of them does to the ledger.

use crate::env::{EnvView, HostCall, StorageView};
use crate::model::{
    admin_refusal, approve_refund_after, approve_refund_refusal, cancel_after, cancel_refusal,
    create_after, create_refusal, flag_after, init_after, init_refusal, listing_after,
    listing_refusal, request_refund_after,
    request_refund_refusal, tip_after, tip_refusal, tip_with_match_after, tip_with_match_refusal,
    tip_with_message_after, tip_with_message_refusal, withdraw_after, withdraw_refusal,
};
use crate::types::{Abort, Address, DataKey, Metadata};
use vstd::prelude::*;

verus! {

/// A call that may change the ledger, with its arguments.
#[derive(Clone, Debug, PartialEq, Eq)]
pub enum Call {
    Init { admin: Address },
    AddToken { admin: Address, token: Address },
    RemoveToken { admin: Address, token: Address },
    Pause { admin: Address },
    Unpause { admin: Address },
    Tip { sender: Address, creator: Address, token: Address, amount: i128 },
    TipWithMessage {
        sender: Address,
        creator: Address,
        token: Address,
        amount: i128,
        message: Vec<u8>,
        metadata: Metadata,
    },
    RequestRefund { sender: Address, tip_id: u64 },
    ApproveRefund { creator: Address, tip_id: u64 },
    Withdraw { creator: Address, token: Address },
    CreateMatchingProgram {
        sponsor: Address,
        creator: Address,
        token: Address,
        match_ratio: u32,
        max_match_amount: i128,
    },
    TipWithMatch { sender: Address, creator: Address, token: Address, amount: i128 },
    CancelMatchingProgram { sponsor: Address, program_id: u64 },
}

/// Why a call is abandoned, if it is.
pub open spec fn refusal(e: EnvView, call: Call) -> Option<Abort> {
    let s = e.storage;
    match call {
        Call::Init { admin } => init_refusal(s),
        Call::AddToken { admin, token } => listing_refusal(s, admin),
        Call::RemoveToken { admin, token } => listing_refusal(s, admin),
        Call::Pause { admin } => admin_refusal(s, admin),
        Call::Unpause { admin } => admin_refusal(s, admin),
        Call::Tip { sender, creator, token, amount } => tip_refusal(s, creator, token, amount),
        Call::TipWithMessage { sender, creator, token, amount, message, metadata } =>
            tip_with_message_refusal(s, creator, token, amount, message@),
        Call::RequestRefund { sender, tip_id } => request_refund_refusal(
            s,
            e.timestamp,
            sender,
            tip_id,
        ),
        Call::ApproveRefund { creator, tip_id } => approve_refund_refusal(s, creator, tip_id),
        Call::Withdraw { creator, token } => withdraw_refusal(s, creator, token),
        Call::CreateMatchingProgram { sponsor, creator, token, match_ratio, max_match_amount } =>
            create_refusal(s, token, match_ratio, max_match_amount),
        Call::TipWithMatch { sender, creator, token, amount } => tip_with_match_refusal(
            s,
            creator,
            token,
            amount,
        ),
        Call::CancelMatchingProgram { sponsor, program_id } => cancel_refusal(
            s,
            sponsor,
            program_id,
        ),
    }
}

/// The environment that a call leaves behind.
pub open spec fn after(e: EnvView, call: Call) -> EnvView {
    match call {
        Call::Init { admin } => init_after(e, admin),
        Call::AddToken { admin, token } => listing_after(e, admin, token, true),
        Call::RemoveToken { admin, token } => listing_after(e, admin, token, false),
        Call::Pause { admin } => flag_after(e, admin, DataKey::Paused, true),
        Call::Unpause { admin } => flag_after(e, admin, DataKey::Paused, false),
        Call::Tip { sender, creator, token, amount } => tip_after(
            e,
            sender,
            creator,
            token,
            amount,
        ),
        Call::TipWithMessage { sender, creator, token, amount, message, metadata } =>
            tip_with_message_after(e, sender, creator, token, amount, message, metadata),
        Call::RequestRefund { sender, tip_id } => request_refund_after(e, sender, tip_id),
        Call::ApproveRefund { creator, tip_id } => approve_refund_after(e, creator, tip_id),
        Call::Withdraw { creator, token } => withdraw_after(e, creator, token),
        Call::CreateMatchingProgram { sponsor, creator, token, match_ratio, max_match_amount } =>
            create_after(e, sponsor, creator, token, match_ratio, max_match_amount),
        Call::TipWithMatch { sender, creator, token, amount } => tip_with_match_after(
            e,
            sender,
            creator,
            token,
            amount,
        ),
        Call::CancelMatchingProgram { sponsor, program_id } => cancel_after(
            e,
            sponsor,
            program_id,
        ),
    }
}

/// Whether a call is one of the administrator's.
pub open spec fn administers(call: Call) -> bool {
    call is Init || call is AddToken || call is RemoveToken || call is Pause || call is Unpause
}

/// Who makes a call.
pub open spec fn actor(call: Call) -> Address {
    match call {
        Call::Init { admin } => admin,
        Call::AddToken { admin, token } => admin,
        Call::RemoveToken { admin, token } => admin,
        Call::Pause { admin } => admin,
        Call::Unpause { admin } => admin,
        Call::Tip { sender, .. } => sender,
        Call::TipWithMessage { sender, .. } => sender,
        Call::RequestRefund { sender, tip_id } => sender,
        Call::ApproveRefund { creator, tip_id } => creator,
        Call::Withdraw { creator, token } => creator,
        Call::CreateMatchingProgram { sponsor, .. } => sponsor,
        Call::TipWithMatch { sender, .. } => sender,
        Call::CancelMatchingProgram { sponsor, program_id } => sponsor,
    }
}

/// The tip that a call is about, where it is about a refund.
pub open spec fn refund_subject(call: Call) -> Option<u64> {
    match call {
        Call::RequestRefund { sender, tip_id } => Some(tip_id),
        Call::ApproveRefund { creator, tip_id } => Some(tip_id),
        _ => None,
    }
}

/// The same environment at another time.
pub open spec fn at_time(e: EnvView, now: u64) -> EnvView {
    EnvView { timestamp: now, ..e }
}

/// What the host keeps of a call made at time `now`: all of it, or, where the
/// call is abandoned, nothing.
pub open spec fn settle(e: EnvView, now: u64, call: Call) -> EnvView {
    if refusal(at_time(e, now), call) is None {
        after(at_time(e, now), call)
    } else {
        at_time(e, now)
    }
}

/// What a run of calls, each with its time, leaves behind.
pub open spec fn run(e: EnvView, history: Seq<(u64, Call)>) -> EnvView
    decreases history.len(),
{
    if history.len() == 0 {
        e
    } else {
        settle(run(e, history.drop_last()), history.last().0, history.last().1)
    }
}

/// A jar that nobody has called yet.
pub open spec fn fresh(contract: Address) -> EnvView {
    EnvView {
        storage: StorageView::empty(),
        contract,
        timestamp: 0,
        calls: Seq::<HostCall>::empty(),
    }
}

} // verus!
