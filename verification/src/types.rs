//! The jar's data: addresses, records, storage keys and errors.

use vstd::prelude::*;

verus! {

/// An account or a contract on the ledger.
///
/// The jar only ever asks whether two addresses are the same, so an address is
/// the number under which the host knows it.
#[derive(Clone, Copy, Debug, PartialEq, Eq, Structural)]
pub struct Address {
    pub id: u64,
}

/// Key and value pairs that travel with a tip, as raw bytes.
#[derive(Debug, PartialEq, Eq)]
pub struct Metadata {
    pub pairs: Vec<(Vec<u8>, Vec<u8>)>,
}

/// A tip that came with a note for its creator. `message` holds raw bytes.
#[derive(Debug, PartialEq, Eq)]
pub struct TipWithMessage {
    pub sender: Address,
    pub creator: Address,
    pub amount: i128,
    pub message: Vec<u8>,
    pub metadata: Metadata,
    pub timestamp: u64,
}

/// What a [`TipWithMessage`] says.
pub struct TipWithMessageView {
    pub sender: Address,
    pub creator: Address,
    pub amount: i128,
    pub message: Seq<u8>,
    pub metadata: Seq<(Seq<u8>, Seq<u8>)>,
    pub timestamp: u64,
}

/// A funding goal that a creator has set.
#[derive(Clone, Debug, PartialEq, Eq)]
pub struct Milestone {
    pub id: u64,
    pub creator: Address,
    pub goal_amount: i128,
    pub current_amount: i128,
    pub description: Vec<u8>,
    pub deadline: Option<u64>,
    pub completed: bool,
}

/// A sponsor-funded matching program for a creator.
///
/// `match_ratio` is a percentage of the tip: 100 matches a tip one to one, 200
/// matches it two to one.
#[derive(Clone, Copy, Debug, PartialEq, Eq, Structural)]
pub struct MatchingProgram {
    pub id: u64,
    pub sponsor: Address,
    pub creator: Address,
    pub token: Address,
    pub match_ratio: u32,
    /// The budget that the sponsor deposited.
    pub max_match_amount: i128,
    /// How much of the budget has been spent on matches.
    pub current_matched: i128,
    pub active: bool,
}

/// One tip, kept so that it can be refunded.
#[derive(Clone, Copy, Debug, PartialEq, Eq, Structural)]
pub struct TipRecord {
    pub id: u64,
    pub sender: Address,
    pub creator: Address,
    pub token: Address,
    pub amount: i128,
    pub timestamp: u64,
    pub refunded: bool,
    pub refund_requested: bool,
}

/// Under which key the jar keeps each ledger entry.
#[derive(Clone, Copy, Debug, PartialEq, Eq, Structural)]
pub enum DataKey {
    /// Whether a token may be tipped.
    TokenWhitelist(Address),
    /// What a creator can withdraw of a token: (creator, token).
    CreatorBalance(Address, Address),
    /// All that a creator was ever tipped in a token: (creator, token).
    CreatorTotal(Address, Address),
    /// Whether the jar is paused.
    Paused,
    /// The administrator.
    Admin,
    /// The notes that came with a creator's tips.
    CreatorMessages(Address),
    /// How many milestones a creator has set.
    MilestoneCounter(Address),
    /// One milestone of a creator.
    Milestone(Address, u64),
    /// The milestones of a creator that are still open.
    ActiveMilestones(Address),
    /// The number of the latest tip.
    TipCounter,
    /// One tip.
    TipRecord(u64),
    /// The number of the latest matching program.
    MatchingCounter,
    /// One matching program.
    MatchingProgram(u64),
    /// The active matching programs of a creator, oldest first.
    CreatorMatchingPrograms(Address),
}

/// The errors that the jar reports to its callers.
#[derive(Clone, Copy, Debug, PartialEq, Eq, PartialOrd, Ord, Structural)]
pub enum TipJarError {
    AlreadyInitialized,
    TokenNotWhitelisted,
    InvalidAmount,
    NothingToWithdraw,
    MessageTooLong,
    MilestoneNotFound,
    MilestoneAlreadyCompleted,
    InvalidGoalAmount,
    Unauthorized,
    TipNotFound,
    AlreadyRefunded,
    RefundNotRequested,
    GracePeriodExpired,
    MatchingProgramNotFound,
    MatchingProgramInactive,
    InvalidMatchRatio,
}

/// Why a call was abandoned. An abandoned call leaves the ledger as it was.
#[derive(Clone, Copy, Debug, PartialEq, Eq, Structural)]
pub enum Abort {
    /// The jar reports an error of its own.
    Error(TipJarError),
    /// The jar is paused.
    Paused,
    /// No administrator has been chosen yet.
    NotInitialized,
    /// A sum does not fit its type.
    Overflow,
}

impl View for Address {
    type V = Address;

    open spec fn view(&self) -> Address {
        *self
    }
}

impl View for MatchingProgram {
    type V = MatchingProgram;

    open spec fn view(&self) -> MatchingProgram {
        *self
    }
}

impl View for TipRecord {
    type V = TipRecord;

    open spec fn view(&self) -> TipRecord {
        *self
    }
}

impl View for Metadata {
    type V = Seq<(Seq<u8>, Seq<u8>)>;

    open spec fn view(&self) -> Seq<(Seq<u8>, Seq<u8>)> {
        Seq::new(self.pairs@.len(), |i: int| (self.pairs@[i].0@, self.pairs@[i].1@))
    }
}

impl View for TipWithMessage {
    type V = TipWithMessageView;

    open spec fn view(&self) -> TipWithMessageView {
        TipWithMessageView {
            sender: self.sender,
            creator: self.creator,
            amount: self.amount,
            message: self.message@,
            metadata: self.metadata@,
            timestamp: self.timestamp,
        }
    }
}

/// Copies a run of bytes.
pub(crate) fn copy_bytes(bytes: &Vec<u8>) -> (copy: Vec<u8>)
    ensures
        copy@ == bytes@,
{
    let copy = bytes.clone();
    assert(copy@ =~= bytes@);
    copy
}

impl Clone for Metadata {
    fn clone(&self) -> (copy: Self)
        ensures
            copy@ == self@,
    {
        let mut pairs: Vec<(Vec<u8>, Vec<u8>)> = Vec::new();
        let mut i: usize = 0;
        while i < self.pairs.len()
            invariant
                i <= self.pairs@.len(),
                pairs@.len() == i,
                forall|j: int|
                    0 <= j < i ==> (#[trigger] pairs@[j]).0@ == self.pairs@[j].0@ && pairs@[j].1@
                        == self.pairs@[j].1@,
            decreases self.pairs@.len() - i,
        {
            let pair = &self.pairs[i];
            pairs.push((copy_bytes(&pair.0), copy_bytes(&pair.1)));
            i += 1;
        }
        let copy = Metadata { pairs };
        assert(copy@ =~= self@);
        copy
    }
}

impl Clone for TipWithMessage {
    fn clone(&self) -> (copy: Self)
        ensures
            copy@ == self@,
    {
        TipWithMessage {
            sender: self.sender,
            creator: self.creator,
            amount: self.amount,
            message: copy_bytes(&self.message),
            metadata: self.metadata.clone(),
            timestamp: self.timestamp,
        }
    }
}

impl TipJarError {
    /// The number under which callers know this error.
    pub open spec fn spec_code(self) -> u32 {
        match self {
            TipJarError::AlreadyInitialized => 1,
            TipJarError::TokenNotWhitelisted => 2,
            TipJarError::InvalidAmount => 3,
            TipJarError::NothingToWithdraw => 4,
            TipJarError::MessageTooLong => 5,
            TipJarError::MilestoneNotFound => 6,
            TipJarError::MilestoneAlreadyCompleted => 7,
            TipJarError::InvalidGoalAmount => 8,
            TipJarError::Unauthorized => 9,
            TipJarError::TipNotFound => 10,
            TipJarError::AlreadyRefunded => 11,
            TipJarError::RefundNotRequested => 12,
            TipJarError::GracePeriodExpired => 13,
            TipJarError::MatchingProgramNotFound => 14,
            TipJarError::MatchingProgramInactive => 15,
            TipJarError::InvalidMatchRatio => 16,
        }
    }

    /// The number under which callers know this error.
    pub fn code(&self) -> (number: u32)
        ensures
            number == self.spec_code(),
    {
        match self {
            TipJarError::AlreadyInitialized => 1,
            TipJarError::TokenNotWhitelisted => 2,
            TipJarError::InvalidAmount => 3,
            TipJarError::NothingToWithdraw => 4,
            TipJarError::MessageTooLong => 5,
            TipJarError::MilestoneNotFound => 6,
            TipJarError::MilestoneAlreadyCompleted => 7,
            TipJarError::InvalidGoalAmount => 8,
            TipJarError::Unauthorized => 9,
            TipJarError::TipNotFound => 10,
            TipJarError::AlreadyRefunded => 11,
            TipJarError::RefundNotRequested => 12,
            TipJarError::GracePeriodExpired => 13,
            TipJarError::MatchingProgramNotFound => 14,
            TipJarError::MatchingProgramInactive => 15,
            TipJarError::InvalidMatchRatio => 16,
        }
    }
}

} // verus!
