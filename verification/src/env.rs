//! What a call sees of the ledger, and what it asks of the host.

use crate::table::{lemma_rows_finite, Table};
use crate::types::{
    Address, DataKey, MatchingProgram, Metadata, TipRecord, TipWithMessage, TipWithMessageView,
};
use vstd::prelude::*;

verus! {

/// The notes that a creator has received, oldest first.
#[derive(Debug, PartialEq, Eq)]
pub struct Messages {
    pub list: Vec<TipWithMessage>,
}

impl View for Messages {
    type V = Seq<TipWithMessageView>;

    open spec fn view(&self) -> Seq<TipWithMessageView> {
        self.list@.map_values(|note: TipWithMessage| note@)
    }
}

impl Clone for Messages {
    fn clone(&self) -> (copy: Self)
        ensures
            copy@ == self@,
    {
        let mut list: Vec<TipWithMessage> = Vec::new();
        let mut i: usize = 0;
        while i < self.list.len()
            invariant
                i <= self.list@.len(),
                list@.len() == i,
                forall|j: int| 0 <= j < i ==> (#[trigger] list@[j])@ == self.list@[j]@,
            decreases self.list@.len() - i,
        {
            list.push(self.list[i].clone());
            i += 1;
        }
        let copy = Messages { list };
        assert(copy@ =~= self@);
        copy
    }
}

/// What the jar announces on the ledger.
#[derive(Clone, Debug, PartialEq, Eq)]
pub enum Event {
    Tip { creator: Address, token: Address, sender: Address, amount: i128, tip_id: u64 },
    TipMessage {
        creator: Address,
        sender: Address,
        amount: i128,
        message: Vec<u8>,
        metadata: Metadata,
        tip_id: u64,
    },
    /// A tip went back to its sender: `automatic` within the grace period,
    /// otherwise by the creator's leave.
    Refund {
        creator: Address,
        token: Address,
        sender: Address,
        tip_id: u64,
        amount: i128,
        automatic: bool,
    },
    RefundRequested {
        creator: Address,
        token: Address,
        sender: Address,
        tip_id: u64,
        amount: i128,
    },
    Withdraw { creator: Address, token: Address, amount: i128 },
    MatchingCreated {
        creator: Address,
        token: Address,
        sponsor: Address,
        program_id: u64,
        match_ratio: u32,
        max_match_amount: i128,
    },
    TipMatched {
        creator: Address,
        token: Address,
        sender: Address,
        tip_id: u64,
        amount: i128,
        matched_amount: i128,
    },
    MatchingEnded {
        creator: Address,
        token: Address,
        sponsor: Address,
        program_id: u64,
        unspent: i128,
    },
}

impl Event {
    /// The name under which listeners find an event.
    pub open spec fn spec_topic(self) -> Seq<char> {
        match self {
            Event::Tip { .. } => "tip"@,
            Event::TipMessage { .. } => "tip_msg"@,
            Event::Refund { .. } => "refund"@,
            Event::RefundRequested { .. } => "ref_req"@,
            Event::Withdraw { .. } => "withdraw"@,
            Event::MatchingCreated { .. } => "match_new"@,
            Event::TipMatched { .. } => "tip_match"@,
            Event::MatchingEnded { .. } => "match_end"@,
        }
    }

    /// The name under which listeners find an event.
    pub fn topic(&self) -> (name: &'static str)
        ensures
            name@ == self.spec_topic(),
    {
        match self {
            Event::Tip { .. } => "tip",
            Event::TipMessage { .. } => "tip_msg",
            Event::Refund { .. } => "refund",
            Event::RefundRequested { .. } => "ref_req",
            Event::Withdraw { .. } => "withdraw",
            Event::MatchingCreated { .. } => "match_new",
            Event::TipMatched { .. } => "tip_match",
            Event::MatchingEnded { .. } => "match_end",
        }
    }
}

/// What a call asks of the host.
#[derive(Clone, Debug, PartialEq, Eq)]
pub enum HostCall {
    /// Abandon the call unless this address has authorised it.
    RequireAuth(Address),
    /// Move tokens, or abandon the call.
    Transfer { token: Address, from: Address, to: Address, amount: i128 },
    /// Announce an event.
    Publish(Event),
}

/// A list without one of its numbers; the others keep their order.
pub open spec fn without(ids: Seq<u64>, id: u64) -> Seq<u64>
    decreases ids.len(),
{
    if ids.len() == 0 {
        ids
    } else {
        let rest = without(ids.drop_last(), id);
        if ids.last() == id {
            rest
        } else {
            rest.push(ids.last())
        }
    }
}

/// The ledger entries at hand, one table for each kind of value.
#[derive(Clone, Debug)]
pub struct Storage {
    /// `Admin`.
    pub admins: Table<Address>,
    /// `Paused` and `TokenWhitelist`.
    pub flags: Table<bool>,
    /// `TipCounter` and `MatchingCounter`.
    pub counters: Table<u64>,
    /// `CreatorBalance` and `CreatorTotal`.
    pub amounts: Table<i128>,
    /// `CreatorMessages`.
    pub messages: Table<Messages>,
    /// `TipRecord`.
    pub tips: Table<TipRecord>,
    /// `MatchingProgram`.
    pub programs: Table<MatchingProgram>,
    /// `CreatorMatchingPrograms`.
    pub program_lists: Table<Vec<u64>>,
}

/// The ledger entries that a [`Storage`] holds.
#[verifier::ext_equal]
pub struct StorageView {
    pub admins: Map<DataKey, Address>,
    pub flags: Map<DataKey, bool>,
    pub counters: Map<DataKey, u64>,
    pub amounts: Map<DataKey, i128>,
    pub messages: Map<DataKey, Seq<TipWithMessageView>>,
    pub tips: Map<DataKey, TipRecord>,
    pub programs: Map<DataKey, MatchingProgram>,
    pub program_lists: Map<DataKey, Seq<u64>>,
}

impl View for Storage {
    type V = StorageView;

    open spec fn view(&self) -> StorageView {
        StorageView {
            admins: self.admins@,
            flags: self.flags@,
            counters: self.counters@,
            amounts: self.amounts@,
            messages: self.messages@,
            tips: self.tips@,
            programs: self.programs@,
            program_lists: self.program_lists@,
        }
    }
}

impl StorageView {
    /// The ledger before the jar has written anything.
    pub open spec fn empty() -> StorageView {
        StorageView {
            admins: Map::empty(),
            flags: Map::empty(),
            counters: Map::empty(),
            amounts: Map::empty(),
            messages: Map::empty(),
            tips: Map::empty(),
            programs: Map::empty(),
            program_lists: Map::empty(),
        }
    }

    /// There are finitely many entries.
    pub open spec fn is_finite(self) -> bool {
        &&& self.admins.dom().finite()
        &&& self.flags.dom().finite()
        &&& self.counters.dom().finite()
        &&& self.amounts.dom().finite()
        &&& self.messages.dom().finite()
        &&& self.tips.dom().finite()
        &&& self.programs.dom().finite()
        &&& self.program_lists.dom().finite()
    }

    pub open spec fn admin(self) -> Option<Address> {
        if self.admins.contains_key(DataKey::Admin) {
            Some(self.admins[DataKey::Admin])
        } else {
            None
        }
    }

    pub open spec fn flag(self, key: DataKey) -> bool {
        self.flags.contains_key(key) && self.flags[key]
    }

    pub open spec fn counter(self, key: DataKey) -> u64 {
        if self.counters.contains_key(key) {
            self.counters[key]
        } else {
            0
        }
    }

    pub open spec fn amount(self, key: DataKey) -> i128 {
        if self.amounts.contains_key(key) {
            self.amounts[key]
        } else {
            0
        }
    }

    pub open spec fn paused(self) -> bool {
        self.flag(DataKey::Paused)
    }

    pub open spec fn whitelisted(self, token: Address) -> bool {
        self.flag(DataKey::TokenWhitelist(token))
    }

    /// How many tips have been recorded.
    pub open spec fn tip_count(self) -> u64 {
        self.counter(DataKey::TipCounter)
    }

    /// How many matching programs have been created.
    pub open spec fn program_count(self) -> u64 {
        self.counter(DataKey::MatchingCounter)
    }

    /// What a creator can withdraw of a token.
    pub open spec fn balance(self, creator: Address, token: Address) -> i128 {
        self.amount(DataKey::CreatorBalance(creator, token))
    }

    /// All that a creator was ever tipped in a token.
    pub open spec fn total(self, creator: Address, token: Address) -> i128 {
        self.amount(DataKey::CreatorTotal(creator, token))
    }

    pub open spec fn messages_for(self, creator: Address) -> Seq<TipWithMessageView> {
        if self.messages.contains_key(DataKey::CreatorMessages(creator)) {
            self.messages[DataKey::CreatorMessages(creator)]
        } else {
            Seq::empty()
        }
    }

    pub open spec fn tip(self, id: u64) -> Option<TipRecord> {
        if self.tips.contains_key(DataKey::TipRecord(id)) {
            Some(self.tips[DataKey::TipRecord(id)])
        } else {
            None
        }
    }

    pub open spec fn program(self, id: u64) -> Option<MatchingProgram> {
        if self.programs.contains_key(DataKey::MatchingProgram(id)) {
            Some(self.programs[DataKey::MatchingProgram(id)])
        } else {
            None
        }
    }

    /// The active matching programs of a creator, oldest first.
    pub open spec fn programs_for(self, creator: Address) -> Seq<u64> {
        if self.program_lists.contains_key(DataKey::CreatorMatchingPrograms(creator)) {
            self.program_lists[DataKey::CreatorMatchingPrograms(creator)]
        } else {
            Seq::empty()
        }
    }

    pub open spec fn with_admin(self, admin: Address) -> StorageView {
        StorageView { admins: self.admins.insert(DataKey::Admin, admin), ..self }
    }

    pub open spec fn with_flag(self, key: DataKey, value: bool) -> StorageView {
        StorageView { flags: self.flags.insert(key, value), ..self }
    }

    pub open spec fn with_counter(self, key: DataKey, value: u64) -> StorageView {
        StorageView { counters: self.counters.insert(key, value), ..self }
    }

    pub open spec fn with_amount(self, key: DataKey, value: i128) -> StorageView {
        StorageView { amounts: self.amounts.insert(key, value), ..self }
    }

    pub open spec fn with_balance(self, creator: Address, token: Address, value: i128) -> StorageView {
        self.with_amount(DataKey::CreatorBalance(creator, token), value)
    }

    pub open spec fn with_tip(self, id: u64, record: TipRecord) -> StorageView {
        StorageView { tips: self.tips.insert(DataKey::TipRecord(id), record), ..self }
    }

    pub open spec fn with_program(self, id: u64, program: MatchingProgram) -> StorageView {
        StorageView { programs: self.programs.insert(DataKey::MatchingProgram(id), program), ..self }
    }

    /// One more note for a creator, after those already there.
    pub open spec fn with_message(self, creator: Address, note: TipWithMessageView) -> StorageView {
        StorageView {
            messages: self.messages.insert(
                DataKey::CreatorMessages(creator),
                self.messages_for(creator).push(note),
            ),
            ..self
        }
    }

    /// One more matching program for a creator, after those already there.
    pub open spec fn with_listed_program(self, creator: Address, id: u64) -> StorageView {
        StorageView {
            program_lists: self.program_lists.insert(
                DataKey::CreatorMatchingPrograms(creator),
                self.programs_for(creator).push(id),
            ),
            ..self
        }
    }

    /// One matching program less for a creator; the others keep their order.
    pub open spec fn with_unlisted_program(self, creator: Address, id: u64) -> StorageView {
        StorageView {
            program_lists: self.program_lists.insert(
                DataKey::CreatorMatchingPrograms(creator),
                without(self.programs_for(creator), id),
            ),
            ..self
        }
    }

    /// Whether `credit` more fits into a creator's balance and total.
    pub open spec fn can_credit(self, creator: Address, token: Address, credit: int) -> bool {
        &&& credit <= i128::MAX
        &&& self.balance(creator, token) + credit <= i128::MAX
        &&& self.total(creator, token) + credit <= i128::MAX
    }

    /// A creator's balance and total, both raised by `credit`.
    pub open spec fn with_credit(self, creator: Address, token: Address, credit: int) -> StorageView {
        self.with_balance(
            creator,
            token,
            (self.balance(creator, token) + credit) as i128,
        ).with_amount(
            DataKey::CreatorTotal(creator, token),
            (self.total(creator, token) + credit) as i128,
        )
    }

    /// A new tip under the next number.
    pub open spec fn with_new_tip(self, record: TipRecord) -> StorageView {
        self.with_counter(DataKey::TipCounter, record.id).with_tip(record.id, record)
    }

    /// A new matching program under the next number, listed for its creator.
    pub open spec fn with_new_program(self, program: MatchingProgram) -> StorageView {
        self.with_counter(DataKey::MatchingCounter, program.id).with_program(
            program.id,
            program,
        ).with_listed_program(program.creator, program.id)
    }
}

impl Storage {
    /// No entries at all.
    pub fn new() -> (storage: Self)
        ensures
            storage@ == StorageView::empty(),
    {
        Storage {
            admins: Table::new(),
            flags: Table::new(),
            counters: Table::new(),
            amounts: Table::new(),
            messages: Table::new(),
            tips: Table::new(),
            programs: Table::new(),
            program_lists: Table::new(),
        }
    }

    /// There are always finitely many entries.
    pub proof fn lemma_finite(&self)
        ensures
            self@.is_finite(),
    {
        lemma_rows_finite(self.admins.rows@);
        lemma_rows_finite(self.flags.rows@);
        lemma_rows_finite(self.counters.rows@);
        lemma_rows_finite(self.amounts.rows@);
        lemma_rows_finite(self.messages.rows@);
        lemma_rows_finite(self.tips.rows@);
        lemma_rows_finite(self.programs.rows@);
        lemma_rows_finite(self.program_lists.rows@);
    }

    /// The flag under `key`; false where there is none.
    pub fn flag(&self, key: DataKey) -> (value: bool)
        ensures
            value == self@.flag(key),
    {
        match self.flags.get(key) {
            Some(value) => *value,
            None => false,
        }
    }

    /// The counter under `key`; 0 where there is none.
    pub fn counter(&self, key: DataKey) -> (value: u64)
        ensures
            value == self@.counter(key),
    {
        match self.counters.get(key) {
            Some(value) => *value,
            None => 0,
        }
    }

    /// The amount under `key`; 0 where there is none.
    pub fn amount(&self, key: DataKey) -> (value: i128)
        ensures
            value == self@.amount(key),
    {
        match self.amounts.get(key) {
            Some(value) => *value,
            None => 0,
        }
    }

    /// The notes of a creator; none where there is no entry.
    pub fn messages_for(&self, creator: Address) -> (notes: Messages)
        ensures
            notes@ == self@.messages_for(creator),
    {
        match self.messages.get(DataKey::CreatorMessages(creator)) {
            Some(notes) => notes.clone(),
            None => {
                let none = Messages { list: Vec::new() };
                assert(none@ =~= Seq::<TipWithMessageView>::empty());
                none
            },
        }
    }

    /// The active matching programs of a creator; none where there is no entry.
    pub fn programs_for(&self, creator: Address) -> (ids: Vec<u64>)
        ensures
            ids@ == self@.programs_for(creator),
    {
        match self.program_lists.get(DataKey::CreatorMatchingPrograms(creator)) {
            Some(ids) => {
                let copy = ids.clone();
                assert(copy@ =~= ids@);
                copy
            },
            None => Vec::new(),
        }
    }

    /// Takes a matching program off a creator's list.
    pub(crate) fn unlist_program(&mut self, creator: Address, id: u64)
        ensures
            final(self)@ == old(self)@.with_unlisted_program(creator, id),
    {
        let ids: Vec<u64> = self.programs_for(creator);
        let mut rest: Vec<u64> = Vec::new();
        let mut i: usize = 0;
        assert(rest@ =~= without(ids@.take(0), id));
        while i < ids.len()
            invariant
                i <= ids@.len(),
                rest@ == without(ids@.take(i as int), id),
            decreases ids@.len() - i,
        {
            assert(ids@.take(i + 1).drop_last() =~= ids@.take(i as int));
            if ids[i] != id {
                rest.push(ids[i]);
            }
            i += 1;
        }
        assert(ids@.take(i as int) =~= ids@);
        self.program_lists.set(DataKey::CreatorMatchingPrograms(creator), rest);
    }

    /// A creator's balance and total raised by `credit`, or false and nothing
    /// changed where one of them would not fit.
    pub(crate) fn credit(&mut self, creator: Address, token: Address, credit: i128) -> (done: bool)
        requires
            credit >= 0,
        ensures
            done == old(self)@.can_credit(creator, token, credit as int),
            done ==> final(self)@ == old(self)@.with_credit(creator, token, credit as int),
            !done ==> final(self)@ == old(self)@,
    {
        let balance_key = DataKey::CreatorBalance(creator, token);
        let total_key = DataKey::CreatorTotal(creator, token);
        match (
            self.amount(balance_key).checked_add(credit),
            self.amount(total_key).checked_add(credit),
        ) {
            (Some(balance), Some(total)) => {
                self.amounts.set(balance_key, balance);
                self.amounts.set(total_key, total);
                true
            },
            _ => false,
        }
    }
}

/// What one call works on.
#[derive(Clone, Debug)]
pub struct Env {
    /// The ledger entries at hand.
    pub storage: Storage,
    /// The jar's own address.
    pub contract: Address,
    /// The time of the ledger, in seconds.
    pub timestamp: u64,
    /// What was asked of the host so far, in order.
    pub calls: Vec<HostCall>,
}

/// What an [`Env`] holds.
#[verifier::ext_equal]
pub struct EnvView {
    pub storage: StorageView,
    pub contract: Address,
    pub timestamp: u64,
    pub calls: Seq<HostCall>,
}

impl View for Env {
    type V = EnvView;

    open spec fn view(&self) -> EnvView {
        EnvView {
            storage: self.storage@,
            contract: self.contract,
            timestamp: self.timestamp,
            calls: self.calls@,
        }
    }
}

impl EnvView {
    /// The same entries, with more asked of the host.
    pub open spec fn asking(self, more: Seq<HostCall>) -> EnvView {
        EnvView { calls: self.calls + more, ..self }
    }

    /// Other entries, and nothing else changed.
    pub open spec fn storing(self, storage: StorageView) -> EnvView {
        EnvView { storage, ..self }
    }
}

impl Env {
    /// A fresh ledger at a given time, with nothing asked of the host.
    pub fn new(contract: Address, timestamp: u64) -> (env: Self)
        ensures
            env@.storage == StorageView::empty(),
            env@.contract == contract,
            env@.timestamp == timestamp,
            env@.calls == Seq::<HostCall>::empty(),
    {
        Env { storage: Storage::new(), contract, timestamp, calls: Vec::new() }
    }

    /// Asks the host to abandon the call unless `who` has authorised it.
    pub(crate) fn require_auth(&mut self, who: Address)
        ensures
            final(self)@ == old(self)@.asking(seq![HostCall::RequireAuth(who)]),
    {
        self.calls.push(HostCall::RequireAuth(who));
        assert(self.calls@ =~= old(self).calls@ + seq![HostCall::RequireAuth(who)]);
    }

    /// Asks the host to move tokens.
    pub(crate) fn transfer(&mut self, token: Address, from: Address, to: Address, amount: i128)
        ensures
            final(self)@ == old(self)@.asking(
                seq![HostCall::Transfer { token, from, to, amount }],
            ),
    {
        let request = HostCall::Transfer { token, from, to, amount };
        self.calls.push(request);
        assert(self.calls@ =~= old(self).calls@ + seq![request]);
    }

    /// Asks the host to announce an event.
    pub(crate) fn publish(&mut self, event: Event)
        ensures
            final(self)@ == old(self)@.asking(seq![HostCall::Publish(event)]),
    {
        let ghost request = HostCall::Publish(event);
        self.calls.push(HostCall::Publish(event));
        assert(self.calls@ =~= old(self).calls@ + seq![request]);
    }
}

} // verus!
