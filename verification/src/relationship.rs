use vstd::prelude::*;
use crate::error::RegistryError;
use crate::identity::Identity;

verus! {

/// One relationship between the owner of a list and a counterparty.
///
/// A relationship is active until it is removed. Removal stamps the entry and
/// keeps it, so the list is also the history of the owner's relationships.
#[derive(Clone, Copy, Debug, PartialEq, Eq)]
pub struct RelationshipEntry {
    pub counterparty: Identity,
    pub added_at: u64,
    pub removed_at: Option<u64>,
}

impl RelationshipEntry {
    /// The entry has not been removed.
    pub open spec fn spec_is_active(&self) -> bool {
        self.removed_at is None
    }

    /// The entry is the active relationship with `counterparty`.
    pub open spec fn binds(&self, counterparty: Identity) -> bool {
        self.counterparty == counterparty && self.removed_at is None
    }

    /// The entry as it stands once removed at `now`.
    pub open spec fn retired(&self, now: u64) -> RelationshipEntry {
        RelationshipEntry {
            counterparty: self.counterparty,
            added_at: self.added_at,
            removed_at: Some(now),
        }
    }

    /// Whether the entry has not been removed.
    #[verifier::when_used_as_spec(spec_is_active)]
    pub fn is_active(&self) -> (r: bool)
        ensures
            r == self.spec_is_active(),
    {
        self.removed_at.is_none()
    }
}

/// What a list asks of the storage provider before it can take one more entry.
#[derive(Clone, Copy, Debug, PartialEq, Eq)]
pub struct GrowthRequest {
    /// The owner of the list that is full.
    pub list: Identity,
    /// How many more entries the list needs room for.
    pub additional_entries: u32,
}

/// What `add` is told when it is called.
#[derive(Clone, Copy, Debug, PartialEq, Eq, Structural)]
pub enum AddEvent {
    /// The caller asks for the relationship; the provider has not been asked.
    Start,
    /// The provider supplied the space that the previous step asked for.
    GrowthGranted,
    /// The provider refused the space that the previous step asked for.
    GrowthDenied,
}

/// What the caller of `add` does next.
#[derive(Clone, Copy, Debug, PartialEq, Eq)]
pub enum AddAction {
    /// The operation is over, with this result.
    Finished(Result<(), RegistryError>),
    /// Put the request to the storage provider and call again with its answer.
    RequestGrowth(GrowthRequest),
}

/// One operation on a list, with its arguments.
pub enum ListOp {
    Add { counterparty: Identity, now: u64, event: AddEvent },
    Remove { counterparty: Identity, now: u64 },
}

/// A relationship list as a mathematical value.
pub struct ListModel {
    pub owner: Identity,
    pub capacity: u32,
    pub entries: Seq<RelationshipEntry>,
}

impl ListModel {
    /// Some entry is the active relationship with `counterparty`.
    pub open spec fn has_active(self, counterparty: Identity) -> bool {
        exists|i: int| 0 <= i < self.entries.len() && #[trigger] self.entries[i].binds(counterparty)
    }

    /// No two active entries name the same counterparty.
    pub open spec fn unique_active(self) -> bool {
        forall|i: int, j: int|
            #![trigger self.entries[i], self.entries[j]]
            0 <= i < j < self.entries.len() && self.entries[i].spec_is_active()
                && self.entries[j].spec_is_active() ==> self.entries[i].counterparty
                != self.entries[j].counterparty
    }

    /// The invariant of a list: active counterparties are distinct and the
    /// entries fit the capacity.
    pub open spec fn wf(self) -> bool {
        &&& self.unique_active()
        &&& self.entries.len() <= self.capacity
    }

    /// The list is full: one more entry needs more capacity.
    pub open spec fn is_full(self) -> bool {
        self.entries.len() >= self.capacity
    }

    /// The list with a new active entry at the end, its capacity raised by
    /// one if it was full.
    pub open spec fn appended(self, counterparty: Identity, now: u64) -> ListModel {
        ListModel {
            owner: self.owner,
            capacity: if self.is_full() {
                (self.capacity + 1) as u32
            } else {
                self.capacity
            },
            entries: self.entries.push(
                RelationshipEntry { counterparty, added_at: now, removed_at: None },
            ),
        }
    }

    /// What `add` answers.
    pub open spec fn add_action(self, counterparty: Identity, event: AddEvent) -> AddAction {
        if self.has_active(counterparty) {
            AddAction::Finished(Err(RegistryError::DuplicateRelationship))
        } else {
            match event {
                AddEvent::Start => if self.is_full() {
                    AddAction::RequestGrowth(
                        GrowthRequest { list: self.owner, additional_entries: 1 },
                    )
                } else {
                    AddAction::Finished(Ok(()))
                },
                AddEvent::GrowthGranted => if self.is_full() && self.capacity == u32::MAX {
                    AddAction::Finished(Err(RegistryError::CapacityExceeded))
                } else {
                    AddAction::Finished(Ok(()))
                },
                AddEvent::GrowthDenied => AddAction::Finished(
                    Err(RegistryError::CapacityExceeded),
                ),
            }
        }
    }

    /// The list after `add`: one entry longer where the answer is success,
    /// the same list otherwise.
    pub open spec fn after_add(self, counterparty: Identity, now: u64, event: AddEvent) -> ListModel {
        if self.add_action(counterparty, event) == AddAction::Finished(Ok(())) {
            self.appended(counterparty, now)
        } else {
            self
        }
    }

    /// What `remove` answers.
    pub open spec fn remove_result(self, counterparty: Identity) -> Result<(), RegistryError> {
        if self.has_active(counterparty) {
            Ok(())
        } else {
            Err(RegistryError::RelationshipNotFound)
        }
    }

    /// The list after `remove`: the active entry of `counterparty`, if there
    /// is one, is stamped with `now`; every other entry stays as it is.
    pub open spec fn after_remove(self, counterparty: Identity, now: u64) -> ListModel {
        ListModel {
            owner: self.owner,
            capacity: self.capacity,
            entries: Seq::new(
                self.entries.len(),
                |i: int|
                    if self.entries[i].binds(counterparty) {
                        self.entries[i].retired(now)
                    } else {
                        self.entries[i]
                    },
            ),
        }
    }

    /// The list after one operation.
    pub open spec fn after_op(self, op: ListOp) -> ListModel {
        match op {
            ListOp::Add { counterparty, now, event } => self.after_add(counterparty, now, event),
            ListOp::Remove { counterparty, now } => self.after_remove(counterparty, now),
        }
    }

    /// The list after a sequence of operations, applied first to last.
    pub open spec fn after_ops(self, ops: Seq<ListOp>) -> ListModel
        decreases ops.len(),
    {
        if ops.len() == 0 {
            self
        } else {
            self.after_ops(ops.drop_last()).after_op(ops.last())
        }
    }
}

/// Appending a counterparty that is not active keeps active counterparties
/// distinct.
pub proof fn lemma_appended_unique(m: ListModel, counterparty: Identity, now: u64)
    requires
        m.unique_active(),
        !m.has_active(counterparty),
    ensures
        m.appended(counterparty, now).unique_active(),
{
    let after = m.appended(counterparty, now);
    assert forall|i: int, j: int|
        0 <= i < j < after.entries.len() && after.entries[i].spec_is_active()
            && after.entries[j].spec_is_active() implies after.entries[i].counterparty
        != after.entries[j].counterparty by {
        if j == m.entries.len() {
            assert(!m.entries[i].binds(counterparty));
        } else {
            assert(after.entries[i] == m.entries[i]);
            assert(after.entries[j] == m.entries[j]);
        }
    }
}

/// Removing a counterparty keeps the invariant, and leaves no active entry
/// for it.
pub proof fn lemma_after_remove_wf(m: ListModel, counterparty: Identity, now: u64)
    requires
        m.wf(),
    ensures
        m.after_remove(counterparty, now).wf(),
        !m.after_remove(counterparty, now).has_active(counterparty),
{
    let after = m.after_remove(counterparty, now);
    assert forall|i: int, j: int|
        0 <= i < j < after.entries.len() && after.entries[i].spec_is_active()
            && after.entries[j].spec_is_active() implies after.entries[i].counterparty
        != after.entries[j].counterparty by {
        assert(after.entries[i] == m.entries[i]);
        assert(after.entries[j] == m.entries[j]);
    }
}

/// `add` keeps the invariant, whatever it is told.
pub proof fn lemma_after_add_wf(m: ListModel, counterparty: Identity, now: u64, event: AddEvent)
    requires
        m.wf(),
    ensures
        m.after_add(counterparty, now, event).wf(),
{
    if m.add_action(counterparty, event) == AddAction::Finished(Ok(())) {
        lemma_appended_unique(m, counterparty, now);
    }
}

/// A list that goes through any sequence of additions and removals keeps
/// its invariant.
pub proof fn lemma_after_ops_wf(m: ListModel, ops: Seq<ListOp>)
    requires
        m.wf(),
    ensures
        m.after_ops(ops).wf(),
    decreases ops.len(),
{
    if ops.len() > 0 {
        lemma_after_ops_wf(m, ops.drop_last());
        let before = m.after_ops(ops.drop_last());
        match ops.last() {
            ListOp::Add { counterparty, now, event } => {
                lemma_after_add_wf(before, counterparty, now, event);
            },
            ListOp::Remove { counterparty, now } => {
                lemma_after_remove_wf(before, counterparty, now);
            },
        }
    }
}

/// At every point of every sequence of additions and removals, a list holds
/// at most one active entry for each counterparty.
pub proof fn lemma_at_most_one_active_throughout(m: ListModel, ops: Seq<ListOp>)
    requires
        m.wf(),
    ensures
        forall|k: int|
            0 <= k <= ops.len() ==> (#[trigger] m.after_ops(ops.take(k))).unique_active(),
{
    assert forall|k: int| 0 <= k <= ops.len() implies (#[trigger] m.after_ops(
        ops.take(k),
    )).unique_active() by {
        lemma_after_ops_wf(m, ops.take(k));
    }
}

/// An addition that went through, or was itself refused as a duplicate, makes
/// the next addition of the same counterparty a duplicate: whatever the
/// second call is told, it fails with `DuplicateRelationship` and changes
/// nothing. (An addition that was held up for capacity added nothing, so
/// nothing can be said of the one after it.)
pub proof fn lemma_add_twice_is_duplicate(
    m: ListModel,
    counterparty: Identity,
    first_now: u64,
    first_event: AddEvent,
    second_now: u64,
    second_event: AddEvent,
)
    requires
        m.wf(),
        m.add_action(counterparty, first_event) == AddAction::Finished(Ok(()))
            || m.add_action(counterparty, first_event) == AddAction::Finished(
            Err(RegistryError::DuplicateRelationship),
        ),
    ensures
        ({
            let once = m.after_add(counterparty, first_now, first_event);
            &&& once.add_action(counterparty, second_event) == AddAction::Finished(
                Err(RegistryError::DuplicateRelationship),
            )
            &&& once.after_add(counterparty, second_now, second_event) == once
        }),
{
    let once = m.after_add(counterparty, first_now, first_event);
    if m.add_action(counterparty, first_event) == AddAction::Finished(Ok(())) {
        assert(once.entries[m.entries.len() as int].binds(counterparty));
    }
}

/// After a removal that went through, the counterparty can be added again:
/// the addition is never refused as a duplicate, and it appends the entry as
/// soon as the list has room, at once or by granted growth.
pub proof fn lemma_remove_then_add_succeeds(
    m: ListModel,
    counterparty: Identity,
    removed_at: u64,
    now: u64,
    event: AddEvent,
)
    requires
        m.wf(),
        m.remove_result(counterparty) is Ok,
    ensures
        ({
            let removed = m.after_remove(counterparty, removed_at);
            let action = removed.add_action(counterparty, event);
            &&& action != AddAction::Finished(Err(RegistryError::DuplicateRelationship))
            &&& event is Start && !removed.is_full() ==> action == AddAction::Finished(Ok(()))
            &&& event is GrowthGranted && removed.capacity < u32::MAX ==> action
                == AddAction::Finished(Ok(()))
            &&& action == AddAction::Finished(Ok(())) ==> removed.after_add(
                counterparty,
                now,
                event,
            ).has_active(counterparty)
        }),
{
    lemma_after_remove_wf(m, counterparty, removed_at);
    let removed = m.after_remove(counterparty, removed_at);
    if removed.add_action(counterparty, event) == AddAction::Finished(Ok(())) {
        let after = removed.after_add(counterparty, now, event);
        assert(after.entries[removed.entries.len() as int].binds(counterparty));
    }
}

/// A removal fails with `RelationshipNotFound`, and changes nothing, for a
/// counterparty that no entry names and for one whose relationship was
/// already removed.
pub proof fn lemma_remove_needs_active(
    m: ListModel,
    counterparty: Identity,
    first_now: u64,
    second_now: u64,
)
    requires
        m.wf(),
    ensures
        (forall|i: int|
            0 <= i < m.entries.len() ==> (#[trigger] m.entries[i]).counterparty != counterparty)
            ==> m.remove_result(counterparty) == Err::<(), RegistryError>(
            RegistryError::RelationshipNotFound,
        ) && m.after_remove(counterparty, first_now) == m,
        ({
            let removed = m.after_remove(counterparty, first_now);
            &&& removed.remove_result(counterparty) == Err::<(), RegistryError>(
                RegistryError::RelationshipNotFound,
            )
            &&& removed.after_remove(counterparty, second_now) == removed
        }),
{
    lemma_after_remove_wf(m, counterparty, first_now);
    let removed = m.after_remove(counterparty, first_now);
    assert(removed.after_remove(counterparty, second_now).entries =~= removed.entries);
    if forall|i: int|
        0 <= i < m.entries.len() ==> (#[trigger] m.entries[i]).counterparty != counterparty {
        assert(m.after_remove(counterparty, first_now).entries =~= m.entries);
    }
}

/// A full list that is asked to take a counterparty it does not hold asks
/// the storage provider once: the first call changes nothing and hands out
/// one request for one entry, and the call made with the provider's answer
/// ends the operation. If the answer is a denial, that call fails with
/// `CapacityExceeded` and the list has the entries it had.
pub proof fn lemma_full_list_asks_once(
    m: ListModel,
    counterparty: Identity,
    now: u64,
    answer: AddEvent,
)
    requires
        m.wf(),
        m.is_full(),
        !m.has_active(counterparty),
        answer != AddEvent::Start,
    ensures
        m.add_action(counterparty, AddEvent::Start) == AddAction::RequestGrowth(
            GrowthRequest { list: m.owner, additional_entries: 1 },
        ),
        m.after_add(counterparty, now, AddEvent::Start) == m,
        m.add_action(counterparty, answer) is Finished,
        answer == AddEvent::GrowthDenied ==> m.add_action(counterparty, answer)
            == AddAction::Finished(Err(RegistryError::CapacityExceeded)) && m.after_add(
            counterparty,
            now,
            answer,
        ) == m,
        answer == AddEvent::GrowthGranted && m.capacity < u32::MAX ==> m.add_action(
            counterparty,
            answer,
        ) == AddAction::Finished(Ok(())) && m.after_add(counterparty, now, answer).entries
            == m.entries.push(RelationshipEntry { counterparty, added_at: now, removed_at: None }),
{
}

/// The relationships of one owner, in the order in which they were added.
pub struct RelationshipList {
    owner: Identity,
    capacity: u32,
    entries: Vec<RelationshipEntry>,
}

impl View for RelationshipList {
    type V = ListModel;

    closed spec fn view(&self) -> ListModel {
        ListModel { owner: self.owner, capacity: self.capacity, entries: self.entries@ }
    }
}

impl RelationshipList {
    /// The list keeps its invariant. Every list that this module hands out
    /// does, and every operation preserves it.
    pub open spec fn wf(&self) -> bool {
        self@.wf()
    }

    /// An empty list for `owner` with room for `capacity` entries.
    pub fn new(owner: Identity, capacity: u32) -> (list: RelationshipList)
        ensures
            list@ == (ListModel { owner, capacity, entries: Seq::empty() }),
            list.wf(),
    {
        RelationshipList { owner, capacity, entries: Vec::new() }
    }

    /// The list with this owner, capacity and entries, if they make a list:
    /// the entries fit the capacity, and no two active ones name the same
    /// counterparty.
    pub fn from_parts(owner: Identity, capacity: u32, entries: Vec<RelationshipEntry>) -> (list:
        Option<RelationshipList>)
        ensures
            match list {
                Some(list) => list@ == (ListModel { owner, capacity, entries: entries@ })
                    && list.wf(),
                None => !(ListModel { owner, capacity, entries: entries@ }).wf(),
            },
    {
        if entries.len() > capacity as usize {
            return None;
        }
        let ghost model = ListModel { owner, capacity, entries: entries@ };
        let mut j: usize = 0;
        while j < entries.len()
            invariant
                j <= entries.len(),
                model == (ListModel { owner, capacity, entries: entries@ }),
                forall|a: int, b: int|
                    #![trigger entries@[a], entries@[b]]
                    0 <= a < b < j && entries@[a].spec_is_active() && entries@[b].spec_is_active()
                        ==> entries@[a].counterparty != entries@[b].counterparty,
            decreases entries.len() - j,
        {
            if entries[j].removed_at.is_none() {
                let mut i: usize = 0;
                while i < j
                    invariant
                        i <= j < entries.len(),
                        model == (ListModel { owner, capacity, entries: entries@ }),
                        entries@[j as int].spec_is_active(),
                        forall|a: int|
                            0 <= a < i && (#[trigger] entries@[a]).spec_is_active()
                                ==> entries@[a].counterparty != entries@[j as int].counterparty,
                    decreases j - i,
                {
                    if entries[i].removed_at.is_none() && entries[i].counterparty
                        == entries[j].counterparty {
                        assert(!model.unique_active()) by {
                            let (a, b) = (i as int, j as int);
                            assert(model.entries[a].spec_is_active()
                                && model.entries[b].spec_is_active());
                        }
                        return None;
                    }
                    i += 1;
                }
            }
            j += 1;
        }
        Some(RelationshipList { owner, capacity, entries })
    }

    /// The position of the active entry of `counterparty`.
    fn find_active(&self, counterparty: &Identity) -> (found: Option<usize>)
        ensures
            match found {
                Some(i) => i < self@.entries.len() && self@.entries[i as int].binds(*counterparty),
                None => !self@.has_active(*counterparty),
            },
    {
        let mut i: usize = 0;
        while i < self.entries.len()
            invariant
                i <= self.entries.len(),
                forall|k: int| 0 <= k < i ==> !(#[trigger] self.entries@[k].binds(*counterparty)),
            decreases self.entries.len() - i,
        {
            let entry = &self.entries[i];
            if entry.removed_at.is_none() && entry.counterparty == *counterparty {
                return Some(i);
            }
            i += 1;
        }
        None
    }

    /// Whether an active relationship with `counterparty` exists.
    pub fn contains(&self, counterparty: &Identity) -> (r: bool)
        ensures
            r == self@.has_active(*counterparty),
    {
        self.find_active(counterparty).is_some()
    }

    /// Registers a relationship with `counterparty` at `now`.
    ///
    /// A counterparty that is already active is refused as a duplicate. When
    /// the list is full, the first call changes nothing and answers with the
    /// request to put to the storage provider; the second call, made with the
    /// provider's answer, appends the entry or fails with `CapacityExceeded`.
    /// Whatever the provider answered, the second call asks for nothing more.
    pub fn add(&mut self, counterparty: Identity, now: u64, event: AddEvent) -> (action: AddAction)
        requires
            old(self).wf(),
        ensures
            action == old(self)@.add_action(counterparty, event),
            final(self)@ == old(self)@.after_add(counterparty, now, event),
            final(self).wf(),
    {
        if self.find_active(&counterparty).is_some() {
            return AddAction::Finished(Err(RegistryError::DuplicateRelationship));
        }
        let full = self.entries.len() >= self.capacity as usize;
        match event {
            AddEvent::Start => {
                if full {
                    return AddAction::RequestGrowth(
                        GrowthRequest { list: self.owner, additional_entries: 1 },
                    );
                }
            },
            AddEvent::GrowthGranted => {
                if full {
                    if self.capacity == u32::MAX {
                        return AddAction::Finished(Err(RegistryError::CapacityExceeded));
                    }
                    self.capacity = self.capacity + 1;
                }
            },
            AddEvent::GrowthDenied => {
                return AddAction::Finished(Err(RegistryError::CapacityExceeded));
            },
        }
        proof {
            lemma_appended_unique(old(self)@, counterparty, now);
        }
        self.entries.push(RelationshipEntry { counterparty, added_at: now, removed_at: None });
        AddAction::Finished(Ok(()))
    }

    /// Ends the active relationship with `counterparty` at `now`.
    ///
    /// The entry stays in the list with its removal stamp. Where no active
    /// relationship with `counterparty` exists, the list is left as it is.
    pub fn remove(&mut self, counterparty: &Identity, now: u64) -> (result: Result<
        (),
        RegistryError,
    >)
        requires
            old(self).wf(),
        ensures
            result == old(self)@.remove_result(*counterparty),
            final(self)@ == old(self)@.after_remove(*counterparty, now),
            result is Err ==> final(self)@ == old(self)@,
            final(self).wf(),
    {
        proof {
            lemma_after_remove_wf(old(self)@, *counterparty, now);
        }
        match self.find_active(counterparty) {
            None => {
                assert(self@.after_remove(*counterparty, now).entries =~= self@.entries);
                Err(RegistryError::RelationshipNotFound)
            },
            Some(i) => {
                let entry = self.entries[i];
                self.entries[i] = RelationshipEntry {
                    counterparty: entry.counterparty,
                    added_at: entry.added_at,
                    removed_at: Some(now),
                };
                proof {
                    let before = old(self)@;
                    assert forall|k: int| 0 <= k < before.entries.len() && k != i implies !(
                    #[trigger] before.entries[k].binds(*counterparty)) by {
                        if before.entries[k].binds(*counterparty) {
                            if k < i {
                                assert(before.entries[k].counterparty
                                    != before.entries[i as int].counterparty);
                            } else {
                                assert(before.entries[i as int].counterparty
                                    != before.entries[k].counterparty);
                            }
                        }
                    }
                    assert(self@.entries =~= before.after_remove(*counterparty, now).entries);
                }
                Ok(())
            },
        }
    }

    /// The owner of the list.
    pub fn owner(&self) -> (owner: Identity)
        ensures
            owner == self@.owner,
    {
        self.owner
    }

    /// The number of entries that the list has room for.
    pub fn capacity(&self) -> (capacity: u32)
        ensures
            capacity == self@.capacity,
    {
        self.capacity
    }

    /// The number of entries, removed ones included.
    pub fn len(&self) -> (len: usize)
        ensures
            len == self@.entries.len(),
    {
        self.entries.len()
    }

    /// The entry at `index`, in the order of addition.
    pub fn get(&self, index: usize) -> (entry: Option<RelationshipEntry>)
        ensures
            entry == if index < self@.entries.len() {
                Some(self@.entries[index as int])
            } else {
                None
            },
    {
        if index < self.entries.len() {
            Some(self.entries[index])
        } else {
            None
        }
    }
}

} // verus!
