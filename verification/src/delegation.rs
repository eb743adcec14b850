use vstd::prelude::*;
use crate::error::RegistryError;
use crate::identity::Identity;

verus! {

/// The stake that a vault delegates to one operator.
///
/// `active_amount` is the amount in effect. A change is queued in
/// `pending_delta` and takes effect when the ledger is next updated at an
/// epoch boundary.
#[derive(Clone, Copy, Debug, PartialEq, Eq)]
pub struct DelegationEntry {
    pub operator: Identity,
    pub active_amount: u64,
    pub pending_delta: i64,
    pub last_update_epoch: u64,
}

impl DelegationEntry {
    /// The amount that will be in effect once the queued change is committed.
    pub open spec fn queued_total(self) -> int {
        self.active_amount + self.pending_delta
    }

    /// The invariant of an entry: the queued change never takes the amount
    /// below zero, and both the amount and the amount to come can be undone
    /// by one signed 64-bit change.
    pub open spec fn wf(self) -> bool {
        &&& 0 <= self.queued_total() <= i64::MAX
        &&& self.active_amount <= i64::MAX
    }

    /// The entry of an operator to which nothing is delegated or queued.
    pub open spec fn blank(operator: Identity, epoch: u64) -> DelegationEntry {
        DelegationEntry { operator, active_amount: 0, pending_delta: 0, last_update_epoch: epoch }
    }

    /// The entry with `delta` more queued.
    pub open spec fn queued(self, delta: int) -> DelegationEntry {
        DelegationEntry {
            operator: self.operator,
            active_amount: self.active_amount,
            pending_delta: (self.pending_delta + delta) as i64,
            last_update_epoch: self.last_update_epoch,
        }
    }

    /// The entry after an update at `now_epoch`: an entry last updated in an
    /// earlier epoch takes its queued change into effect and is stamped; any
    /// other entry stays as it is.
    pub open spec fn committed(self, now_epoch: u64) -> DelegationEntry {
        if self.last_update_epoch < now_epoch {
            DelegationEntry {
                operator: self.operator,
                active_amount: (self.active_amount + self.pending_delta) as u64,
                pending_delta: 0,
                last_update_epoch: now_epoch,
            }
        } else {
            self
        }
    }
}

/// What an update at an epoch boundary found.
#[derive(Clone, Copy, Debug, PartialEq, Eq, Structural)]
pub enum UpdateOutcome {
    /// The epoch advanced: every queued change is now in effect.
    Committed,
    /// The epoch did not advance: nothing was changed. This is no failure,
    /// and the call can be repeated.
    StaleEpochState,
}

/// A delegation ledger as a mathematical value.
pub struct DelegationModel {
    pub vault: Identity,
    pub epoch: u64,
    pub entries: Seq<DelegationEntry>,
}

impl DelegationModel {
    /// Some entry belongs to `operator`.
    pub open spec fn has_entry(self, operator: Identity) -> bool {
        exists|i: int| 0 <= i < self.entries.len() && (#[trigger] self.entries[i]).operator == operator
    }

    /// The entry of `operator`; a blank one if the ledger holds none.
    pub open spec fn entry_of(self, operator: Identity) -> DelegationEntry {
        if self.has_entry(operator) {
            let i = choose|i: int|
                0 <= i < self.entries.len() && (#[trigger] self.entries[i]).operator == operator;
            self.entries[i]
        } else {
            DelegationEntry::blank(operator, self.epoch)
        }
    }

    /// The invariant of a ledger: one entry per operator, every entry within
    /// its bounds and stamped with the epoch of the ledger's last update.
    pub open spec fn wf(self) -> bool {
        &&& forall|i: int, j: int|
            #![trigger self.entries[i], self.entries[j]]
            0 <= i < j < self.entries.len() ==> self.entries[i].operator
                != self.entries[j].operator
        &&& forall|i: int|
            0 <= i < self.entries.len() ==> (#[trigger] self.entries[i]).wf()
                && self.entries[i].last_update_epoch == self.epoch
    }

    /// The ledger with `delta` more queued for `operator`, in the entry that
    /// the operator has or in a new one at the end.
    pub open spec fn with_queued(self, operator: Identity, delta: int) -> DelegationModel {
        DelegationModel {
            vault: self.vault,
            epoch: self.epoch,
            entries: if self.has_entry(operator) {
                Seq::new(
                    self.entries.len(),
                    |i: int|
                        if self.entries[i].operator == operator {
                            self.entries[i].queued(delta)
                        } else {
                            self.entries[i]
                        },
                )
            } else {
                self.entries.push(DelegationEntry::blank(operator, self.epoch).queued(delta))
            },
        }
    }

    /// What `add_delegation` answers.
    pub open spec fn add_result(caller_is_delegation_admin: bool) -> Result<(), RegistryError> {
        if caller_is_delegation_admin {
            Ok(())
        } else {
            Err(RegistryError::UnauthorizedCaller)
        }
    }

    /// The ledger after `add_delegation`.
    pub open spec fn after_add(
        self,
        operator: Identity,
        amount: u64,
        caller_is_delegation_admin: bool,
    ) -> DelegationModel {
        if caller_is_delegation_admin {
            self.with_queued(operator, amount as int)
        } else {
            self
        }
    }

    /// What `remove_delegation` answers.
    pub open spec fn remove_result(
        self,
        operator: Identity,
        amount: u64,
        caller_is_admin: bool,
    ) -> Result<(), RegistryError> {
        if !caller_is_admin {
            Err(RegistryError::UnauthorizedCaller)
        } else if self.entry_of(operator).queued_total() - amount < 0 {
            Err(RegistryError::InsufficientDelegatedStake)
        } else {
            Ok(())
        }
    }

    /// The ledger after `remove_delegation`.
    pub open spec fn after_remove(
        self,
        operator: Identity,
        amount: u64,
        caller_is_admin: bool,
    ) -> DelegationModel {
        if self.remove_result(operator, amount, caller_is_admin) is Ok && self.has_entry(operator) {
            self.with_queued(operator, -(amount as int))
        } else {
            self
        }
    }

    /// What `update_delegations` answers.
    pub open spec fn update_outcome(self, now_epoch: u64) -> UpdateOutcome {
        if self.epoch < now_epoch {
            UpdateOutcome::Committed
        } else {
            UpdateOutcome::StaleEpochState
        }
    }

    /// The ledger after `update_delegations`: every entry is committed as
    /// its own stamp demands, and the ledger's epoch never goes back.
    pub open spec fn after_update(self, now_epoch: u64) -> DelegationModel {
        DelegationModel {
            vault: self.vault,
            epoch: if self.epoch < now_epoch {
                now_epoch
            } else {
                self.epoch
            },
            entries: Seq::new(self.entries.len(), |i: int| self.entries[i].committed(now_epoch)),
        }
    }
}

/// In a ledger that keeps its invariant, the entry at a position is the
/// entry of its operator.
pub proof fn lemma_entry_of_position(m: DelegationModel, i: int)
    requires
        m.wf(),
        0 <= i < m.entries.len(),
    ensures
        m.has_entry(m.entries[i].operator),
        m.entry_of(m.entries[i].operator) == m.entries[i],
{
    let operator = m.entries[i].operator;
    let k = choose|k: int| 0 <= k < m.entries.len() && (#[trigger] m.entries[k]).operator == operator;
    if k < i {
        assert(m.entries[k].operator != m.entries[i].operator);
    } else if i < k {
        assert(m.entries[i].operator != m.entries[k].operator);
    }
}

/// Queueing a change that keeps the operator's entry within its bounds keeps
/// the ledger's invariant, changes the operator's entry by just that delta
/// and no other operator's entry.
pub proof fn lemma_with_queued(m: DelegationModel, operator: Identity, delta: int)
    requires
        m.wf(),
        0 <= m.entry_of(operator).queued_total() + delta <= i64::MAX,
    ensures
        m.with_queued(operator, delta).wf(),
        m.with_queued(operator, delta).has_entry(operator),
        m.with_queued(operator, delta).entry_of(operator) == m.entry_of(operator).queued(delta),
        forall|other: Identity|
            other != operator ==> m.with_queued(operator, delta).entry_of(other) == m.entry_of(
                other,
            ),
{
    let after = m.with_queued(operator, delta);
    let entry = m.entry_of(operator);
    assert(entry.wf()) by {
        if m.has_entry(operator) {
            let k = choose|k: int|
                0 <= k < m.entries.len() && (#[trigger] m.entries[k]).operator == operator;
            assert(m.entries[k].wf());
        }
    }
    assert(entry.queued(delta).wf());
    if m.has_entry(operator) {
        let k = choose|k: int|
            0 <= k < m.entries.len() && (#[trigger] m.entries[k]).operator == operator;
        lemma_entry_of_position(m, k);
        assert forall|i: int| 0 <= i < after.entries.len() implies (#[trigger] after.entries[i]).wf()
            && after.entries[i].last_update_epoch == after.epoch && after.entries[i].operator
            == m.entries[i].operator by {
            assert(m.entries[i].wf());
            if m.entries[i].operator == operator {
                lemma_entry_of_position(m, i);
            }
        }
        assert forall|i: int, j: int| 0 <= i < j < after.entries.len() implies after.entries[i].operator
            != after.entries[j].operator by {
            assert(m.entries[i].operator != m.entries[j].operator);
        }
        assert(after.entries[k].operator == operator);
        lemma_entry_of_position(after, k);
        assert forall|other: Identity| other != operator implies after.entry_of(other)
            == m.entry_of(other) by {
            if m.has_entry(other) {
                let j = choose|j: int|
                    0 <= j < m.entries.len() && (#[trigger] m.entries[j]).operator == other;
                lemma_entry_of_position(m, j);
                assert(after.entries[j] == m.entries[j]);
                lemma_entry_of_position(after, j);
            } else {
                if after.has_entry(other) {
                    let j = choose|j: int|
                        0 <= j < after.entries.len() && (#[trigger] after.entries[j]).operator
                            == other;
                    assert(m.entries[j].operator == other);
                }
            }
        }
    } else {
        let n = m.entries.len() as int;
        assert forall|i: int| 0 <= i < after.entries.len() implies (#[trigger] after.entries[i]).wf()
            && after.entries[i].last_update_epoch == after.epoch by {
            if i < n {
                assert(after.entries[i] == m.entries[i]);
                assert(m.entries[i].wf());
            }
        }
        assert forall|i: int, j: int| 0 <= i < j < after.entries.len() implies after.entries[i].operator
            != after.entries[j].operator by {
            assert(after.entries[i] == m.entries[i]);
            if j < n {
                assert(after.entries[j] == m.entries[j]);
                assert(m.entries[i].operator != m.entries[j].operator);
            } else {
                assert(m.entries[i].operator != operator);
            }
        }
        assert(after.entries[n].operator == operator);
        lemma_entry_of_position(after, n);
        assert forall|other: Identity| other != operator implies after.entry_of(other)
            == m.entry_of(other) by {
            if m.has_entry(other) {
                let j = choose|j: int|
                    0 <= j < m.entries.len() && (#[trigger] m.entries[j]).operator == other;
                lemma_entry_of_position(m, j);
                assert(after.entries[j] == m.entries[j]);
                lemma_entry_of_position(after, j);
            } else {
                if after.has_entry(other) {
                    let j = choose|j: int|
                        0 <= j < after.entries.len() && (#[trigger] after.entries[j]).operator
                            == other;
                    assert(after.entries[j] == m.entries[j]);
                }
            }
        }
    }
}

/// An update keeps the ledger's invariant and every operator's entry apart:
/// an operator's entry after the update is its entry before, committed.
pub proof fn lemma_after_update(m: DelegationModel, now_epoch: u64)
    requires
        m.wf(),
    ensures
        m.after_update(now_epoch).wf(),
        m.update_outcome(now_epoch) is StaleEpochState ==> m.after_update(now_epoch) == m,
        forall|operator: Identity|
            m.after_update(now_epoch).has_entry(operator) == m.has_entry(operator),
        forall|operator: Identity|
            m.has_entry(operator) ==> m.after_update(now_epoch).entry_of(operator) == m.entry_of(
                operator,
            ).committed(now_epoch),
{
    let after = m.after_update(now_epoch);
    assert forall|i: int| 0 <= i < after.entries.len() implies (#[trigger] after.entries[i]).wf()
        && after.entries[i].last_update_epoch == after.epoch && after.entries[i].operator
        == m.entries[i].operator by {
        assert(m.entries[i].wf());
    }
    assert forall|i: int, j: int| 0 <= i < j < after.entries.len() implies after.entries[i].operator
        != after.entries[j].operator by {
        assert(m.entries[i].operator != m.entries[j].operator);
    }
    if m.update_outcome(now_epoch) is StaleEpochState {
        assert forall|i: int| 0 <= i < m.entries.len() implies after.entries[i] == m.entries[i] by {
            assert(m.entries[i].wf());
        }
        assert(after.entries =~= m.entries);
    }
    assert forall|operator: Identity| after.has_entry(operator) == m.has_entry(operator) by {
        if m.has_entry(operator) {
            let j = choose|j: int|
                0 <= j < m.entries.len() && (#[trigger] m.entries[j]).operator == operator;
            assert(after.entries[j].operator == operator);
        }
        if after.has_entry(operator) {
            let j = choose|j: int|
                0 <= j < after.entries.len() && (#[trigger] after.entries[j]).operator == operator;
            assert(m.entries[j].operator == operator);
        }
    }
    assert forall|operator: Identity| m.has_entry(operator) implies after.entry_of(operator)
        == m.entry_of(operator).committed(now_epoch) by {
        let j = choose|j: int|
            0 <= j < m.entries.len() && (#[trigger] m.entries[j]).operator == operator;
        lemma_entry_of_position(m, j);
        assert(after.entries[j] == m.entries[j].committed(now_epoch));
        lemma_entry_of_position(after, j);
    }
}

/// After an update at an epoch later than the ledger's, or at the ledger's
/// own epoch with nothing queued, every entry has no pending change and is
/// stamped with that epoch.
pub proof fn lemma_update_settles_every_entry(m: DelegationModel, now_epoch: u64)
    requires
        m.wf(),
        m.epoch < now_epoch || (m.epoch == now_epoch && forall|i: int|
            0 <= i < m.entries.len() ==> (#[trigger] m.entries[i]).pending_delta == 0),
    ensures
        forall|i: int|
            0 <= i < m.after_update(now_epoch).entries.len() ==> (#[trigger] m.after_update(
                now_epoch,
            ).entries[i]).pending_delta == 0 && m.after_update(
                now_epoch,
            ).entries[i].last_update_epoch == now_epoch,
{
    let after = m.after_update(now_epoch);
    assert forall|i: int| 0 <= i < after.entries.len() implies (#[trigger] after.entries[i]).pending_delta
        == 0 && after.entries[i].last_update_epoch == now_epoch by {
        assert(m.entries[i].wf());
        assert(m.entries[i].pending_delta == 0 || m.epoch < now_epoch);
    }
}

/// Updating twice at the same epoch is updating once: the second call
/// changes nothing and reports a stale epoch.
pub proof fn lemma_update_twice_is_once(m: DelegationModel, now_epoch: u64)
    requires
        m.wf(),
    ensures
        m.after_update(now_epoch).after_update(now_epoch) == m.after_update(now_epoch),
        m.after_update(now_epoch).update_outcome(now_epoch) is StaleEpochState,
{
    lemma_after_update(m, now_epoch);
    lemma_after_update(m.after_update(now_epoch), now_epoch);
}

/// Delegating an amount and taking the same amount back before the next
/// update cancels out: the removal is accepted, and the update that follows
/// leaves the operator with the amount that the same update would have left
/// without the two calls. That is the amount before the calls wherever
/// nothing else was queued for the operator, or the epoch does not advance.
pub proof fn lemma_add_then_remove_cancels(
    m: DelegationModel,
    operator: Identity,
    amount: u64,
    now_epoch: u64,
)
    requires
        m.wf(),
        m.entry_of(operator).queued_total() + amount <= i64::MAX,
    ensures
        ({
            let added = m.after_add(operator, amount, true);
            let removed = added.after_remove(operator, amount, true);
            let updated = removed.after_update(now_epoch);
            &&& added.remove_result(operator, amount, true) is Ok
            &&& removed.entry_of(operator) == m.entry_of(operator)
            &&& updated.entry_of(operator).active_amount == m.entry_of(operator).committed(
                now_epoch,
            ).active_amount
            &&& m.entry_of(operator).pending_delta == 0 || now_epoch <= m.epoch
                ==> updated.entry_of(operator).active_amount == m.entry_of(operator).active_amount
        }),
{
    let entry = m.entry_of(operator);
    assert(entry.wf()) by {
        if m.has_entry(operator) {
            let k = choose|k: int|
                0 <= k < m.entries.len() && (#[trigger] m.entries[k]).operator == operator;
            assert(m.entries[k].wf());
        }
    }
    lemma_with_queued(m, operator, amount as int);
    let added = m.after_add(operator, amount, true);
    lemma_with_queued(added, operator, -(amount as int));
    let removed = added.after_remove(operator, amount, true);
    assert(removed.entry_of(operator) == entry);
    lemma_after_update(removed, now_epoch);
    assert(entry.last_update_epoch == m.epoch) by {
        if m.has_entry(operator) {
            let k = choose|k: int|
                0 <= k < m.entries.len() && (#[trigger] m.entries[k]).operator == operator;
            assert(m.entries[k].wf());
        }
    }
}

/// The delegations of one vault, one entry per operator.
pub struct DelegationLedger {
    vault: Identity,
    epoch: u64,
    entries: Vec<DelegationEntry>,
}

impl View for DelegationLedger {
    type V = DelegationModel;

    closed spec fn view(&self) -> DelegationModel {
        DelegationModel { vault: self.vault, epoch: self.epoch, entries: self.entries@ }
    }
}

impl DelegationLedger {
    /// The ledger keeps its invariant. Every ledger that this module hands
    /// out does, and every operation preserves it.
    pub open spec fn wf(&self) -> bool {
        self@.wf()
    }

    /// An empty ledger for `vault`, last updated at `epoch`.
    pub fn new(vault: Identity, epoch: u64) -> (ledger: DelegationLedger)
        ensures
            ledger@ == (DelegationModel { vault, epoch, entries: Seq::empty() }),
            ledger.wf(),
    {
        DelegationLedger { vault, epoch, entries: Vec::new() }
    }

    /// The ledger of `vault` with this epoch and these entries, if they make
    /// a ledger: no two entries name the same operator, and every entry is
    /// within its bounds and stamped with `epoch`.
    pub fn from_parts(vault: Identity, epoch: u64, entries: Vec<DelegationEntry>) -> (ledger:
        Option<DelegationLedger>)
        ensures
            match ledger {
                Some(ledger) => ledger@ == (DelegationModel { vault, epoch, entries: entries@ })
                    && ledger.wf(),
                None => !(DelegationModel { vault, epoch, entries: entries@ }).wf(),
            },
    {
        let ghost model = DelegationModel { vault, epoch, entries: entries@ };
        let mut j: usize = 0;
        while j < entries.len()
            invariant
                j <= entries.len(),
                model == (DelegationModel { vault, epoch, entries: entries@ }),
                forall|a: int, b: int|
                    #![trigger entries@[a], entries@[b]]
                    0 <= a < b < j ==> entries@[a].operator != entries@[b].operator,
                forall|a: int|
                    0 <= a < j ==> (#[trigger] entries@[a]).wf() && entries@[a].last_update_epoch
                        == epoch,
            decreases entries.len() - j,
        {
            let entry = entries[j];
            let within = entry.active_amount <= i64::MAX as u64 && entry.pending_delta as i128
                + entry.active_amount as i128 >= 0 && entry.pending_delta as i128
                + entry.active_amount as i128 <= i64::MAX as i128;
            if !within || entry.last_update_epoch != epoch {
                assert(!(model.entries[j as int].wf() && model.entries[j as int].last_update_epoch
                    == model.epoch));
                return None;
            }
            let mut i: usize = 0;
            while i < j
                invariant
                    i <= j < entries.len(),
                    model == (DelegationModel { vault, epoch, entries: entries@ }),
                    forall|a: int|
                        0 <= a < i ==> (#[trigger] entries@[a]).operator
                            != entries@[j as int].operator,
                decreases j - i,
            {
                if entries[i].operator == entries[j].operator {
                    assert(model.entries[i as int].operator == model.entries[j as int].operator);
                    return None;
                }
                i += 1;
            }
            j += 1;
        }
        Some(DelegationLedger { vault, epoch, entries })
    }

    /// The position of the entry of `operator`.
    fn find(&self, operator: &Identity) -> (found: Option<usize>)
        ensures
            match found {
                Some(i) => i < self@.entries.len() && self@.entries[i as int].operator == *operator,
                None => !self@.has_entry(*operator),
            },
    {
        let mut i: usize = 0;
        while i < self.entries.len()
            invariant
                i <= self.entries.len(),
                forall|k: int| 0 <= k < i ==> (#[trigger] self.entries@[k]).operator != *operator,
            decreases self.entries.len() - i,
        {
            if self.entries[i].operator == *operator {
                return Some(i);
            }
            i += 1;
        }
        None
    }

    /// The entry of `operator`: what is delegated to it and what is queued.
    /// An operator that the ledger does not hold has a blank entry.
    pub fn entry(&self, operator: &Identity) -> (entry: DelegationEntry)
        requires
            self.wf(),
        ensures
            entry == self@.entry_of(*operator),
    {
        match self.find(operator) {
            Some(i) => {
                proof {
                    lemma_entry_of_position(self@, i as int);
                }
                self.entries[i]
            },
            None => DelegationEntry {
                operator: *operator,
                active_amount: 0,
                pending_delta: 0,
                last_update_epoch: self.epoch,
            },
        }
    }

    /// Whether `amount` more can be queued for `operator`: the stake that
    /// is delegated and queued for one operator must stay within what a
    /// signed 64-bit change can undo. This is what `add_delegation` asks of
    /// its caller.
    pub fn can_queue(&self, operator: &Identity, amount: u64) -> (fits: bool)
        requires
            self.wf(),
        ensures
            fits == (self@.entry_of(*operator).queued_total() + amount <= i64::MAX),
    {
        proof {
            if self@.has_entry(*operator) {
                let k = choose|k: int|
                    0 <= k < self@.entries.len() && (#[trigger] self@.entries[k]).operator
                        == *operator;
                assert(self@.entries[k].wf());
            }
        }
        let entry = self.entry(operator);
        let total: i64 = (entry.active_amount as i64) + entry.pending_delta;
        amount <= (i64::MAX - total) as u64
    }

    /// Queues `amount` more stake for `operator`.
    ///
    /// Only the delegation admin may do this. The amount takes effect at the
    /// next update. The stake that is delegated and queued for one operator
    /// must stay within what a signed 64-bit change can undo.
    pub fn add_delegation(
        &mut self,
        operator: Identity,
        amount: u64,
        caller_is_delegation_admin: bool,
    ) -> (result: Result<(), RegistryError>)
        requires
            old(self).wf(),
            caller_is_delegation_admin ==> old(self)@.entry_of(operator).queued_total() + amount
                <= i64::MAX,
        ensures
            result == DelegationModel::add_result(caller_is_delegation_admin),
            final(self)@ == old(self)@.after_add(operator, amount, caller_is_delegation_admin),
            final(self).wf(),
    {
        if !caller_is_delegation_admin {
            return Err(RegistryError::UnauthorizedCaller);
        }
        proof {
            lemma_with_queued(old(self)@, operator, amount as int);
        }
        match self.find(&operator) {
            Some(i) => {
                proof {
                    lemma_entry_of_position(self@, i as int);
                }
                let entry = self.entries[i];
                self.entries[i] = DelegationEntry {
                    operator: entry.operator,
                    active_amount: entry.active_amount,
                    pending_delta: entry.pending_delta + (amount as i64),
                    last_update_epoch: entry.last_update_epoch,
                };
                proof {
                    let before = old(self)@;
                    assert forall|k: int| 0 <= k < before.entries.len() && k != i implies (
                    #[trigger] before.entries[k]).operator != operator by {
                        if k < i {
                            assert(before.entries[k].operator != before.entries[i as int].operator);
                        } else {
                            assert(before.entries[i as int].operator != before.entries[k].operator);
                        }
                    }
                    assert(self@.entries =~= before.with_queued(operator, amount as int).entries);
                }
            },
            None => {
                self.entries.push(
                    DelegationEntry {
                        operator,
                        active_amount: 0,
                        pending_delta: amount as i64,
                        last_update_epoch: self.epoch,
                    },
                );
            },
        }
        Ok(())
    }

    /// Queues the withdrawal of `amount` of the stake of `operator`.
    ///
    /// Only the admin may do this. The amount may not exceed what is
    /// delegated to the operator and queued for it: the check is made now,
    /// not when the change is committed.
    pub fn remove_delegation(
        &mut self,
        operator: Identity,
        amount: u64,
        caller_is_admin: bool,
    ) -> (result: Result<(), RegistryError>)
        requires
            old(self).wf(),
        ensures
            result == old(self)@.remove_result(operator, amount, caller_is_admin),
            final(self)@ == old(self)@.after_remove(operator, amount, caller_is_admin),
            result is Err ==> final(self)@ == old(self)@,
            final(self).wf(),
    {
        if !caller_is_admin {
            return Err(RegistryError::UnauthorizedCaller);
        }
        match self.find(&operator) {
            Some(i) => {
                proof {
                    lemma_entry_of_position(self@, i as int);
                }
                let entry = self.entries[i];
                let total: i64 = (entry.active_amount as i64) + entry.pending_delta;
                if amount > total as u64 {
                    return Err(RegistryError::InsufficientDelegatedStake);
                }
                proof {
                    lemma_with_queued(old(self)@, operator, -(amount as int));
                }
                self.entries[i] = DelegationEntry {
                    operator: entry.operator,
                    active_amount: entry.active_amount,
                    pending_delta: entry.pending_delta - (amount as i64),
                    last_update_epoch: entry.last_update_epoch,
                };
                proof {
                    let before = old(self)@;
                    assert forall|k: int| 0 <= k < before.entries.len() && k != i implies (
                    #[trigger] before.entries[k]).operator != operator by {
                        if k < i {
                            assert(before.entries[k].operator != before.entries[i as int].operator);
                        } else {
                            assert(before.entries[i as int].operator != before.entries[k].operator);
                        }
                    }
                    assert(self@.entries =~= before.with_queued(
                        operator,
                        -(amount as int),
                    ).entries);
                }
                Ok(())
            },
            None => {
                if amount > 0 {
                    Err(RegistryError::InsufficientDelegatedStake)
                } else {
                    Ok(())
                }
            },
        }
    }

    /// Commits the queued changes at an epoch boundary.
    ///
    /// Every entry last updated before `now_epoch` takes its queued change
    /// into effect and is stamped with `now_epoch`. This is the only
    /// operation that changes an amount in effect. A call at an epoch that
    /// is not later than the ledger's changes nothing.
    pub fn update_delegations(&mut self, now_epoch: u64) -> (outcome: UpdateOutcome)
        requires
            old(self).wf(),
        ensures
            outcome == old(self)@.update_outcome(now_epoch),
            final(self)@ == old(self)@.after_update(now_epoch),
            outcome is StaleEpochState ==> final(self)@ == old(self)@,
            final(self).wf(),
    {
        proof {
            lemma_after_update(old(self)@, now_epoch);
        }
        if now_epoch <= self.epoch {
            return UpdateOutcome::StaleEpochState;
        }
        let mut i: usize = 0;
        while i < self.entries.len()
            invariant
                i <= self.entries.len(),
                self.entries.len() == old(self).entries.len(),
                self.vault == old(self).vault,
                self.epoch == old(self).epoch,
                self.epoch < now_epoch,
                old(self).wf(),
                forall|k: int|
                    0 <= k < i ==> (#[trigger] self.entries@[k]) == old(self).entries@[k].committed(
                        now_epoch,
                    ),
                forall|k: int|
                    i <= k < self.entries.len() ==> (#[trigger] self.entries@[k]) == old(
                        self,
                    ).entries@[k],
            decreases self.entries.len() - i,
        {
            let entry = self.entries[i];
            assert(old(self)@.entries[i as int].wf());
            self.entries[i] = DelegationEntry {
                operator: entry.operator,
                active_amount: ((entry.active_amount as i64) + entry.pending_delta) as u64,
                pending_delta: 0,
                last_update_epoch: now_epoch,
            };
            i += 1;
        }
        self.epoch = now_epoch;
        assert(self@.entries =~= old(self)@.after_update(now_epoch).entries);
        UpdateOutcome::Committed
    }

    /// The vault whose delegations these are.
    pub fn vault(&self) -> (vault: Identity)
        ensures
            vault == self@.vault,
    {
        self.vault
    }

    /// The epoch at which the ledger was last updated.
    pub fn epoch(&self) -> (epoch: u64)
        ensures
            epoch == self@.epoch,
    {
        self.epoch
    }

    /// The number of operators that the ledger holds an entry for.
    pub fn len(&self) -> (len: usize)
        ensures
            len == self@.entries.len(),
    {
        self.entries.len()
    }

    /// The entry at `index`, in the order in which operators first appeared.
    pub fn get(&self, index: usize) -> (entry: Option<DelegationEntry>)
        ensures
            entry == if index < self@.entries.len() {
                Some(self@.entries[index as int])
            } else {
                None
            },
    {
        if index < self.entries.len() {
            Some(self.entries[index])
        } else {
            None
        }
    }
}

} // verus!
