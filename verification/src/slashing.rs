use vstd::prelude::*;
use crate::error::RegistryError;
use crate::identity::Identity;
use crate::relationship::{ListModel, RelationshipList};

verus! {

/// How much of a vault's collateral one slasher may destroy per epoch, and
/// how much it has destroyed in the epoch that the record was last used in.
#[derive(Clone, Copy, Debug, PartialEq, Eq)]
pub struct SlasherCap {
    pub vault: Identity,
    pub slasher: Identity,
    pub max_per_epoch: u64,
    pub slashed_this_epoch: u64,
    pub epoch: u64,
}

impl SlasherCap {
    /// The invariant of a record: the running total is within the cap.
    pub open spec fn wf(self) -> bool {
        self.slashed_this_epoch <= self.max_per_epoch
    }

    /// The record is the one of this vault and this slasher.
    pub open spec fn names(self, vault: Identity, slasher: Identity) -> bool {
        self.vault == vault && self.slasher == slasher
    }

    /// The running total as seen from `current_epoch`: the stored total in
    /// the epoch of the record, zero in any other.
    pub open spec fn slashed_at(self, current_epoch: u64) -> u64 {
        if current_epoch != self.epoch {
            0
        } else {
            self.slashed_this_epoch
        }
    }

    /// Whether a slash of `amount` is accepted: the cap is checked first,
    /// against the running total as seen from `current_epoch`, then the stake
    /// that is delegated to the operator.
    pub open spec fn slash_check(self, amount: u64, current_epoch: u64, delegated_amount: u64) -> Result<
        (),
        RegistryError,
    > {
        if self.slashed_at(current_epoch) + amount > self.max_per_epoch {
            Err(RegistryError::SlashCapExceeded)
        } else if amount > delegated_amount {
            Err(RegistryError::InsufficientDelegatedStake)
        } else {
            Ok(())
        }
    }

    /// The record after a slash: moved to `current_epoch` with `amount`
    /// added to the running total where the slash is accepted, untouched
    /// where it is refused.
    pub open spec fn after_slash(self, amount: u64, current_epoch: u64, delegated_amount: u64) -> SlasherCap {
        if self.slash_check(amount, current_epoch, delegated_amount) is Ok {
            SlasherCap {
                vault: self.vault,
                slasher: self.slasher,
                max_per_epoch: self.max_per_epoch,
                slashed_this_epoch: (self.slashed_at(current_epoch) + amount) as u64,
                epoch: current_epoch,
            }
        } else {
            self
        }
    }
}

/// The transfer that an accepted slash hands to the token-transfer
/// collaborator: `amount` leaves the backing balance of `vault`.
#[derive(Clone, Copy, Debug, PartialEq, Eq)]
pub struct SlashOrder {
    pub vault: Identity,
    pub slasher: Identity,
    pub operator: Identity,
    pub amount: u64,
}

/// A slashing ledger as a mathematical value.
pub struct SlashingModel {
    pub caps: Seq<SlasherCap>,
}

impl SlashingModel {
    /// Some record is the one of this vault and this slasher.
    pub open spec fn has_cap(self, vault: Identity, slasher: Identity) -> bool {
        exists|i: int| 0 <= i < self.caps.len() && (#[trigger] self.caps[i]).names(vault, slasher)
    }

    /// The record of this vault and this slasher, where there is one.
    pub open spec fn cap_of(self, vault: Identity, slasher: Identity) -> SlasherCap {
        let i = choose|i: int| 0 <= i < self.caps.len() && (#[trigger] self.caps[i]).names(vault, slasher);
        self.caps[i]
    }

    /// The invariant of a ledger: one record per vault and slasher, each
    /// with its running total within its cap.
    pub open spec fn wf(self) -> bool {
        &&& forall|i: int, j: int|
            #![trigger self.caps[i], self.caps[j]]
            0 <= i < j < self.caps.len() ==> !self.caps[i].names(
                self.caps[j].vault,
                self.caps[j].slasher,
            )
        &&& forall|i: int| 0 <= i < self.caps.len() ==> (#[trigger] self.caps[i]).wf()
    }

    /// What `add_slasher` answers, given the list that the slasher must be
    /// registered in.
    pub open spec fn add_slasher_result(
        self,
        vault: Identity,
        slasher: Identity,
        vault_counterparty_list: ListModel,
    ) -> Result<(), RegistryError> {
        if !vault_counterparty_list.has_active(slasher) {
            Err(RegistryError::RelationshipNotFound)
        } else if self.has_cap(vault, slasher) {
            Err(RegistryError::DuplicateRelationship)
        } else {
            Ok(())
        }
    }

    /// The ledger after `add_slasher`: one fresh record longer where the
    /// answer is success, the same ledger otherwise.
    pub open spec fn after_add_slasher(
        self,
        vault: Identity,
        slasher: Identity,
        vault_counterparty_list: ListModel,
        max_per_epoch: u64,
        now: u64,
    ) -> SlashingModel {
        if self.add_slasher_result(vault, slasher, vault_counterparty_list) is Ok {
            SlashingModel {
                caps: self.caps.push(
                    SlasherCap { vault, slasher, max_per_epoch, slashed_this_epoch: 0, epoch: now },
                ),
            }
        } else {
            self
        }
    }

    /// What `slash` answers.
    pub open spec fn slash_result(
        self,
        vault: Identity,
        slasher: Identity,
        operator: Identity,
        amount: u64,
        current_epoch: u64,
        delegated_amount: u64,
    ) -> Result<SlashOrder, RegistryError> {
        if !self.has_cap(vault, slasher) {
            Err(RegistryError::RelationshipNotFound)
        } else {
            match self.cap_of(vault, slasher).slash_check(amount, current_epoch, delegated_amount) {
                Ok(_) => Ok(SlashOrder { vault, slasher, operator, amount }),
                Err(e) => Err(e),
            }
        }
    }

    /// The ledger after `slash`: the record of the vault and the slasher is
    /// the one that changes, and only where the slash is accepted.
    pub open spec fn after_slash(
        self,
        vault: Identity,
        slasher: Identity,
        amount: u64,
        current_epoch: u64,
        delegated_amount: u64,
    ) -> SlashingModel {
        SlashingModel {
            caps: Seq::new(
                self.caps.len(),
                |i: int|
                    if self.caps[i].names(vault, slasher) {
                        self.caps[i].after_slash(amount, current_epoch, delegated_amount)
                    } else {
                        self.caps[i]
                    },
            ),
        }
    }
}

/// In a ledger that keeps its invariant, the record at a position is the
/// record of its vault and its slasher.
pub proof fn lemma_cap_of_position(m: SlashingModel, i: int)
    requires
        m.wf(),
        0 <= i < m.caps.len(),
    ensures
        m.has_cap(m.caps[i].vault, m.caps[i].slasher),
        m.cap_of(m.caps[i].vault, m.caps[i].slasher) == m.caps[i],
{
    let vault = m.caps[i].vault;
    let slasher = m.caps[i].slasher;
    assert(m.caps[i].names(vault, slasher));
    let k = choose|k: int| 0 <= k < m.caps.len() && (#[trigger] m.caps[k]).names(vault, slasher);
    if k < i {
        assert(!m.caps[k].names(m.caps[i].vault, m.caps[i].slasher));
    } else if i < k {
        assert(!m.caps[i].names(m.caps[k].vault, m.caps[k].slasher));
    }
}

/// A slash keeps the ledger's invariant: no running total ever exceeds its
/// cap. It changes the record of the vault and the slasher as that record's
/// own rule says, and a refused slash changes nothing.
pub proof fn lemma_after_slash(
    m: SlashingModel,
    vault: Identity,
    slasher: Identity,
    operator: Identity,
    amount: u64,
    current_epoch: u64,
    delegated_amount: u64,
)
    requires
        m.wf(),
    ensures
        m.after_slash(vault, slasher, amount, current_epoch, delegated_amount).wf(),
        m.slash_result(vault, slasher, operator, amount, current_epoch, delegated_amount) is Err
            ==> m.after_slash(vault, slasher, amount, current_epoch, delegated_amount) == m,
        m.has_cap(vault, slasher) ==> m.after_slash(
            vault,
            slasher,
            amount,
            current_epoch,
            delegated_amount,
        ).has_cap(vault, slasher) && m.after_slash(
            vault,
            slasher,
            amount,
            current_epoch,
            delegated_amount,
        ).cap_of(vault, slasher) == m.cap_of(vault, slasher).after_slash(
            amount,
            current_epoch,
            delegated_amount,
        ),
{
    let after = m.after_slash(vault, slasher, amount, current_epoch, delegated_amount);
    assert forall|i: int| 0 <= i < after.caps.len() implies (#[trigger] after.caps[i]).wf()
        && after.caps[i].vault == m.caps[i].vault && after.caps[i].slasher
        == m.caps[i].slasher by {
        assert(m.caps[i].wf());
    }
    assert forall|i: int, j: int| 0 <= i < j < after.caps.len() implies !after.caps[i].names(
        after.caps[j].vault,
        after.caps[j].slasher,
    ) by {
        assert(!m.caps[i].names(m.caps[j].vault, m.caps[j].slasher));
    }
    if m.has_cap(vault, slasher) {
        let k = choose|k: int| 0 <= k < m.caps.len() && (#[trigger] m.caps[k]).names(vault, slasher);
        lemma_cap_of_position(m, k);
        assert(after.caps[k].names(vault, slasher));
        lemma_cap_of_position(after, k);
        if m.slash_result(vault, slasher, operator, amount, current_epoch, delegated_amount) is Err {
            assert forall|i: int| 0 <= i < m.caps.len() implies after.caps[i] == m.caps[i] by {
                if m.caps[i].names(vault, slasher) {
                    lemma_cap_of_position(m, i);
                }
            }
            assert(after.caps =~= m.caps);
        }
    } else {
        assert(after.caps =~= m.caps);
    }
}

/// A slash that would take the running total, as seen from the current
/// epoch, above the cap fails with `SlashCapExceeded` and leaves the ledger,
/// and so the running total, as it was.
pub proof fn lemma_slash_over_cap_fails(
    m: SlashingModel,
    vault: Identity,
    slasher: Identity,
    operator: Identity,
    amount: u64,
    current_epoch: u64,
    delegated_amount: u64,
)
    requires
        m.wf(),
        m.has_cap(vault, slasher),
        m.cap_of(vault, slasher).slashed_at(current_epoch) + amount > m.cap_of(
            vault,
            slasher,
        ).max_per_epoch,
    ensures
        m.slash_result(vault, slasher, operator, amount, current_epoch, delegated_amount) == Err::<
            SlashOrder,
            RegistryError,
        >(RegistryError::SlashCapExceeded),
        m.after_slash(vault, slasher, amount, current_epoch, delegated_amount) == m,
{
    lemma_after_slash(m, vault, slasher, operator, amount, current_epoch, delegated_amount);
}

/// A slash in another epoch than the record's starts from a running total of
/// zero: it is checked against the whole cap, and where it is accepted the
/// running total becomes its amount.
pub proof fn lemma_slash_in_new_epoch_starts_from_zero(
    m: SlashingModel,
    vault: Identity,
    slasher: Identity,
    operator: Identity,
    amount: u64,
    current_epoch: u64,
    delegated_amount: u64,
)
    requires
        m.wf(),
        m.has_cap(vault, slasher),
        current_epoch != m.cap_of(vault, slasher).epoch,
    ensures
        m.slash_result(vault, slasher, operator, amount, current_epoch, delegated_amount) is Ok
            <==> amount <= m.cap_of(vault, slasher).max_per_epoch && amount <= delegated_amount,
        amount > m.cap_of(vault, slasher).max_per_epoch ==> m.slash_result(
            vault,
            slasher,
            operator,
            amount,
            current_epoch,
            delegated_amount,
        ) == Err::<SlashOrder, RegistryError>(RegistryError::SlashCapExceeded),
        m.slash_result(vault, slasher, operator, amount, current_epoch, delegated_amount) is Ok
            ==> m.after_slash(vault, slasher, amount, current_epoch, delegated_amount).cap_of(
            vault,
            slasher,
        ).slashed_this_epoch == amount && m.after_slash(
            vault,
            slasher,
            amount,
            current_epoch,
            delegated_amount,
        ).cap_of(vault, slasher).epoch == current_epoch,
{
    lemma_after_slash(m, vault, slasher, operator, amount, current_epoch, delegated_amount);
}

/// The slashing caps of the vaults and slashers that were registered.
pub struct SlashingLedger {
    caps: Vec<SlasherCap>,
}

impl View for SlashingLedger {
    type V = SlashingModel;

    closed spec fn view(&self) -> SlashingModel {
        SlashingModel { caps: self.caps@ }
    }
}

impl SlashingLedger {
    /// The ledger keeps its invariant. Every ledger that this module hands
    /// out does, and every operation preserves it.
    pub open spec fn wf(&self) -> bool {
        self@.wf()
    }

    /// A ledger without records.
    pub fn new() -> (ledger: SlashingLedger)
        ensures
            ledger@ == (SlashingModel { caps: Seq::empty() }),
            ledger.wf(),
    {
        SlashingLedger { caps: Vec::new() }
    }

    /// The ledger with these records, if they make a ledger: no two records
    /// name the same vault and slasher, and every running total is within
    /// its cap.
    pub fn from_parts(caps: Vec<SlasherCap>) -> (ledger: Option<SlashingLedger>)
        ensures
            match ledger {
                Some(ledger) => ledger@ == (SlashingModel { caps: caps@ }) && ledger.wf(),
                None => !(SlashingModel { caps: caps@ }).wf(),
            },
    {
        let ghost model = SlashingModel { caps: caps@ };
        let mut j: usize = 0;
        while j < caps.len()
            invariant
                j <= caps.len(),
                model == (SlashingModel { caps: caps@ }),
                forall|a: int, b: int|
                    #![trigger caps@[a], caps@[b]]
                    0 <= a < b < j ==> !caps@[a].names(caps@[b].vault, caps@[b].slasher),
                forall|a: int| 0 <= a < j ==> (#[trigger] caps@[a]).wf(),
            decreases caps.len() - j,
        {
            if caps[j].slashed_this_epoch > caps[j].max_per_epoch {
                assert(!model.caps[j as int].wf());
                return None;
            }
            let mut i: usize = 0;
            while i < j
                invariant
                    i <= j < caps.len(),
                    model == (SlashingModel { caps: caps@ }),
                    forall|a: int|
                        0 <= a < i ==> !(#[trigger] caps@[a]).names(
                            caps@[j as int].vault,
                            caps@[j as int].slasher,
                        ),
                decreases j - i,
            {
                if caps[i].vault == caps[j].vault && caps[i].slasher == caps[j].slasher {
                    assert(model.caps[i as int].names(
                        model.caps[j as int].vault,
                        model.caps[j as int].slasher,
                    ));
                    return None;
                }
                i += 1;
            }
            j += 1;
        }
        Some(SlashingLedger { caps })
    }

    /// The position of the record of this vault and this slasher.
    fn find(&self, vault: &Identity, slasher: &Identity) -> (found: Option<usize>)
        ensures
            match found {
                Some(i) => i < self@.caps.len() && self@.caps[i as int].names(*vault, *slasher),
                None => !self@.has_cap(*vault, *slasher),
            },
    {
        let mut i: usize = 0;
        while i < self.caps.len()
            invariant
                i <= self.caps.len(),
                forall|k: int| 0 <= k < i ==> !(#[trigger] self.caps@[k]).names(*vault, *slasher),
            decreases self.caps.len() - i,
        {
            if self.caps[i].vault == *vault && self.caps[i].slasher == *slasher {
                return Some(i);
            }
            i += 1;
        }
        None
    }

    /// The record of this vault and this slasher, if one was registered.
    pub fn cap(&self, vault: &Identity, slasher: &Identity) -> (cap: Option<SlasherCap>)
        requires
            self.wf(),
        ensures
            cap == if self@.has_cap(*vault, *slasher) {
                Some(self@.cap_of(*vault, *slasher))
            } else {
                None
            },
    {
        match self.find(vault, slasher) {
            Some(i) => {
                proof {
                    lemma_cap_of_position(self@, i as int);
                }
                Some(self.caps[i])
            },
            None => None,
        }
    }

    /// Registers `slasher` for `vault` with a cap of `max_per_epoch`.
    ///
    /// The slasher must have an active relationship in
    /// `vault_counterparty_list`, the list kept on the side of the vault's
    /// counterparty, and the vault and slasher must not have a record yet.
    /// The new record starts at epoch `now` with nothing slashed.
    pub fn add_slasher(
        &mut self,
        vault: Identity,
        slasher: Identity,
        vault_counterparty_list: &RelationshipList,
        max_per_epoch: u64,
        now: u64,
    ) -> (result: Result<(), RegistryError>)
        requires
            old(self).wf(),
        ensures
            result == old(self)@.add_slasher_result(vault, slasher, vault_counterparty_list@),
            final(self)@ == old(self)@.after_add_slasher(
                vault,
                slasher,
                vault_counterparty_list@,
                max_per_epoch,
                now,
            ),
            final(self).wf(),
    {
        if !vault_counterparty_list.contains(&slasher) {
            return Err(RegistryError::RelationshipNotFound);
        }
        if self.find(&vault, &slasher).is_some() {
            return Err(RegistryError::DuplicateRelationship);
        }
        self.caps.push(
            SlasherCap { vault, slasher, max_per_epoch, slashed_this_epoch: 0, epoch: now },
        );
        proof {
            let before = old(self)@;
            let after = self@;
            assert forall|i: int, j: int| 0 <= i < j < after.caps.len() implies !after.caps[i].names(
                after.caps[j].vault,
                after.caps[j].slasher,
            ) by {
                assert(after.caps[i] == before.caps[i]);
                if j < before.caps.len() {
                    assert(after.caps[j] == before.caps[j]);
                    assert(!before.caps[i].names(before.caps[j].vault, before.caps[j].slasher));
                } else {
                    assert(!before.caps[i].names(vault, slasher));
                }
            }
            assert forall|i: int| 0 <= i < after.caps.len() implies (#[trigger] after.caps[i]).wf() by {
                if i < before.caps.len() {
                    assert(after.caps[i] == before.caps[i]);
                    assert(before.caps[i].wf());
                }
            }
        }
        Ok(())
    }

    /// Slashes `amount` of the stake that `vault` delegates to `operator`,
    /// on behalf of `slasher`.
    ///
    /// The running total is first seen from `current_epoch`: in another
    /// epoch than the record's it counts as zero. The slash is refused if it
    /// would take that total above the cap, then if `amount` exceeds
    /// `delegated_amount`, the stake in effect for the operator. Only an
    /// accepted slash changes the record; it answers with the transfer to
    /// hand to the token-transfer collaborator.
    pub fn slash(
        &mut self,
        vault: Identity,
        slasher: Identity,
        operator: Identity,
        amount: u64,
        current_epoch: u64,
        delegated_amount: u64,
    ) -> (result: Result<SlashOrder, RegistryError>)
        requires
            old(self).wf(),
        ensures
            result == old(self)@.slash_result(
                vault,
                slasher,
                operator,
                amount,
                current_epoch,
                delegated_amount,
            ),
            final(self)@ == old(self)@.after_slash(
                vault,
                slasher,
                amount,
                current_epoch,
                delegated_amount,
            ),
            result is Err ==> final(self)@ == old(self)@,
            final(self).wf(),
    {
        proof {
            lemma_after_slash(
                old(self)@,
                vault,
                slasher,
                operator,
                amount,
                current_epoch,
                delegated_amount,
            );
        }
        let i = match self.find(&vault, &slasher) {
            Some(i) => i,
            None => {
                return Err(RegistryError::RelationshipNotFound);
            },
        };
        proof {
            lemma_cap_of_position(self@, i as int);
        }
        let cap = self.caps[i];
        assert(cap.wf());
        let slashed: u64 = if current_epoch != cap.epoch {
            0
        } else {
            cap.slashed_this_epoch
        };
        if amount > cap.max_per_epoch - slashed {
            return Err(RegistryError::SlashCapExceeded);
        }
        if amount > delegated_amount {
            return Err(RegistryError::InsufficientDelegatedStake);
        }
        self.caps[i] = SlasherCap {
            vault: cap.vault,
            slasher: cap.slasher,
            max_per_epoch: cap.max_per_epoch,
            slashed_this_epoch: slashed + amount,
            epoch: current_epoch,
        };
        proof {
            let before = old(self)@;
            assert forall|k: int| 0 <= k < before.caps.len() && k != i implies !(
            #[trigger] before.caps[k]).names(vault, slasher) by {
                if k < i {
                    assert(!before.caps[k].names(
                        before.caps[i as int].vault,
                        before.caps[i as int].slasher,
                    ));
                } else {
                    assert(!before.caps[i as int].names(before.caps[k].vault, before.caps[k].slasher));
                }
            }
            assert(self@.caps =~= before.after_slash(
                vault,
                slasher,
                amount,
                current_epoch,
                delegated_amount,
            ).caps);
        }
        Ok(SlashOrder { vault, slasher, operator, amount })
    }

    /// The number of records.
    pub fn len(&self) -> (len: usize)
        ensures
            len == self@.caps.len(),
    {
        self.caps.len()
    }

    /// The record at `index`, in the order of registration.
    pub fn get(&self, index: usize) -> (cap: Option<SlasherCap>)
        ensures
            cap == if index < self@.caps.len() {
                Some(self@.caps[index as int])
            } else {
                None
            },
    {
        if index < self.caps.len() {
            Some(self.caps[index])
        } else {
            None
        }
    }
}

} // verus!
