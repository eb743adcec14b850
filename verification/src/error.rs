use vstd::prelude::*;

verus! {

/// Why a ledger operation was refused.
///
/// A refused operation changes nothing: the caller corrects its input and
/// submits again.
#[derive(Clone, Copy, Debug, PartialEq, Eq, Structural, Hash)]
pub enum RegistryError {
    /// An active relationship with the counterparty already exists.
    DuplicateRelationship,
    /// No active relationship with the counterparty exists.
    RelationshipNotFound,
    /// The storage provider denied the space a growing list asked for.
    CapacityExceeded,
    /// An authorization fact that the operation needs is false.
    UnauthorizedCaller,
    /// The slash would take the epoch's total above the slasher's cap.
    SlashCapExceeded,
    /// The amount is larger than the stake that is committed or queued.
    InsufficientDelegatedStake,
}

} // verus!
