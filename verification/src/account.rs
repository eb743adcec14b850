use vstd::prelude::*;
use crate::identity::Identity;

verus! {

/// What the runtime shows of one account: its key, the program that owns
/// it, how the transaction presents it, and the data it holds at the moment
/// the picture was taken.
#[derive(Clone, Debug, PartialEq, Eq)]
pub struct AccountInfo {
    pub key: Identity,
    pub owner: Identity,
    pub is_signer: bool,
    pub is_writable: bool,
    pub data: Vec<u8>,
}

impl AccountInfo {
    /// The number of bytes that the account holds.
    pub fn data_len(&self) -> (len: usize)
        ensures
            len == self.data@.len(),
    {
        self.data.len()
    }
}

} // verus!
