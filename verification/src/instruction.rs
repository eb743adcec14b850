use vstd::bytes::{spec_u16_to_le_bytes, spec_u32_to_le_bytes, spec_u64_to_le_bytes};
use vstd::prelude::*;
use vstd::utf8::encode_utf8;
use crate::identity::Identity;

verus! {

/// The instructions of the vault program.
///
/// On the wire an instruction is its position in this list as one byte,
/// followed by its fields in order: integers little-endian, a string as the
/// 32-bit little-endian count of its UTF-8 bytes and then those bytes.
#[derive(Clone, Debug, PartialEq, Eq)]
pub enum VaultInstruction {
    /// Initializes global configuration
    InitializeConfig,
    /// Initializes the vault
    InitializeVault { deposit_fee_bps: u16, withdrawal_fee_bps: u16 },
    /// Initializes a vault with an already-created LRT mint
    InitializeVaultWithMint,
    /// A service adds itself to receive delegation from a vault
    AddAvs,
    /// A service ends its support of delegation from a vault
    RemoveAvs,
    /// An operator adds itself to receive delegation from a vault
    AddOperator,
    /// An operator ends its delegation from a vault
    RemoveOperator,
    /// Mints LRT by depositing tokens into the vault
    MintTo { amount: u64 },
    /// Burns LRT by withdrawing tokens from the vault
    Burn { amount: u64 },
    /// Enqueues a withdrawal of LRT tokens
    EnqueueWithdrawal { amount: u64 },
    /// Sets the max tokens that can be deposited into the LRT
    SetDepositCapacity { amount: u64 },
    /// Withdraws any non-backing tokens from the vault
    WithdrawalAsset { amount: u64 },
    /// Changes the signer for vault delegation
    SetDelegationAdmin,
    /// Changes the signer for vault admin
    SetAdmin,
    /// Delegates a token amount to a specific operator
    AddDelegation { amount: u64 },
    /// Takes a delegated token amount back from a specific operator
    RemoveDelegation { amount: u64 },
    /// Updates delegations at epoch boundaries
    UpdateDelegations,
    /// Registers a slasher with the vault
    AddSlasher,
    /// Slashes an amount of tokens from the vault
    Slash { amount: u64 },
    /// Creates token metadata for the vault LRT
    CreateTokenMetadata { name: String, symbol: String, uri: String },
    /// Updates token metadata for the vault LRT
    UpdateTokenMetadata { name: String, symbol: String, uri: String },
}

/// A string on the wire: the count of its UTF-8 bytes, then the bytes.
pub open spec fn encoded_string(s: Seq<char>) -> Seq<u8> {
    spec_u32_to_le_bytes(encode_utf8(s).len() as u32) + encode_utf8(s)
}

/// A string can go on the wire if the count of its bytes fits 32 bits.
pub open spec fn string_fits(s: Seq<char>) -> bool {
    encode_utf8(s).len() <= u32::MAX
}

impl VaultInstruction {
    /// The position of the instruction in the program's list.
    pub open spec fn spec_variant_index(&self) -> u8 {
        match self {
            VaultInstruction::InitializeConfig => 0,
            VaultInstruction::InitializeVault { .. } => 1,
            VaultInstruction::InitializeVaultWithMint => 2,
            VaultInstruction::AddAvs => 3,
            VaultInstruction::RemoveAvs => 4,
            VaultInstruction::AddOperator => 5,
            VaultInstruction::RemoveOperator => 6,
            VaultInstruction::MintTo { .. } => 7,
            VaultInstruction::Burn { .. } => 8,
            VaultInstruction::EnqueueWithdrawal { .. } => 9,
            VaultInstruction::SetDepositCapacity { .. } => 10,
            VaultInstruction::WithdrawalAsset { .. } => 11,
            VaultInstruction::SetDelegationAdmin => 12,
            VaultInstruction::SetAdmin => 13,
            VaultInstruction::AddDelegation { .. } => 14,
            VaultInstruction::RemoveDelegation { .. } => 15,
            VaultInstruction::UpdateDelegations => 16,
            VaultInstruction::AddSlasher => 17,
            VaultInstruction::Slash { .. } => 18,
            VaultInstruction::CreateTokenMetadata { .. } => 19,
            VaultInstruction::UpdateTokenMetadata { .. } => 20,
        }
    }

    /// The fields of the instruction on the wire, in order.
    pub open spec fn encoded_fields(&self) -> Seq<u8> {
        match self {
            VaultInstruction::InitializeVault { deposit_fee_bps, withdrawal_fee_bps } => {
                spec_u16_to_le_bytes(*deposit_fee_bps) + spec_u16_to_le_bytes(*withdrawal_fee_bps)
            },
            VaultInstruction::MintTo { amount } => spec_u64_to_le_bytes(*amount),
            VaultInstruction::Burn { amount } => spec_u64_to_le_bytes(*amount),
            VaultInstruction::EnqueueWithdrawal { amount } => spec_u64_to_le_bytes(*amount),
            VaultInstruction::SetDepositCapacity { amount } => spec_u64_to_le_bytes(*amount),
            VaultInstruction::WithdrawalAsset { amount } => spec_u64_to_le_bytes(*amount),
            VaultInstruction::AddDelegation { amount } => spec_u64_to_le_bytes(*amount),
            VaultInstruction::RemoveDelegation { amount } => spec_u64_to_le_bytes(*amount),
            VaultInstruction::Slash { amount } => spec_u64_to_le_bytes(*amount),
            VaultInstruction::CreateTokenMetadata { name, symbol, uri } => encoded_string(name@)
                + encoded_string(symbol@) + encoded_string(uri@),
            VaultInstruction::UpdateTokenMetadata { name, symbol, uri } => encoded_string(name@)
                + encoded_string(symbol@) + encoded_string(uri@),
            _ => Seq::empty(),
        }
    }

    /// The instruction on the wire.
    pub open spec fn encoded(&self) -> Seq<u8> {
        seq![self.spec_variant_index()] + self.encoded_fields()
    }

    /// Whether the instruction can go on the wire: each of its strings must.
    pub open spec fn encodable(&self) -> bool {
        match self {
            VaultInstruction::CreateTokenMetadata { name, symbol, uri } => string_fits(name@)
                && string_fits(symbol@) && string_fits(uri@),
            VaultInstruction::UpdateTokenMetadata { name, symbol, uri } => string_fits(name@)
                && string_fits(symbol@) && string_fits(uri@),
            _ => true,
        }
    }

    /// The position of the instruction in the program's list.
    #[verifier::when_used_as_spec(spec_variant_index)]
    pub fn variant_index(&self) -> (index: u8)
        ensures
            index == self.spec_variant_index(),
    {
        match self {
            VaultInstruction::InitializeConfig => 0,
            VaultInstruction::InitializeVault { .. } => 1,
            VaultInstruction::InitializeVaultWithMint => 2,
            VaultInstruction::AddAvs => 3,
            VaultInstruction::RemoveAvs => 4,
            VaultInstruction::AddOperator => 5,
            VaultInstruction::RemoveOperator => 6,
            VaultInstruction::MintTo { .. } => 7,
            VaultInstruction::Burn { .. } => 8,
            VaultInstruction::EnqueueWithdrawal { .. } => 9,
            VaultInstruction::SetDepositCapacity { .. } => 10,
            VaultInstruction::WithdrawalAsset { .. } => 11,
            VaultInstruction::SetDelegationAdmin => 12,
            VaultInstruction::SetAdmin => 13,
            VaultInstruction::AddDelegation { .. } => 14,
            VaultInstruction::RemoveDelegation { .. } => 15,
            VaultInstruction::UpdateDelegations => 16,
            VaultInstruction::AddSlasher => 17,
            VaultInstruction::Slash { .. } => 18,
            VaultInstruction::CreateTokenMetadata { .. } => 19,
            VaultInstruction::UpdateTokenMetadata { .. } => 20,
        }
    }

    /// Serializes the instruction, unless one of its strings is too long.
    pub fn try_to_vec(&self) -> (bytes: Option<Vec<u8>>)
        ensures
            bytes is Some <==> self.encodable(),
            bytes matches Some(b) ==> b@ == self.encoded(),
    {
        let mut out: Vec<u8> = Vec::new();
        out.push(self.variant_index());
        match self {
            VaultInstruction::InitializeVault { deposit_fee_bps, withdrawal_fee_bps } => {
                let mut first = borsh_u16(*deposit_fee_bps);
                let mut second = borsh_u16(*withdrawal_fee_bps);
                out.append(&mut first);
                out.append(&mut second);
            },
            VaultInstruction::MintTo { amount }
            | VaultInstruction::Burn { amount }
            | VaultInstruction::EnqueueWithdrawal { amount }
            | VaultInstruction::SetDepositCapacity { amount }
            | VaultInstruction::WithdrawalAsset { amount }
            | VaultInstruction::AddDelegation { amount }
            | VaultInstruction::RemoveDelegation { amount }
            | VaultInstruction::Slash { amount } => {
                let mut field = borsh_u64(*amount);
                out.append(&mut field);
            },
            VaultInstruction::CreateTokenMetadata { name, symbol, uri }
            | VaultInstruction::UpdateTokenMetadata { name, symbol, uri } => {
                let mut first = match borsh_string(name) {
                    Some(b) => b,
                    None => {
                        return None;
                    },
                };
                let mut second = match borsh_string(symbol) {
                    Some(b) => b,
                    None => {
                        return None;
                    },
                };
                let mut third = match borsh_string(uri) {
                    Some(b) => b,
                    None => {
                        return None;
                    },
                };
                out.append(&mut first);
                out.append(&mut second);
                out.append(&mut third);
            },
            _ => {},
        }
        assert(out@ =~= self.encoded());
        Some(out)
    }
}

/// One account that an instruction names, with what the instruction needs
/// of it.
#[derive(Clone, Copy, Debug, PartialEq, Eq)]
pub struct AccountMeta {
    pub pubkey: Identity,
    /// The account must sign the transaction.
    pub is_signer: bool,
    /// The instruction may change the account.
    pub is_writable: bool,
}

impl AccountMeta {
    /// An account that the instruction may change.
    pub open spec fn spec_new(pubkey: Identity, is_signer: bool) -> AccountMeta {
        AccountMeta { pubkey, is_signer, is_writable: true }
    }

    /// An account that the instruction only reads.
    pub open spec fn spec_new_readonly(pubkey: Identity, is_signer: bool) -> AccountMeta {
        AccountMeta { pubkey, is_signer, is_writable: false }
    }

    /// An account that the instruction may change.
    #[verifier::when_used_as_spec(spec_new)]
    pub fn new(pubkey: Identity, is_signer: bool) -> (meta: AccountMeta)
        ensures
            meta == AccountMeta::spec_new(pubkey, is_signer),
    {
        AccountMeta { pubkey, is_signer, is_writable: true }
    }

    /// An account that the instruction only reads.
    #[verifier::when_used_as_spec(spec_new_readonly)]
    pub fn new_readonly(pubkey: Identity, is_signer: bool) -> (meta: AccountMeta)
        ensures
            meta == AccountMeta::spec_new_readonly(pubkey, is_signer),
    {
        AccountMeta { pubkey, is_signer, is_writable: false }
    }
}

/// An instruction ready to be sent: the program that executes it, the
/// accounts it names in the order in which the program expects them, and the
/// data handed to the program.
#[derive(Clone, Debug, PartialEq, Eq)]
pub struct Instruction {
    pub program_id: Identity,
    pub accounts: Vec<AccountMeta>,
    pub data: Vec<u8>,
}

/// `u16` by `borsh::BorshSerialize::try_to_vec`: the two bytes of the
/// value, little-endian. Writing an integer to a vector does not fail.
#[verifier::external_body]
fn borsh_u16(value: u16) -> (bytes: Vec<u8>)
    ensures
        bytes@ == spec_u16_to_le_bytes(value),
{
    borsh::BorshSerialize::try_to_vec(&value).unwrap()
}

/// `u64` by `borsh::BorshSerialize::try_to_vec`: the eight bytes of the
/// value, little-endian. Writing an integer to a vector does not fail.
#[verifier::external_body]
fn borsh_u64(value: u64) -> (bytes: Vec<u8>)
    ensures
        bytes@ == spec_u64_to_le_bytes(value),
{
    borsh::BorshSerialize::try_to_vec(&value).unwrap()
}

/// `String` by `borsh::BorshSerialize::try_to_vec`: the count of the
/// string's UTF-8 bytes as a little-endian `u32`, then the bytes. The call
/// fails, and this gives `None`, exactly when the count does not fit a `u32`.
#[verifier::external_body]
fn borsh_string(value: &String) -> (bytes: Option<Vec<u8>>)
    ensures
        bytes is Some <==> string_fits(value@),
        bytes matches Some(b) ==> b@ == encoded_string(value@),
{
    borsh::BorshSerialize::try_to_vec(value).ok()
}

} // verus!
