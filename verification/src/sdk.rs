use vstd::prelude::*;
use crate::identity::Identity;
use crate::instruction::{AccountMeta, Instruction, VaultInstruction};

verus! {

/// The identity of the system program: thirty-two zero bytes.
pub open spec fn system_program() -> Identity {
    Identity {
        bytes: [
            0u8, 0u8, 0u8, 0u8, 0u8, 0u8, 0u8, 0u8, 0u8, 0u8, 0u8, 0u8, 0u8, 0u8, 0u8, 0u8, 0u8,
            0u8, 0u8, 0u8, 0u8, 0u8, 0u8, 0u8, 0u8, 0u8, 0u8, 0u8, 0u8, 0u8, 0u8, 0u8,
        ],
    }
}

/// The identity of the token program.
pub open spec fn token_program() -> Identity {
    Identity {
        bytes: [
            6u8, 221u8, 246u8, 225u8, 215u8, 101u8, 161u8, 147u8, 217u8, 203u8, 225u8, 70u8,
            206u8, 235u8, 121u8, 172u8, 28u8, 180u8, 133u8, 237u8, 95u8, 91u8, 55u8, 145u8,
            58u8, 140u8, 245u8, 133u8, 126u8, 255u8, 0u8, 169u8,
        ],
    }
}

/// `solana_program::system_program::id`: the identity of the system
/// program, which is the key of thirty-two zero bytes.
#[verifier::external_body]
fn system_program_id() -> (id: Identity)
    ensures
        id == system_program(),
{
    Identity { bytes: solana_program::system_program::id().to_bytes() }
}

/// `spl_token::id`: the identity of the token program.
#[verifier::external_body]
pub(crate) fn token_program_id() -> (id: Identity)
    ensures
        id == token_program(),
{
    Identity { bytes: spl_token::id().to_bytes() }
}

/// The instruction that initializes the global configuration.
pub fn initialize_config(
    program_id: &Identity,
    config: &Identity,
    admin: &Identity,
    restaking_program_signer: &Identity,
    restaking_program: &Identity,
) -> (ix: Instruction)
    ensures
        ix.program_id == *program_id,
        ix.accounts@ == seq![
            AccountMeta::new(*config, false),
            AccountMeta::new(*admin, true),
            AccountMeta::new(*restaking_program_signer, false),
            AccountMeta::new_readonly(*restaking_program, false),
            AccountMeta::new_readonly(system_program(), false),
        ],
        ix.data@ == (VaultInstruction::InitializeConfig).encoded(),
{
    let accounts = vec![
        AccountMeta::new(*config, false),
        AccountMeta::new(*admin, true),
        AccountMeta::new(*restaking_program_signer, false),
        AccountMeta::new_readonly(*restaking_program, false),
        AccountMeta::new_readonly(system_program_id(), false),
    ];
    let data = (VaultInstruction::InitializeConfig).try_to_vec().unwrap();
    Instruction { program_id: *program_id, accounts, data }
}

/// The instruction that initializes a vault with its three lists and its
/// LRT mint.
pub fn initialize_vault(
    program_id: &Identity,
    config: &Identity,
    vault: &Identity,
    vault_avs_list: &Identity,
    vault_operator_list: &Identity,
    vault_slasher_list: &Identity,
    lrt_mint: &Identity,
    token_mint: &Identity,
    admin: &Identity,
    base: &Identity,
    deposit_fee_bps: u16,
    withdrawal_fee_bps: u16,
) -> (ix: Instruction)
    ensures
        ix.program_id == *program_id,
        ix.accounts@ == seq![
            AccountMeta::new(*config, false),
            AccountMeta::new(*vault, false),
            AccountMeta::new(*vault_avs_list, false),
            AccountMeta::new(*vault_operator_list, false),
            AccountMeta::new(*vault_slasher_list, false),
            AccountMeta::new(*lrt_mint, true),
            AccountMeta::new(*token_mint, false),
            AccountMeta::new(*admin, true),
            AccountMeta::new(*base, true),
            AccountMeta::new_readonly(system_program(), false),
            AccountMeta::new_readonly(token_program(), false),
        ],
        ix.data@ == (VaultInstruction::InitializeVault { deposit_fee_bps, withdrawal_fee_bps }).encoded(),
{
    let accounts = vec![
        AccountMeta::new(*config, false),
        AccountMeta::new(*vault, false),
        AccountMeta::new(*vault_avs_list, false),
        AccountMeta::new(*vault_operator_list, false),
        AccountMeta::new(*vault_slasher_list, false),
        AccountMeta::new(*lrt_mint, true),
        AccountMeta::new(*token_mint, false),
        AccountMeta::new(*admin, true),
        AccountMeta::new(*base, true),
        AccountMeta::new_readonly(system_program_id(), false),
        AccountMeta::new_readonly(token_program_id(), false),
    ];
    let data = (VaultInstruction::InitializeVault { deposit_fee_bps, withdrawal_fee_bps }).try_to_vec().unwrap();
    Instruction { program_id: *program_id, accounts, data }
}

/// The instruction by which a service registers itself with a vault.
pub fn add_avs(
    program_id: &Identity,
    restaking_program_signer: &Identity,
    avs: &Identity,
    vault: &Identity,
    config: &Identity,
    vault_avs_list: &Identity,
    payer: &Identity,
) -> (ix: Instruction)
    ensures
        ix.program_id == *program_id,
        ix.accounts@ == seq![
            AccountMeta::new_readonly(*restaking_program_signer, true),
            AccountMeta::new_readonly(*avs, true),
            AccountMeta::new_readonly(*vault, false),
            AccountMeta::new_readonly(*config, false),
            AccountMeta::new(*vault_avs_list, false),
            AccountMeta::new(*payer, true),
            AccountMeta::new_readonly(system_program(), false),
        ],
        ix.data@ == (VaultInstruction::AddAvs).encoded(),
{
    let accounts = vec![
        AccountMeta::new_readonly(*restaking_program_signer, true),
        AccountMeta::new_readonly(*avs, true),
        AccountMeta::new_readonly(*vault, false),
        AccountMeta::new_readonly(*config, false),
        AccountMeta::new(*vault_avs_list, false),
        AccountMeta::new(*payer, true),
        AccountMeta::new_readonly(system_program_id(), false),
    ];
    let data = (VaultInstruction::AddAvs).try_to_vec().unwrap();
    Instruction { program_id: *program_id, accounts, data }
}

/// The instruction by which a service ends its registration with a vault.
pub fn remove_avs(
    program_id: &Identity,
    restaking_program_signer: &Identity,
    avs: &Identity,
    vault: &Identity,
    config: &Identity,
    vault_avs_list: &Identity,
    payer: &Identity,
) -> (ix: Instruction)
    ensures
        ix.program_id == *program_id,
        ix.accounts@ == seq![
            AccountMeta::new_readonly(*restaking_program_signer, true),
            AccountMeta::new_readonly(*avs, true),
            AccountMeta::new_readonly(*vault, false),
            AccountMeta::new_readonly(*config, false),
            AccountMeta::new(*vault_avs_list, false),
            AccountMeta::new(*payer, true),
            AccountMeta::new_readonly(system_program(), false),
        ],
        ix.data@ == (VaultInstruction::RemoveAvs).encoded(),
{
    let accounts = vec![
        AccountMeta::new_readonly(*restaking_program_signer, true),
        AccountMeta::new_readonly(*avs, true),
        AccountMeta::new_readonly(*vault, false),
        AccountMeta::new_readonly(*config, false),
        AccountMeta::new(*vault_avs_list, false),
        AccountMeta::new(*payer, true),
        AccountMeta::new_readonly(system_program_id(), false),
    ];
    let data = (VaultInstruction::RemoveAvs).try_to_vec().unwrap();
    Instruction { program_id: *program_id, accounts, data }
}

/// The instruction by which an operator registers itself with a vault.
pub fn add_operator(
    program_id: &Identity,
    restaking_program_signer: &Identity,
    operator: &Identity,
    vault: &Identity,
    config: &Identity,
    vault_operator_list: &Identity,
    payer: &Identity,
) -> (ix: Instruction)
    ensures
        ix.program_id == *program_id,
        ix.accounts@ == seq![
            AccountMeta::new_readonly(*restaking_program_signer, true),
            AccountMeta::new_readonly(*operator, true),
            AccountMeta::new_readonly(*vault, false),
            AccountMeta::new_readonly(*config, false),
            AccountMeta::new(*vault_operator_list, false),
            AccountMeta::new(*payer, true),
            AccountMeta::new_readonly(system_program(), false),
        ],
        ix.data@ == (VaultInstruction::AddOperator).encoded(),
{
    let accounts = vec![
        AccountMeta::new_readonly(*restaking_program_signer, true),
        AccountMeta::new_readonly(*operator, true),
        AccountMeta::new_readonly(*vault, false),
        AccountMeta::new_readonly(*config, false),
        AccountMeta::new(*vault_operator_list, false),
        AccountMeta::new(*payer, true),
        AccountMeta::new_readonly(system_program_id(), false),
    ];
    let data = (VaultInstruction::AddOperator).try_to_vec().unwrap();
    Instruction { program_id: *program_id, accounts, data }
}

/// The instruction by which an operator ends its registration with a vault.
pub fn remove_operator(
    program_id: &Identity,
    restaking_program_signer: &Identity,
    operator: &Identity,
    vault: &Identity,
    config: &Identity,
    vault_operator_list: &Identity,
    payer: &Identity,
) -> (ix: Instruction)
    ensures
        ix.program_id == *program_id,
        ix.accounts@ == seq![
            AccountMeta::new_readonly(*restaking_program_signer, true),
            AccountMeta::new_readonly(*operator, true),
            AccountMeta::new_readonly(*vault, false),
            AccountMeta::new_readonly(*config, false),
            AccountMeta::new(*vault_operator_list, false),
            AccountMeta::new(*payer, true),
            AccountMeta::new_readonly(system_program(), false),
        ],
        ix.data@ == (VaultInstruction::RemoveOperator).encoded(),
{
    let accounts = vec![
        AccountMeta::new_readonly(*restaking_program_signer, true),
        AccountMeta::new_readonly(*operator, true),
        AccountMeta::new_readonly(*vault, false),
        AccountMeta::new_readonly(*config, false),
        AccountMeta::new(*vault_operator_list, false),
        AccountMeta::new(*payer, true),
        AccountMeta::new_readonly(system_program_id(), false),
    ];
    let data = (VaultInstruction::RemoveOperator).try_to_vec().unwrap();
    Instruction { program_id: *program_id, accounts, data }
}

/// The instruction that deposits `amount` tokens into the vault and mints
/// LRT for them.
pub fn mint_to(
    program_id: &Identity,
    vault: &Identity,
    lrt_mint: &Identity,
    source_owner: &Identity,
    source_token_account: &Identity,
    dest_token_account: &Identity,
    lrt_receiver: &Identity,
    amount: u64,
) -> (ix: Instruction)
    ensures
        ix.program_id == *program_id,
        ix.accounts@ == seq![
            AccountMeta::new(*vault, false),
            AccountMeta::new(*lrt_mint, false),
            AccountMeta::new(*source_owner, true),
            AccountMeta::new(*source_token_account, false),
            AccountMeta::new(*dest_token_account, false),
            AccountMeta::new(*lrt_receiver, false),
            AccountMeta::new_readonly(token_program(), false),
        ],
        ix.data@ == (VaultInstruction::MintTo { amount }).encoded(),
{
    let accounts = vec![
        AccountMeta::new(*vault, false),
        AccountMeta::new(*lrt_mint, false),
        AccountMeta::new(*source_owner, true),
        AccountMeta::new(*source_token_account, false),
        AccountMeta::new(*dest_token_account, false),
        AccountMeta::new(*lrt_receiver, false),
        AccountMeta::new_readonly(token_program_id(), false),
    ];
    let data = (VaultInstruction::MintTo { amount }).try_to_vec().unwrap();
    Instruction { program_id: *program_id, accounts, data }
}

/// The instruction that sets the most tokens the vault accepts as deposit.
pub fn set_capacity(
    program_id: &Identity,
    vault: &Identity,
    admin: &Identity,
    amount: u64,
) -> (ix: Instruction)
    ensures
        ix.program_id == *program_id,
        ix.accounts@ == seq![
            AccountMeta::new(*vault, false),
            AccountMeta::new(*admin, true),
        ],
        ix.data@ == (VaultInstruction::SetDepositCapacity { amount }).encoded(),
{
    let accounts = vec![
        AccountMeta::new(*vault, false),
        AccountMeta::new(*admin, true),
    ];
    let data = (VaultInstruction::SetDepositCapacity { amount }).try_to_vec().unwrap();
    Instruction { program_id: *program_id, accounts, data }
}

/// The instruction that delegates `amount` more of the vault's tokens to an
/// operator.
pub fn add_delegation(
    program_id: &Identity,
    config: &Identity,
    vault: &Identity,
    vault_operator_list: &Identity,
    operator: &Identity,
    delegation_admin: &Identity,
    payer: &Identity,
    amount: u64,
) -> (ix: Instruction)
    ensures
        ix.program_id == *program_id,
        ix.accounts@ == seq![
            AccountMeta::new_readonly(*config, false),
            AccountMeta::new_readonly(*vault, false),
            AccountMeta::new(*vault_operator_list, false),
            AccountMeta::new_readonly(*operator, false),
            AccountMeta::new_readonly(*delegation_admin, true),
            AccountMeta::new(*payer, true),
        ],
        ix.data@ == (VaultInstruction::AddDelegation { amount }).encoded(),
{
    let accounts = vec![
        AccountMeta::new_readonly(*config, false),
        AccountMeta::new_readonly(*vault, false),
        AccountMeta::new(*vault_operator_list, false),
        AccountMeta::new_readonly(*operator, false),
        AccountMeta::new_readonly(*delegation_admin, true),
        AccountMeta::new(*payer, true),
    ];
    let data = (VaultInstruction::AddDelegation { amount }).try_to_vec().unwrap();
    Instruction { program_id: *program_id, accounts, data }
}

/// The instruction that takes `amount` of the vault's tokens back from an
/// operator.
pub fn remove_delegation(
    program_id: &Identity,
    config: &Identity,
    vault: &Identity,
    vault_operator_list: &Identity,
    operator: &Identity,
    admin: &Identity,
    payer: &Identity,
    amount: u64,
) -> (ix: Instruction)
    ensures
        ix.program_id == *program_id,
        ix.accounts@ == seq![
            AccountMeta::new_readonly(*config, false),
            AccountMeta::new_readonly(*vault, false),
            AccountMeta::new(*vault_operator_list, false),
            AccountMeta::new_readonly(*operator, false),
            AccountMeta::new_readonly(*admin, true),
            AccountMeta::new(*payer, true),
        ],
        ix.data@ == (VaultInstruction::RemoveDelegation { amount }).encoded(),
{
    let accounts = vec![
        AccountMeta::new_readonly(*config, false),
        AccountMeta::new_readonly(*vault, false),
        AccountMeta::new(*vault_operator_list, false),
        AccountMeta::new_readonly(*operator, false),
        AccountMeta::new_readonly(*admin, true),
        AccountMeta::new(*payer, true),
    ];
    let data = (VaultInstruction::RemoveDelegation { amount }).try_to_vec().unwrap();
    Instruction { program_id: *program_id, accounts, data }
}

} // verus!
