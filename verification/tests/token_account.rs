use restaking_ledger::account::AccountInfo;
use restaking_ledger::identity::Identity;
use restaking_ledger::token_account::{
    SanitizeError, SanitizedTokenAccount, TokenAccount, TOKEN_ACCOUNT_LEN,
};
use solana_program::program_error::ProgramError;
use solana_program::program_option::COption;
use solana_program::program_pack::Pack;
use solana_program::pubkey::Pubkey;

fn key(byte: u8) -> Identity {
    Identity::new([byte; 32])
}

fn token_program() -> Identity {
    Identity::new(spl_token::id().to_bytes())
}

/// The bytes of an initialized token account without delegate, close
/// authority or native reserve.
fn token_bytes(mint: u8, owner: u8, amount: u64, delegated_amount: u64, state: u8) -> Vec<u8> {
    let mut data = Vec::new();
    data.extend_from_slice(&[mint; 32]);
    data.extend_from_slice(&[owner; 32]);
    data.extend_from_slice(&amount.to_le_bytes());
    data.extend_from_slice(&[0; 36]);
    data.push(state);
    data.extend_from_slice(&[0; 12]);
    data.extend_from_slice(&delegated_amount.to_le_bytes());
    data.extend_from_slice(&[0; 36]);
    data
}

fn account_with(owner: Identity, data: Vec<u8>) -> AccountInfo {
    AccountInfo { key: key(50), owner, is_signer: false, is_writable: true, data }
}

#[test]
fn token_account_length_is_that_of_the_token_program() {
    assert_eq!(TOKEN_ACCOUNT_LEN, spl_token::state::Account::LEN);
    assert_eq!(token_bytes(1, 2, 3, 4, 1).len(), TOKEN_ACCOUNT_LEN);
}

#[test]
fn hand_written_bytes_are_what_the_token_program_packs() {
    let account = spl_token::state::Account {
        mint: Pubkey::new_from_array([1; 32]),
        owner: Pubkey::new_from_array([2; 32]),
        amount: 777,
        delegate: COption::None,
        state: spl_token::state::AccountState::Initialized,
        is_native: COption::None,
        delegated_amount: 5,
        close_authority: COption::None,
    };
    let mut packed = vec![0u8; spl_token::state::Account::LEN];
    spl_token::state::Account::pack(account, &mut packed).unwrap();
    assert_eq!(packed, token_bytes(1, 2, 777, 5, 1));
}

#[test]
fn sanitize_accepts_the_expected_token_account() {
    let account = account_with(token_program(), token_bytes(1, 2, 777, 5, 1));
    let sanitized = SanitizedTokenAccount::sanitize(&account, &key(1), &key(2)).unwrap();
    assert_eq!(
        *sanitized.token_account(),
        TokenAccount { mint: key(1), owner: key(2), amount: 777, delegated_amount: 5 }
    );
    assert_eq!(sanitized.account(), &account);
    assert_eq!(sanitized.account().data_len(), 165);
}

#[test]
fn sanitize_reads_a_frozen_account_too() {
    let account = account_with(token_program(), token_bytes(1, 2, u64::MAX, 0, 2));
    let sanitized = SanitizedTokenAccount::sanitize(&account, &key(1), &key(2)).unwrap();
    assert_eq!(sanitized.token_account().amount, u64::MAX);
}

#[test]
fn sanitize_refuses_another_length() {
    let mut short = token_bytes(1, 2, 777, 5, 1);
    short.pop();
    let account = account_with(token_program(), short);
    assert_eq!(
        SanitizedTokenAccount::sanitize(&account, &key(1), &key(2)).err(),
        Some(SanitizeError::InvalidDataLength)
    );
    let mut long = token_bytes(1, 2, 777, 5, 1);
    long.push(0);
    let account = account_with(token_program(), long);
    assert_eq!(
        SanitizedTokenAccount::sanitize(&account, &key(1), &key(2)).err(),
        Some(SanitizeError::InvalidDataLength)
    );
    let account = account_with(key(9), Vec::new());
    assert_eq!(
        SanitizedTokenAccount::sanitize(&account, &key(1), &key(2)).err(),
        Some(SanitizeError::InvalidDataLength)
    );
}

#[test]
fn sanitize_refuses_another_program_as_owner() {
    let account = account_with(key(9), token_bytes(1, 2, 777, 5, 1));
    assert_eq!(
        SanitizedTokenAccount::sanitize(&account, &key(1), &key(2)).err(),
        Some(SanitizeError::IllegalOwner)
    );
    let account = account_with(Identity::new([0; 32]), token_bytes(1, 2, 777, 5, 1));
    assert_eq!(
        SanitizedTokenAccount::sanitize(&account, &key(1), &key(2)).err(),
        Some(SanitizeError::IllegalOwner)
    );
}

#[test]
fn sanitize_passes_on_the_refusal_of_the_decoder() {
    let account = account_with(token_program(), token_bytes(1, 2, 777, 5, 0));
    assert_eq!(
        SanitizedTokenAccount::sanitize(&account, &key(1), &key(2)).err(),
        Some(SanitizeError::Unpack(ProgramError::UninitializedAccount))
    );
    let account = account_with(token_program(), token_bytes(1, 2, 777, 5, 3));
    assert_eq!(
        SanitizedTokenAccount::sanitize(&account, &key(1), &key(2)).err(),
        Some(SanitizeError::Unpack(ProgramError::InvalidAccountData))
    );
    let mut bad_tag = token_bytes(1, 2, 777, 5, 1);
    bad_tag[72] = 2;
    let account = account_with(token_program(), bad_tag);
    assert_eq!(
        SanitizedTokenAccount::sanitize(&account, &key(1), &key(2)).err(),
        Some(SanitizeError::Unpack(ProgramError::InvalidAccountData))
    );
}

#[test]
fn sanitize_refuses_another_mint_then_another_owner() {
    let account = account_with(token_program(), token_bytes(1, 2, 777, 5, 1));
    assert_eq!(
        SanitizedTokenAccount::sanitize(&account, &key(3), &key(2)).err(),
        Some(SanitizeError::MintMismatch)
    );
    assert_eq!(
        SanitizedTokenAccount::sanitize(&account, &key(1), &key(3)).err(),
        Some(SanitizeError::OwnerMismatch)
    );
    assert_eq!(
        SanitizedTokenAccount::sanitize(&account, &key(3), &key(3)).err(),
        Some(SanitizeError::MintMismatch)
    );
}

#[test]
fn check_unpacked_decides_on_the_decoded_account() {
    let account = account_with(token_program(), Vec::new());
    let decoded = TokenAccount { mint: key(1), owner: key(2), amount: 9, delegated_amount: 1 };

    let accepted =
        SanitizedTokenAccount::check_unpacked(&account, Ok(decoded), &key(1), &key(2)).unwrap();
    assert_eq!(*accepted.token_account(), decoded);
    assert_eq!(accepted.account(), &account);

    assert_eq!(
        SanitizedTokenAccount::check_unpacked(&account, Ok(decoded), &key(7), &key(2)).err(),
        Some(SanitizeError::MintMismatch)
    );
    assert_eq!(
        SanitizedTokenAccount::check_unpacked(&account, Ok(decoded), &key(1), &key(7)).err(),
        Some(SanitizeError::OwnerMismatch)
    );
    assert_eq!(
        SanitizedTokenAccount::check_unpacked(
            &account,
            Err(ProgramError::InvalidAccountData),
            &key(1),
            &key(2)
        )
        .err(),
        Some(SanitizeError::Unpack(ProgramError::InvalidAccountData))
    );
    assert_eq!(
        SanitizedTokenAccount::check_unpacked(&account, Err(ProgramError::Custom(7)), &key(1), &key(2))
            .err(),
        Some(SanitizeError::Unpack(ProgramError::Custom(7)))
    );
}

#[test]
fn reload_takes_the_new_bytes() {
    let before = account_with(token_program(), token_bytes(1, 2, 777, 5, 1));
    let after = account_with(token_program(), token_bytes(1, 2, 700, 0, 1));
    let mut sanitized = SanitizedTokenAccount::sanitize(&before, &key(1), &key(2)).unwrap();
    assert_eq!(sanitized.reload(&after), Ok(()));
    assert_eq!(
        *sanitized.token_account(),
        TokenAccount { mint: key(1), owner: key(2), amount: 700, delegated_amount: 0 }
    );
    assert_eq!(sanitized.account(), &after);
}

#[test]
fn reload_keeps_the_old_picture_when_the_decoder_refuses() {
    let before = account_with(token_program(), token_bytes(1, 2, 777, 5, 1));
    let closed = account_with(token_program(), vec![0; 165]);
    let truncated = account_with(token_program(), vec![1; 10]);
    let mut sanitized = SanitizedTokenAccount::sanitize(&before, &key(1), &key(2)).unwrap();
    assert_eq!(
        sanitized.reload(&closed),
        Err(SanitizeError::Unpack(ProgramError::UninitializedAccount))
    );
    assert_eq!(
        sanitized.reload(&truncated),
        Err(SanitizeError::Unpack(ProgramError::InvalidAccountData))
    );
    assert_eq!(sanitized.token_account().amount, 777);
    assert_eq!(sanitized.account(), &before);
}
