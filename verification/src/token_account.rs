use vstd::bytes::spec_u64_from_le_bytes;
use vstd::prelude::*;
use crate::account::AccountInfo;
use crate::identity::Identity;
use crate::sdk::{token_program, token_program_id};
use solana_program::program_error::ProgramError;

verus! {

/// The number of bytes of a token account.
pub const TOKEN_ACCOUNT_LEN: usize = 165;

/// The failure that the runtime reports for a program.
#[verifier::external_type_specification]
#[verifier::external_body]
pub struct ExProgramError(ProgramError);

/// What a token account says of itself.
#[derive(Clone, Copy, Debug, PartialEq, Eq)]
pub struct TokenAccount {
    /// The mint whose tokens the account holds.
    pub mint: Identity,
    /// Who may spend from the account.
    pub owner: Identity,
    /// How many tokens the account holds.
    pub amount: u64,
    /// How many of them a delegate may spend.
    pub delegated_amount: u64,
}

/// Why an account was not accepted as the expected token account.
#[derive(Debug, PartialEq, Eq)]
pub enum SanitizeError {
    /// The account does not hold as many bytes as a token account does.
    InvalidDataLength,
    /// The account is not owned by the token program.
    IllegalOwner,
    /// The token program's decoder refused the bytes, for this reason.
    Unpack(ProgramError),
    /// The account holds tokens of another mint.
    MintMismatch,
    /// The tokens belong to another owner.
    OwnerMismatch,
}

/// What the token program's decoder makes of the bytes of an account:
/// `None` where it refuses them.
pub uninterp spec fn unpacked_token_account(data: Seq<u8>) -> Option<TokenAccount>;

/// `spl_token::state::Account::unpack` (through `Pack`), with the fields that
/// the ledger reads moved into a `TokenAccount`.
///
/// The decoder accepts or refuses by the bytes alone. It refuses any slice
/// that is not 165 bytes long. Where it accepts, the mint is the first 32
/// bytes, the owner the next 32 and the amount the 8 bytes after them,
/// little-endian.
#[verifier::external_body]
fn unpack_token_account(data: &[u8]) -> (unpacked: Result<TokenAccount, ProgramError>)
    ensures
        unpacked is Ok <==> unpacked_token_account(data@) is Some,
        unpacked matches Ok(account) ==> {
            &&& unpacked_token_account(data@) == Some(account)
            &&& data@.len() == TOKEN_ACCOUNT_LEN
            &&& account.mint.bytes@ == data@.subrange(0, 32)
            &&& account.owner.bytes@ == data@.subrange(32, 64)
            &&& account.amount == spec_u64_from_le_bytes(data@.subrange(64, 72))
        },
{
    let account = <spl_token::state::Account as solana_program::program_pack::Pack>::unpack(data)?;
    Ok(
        TokenAccount {
            mint: Identity { bytes: account.mint.to_bytes() },
            owner: Identity { bytes: account.owner.to_bytes() },
            amount: account.amount,
            delegated_amount: account.delegated_amount,
        },
    )
}

/// A token account that was checked against the mint and the owner that the
/// caller expects.
pub struct SanitizedTokenAccount<'a> {
    inner: &'a AccountInfo,
    token_account: TokenAccount,
}

impl<'a> SanitizedTokenAccount<'a> {
    /// The account that was checked.
    pub closed spec fn spec_account(&self) -> &'a AccountInfo {
        self.inner
    }

    /// What the account said of itself when it was last decoded.
    pub closed spec fn spec_token_account(&self) -> TokenAccount {
        self.token_account
    }

    /// What `sanitize` and `check_unpacked` answer for an account whose
    /// bytes the decoder took as `account`.
    pub open spec fn checked(account: TokenAccount, mint: Identity, owner: Identity) -> Result<
        TokenAccount,
        SanitizeError,
    > {
        if account.mint != mint {
            Err(SanitizeError::MintMismatch)
        } else if account.owner != owner {
            Err(SanitizeError::OwnerMismatch)
        } else {
            Ok(account)
        }
    }

    /// Accepts `account` as the token account of `owner` for `mint`.
    ///
    /// The checks are made in this order: the account holds exactly the
    /// bytes of a token account; the token program owns it; the token
    /// program's decoder accepts the bytes; the mint is the expected one;
    /// the owner is the expected one.
    pub fn sanitize(account: &'a AccountInfo, mint: &Identity, owner: &Identity) -> (result: Result<
        SanitizedTokenAccount<'a>,
        SanitizeError,
    >)
        ensures
            account.data@.len() != TOKEN_ACCOUNT_LEN ==> result matches Err(
                SanitizeError::InvalidDataLength,
            ),
            account.data@.len() == TOKEN_ACCOUNT_LEN && account.owner != token_program()
                ==> result matches Err(SanitizeError::IllegalOwner),
            account.data@.len() == TOKEN_ACCOUNT_LEN && account.owner == token_program() ==> (
            match unpacked_token_account(account.data@) {
                None => result matches Err(SanitizeError::Unpack(_)),
                Some(unpacked) => match Self::checked(unpacked, *mint, *owner) {
                    Ok(_) => result matches Ok(sanitized) && sanitized.spec_account() == account
                        && sanitized.spec_token_account() == unpacked,
                    Err(e) => result matches Err(f) && f == e,
                },
            }),
            result matches Ok(sanitized) ==> sanitized.spec_token_account().mint == *mint
                && sanitized.spec_token_account().owner == *owner && mint.bytes@
                == account.data@.subrange(0, 32) && owner.bytes@ == account.data@.subrange(32, 64),
    {
        if account.data_len() != TOKEN_ACCOUNT_LEN {
            return Err(SanitizeError::InvalidDataLength);
        }
        if account.owner != token_program_id() {
            return Err(SanitizeError::IllegalOwner);
        }
        let unpacked = unpack_token_account(account.data.as_slice());
        Self::check_unpacked(account, unpacked, mint, owner)
    }

    /// Accepts `account`, whose bytes the decoder answered with `unpacked`,
    /// as the token account of `owner` for `mint`.
    ///
    /// A refusal of the decoder is passed on. Otherwise the mint is checked
    /// first, then the owner.
    pub fn check_unpacked(
        account: &'a AccountInfo,
        unpacked: Result<TokenAccount, ProgramError>,
        mint: &Identity,
        owner: &Identity,
    ) -> (result: Result<SanitizedTokenAccount<'a>, SanitizeError>)
        ensures
            match unpacked {
                Err(reason) => result matches Err(SanitizeError::Unpack(r)) && r == reason,
                Ok(token_account) => match Self::checked(token_account, *mint, *owner) {
                    Ok(_) => result matches Ok(sanitized) && sanitized.spec_account() == account
                        && sanitized.spec_token_account() == token_account,
                    Err(e) => result matches Err(f) && f == e,
                },
            },
    {
        let token_account = match unpacked {
            Ok(token_account) => token_account,
            Err(reason) => {
                return Err(SanitizeError::Unpack(reason));
            },
        };
        if token_account.mint != *mint {
            return Err(SanitizeError::MintMismatch);
        }
        if token_account.owner != *owner {
            return Err(SanitizeError::OwnerMismatch);
        }
        Ok(SanitizedTokenAccount { inner: account, token_account })
    }

    /// What the account said of itself when it was last decoded.
    pub fn token_account(&self) -> (token_account: &TokenAccount)
        ensures
            *token_account == self.spec_token_account(),
    {
        &self.token_account
    }

    /// The account that was checked.
    pub fn account(&self) -> (account: &'a AccountInfo)
        ensures
            account == self.spec_account(),
    {
        self.inner
    }

    /// Decodes the account again, from the picture taken after other
    /// programs may have changed it.
    ///
    /// Where the decoder refuses the new bytes, nothing changes.
    pub fn reload(&mut self, account: &'a AccountInfo) -> (result: Result<(), SanitizeError>)
        ensures
            match unpacked_token_account(account.data@) {
                Some(unpacked) => result is Ok && final(self).spec_account() == account
                    && final(self).spec_token_account() == unpacked,
                None => result matches Err(SanitizeError::Unpack(_)) && *final(self) == *old(self),
            },
    {
        match unpack_token_account(account.data.as_slice()) {
            Ok(token_account) => {
                self.inner = account;
                self.token_account = token_account;
                Ok(())
            },
            Err(reason) => Err(SanitizeError::Unpack(reason)),
        }
    }
}

} // verus!
