use crate::bytes::u64_at;
use crate::error::ProgramError;
use crate::pubkey::Pubkey;
use vstd::prelude::*;

verus! {

/// What this program reads of a token account: who owns it and what it holds.
#[derive(Clone, Copy, Debug, PartialEq, Eq)]
pub struct TokenAccount {
    pub owner: Pubkey,
    pub amount: u64,
}

/// The length of a token account's data.
pub const TOKEN_ACCOUNT_LEN: usize = 165;

/// Whether the four bytes at `off` tag an optional field: all zero for none,
/// `1, 0, 0, 0` for some.
pub open spec fn option_tag_ok(d: Seq<u8>, off: int) -> bool {
    &&& d[off] == 0 || d[off] == 1
    &&& d[off + 1] == 0
    &&& d[off + 2] == 0
    &&& d[off + 3] == 0
}

/// Whether `d` has the layout of a token account: 165 bytes of mint, owner,
/// amount, an optional delegate, a state byte of 0 to 2, an optional native
/// amount, the delegated amount and an optional close authority.
pub open spec fn token_layout_ok(d: Seq<u8>) -> bool {
    &&& d.len() == 165
    &&& option_tag_ok(d, 72)
    &&& d[108] <= 2
    &&& option_tag_ok(d, 109)
    &&& option_tag_ok(d, 129)
}

/// Why `d` cannot be read as a token account, if it cannot: a layout that does
/// not hold, or a state byte of 0, for an account not yet initialized.
pub open spec fn token_error(d: Seq<u8>) -> Option<ProgramError> {
    if !token_layout_ok(d) {
        Some(ProgramError::InvalidAccountData)
    } else if d[108] == 0 {
        Some(ProgramError::UninitializedAccount)
    } else {
        None
    }
}

/// The owner recorded in a token account's data.
pub open spec fn token_owner(d: Seq<u8>) -> Seq<u8> {
    d.subrange(32, 64)
}

/// The balance recorded in a token account's data.
pub open spec fn token_amount(d: Seq<u8>) -> u64 {
    u64_at(d, 64)
}

/// Relies on spl_token's `Account::unpack` (through solana_program's `Pack`):
/// it refuses data that is not 165 bytes long or holds a bad option tag or
/// state byte (`InvalidAccountData`), then an account whose state is
/// uninitialized (`UninitializedAccount`), and otherwise reads the owner at
/// bytes 32 to 64 and the little-endian amount at bytes 64 to 72.
#[verifier::external_body]
pub(crate) fn unpack_token_account(data: &[u8]) -> (r: Result<TokenAccount, ProgramError>)
    ensures
        match token_error(data@) {
            Some(e) => r == Err::<TokenAccount, ProgramError>(e),
            None => r is Ok && r->Ok_0.owner@ == token_owner(data@) && r->Ok_0.amount
                == token_amount(data@),
        },
{
    match <spl_token::state::Account as solana_program::program_pack::Pack>::unpack(data) {
        Ok(a) => Ok(TokenAccount { owner: Pubkey { bytes: a.owner.to_bytes() }, amount: a.amount }),
        Err(solana_program::program_error::ProgramError::UninitializedAccount) => Err(
            ProgramError::UninitializedAccount,
        ),
        Err(_) => Err(ProgramError::InvalidAccountData),
    }
}

} // verus!
