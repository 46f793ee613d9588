//! The fields of a token account that the fee tiers read, taken from the
//! token program's account layout.
use vstd::prelude::*;
use solana_program::program_error::ProgramError;
use solana_program::program_pack::Pack;
use crate::codec::le_at;
use crate::state::Pubkey;

verus! {

#[verifier::external_type_specification]
#[verifier::external_body]
pub struct ExProgramError(ProgramError);

/// Length of a token account record.
pub const TOKEN_ACCOUNT_LEN: usize = 165;

/// Offset of the account state byte in a token account record.
pub const TOKEN_ACCOUNT_STATE_OFFSET: usize = 108;

/// An optional-field tag of a token account: four bytes spelling 0 (absent)
/// or 1 (present).
pub open spec fn option_tag_ok(s: Seq<u8>, start: int) -> bool {
    &&& s[start + 1] == 0
    &&& s[start + 2] == 0
    &&& s[start + 3] == 0
    &&& (s[start] == 0 || s[start] == 1)
}

/// A token account record that the token program accepts: 165 bytes, an
/// initialized or frozen state byte at offset 108, and well-formed tags for
/// the delegate (offset 72), the native amount (offset 109) and the close
/// authority (offset 129).
pub open spec fn token_record_ok(s: Seq<u8>) -> bool {
    &&& s.len() == TOKEN_ACCOUNT_LEN
    &&& (s[TOKEN_ACCOUNT_STATE_OFFSET as int] == 1 || s[TOKEN_ACCOUNT_STATE_OFFSET as int] == 2)
    &&& option_tag_ok(s, 72)
    &&& option_tag_ok(s, 109)
    &&& option_tag_ok(s, 129)
}

/// Mint, owner and balance of a token account.
#[derive(Clone, Copy, Debug)]
pub struct TokenAccountFields {
    pub mint: Pubkey,
    pub owner: Pubkey,
    pub amount: u64,
}

/// Relies on `spl_token::state::Account::unpack`: it accepts exactly the
/// records of `token_record_ok` (length, state byte, optional-field tags), and
/// reads the mint from bytes 0..32, the owner from 32..64 and the
/// amount, little-endian, from 64..72.
#[verifier::external_body]
pub(crate) fn unpack_token_account(data: &[u8]) -> (r: Result<TokenAccountFields, ProgramError>)
    ensures
        r is Ok <==> token_record_ok(data@),
        r matches Ok(t) ==> {
            &&& t.mint@ == data@.subrange(0, 32)
            &&& t.owner@ == data@.subrange(32, 64)
            &&& t.amount == le_at(data@, 64, 8)
        },
{
    match spl_token::state::Account::unpack(data) {
        Ok(a) => Ok(
            TokenAccountFields {
                mint: Pubkey { bytes: a.mint.to_bytes() },
                owner: Pubkey { bytes: a.owner.to_bytes() },
                amount: a.amount,
            },
        ),
        Err(e) => Err(e),
    }
}

} // verus!
