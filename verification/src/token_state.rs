//! Balances and supplies read from raw token accounts and mints, for both
//! the original token program and Token-2022.
use vstd::prelude::*;

use crate::le_bytes::le_u64;

verus! {

/// An account as the ledger holds it: the program that owns it and its data.
pub struct RawAccount {
    pub owner: [u8; 32],
    pub data: Vec<u8>,
}

/// The program id of Token-2022.
pub open spec fn token_2022_program_id() -> Seq<u8> {
    seq![
        6u8, 221, 246, 225, 238, 117, 143, 222, 24, 66, 93, 188, 228, 108, 205, 218, 182, 26,
        252, 77, 131, 185, 13, 39, 254, 189, 249, 40, 216, 161, 139, 252,
    ]
}

/// The program id of Token-2022.
pub fn token_2022_id() -> (res: [u8; 32])
    ensures
        res@ == token_2022_program_id(),
{
    let id: [u8; 32] = [
        6, 221, 246, 225, 238, 117, 143, 222, 24, 66, 93, 188, 228, 108, 205, 218, 182, 26, 252,
        77, 131, 185, 13, 39, 254, 189, 249, 40, 216, 161, 139, 252,
    ];
    assert(id@ =~= token_2022_program_id());
    id
}

/// Whether an account is owned by Token-2022.
pub fn is_token_2022_owned(account: &RawAccount) -> (res: bool)
    ensures
        res == (account.owner@ == token_2022_program_id()),
{
    let id = token_2022_id();
    let mut i: usize = 0;
    while i < 32
        invariant
            i <= 32,
            id@ == token_2022_program_id(),
            forall|j: int| 0 <= j < i ==> account.owner@[j] == id@[j],
        decreases 32 - i,
    {
        if account.owner[i] != id[i] {
            return false;
        }
        i = i + 1;
    }
    assert(account.owner@ =~= id@);
    true
}

/// Whether the four bytes at `at` are a valid option tag: `[0, 0, 0, 0]`
/// for none or `[1, 0, 0, 0]` for some.
pub open spec fn option_tag_valid(data: Seq<u8>, at: int) -> bool {
    &&& (data[at] == 0 || data[at] == 1)
    &&& data[at + 1] == 0
    &&& data[at + 2] == 0
    &&& data[at + 3] == 0
}

/// The amount of a token account as the original token program reads it:
/// the data must be exactly 165 bytes, the state byte (108) initialized or
/// frozen, and the delegate (72), native (109) and close-authority (129)
/// option tags valid; the amount is the little-endian bytes 64..72.
pub open spec fn spl_token_account_amount(data: Seq<u8>) -> Option<u64> {
    if data.len() == 165 && (data[108] == 1 || data[108] == 2) && option_tag_valid(data, 72)
        && option_tag_valid(data, 109) && option_tag_valid(data, 129) {
        Some(le_u64(data.subrange(64, 72)) as u64)
    } else {
        None
    }
}

/// The length of a multisig account, which Token-2022 never reads as an
/// account or a mint.
pub const MULTISIG_LEN: usize = 355;

/// The amount of a token account as Token-2022 reads it: the data must be
/// at least 165 bytes and not of multisig length, its first 165 bytes must
/// read as an account of the original layout (see
/// [`spl_token_account_amount`]), and any extension area must start with
/// the account type marker 2 at byte 165 followed by at least one byte.
pub open spec fn spl_token_2022_account_amount(data: Seq<u8>) -> Option<u64> {
    if data.len() >= 165 && data.len() != MULTISIG_LEN && (data.len() == 165 || (data.len()
        >= 167 && data[165] == 2)) {
        spl_token_account_amount(data.subrange(0, 165))
    } else {
        None
    }
}

/// The supply of a mint as the original token program reads it: the data
/// must be exactly 82 bytes, the initialized byte (45) must be 1, and the
/// mint-authority (0) and freeze-authority (46) option tags valid; the
/// supply is the little-endian bytes 36..44.
pub open spec fn spl_token_mint_supply(data: Seq<u8>) -> Option<u64> {
    if data.len() == 82 && data[45] == 1 && option_tag_valid(data, 0) && option_tag_valid(
        data,
        46,
    ) {
        Some(le_u64(data.subrange(36, 44)) as u64)
    } else {
        None
    }
}

/// Whether the bytes `from..to` of `data` are all zero.
pub open spec fn zero_bytes(data: Seq<u8>, from: int, to: int) -> bool {
    forall|i: int| from <= i < to ==> #[trigger] data[i] == 0
}

/// The supply of a mint as Token-2022 reads it: the data must be at least
/// 82 bytes and not of multisig length, its first 82 bytes must read as a
/// mint of the original layout (see [`spl_token_mint_supply`]), and any
/// extension area must be zero padding up to byte 165, then the mint type
/// marker 1, then at least one byte.
pub open spec fn spl_token_2022_mint_supply(data: Seq<u8>) -> Option<u64> {
    if data.len() >= 82 && data.len() != MULTISIG_LEN && (data.len() == 82 || (data.len() >= 167
        && zero_bytes(data, 82, 165) && data[165] == 1)) {
        spl_token_mint_supply(data.subrange(0, 82))
    } else {
        None
    }
}

/// spl-token's `Pack::unpack` of `state::Account`, keeping the `amount`
/// field. Its source accepts the data exactly as
/// [`spl_token_account_amount`] says: 165 bytes, a known and initialized
/// state, valid option tags; and reads the amount as the little-endian
/// bytes 64..72.
#[verifier::external_body]
fn unpack_token_account_amount(data: &[u8]) -> (res: Option<u64>)
    ensures
        res == spl_token_account_amount(data@),
{
    <spl_token::state::Account as spl_token::solana_program::program_pack::Pack>::unpack(data).ok().map(
        |a| a.amount,
    )
}

/// spl-token-2022's `StateWithExtensions::<state::Account>::unpack`, keeping
/// `base.amount`. Its source accepts the data exactly as
/// [`spl_token_2022_account_amount`] says: a length check, the base account
/// in the first 165 bytes, and the account type marker of any extension
/// area; it reads the amount as the little-endian bytes 64..72.
#[verifier::external_body]
fn unpack_token_2022_account_amount(data: &[u8]) -> (res: Option<u64>)
    ensures
        res == spl_token_2022_account_amount(data@),
{
    spl_token_2022::extension::StateWithExtensions::<spl_token_2022::state::Account>::unpack(
        data,
    ).ok().map(|s| s.base.amount)
}

/// spl-token's `Pack::unpack` of `state::Mint`, keeping the `supply` field.
/// Its source accepts the data exactly as [`spl_token_mint_supply`] says:
/// 82 bytes, initialized, valid option tags; and reads the supply as the
/// little-endian bytes 36..44.
#[verifier::external_body]
fn unpack_mint_supply(data: &[u8]) -> (res: Option<u64>)
    ensures
        res == spl_token_mint_supply(data@),
{
    <spl_token::state::Mint as spl_token::solana_program::program_pack::Pack>::unpack(data).ok().map(
        |m| m.supply,
    )
}

/// spl-token-2022's `StateWithExtensions::<state::Mint>::unpack`, keeping
/// `base.supply`. Its source accepts the data exactly as
/// [`spl_token_2022_mint_supply`] says: a length check, the base mint in the
/// first 82 bytes, zero padding and the mint type marker of any extension
/// area; it reads the supply as the little-endian bytes 36..44.
#[verifier::external_body]
fn unpack_token_2022_mint_supply(data: &[u8]) -> (res: Option<u64>)
    ensures
        res == spl_token_2022_mint_supply(data@),
{
    spl_token_2022::extension::StateWithExtensions::<spl_token_2022::state::Mint>::unpack(
        data,
    ).ok().map(|s| s.base.supply)
}

/// The amount a token account holds, read by the program that owns it.
pub open spec fn token_account_amount(account: &RawAccount) -> Option<u64> {
    if account.owner@ == token_2022_program_id() {
        spl_token_2022_account_amount(account.data@)
    } else {
        spl_token_account_amount(account.data@)
    }
}

/// The supply of a mint, read by the program that owns it.
pub open spec fn mint_supply(account: &RawAccount) -> Option<u64> {
    if account.owner@ == token_2022_program_id() {
        spl_token_2022_mint_supply(account.data@)
    } else {
        spl_token_mint_supply(account.data@)
    }
}

/// Gets the amount of a token account, depending on the account owner.
pub fn get_token_account_amount(account: &RawAccount) -> (res: u64)
    requires
        token_account_amount(account) is Some,
    ensures
        token_account_amount(account) == Some(res),
        res == le_u64(account.data@.subrange(64, 72)),
{
    proof {
        assert(account.data@.subrange(0, 165).subrange(64, 72) =~= account.data@.subrange(64, 72));
    }
    if is_token_2022_owned(account) {
        match unpack_token_2022_account_amount(account.data.as_slice()) {
            Some(amount) => amount,
            None => 0,
        }
    } else {
        match unpack_token_account_amount(account.data.as_slice()) {
            Some(amount) => amount,
            None => 0,
        }
    }
}

/// The amount of a token account, depending on the account owner, or `None`
/// when the owning program rejects its data.
pub fn try_get_token_account_amount(account: &RawAccount) -> (res: Option<u64>)
    ensures
        res == token_account_amount(account),
{
    if is_token_2022_owned(account) {
        unpack_token_2022_account_amount(account.data.as_slice())
    } else {
        unpack_token_account_amount(account.data.as_slice())
    }
}

/// Gets the supply of a token mint, depending on the account owner.
pub fn get_mint_supply(account: &RawAccount) -> (res: u64)
    requires
        mint_supply(account) is Some,
    ensures
        mint_supply(account) == Some(res),
        res == le_u64(account.data@.subrange(36, 44)),
{
    proof {
        assert(account.data@.subrange(0, 82).subrange(36, 44) =~= account.data@.subrange(36, 44));
    }
    if is_token_2022_owned(account) {
        match unpack_token_2022_mint_supply(account.data.as_slice()) {
            Some(supply) => supply,
            None => 0,
        }
    } else {
        match unpack_mint_supply(account.data.as_slice()) {
            Some(supply) => supply,
            None => 0,
        }
    }
}

/// The supply of a token mint, depending on the account owner, or `None`
/// when the owning program rejects its data.
pub fn try_get_mint_supply(account: &RawAccount) -> (res: Option<u64>)
    ensures
        res == mint_supply(account),
{
    if is_token_2022_owned(account) {
        unpack_token_2022_mint_supply(account.data.as_slice())
    } else {
        unpack_mint_supply(account.data.as_slice())
    }
}

} // verus!
