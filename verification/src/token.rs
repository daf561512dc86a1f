//! Reading token state out of raw account bytes: the mint authority of an
//! asset's mint record, and the "transferring" flag of a token account's
//! transfer-hook extension.

use vstd::prelude::*;

use crate::addr::Address;
use spl_token_2022::extension::BaseStateWithExtensions;
use spl_token_2022::extension::StateWithExtensions;
use spl_token_2022::extension::transfer_hook::TransferHookAccount;
use spl_token_2022::state::Account;
use spl_token_2022::state::Mint;

verus! {

/// What parsing a mint record yields: nothing when the bytes do not parse,
/// otherwise the mint authority if the mint has one.
pub uninterp spec fn parsed_mint_authority(data: Seq<u8>) -> Option<Option<Seq<u8>>>;

/// Relies on `spl_token_2022::extension::StateWithExtensions::<Mint>::unpack`:
/// what the bytes parse to depends on the bytes alone; a mint authority is a
/// 32-byte address.
#[verifier::external_body]
pub fn mint_authority_from(data: &[u8]) -> (r: Option<Option<Address>>)
    ensures
        match r {
            Some(Some(a)) => parsed_mint_authority(data@) == Some(Some(a@)) && a.wf(),
            Some(None) => parsed_mint_authority(data@) == Some(None::<Seq<u8>>),
            None => parsed_mint_authority(data@) is None,
        },
{
    match StateWithExtensions::<Mint>::unpack(data) {
        Ok(m) => Some(
            Option::<solana_program::pubkey::Pubkey>::from(m.base.mint_authority).map(
                |k| Address { bytes: k.to_bytes().to_vec() },
            ),
        ),
        Err(_) => None,
    }
}

/// What parsing a token account's transfer-hook extension yields: nothing
/// when the bytes do not parse or the extension is absent, otherwise the
/// "transferring" flag.
pub uninterp spec fn parsed_transferring(data: Seq<u8>) -> Option<bool>;

/// Relies on `spl_token_2022::extension::StateWithExtensions::<Account>::unpack`
/// and `get_extension::<TransferHookAccount>`: what the bytes parse to
/// depends on the bytes alone.
#[verifier::external_body]
pub fn transferring_flag(data: &[u8]) -> (r: Option<bool>)
    ensures
        match r {
            Some(b) => parsed_transferring(data@) == Some(b),
            None => parsed_transferring(data@) is None,
        },
{
    match StateWithExtensions::<Account>::unpack(data) {
        Ok(a) => match a.get_extension::<TransferHookAccount>() {
            Ok(ext) => Some(bool::from(ext.transferring)),
            Err(_) => None,
        },
        Err(_) => None,
    }
}

} // verus!
