//! Protocol-wide laws, stated over the same spec functions the operations'
//! contracts use.

use vstd::prelude::*;

use crate::HookError;
use crate::addr::find_pda;
use crate::addr::storage_seeds;
use crate::codec::encode_bytes;
use crate::gateway::credential_valid;
use crate::gateway::parsed_credential;
use crate::processor::AccountV;
use crate::processor::account_keys;
use crate::processor::execute_spec;
use crate::processor::expected_metas;
use crate::processor::init_outcome;
use crate::processor::metas_ok;
use crate::token::parsed_transferring;

verus! {

/// Derivation is deterministic: once initialization has accepted a storage
/// account for a mint, re-deriving the storage address from that mint always
/// reproduces exactly the accepted account's address — in particular, the
/// address the verification gate later demands.
pub proof fn lemma_rederivation_matches_initialization(
    pid: Seq<u8>,
    storage: AccountV,
    mint: AccountV,
    authority: AccountV,
)
    requires
        init_outcome(pid, storage, mint, authority) is Ok,
    ensures
        find_pda(storage_seeds(mint.key), pid) matches Some(p) && p.0 == storage.key,
{
}

/// Initializing twice for the same mint fails the second time with an
/// allocation conflict: the storage written by the first call is non-empty,
/// so the second call stops at the allocation check — and, by the
/// initialization contract, leaves the storage exactly as the first call
/// wrote it.
pub proof fn lemma_second_initialization_conflicts(
    pid: Seq<u8>,
    storage: AccountV,
    written: AccountV,
    mint: AccountV,
    authority: AccountV,
    gkn: Seq<u8>,
)
    requires
        init_outcome(pid, storage, mint, authority) is Ok,
        written.key == storage.key,
        written.data == encode_bytes(expected_metas(gkn)),
    ensures
        init_outcome(pid, written, mint, authority) == Err::<(), HookError>(
            HookError::AllocationConflict,
        ),
{
    assert(encode_bytes(expected_metas(gkn)).len() >= 8);
}

/// A transfer whose destination account is not flagged as mid-transfer is
/// rejected outright: the outcome is fixed before any descriptor is resolved
/// or any credential is read, whatever the rest of the accounts hold.
pub proof fn lemma_not_transferring_rejected(pid: Seq<u8>, accs: Seq<AccountV>, now: i64)
    requires
        accs.len() >= 5,
        parsed_transferring(accs[2].data) == Some(false),
    ensures
        execute_spec(pid, accs, now) is Err,
        parsed_transferring(accs[0].data) == Some(true) ==> execute_spec(pid, accs, now)
            == Err::<(), HookError>(HookError::PreconditionFailure),
{
}

/// Admission implies a complete check: when the verification gate returns
/// success, the descriptor list decoded, every descriptor matched its
/// account in order, and the credential named the destination under the
/// designated network and was active and unexpired at the given time.
pub proof fn lemma_admission_requires_valid_credential(pid: Seq<u8>, accs: Seq<AccountV>, now: i64)
    requires
        execute_spec(pid, accs, now) is Ok,
    ensures
        accs.len() >= 8,
        crate::codec::decode_spec(accs[4].data) matches Some(metas) && metas_ok(
            metas,
            account_keys(accs),
            pid,
        ),
        parsed_credential(accs[7].data) matches Some(c) && credential_valid(
            c,
            accs[2].key,
            accs[5].key,
            now,
        ),
{
}

} // verus!
