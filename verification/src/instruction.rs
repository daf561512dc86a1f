//! Instruction wire format and client-side instruction builders.
//!
//! An instruction is an eight-byte discriminator — the leading bytes of the
//! digest of a namespaced instruction name — followed by the instruction's
//! fields.  Unknown discriminators are a fatal malformed-input error.

use vstd::prelude::*;

use crate::HookError;
use crate::addr::Address;
use crate::addr::bytes_eq;
use crate::addr::find_pda;
use crate::addr::get_extra_account_metas_address;
use crate::addr::sha256;
use crate::addr::sha256_of;
use crate::addr::storage_seeds;
use crate::codec::list_disc;
use crate::codec::zero_bytes;
use crate::program_id_spec;
use vstd::string::StringSliceAdditionalSpecFns;

verus! {

/// The preimage whose digest identifies the initialization instruction.
pub open spec fn init_disc_preimage() -> Seq<u8> {
    "spl-transfer-hook-interface:initialize-extra-account-metas".spec_bytes()
}

/// The eight discriminator bytes of the initialization instruction.
pub open spec fn init_disc() -> Seq<u8> {
    sha256_of(init_disc_preimage()).take(8)
}

/// The value read from eight little-endian bytes.
pub open spec fn u64_from_le(s: Seq<u8>) -> int {
    s[0] + s[1] * 0x100 + s[2] * 0x1_0000 + s[3] * 0x100_0000 + s[4] * 0x1_0000_0000 + s[5]
        * 0x100_0000_0000 + s[6] * 0x1_0000_0000_0000 + s[7] * 0x100_0000_0000_0000
}

/// Reads an eight-byte little-endian value.
pub fn read_u64_le(data: &[u8], off: usize) -> (r: u64)
    requires
        off + 8 <= data@.len(),
    ensures
        r == u64_from_le(data@.subrange(off as int, off as int + 8)),
{
    let mut r: u64 = 0;
    r = r + (data[off] as u64);
    r = r + (data[off + 1] as u64) * 0x100;
    r = r + (data[off + 2] as u64) * 0x1_0000;
    r = r + (data[off + 3] as u64) * 0x100_0000;
    r = r + (data[off + 4] as u64) * 0x1_0000_0000;
    r = r + (data[off + 5] as u64) * 0x100_0000_0000;
    r = r + (data[off + 6] as u64) * 0x1_0000_0000_0000;
    r = r + (data[off + 7] as u64) * 0x100_0000_0000_0000;
    r
}

/// The instructions this program accepts.
#[derive(Clone, Debug, PartialEq, Eq)]
pub enum CivicTransferHookInstruction {
    /// Initializes the extra account metas for an asset.
    ///
    /// Accounts expected by this instruction:
    ///
    ///   0. `[w]` Account with extra account metas
    ///   1. `[]` Mint
    ///   2. `[s]` Mint authority
    ///   3. `[]` System program
    InitializeExtraAccountMetas {
        /// The gatekeeper network that this asset uses.  Recipients are
        /// required to hold a credential from this network.
        gatekeeper_network: Address,
    },
}

/// Carrier of the discriminator under which the initialization instruction
/// travels.
pub struct InitializeExtraAccountMetasInstruction;

impl InitializeExtraAccountMetasInstruction {
    /// The eight discriminator bytes of the initialization instruction.
    pub fn discriminator() -> (r: Vec<u8>)
        ensures
            r@ == init_disc(),
            r@.len() == 8,
    {
        let digest = sha256(
            "spl-transfer-hook-interface:initialize-extra-account-metas".as_bytes(),
        );
        let r = vstd::slice::slice_to_vec(vstd::slice::slice_subrange(digest.as_slice(), 0, 8));
        proof {
            assert(r@ =~= init_disc());
        }
        r
    }
}

/// What a byte buffer parses to as an initialization instruction: the
/// gatekeeper network, when the buffer carries the right discriminator and a
/// whole address.
pub open spec fn civic_unpack_spec(input: Seq<u8>) -> Option<Seq<u8>> {
    if input.len() >= 40 && input.take(8) == init_disc() {
        Some(input.subrange(8, 40))
    } else {
        None
    }
}

impl CivicTransferHookInstruction {
    /// Parses a byte buffer into an instruction.
    pub fn unpack(input: &[u8]) -> (r: Result<CivicTransferHookInstruction, HookError>)
        ensures
            match r {
                Ok(ix) => ix matches CivicTransferHookInstruction::InitializeExtraAccountMetas {
                    gatekeeper_network,
                } && civic_unpack_spec(input@) == Some(gatekeeper_network@),
                Err(e) => civic_unpack_spec(input@) is None && e == HookError::MalformedInput,
            },
    {
        let disc = InitializeExtraAccountMetasInstruction::discriminator();
        if input.len() < 8 {
            return Err(HookError::MalformedInput);
        }
        if !bytes_eq(vstd::slice::slice_subrange(input, 0, 8), disc.as_slice()) {
            proof {
                assert(input@.subrange(0, 8) =~= input@.take(8));
            }
            return Err(HookError::MalformedInput);
        }
        if input.len() < 40 {
            return Err(HookError::MalformedInput);
        }
        proof {
            assert(input@.subrange(0, 8) =~= input@.take(8));
        }
        let gatekeeper_network = Address::from_bytes(
            vstd::slice::slice_to_vec(vstd::slice::slice_subrange(input, 8, 40)),
        );
        Ok(CivicTransferHookInstruction::InitializeExtraAccountMetas { gatekeeper_network })
    }

    /// Packs an instruction into a byte buffer: the discriminator, then the
    /// gatekeeper network address.
    pub fn pack(&self) -> (r: Vec<u8>)
        ensures
            self matches CivicTransferHookInstruction::InitializeExtraAccountMetas {
                gatekeeper_network,
            } ==> r@ == init_disc() + gatekeeper_network@,
    {
        let mut buf = InitializeExtraAccountMetasInstruction::discriminator();
        match self {
            CivicTransferHookInstruction::InitializeExtraAccountMetas { gatekeeper_network } => {
                crate::codec::extend_bytes(&mut buf, gatekeeper_network.bytes.as_slice());
            },
        }
        buf
    }
}

/// One account a built instruction names, with its access flags.
pub struct AccountMeta {
    /// The account's address.
    pub pubkey: Address,
    /// Whether the account must sign.
    pub is_signer: bool,
    /// Whether the account must be writable.
    pub is_writable: bool,
}

/// A built instruction, ready for a client to submit: the program to invoke,
/// the accounts it touches, and its data.
pub struct Instruction {
    /// The program to invoke.
    pub program_id: Address,
    /// The accounts the instruction touches, in order.
    pub accounts: Vec<AccountMeta>,
    /// The instruction data.
    pub data: Vec<u8>,
}

/// The system program's id: thirty-two zero bytes.
pub open spec fn system_program_id_spec() -> Seq<u8> {
    zero_bytes(32)
}

/// The accounts of a built initialization instruction are the storage, the
/// mint, the signing authority, and the system program, in that order.
pub open spec fn init_accounts_ok(
    accounts: Seq<AccountMeta>,
    storage: Seq<u8>,
    mint: Seq<u8>,
    authority: Seq<u8>,
) -> bool {
    &&& accounts.len() == 4
    &&& accounts[0].pubkey@ == storage && accounts[0].is_signer == false && accounts[0].is_writable
        == true
    &&& accounts[1].pubkey@ == mint && accounts[1].is_signer == false && accounts[1].is_writable
        == false
    &&& accounts[2].pubkey@ == authority && accounts[2].is_signer == true
        && accounts[2].is_writable == false
    &&& accounts[3].pubkey@ == system_program_id_spec() && accounts[3].is_signer == false
        && accounts[3].is_writable == false
}

/// Builds an initialization instruction from explicitly supplied addresses.
pub fn initialize_extra_account_metas(
    program_id: &Address,
    extra_account_metas_pubkey: &Address,
    mint_pubkey: &Address,
    authority_pubkey: &Address,
    gatekeeper_network: &Address,
) -> (r: Instruction)
    ensures
        r.program_id@ == program_id@,
        r.data@ == init_disc() + gatekeeper_network@,
        init_accounts_ok(
            r.accounts@,
            extra_account_metas_pubkey@,
            mint_pubkey@,
            authority_pubkey@,
        ),
{
    let ix = CivicTransferHookInstruction::InitializeExtraAccountMetas {
        gatekeeper_network: gatekeeper_network.dup(),
    };
    let data = ix.pack();
    let mut zeros: Vec<u8> = Vec::new();
    let mut z: usize = 0;
    while z < 32
        invariant
            z <= 32,
            zeros@ =~= zero_bytes(z as int),
        decreases 32 - z,
    {
        zeros.push(0);
        proof {
            assert(zeros@ =~= zero_bytes(z + 1));
        }
        z += 1;
    }
    let mut accounts: Vec<AccountMeta> = Vec::new();
    accounts.push(
        AccountMeta { pubkey: extra_account_metas_pubkey.dup(), is_signer: false, is_writable: true },
    );
    accounts.push(AccountMeta { pubkey: mint_pubkey.dup(), is_signer: false, is_writable: false });
    accounts.push(
        AccountMeta { pubkey: authority_pubkey.dup(), is_signer: true, is_writable: false },
    );
    accounts.push(
        AccountMeta { pubkey: Address { bytes: zeros }, is_signer: false, is_writable: false },
    );
    Instruction { program_id: program_id.dup(), accounts, data }
}

/// Builds an initialization instruction for a mint under this program,
/// deriving the storage address itself.  Fails when no bump value yields a
/// valid derivation for the mint.
pub fn initialize_extra_account_meta(
    mint: &Address,
    mint_authority: &Address,
    gatekeeper_network: &Address,
) -> (r: Result<Instruction, HookError>)
    requires
        mint.wf(),
    ensures
        match r {
            Ok(ix) => {
                &&& ix.program_id@ == program_id_spec()
                &&& ix.data@ == init_disc() + gatekeeper_network@
                &&& find_pda(storage_seeds(mint@), program_id_spec()) matches Some(p)
                    && init_accounts_ok(ix.accounts@, p.0, mint@, mint_authority@)
            },
            Err(e) => e == HookError::PreconditionFailure && find_pda(
                storage_seeds(mint@),
                program_id_spec(),
            ) is None,
        },
{
    let storage = match get_extra_account_metas_address(mint) {
        Ok(a) => a,
        Err(e) => {
            return Err(e);
        },
    };
    let program = crate::addr::id();
    Ok(
        initialize_extra_account_metas(
            &program,
            &storage,
            mint,
            mint_authority,
            gatekeeper_network,
        ),
    )
}

/// What a byte buffer parses to at the instruction-dispatch boundary.
pub enum InstructionV {
    /// Run the verification gate for a transfer of `amount`.
    Execute { amount: u64 },
    /// Initialize the descriptor storage under the given gatekeeper network.
    InitializeExtraAccountMetas { gatekeeper_network: Seq<u8> },
}

/// Parses a byte buffer at the dispatch boundary: an execute instruction
/// carries an eight-byte amount; an initialization instruction carries a
/// gatekeeper network address; anything else is rejected.
pub open spec fn unpack_spec(input: Seq<u8>) -> Option<InstructionV> {
    if input.len() >= 8 && input.take(8) == list_disc() {
        if input.len() >= 16 {
            Some(InstructionV::Execute { amount: u64_from_le(input.subrange(8, 16)) as u64 })
        } else {
            None
        }
    } else {
        match civic_unpack_spec(input) {
            Some(gkn) => Some(InstructionV::InitializeExtraAccountMetas { gatekeeper_network: gkn }),
            None => None,
        }
    }
}

} // verus!
