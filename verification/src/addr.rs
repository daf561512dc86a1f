//! Addresses and deterministic program-derived address (PDA) computation.
//!
//! An [`Address`] is a 32-byte account address held as plain bytes.  The
//! descriptor-storage address for an asset is derived from the namespace
//! literal `"extra-account-metas"` and the asset's mint address, under this
//! program's id.

use vstd::prelude::*;

use crate::HookError;
use crate::program_id_spec;
use vstd::string::StringSliceAdditionalSpecFns;

verus! {

/// A 32-byte account address.
#[derive(Clone, Debug, PartialEq, Eq)]
pub struct Address {
    /// The raw bytes of the address.
    pub bytes: Vec<u8>,
}

impl View for Address {
    type V = Seq<u8>;

    open spec fn view(&self) -> Seq<u8> {
        self.bytes@
    }
}

impl DeepView for Address {
    type V = Seq<u8>;

    open spec fn deep_view(&self) -> Seq<u8> {
        self.bytes@
    }
}

impl Address {
    /// A well-formed address holds exactly 32 bytes.
    pub open spec fn wf(&self) -> bool {
        self@.len() == 32
    }

    /// Builds an address from its 32 raw bytes.
    pub fn from_bytes(bytes: Vec<u8>) -> (r: Address)
        requires
            bytes@.len() == 32,
        ensures
            r@ == bytes@,
            r.wf(),
    {
        Address { bytes }
    }

    /// Copies an address.
    pub fn dup(&self) -> (r: Address)
        ensures
            r@ == self@,
    {
        Address { bytes: vstd::slice::slice_to_vec(self.bytes.as_slice()) }
    }

    /// Compares two addresses by value.
    pub fn eq_addr(&self, other: &Address) -> (r: bool)
        ensures
            r == (self@ == other@),
    {
        bytes_eq(self.bytes.as_slice(), other.bytes.as_slice())
    }
}

/// Compares two byte slices for equality of contents.
pub fn bytes_eq(a: &[u8], b: &[u8]) -> (r: bool)
    ensures
        r == (a@ == b@),
{
    if a.len() != b.len() {
        proof {
            assert(a@.len() != b@.len());
        }
        return false;
    }
    let mut i: usize = 0;
    while i < a.len()
        invariant
            i <= a@.len(),
            a@.len() == b@.len(),
            forall|j: int| 0 <= j < i ==> a@[j] == b@[j],
        decreases a@.len() - i,
    {
        if a[i] != b[i] {
            return false;
        }
        i += 1;
    }
    proof {
        assert(a@ =~= b@);
    }
    true
}

/// What a SHA-256 digest holds for given input bytes.
pub uninterp spec fn sha256_of(data: Seq<u8>) -> Seq<u8>;

/// Relies on `solana_program::hash::hash` (SHA-256): the 32-byte digest is a
/// function of the input bytes alone.
#[verifier::external_body]
pub fn sha256(data: &[u8]) -> (r: Vec<u8>)
    ensures
        r@ == sha256_of(data@),
        r@.len() == 32,
{
    solana_program::hash::hash(data).to_bytes().to_vec()
}

/// What the bump-seed search yields for given seeds under a given owner
/// program: the derived address and its bump, or nothing when no bump value
/// avoids the reserved address space.
pub uninterp spec fn find_pda(seeds: Seq<Seq<u8>>, program_id: Seq<u8>) -> Option<(Seq<u8>, u8)>;

/// Relies on `Pubkey::try_find_program_address`: the outcome of the bump-seed
/// search (255 down to 0) is a function of the seeds and the owner program id
/// alone; a derived address is 32 bytes.
#[verifier::external_body]
pub fn try_find_pda(seeds: &Vec<Vec<u8>>, program_id: &Address) -> (r: Option<(Address, u8)>)
    requires
        program_id.wf(),
    ensures
        match r {
            Some(p) => find_pda(seeds.deep_view(), program_id@) == Some((p.0@, p.1)) && p.0.wf(),
            None => find_pda(seeds.deep_view(), program_id@) is None,
        },
{
    let refs: Vec<&[u8]> = seeds.iter().map(|s| s.as_slice()).collect();
    let pid = solana_program::pubkey::Pubkey::new_from_array(
        program_id.bytes.as_slice().try_into().unwrap(),
    );
    solana_program::pubkey::Pubkey::try_find_program_address(&refs, &pid)
        .map(|(a, bump)| (Address { bytes: a.to_bytes().to_vec() }, bump))
}

/// The seed list from which the descriptor-storage address for a mint is
/// derived: the namespace literal, then the mint address.
pub open spec fn storage_seeds(mint: Seq<u8>) -> Seq<Seq<u8>> {
    seq!["extra-account-metas".spec_bytes(), mint]
}

/// Derives the descriptor-storage address and bump for a mint under an owner
/// program.  Fails when no bump value yields a valid derivation.
pub fn get_extra_account_metas_address_and_bump_seed(mint: &Address, program_id: &Address) -> (r:
    Result<(Address, u8), HookError>)
    requires
        mint.wf(),
        program_id.wf(),
    ensures
        match r {
            Ok(p) => find_pda(storage_seeds(mint@), program_id@) == Some((p.0@, p.1)) && p.0.wf(),
            Err(e) => e == HookError::PreconditionFailure && find_pda(
                storage_seeds(mint@),
                program_id@,
            ) is None,
        },
{
    let mut seeds: Vec<Vec<u8>> = Vec::new();
    seeds.push(vstd::slice::slice_to_vec("extra-account-metas".as_bytes()));
    seeds.push(vstd::slice::slice_to_vec(mint.bytes.as_slice()));
    proof {
        assert(seeds.deep_view() =~~= storage_seeds(mint@));
    }
    match try_find_pda(&seeds, program_id) {
        Some(p) => Ok(p),
        None => Err(HookError::PreconditionFailure),
    }
}

/// This program's id.
pub fn id() -> (r: Address)
    ensures
        r@ == program_id_spec(),
        r.wf(),
{
    let a: [u8; 32] = [
        9, 49, 228, 44, 223, 250, 25, 20, 15, 104, 173, 121, 116, 47, 159, 195, 223, 155, 23, 24,
        64, 103, 168, 56, 35, 77, 54, 244, 186, 233, 1, 193,
    ];
    let v = vstd::slice::slice_to_vec(a.as_slice());
    proof {
        assert(v@ =~= program_id_spec());
    }
    Address { bytes: v }
}

/// The credential-issuer program's id.
pub fn gateway_program_id() -> (r: Address)
    ensures
        r@ == crate::gateway_program_id_spec(),
        r.wf(),
{
    let a: [u8; 32] = [
        10, 35, 248, 193, 156, 10, 77, 255, 245, 245, 47, 38, 174, 200, 84, 58, 98, 42, 12, 197,
        198, 30, 81, 25, 62, 157, 73, 19, 220, 196, 171, 94,
    ];
    let v = vstd::slice::slice_to_vec(a.as_slice());
    proof {
        assert(v@ =~= crate::gateway_program_id_spec());
    }
    Address { bytes: v }
}

/// The descriptor-storage address for a mint under this program's id.
pub fn get_extra_account_metas_address(mint: &Address) -> (r: Result<Address, HookError>)
    requires
        mint.wf(),
    ensures
        match r {
            Ok(a) => find_pda(storage_seeds(mint@), program_id_spec()) matches Some(p) && p.0 == a@
                && a.wf(),
            Err(e) => e == HookError::PreconditionFailure && find_pda(
                storage_seeds(mint@),
                program_id_spec(),
            ) is None,
        },
{
    let program = id();
    match get_extra_account_metas_address_and_bump_seed(mint, &program) {
        Ok(p) => Ok(p.0),
        Err(e) => Err(e),
    }
}

} // verus!
