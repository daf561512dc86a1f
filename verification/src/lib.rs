//! A transfer-hook program core: before a transfer of a tokenized asset
//! completes, the destination account must hold a valid credential issued by a
//! designated gatekeeper network.  The library covers the deterministic
//! derivation of the descriptor-storage address, the binary codec for the
//! extra-account descriptor list, the one-time initialization protocol that
//! writes that list, and the per-transfer verification gate that checks the
//! supplied accounts and the credential.

pub mod addr;
pub mod codec;
pub mod gateway;
pub mod instruction;
pub mod laws;
pub mod processor;
pub mod token;

use vstd::prelude::*;

verus! {

/// The failure taxonomy of the protocol.  Every failure aborts the enclosing
/// operation; none is retried internally.
#[derive(Clone, Copy, Debug, PartialEq, Eq, Structural)]
pub enum HookError {
    /// Undersized or unparseable encoded bytes or instruction data.
    MalformedInput,
    /// Wrong signer, wrong authority, wrong derived address, missing mint
    /// authority, or an account outside a genuine transfer.
    PreconditionFailure,
    /// A supplied account does not match the expected address at its position.
    ResolutionMismatch,
    /// The credential record is missing, misowned, names the wrong holder or
    /// authority, or is expired or revoked.
    CredentialInvalid,
    /// The descriptor storage already exists.
    AllocationConflict,
}

/// Identity of this program: the owner namespace under which the
/// descriptor-storage address is derived.
pub open spec fn program_id_spec() -> Seq<u8> {
    seq![
        9u8, 49, 228, 44, 223, 250, 25, 20, 15, 104, 173, 121, 116, 47, 159, 195,
        223, 155, 23, 24, 64, 103, 168, 56, 35, 77, 54, 244, 186, 233, 1, 193,
    ]
}

/// The program that owns and mutates credential records; this program only
/// ever reads accounts owned by it.
pub open spec fn gateway_program_id_spec() -> Seq<u8> {
    seq![
        10u8, 35, 248, 193, 156, 10, 77, 255, 245, 245, 47, 38, 174, 200, 84, 58,
        98, 42, 12, 197, 198, 30, 81, 25, 62, 157, 73, 19, 220, 196, 171, 94,
    ]
}

} // verus!
