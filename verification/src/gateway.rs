//! Credential records ("gateway tokens") and their validity judgment.
//!
//! A credential record is issued to a holder by a gatekeeper network and is
//! owned and mutated exclusively by the credential-issuer program; this
//! library only reads it.  A record is judged valid for a transfer when it
//! names the expected holder and network, is active, and has not expired.

use vstd::prelude::*;

use crate::addr::Address;
use solana_gateway::state::GatewayToken;
use solana_gateway::state::GatewayTokenState;

verus! {

/// The validity state carried by a credential record.
#[derive(Clone, Copy, Debug, PartialEq, Eq, Structural)]
pub enum CredentialState {
    /// Valid, non-frozen.  An active record may still have passed its expiry.
    Active,
    /// Temporarily paused.
    Frozen,
    /// Revoked by the gatekeeper network.
    Revoked,
}

/// What this library reads from a credential record.
pub struct CredentialRecord {
    /// The account the credential was assigned to.
    pub holder: Address,
    /// The gatekeeper network that issued it.
    pub network: Address,
    /// Its validity state.
    pub state: CredentialState,
    /// Its expiry as a unix timestamp, if it expires at all.
    pub expire_time: Option<i64>,
}

/// The numeric code of a validity state, as the contracts speak of it.
pub open spec fn state_code(s: CredentialState) -> u8 {
    match s {
        CredentialState::Active => 0u8,
        CredentialState::Frozen => 1u8,
        CredentialState::Revoked => 2u8,
    }
}

/// What parsing a credential record out of raw account bytes yields: the
/// holder, the network, the state code and the expiry, or nothing when the
/// bytes do not parse.
pub uninterp spec fn parsed_credential(data: Seq<u8>) -> Option<
    (Seq<u8>, Seq<u8>, u8, Option<i64>),
>;

/// Relies on `solana_gateway::program_borsh::try_from_slice_incomplete` for
/// `GatewayToken`: what the bytes parse to depends on the bytes alone; the
/// holder and network fields are 32-byte addresses.
#[verifier::external_body]
pub fn parse_credential(data: &[u8]) -> (r: Option<CredentialRecord>)
    ensures
        match r {
            Some(c) => parsed_credential(data@) == Some(
                (c.holder@, c.network@, state_code(c.state), c.expire_time),
            ) && c.holder.wf() && c.network.wf(),
            None => parsed_credential(data@) is None,
        },
{
    match solana_gateway::program_borsh::try_from_slice_incomplete::<GatewayToken>(data) {
        Ok(t) => Some(
            CredentialRecord {
                holder: Address { bytes: t.owner_wallet.to_bytes().to_vec() },
                network: Address { bytes: t.gatekeeper_network.to_bytes().to_vec() },
                state: match t.state {
                    GatewayTokenState::Active => CredentialState::Active,
                    GatewayTokenState::Frozen => CredentialState::Frozen,
                    GatewayTokenState::Revoked => CredentialState::Revoked,
                },
                expire_time: t.expire_time,
            },
        ),
        Err(_) => None,
    }
}

/// When a parsed credential is valid: it names the expected holder, was
/// issued by the expected network, is active, and has not expired at `now`.
pub open spec fn credential_valid(
    cred: (Seq<u8>, Seq<u8>, u8, Option<i64>),
    expected_holder: Seq<u8>,
    expected_network: Seq<u8>,
    now: i64,
) -> bool {
    &&& cred.0 == expected_holder
    &&& cred.1 == expected_network
    &&& cred.2 == 0
    &&& match cred.3 {
        Some(t) => now <= t,
        None => true,
    }
}

impl CredentialRecord {
    /// Judges this record against the expected holder and network at the
    /// given time: valid only when the holder matches, the network matches,
    /// the state is active, and the record has not expired.
    pub fn check(&self, expected_holder: &Address, expected_network: &Address, now: i64) -> (r:
        bool)
        ensures
            r == credential_valid(
                (self.holder@, self.network@, state_code(self.state), self.expire_time),
                expected_holder@,
                expected_network@,
                now,
            ),
    {
        if !self.holder.eq_addr(expected_holder) {
            return false;
        }
        if !self.network.eq_addr(expected_network) {
            return false;
        }
        if !matches!(self.state, CredentialState::Active) {
            return false;
        }
        match self.expire_time {
            Some(t) => now <= t,
            None => true,
        }
    }
}

} // verus!
