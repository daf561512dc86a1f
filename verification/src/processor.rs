//! The two protocol operations: one-time, authority-gated initialization of
//! the descriptor storage for an asset, and the per-transfer verification
//! gate that resolves the stored descriptors against the supplied accounts
//! and judges the destination's credential.

use vstd::prelude::*;

use crate::HookError;
use crate::addr::Address;
use crate::addr::bytes_eq;
use crate::addr::find_pda;
use crate::addr::get_extra_account_metas_address_and_bump_seed;
use crate::addr::storage_seeds;
use crate::codec::ExtraAccountMeta;
use crate::codec::MetaV;
use crate::codec::Seed;
use crate::codec::SeedV;
use crate::codec::decode;
use crate::codec::decode_spec;
use crate::codec::encode;
use crate::codec::encode_bytes;
use crate::codec::seeds_bytes;
use crate::codec::seed_bytes;
use crate::codec::wf_metas;
use crate::codec::wf_seeds;
use crate::codec::zero_bytes;
use crate::gateway::credential_valid;
use crate::gateway::parse_credential;
use crate::gateway::parsed_credential;
use crate::gateway_program_id_spec;
use crate::token::mint_authority_from;
use crate::token::parsed_mint_authority;
use crate::token::parsed_transferring;
use crate::token::transferring_flag;

verus! {

/// The model of one account as the host hands it to this program: its
/// address, its owner program, its raw data, and whether it signed.
pub struct AccountRecord {
    /// The account's address.
    pub key: Address,
    /// The program that owns the account.
    pub owner: Address,
    /// The account's raw data.
    pub data: Vec<u8>,
    /// Whether the account signed the enclosing transaction.
    pub is_signer: bool,
}

/// The mathematical value of an [`AccountRecord`].
pub struct AccountV {
    /// The account's address.
    pub key: Seq<u8>,
    /// The program that owns the account.
    pub owner: Seq<u8>,
    /// The account's raw data.
    pub data: Seq<u8>,
    /// Whether the account signed the enclosing transaction.
    pub is_signer: bool,
}

impl View for AccountRecord {
    type V = AccountV;

    open spec fn view(&self) -> AccountV {
        AccountV {
            key: self.key@,
            owner: self.owner@,
            data: self.data@,
            is_signer: self.is_signer,
        }
    }
}

impl DeepView for AccountRecord {
    type V = AccountV;

    open spec fn deep_view(&self) -> AccountV {
        self.view()
    }
}

impl AccountRecord {
    /// A well-formed account has 32-byte key and owner addresses.
    pub open spec fn wf(&self) -> bool {
        self.key@.len() == 32 && self.owner@.len() == 32
    }

    /// Copies an account record.
    pub fn dup(&self) -> (r: AccountRecord)
        ensures
            r@ == self@,
    {
        AccountRecord {
            key: self.key.dup(),
            owner: self.owner.dup(),
            data: vstd::slice::slice_to_vec(self.data.as_slice()),
            is_signer: self.is_signer,
        }
    }
}

/// Resolves one seed against the currently known account keys.
pub open spec fn resolve_seed_spec(s: SeedV, keys: Seq<Seq<u8>>) -> Option<Seq<u8>> {
    match s {
        SeedV::Literal { bytes } => Some(bytes),
        SeedV::AccountKey { index } => if (index as int) < keys.len() {
            Some(keys[index as int])
        } else {
            None
        },
    }
}

/// Resolves a whole recipe, in order; nothing if any seed fails.
pub open spec fn resolve_seeds_spec(ss: Seq<SeedV>, keys: Seq<Seq<u8>>) -> Option<Seq<Seq<u8>>> {
    if forall|i: int| 0 <= i < ss.len() ==> resolve_seed_spec(#[trigger] ss[i], keys) is Some {
        Some(Seq::new(ss.len(), |i: int| resolve_seed_spec(ss[i], keys)->Some_0))
    } else {
        None
    }
}

/// The address one descriptor requires, against the known keys and the
/// invoked program.
pub open spec fn expected_key_spec(m: MetaV, keys: Seq<Seq<u8>>, pid: Seq<u8>) -> Option<Seq<u8>> {
    match m {
        MetaV::Fixed { address, .. } => Some(address),
        MetaV::ProgramDerived { seeds, .. } => match resolve_seeds_spec(seeds, keys) {
            Some(sv) => match find_pda(sv, pid) {
                Some(p) => Some(p.0),
                None => None,
            },
            None => None,
        },
        MetaV::ExternalDerived { program_index, seeds, .. } => if (program_index as int)
            < keys.len() {
            match resolve_seeds_spec(seeds, keys) {
                Some(sv) => match find_pda(sv, keys[program_index as int]) {
                    Some(p) => Some(p.0),
                    None => None,
                },
                None => None,
            }
        } else {
            None
        },
    }
}

/// How many supplied keys are known when descriptor `i` is resolved: the
/// five base accounts plus the extras already resolved before it.
pub open spec fn known_len(total: int, i: int) -> int {
    if 5 + i <= total {
        5 + i
    } else {
        total
    }
}

/// Descriptor `i` is satisfied: its expected address resolves, and the
/// account supplied at its position carries exactly that address.
pub open spec fn meta_ok(m: MetaV, i: int, keys: Seq<Seq<u8>>, pid: Seq<u8>) -> bool {
    match expected_key_spec(m, keys.take(known_len(keys.len() as int, i)), pid) {
        Some(a) => 5 + i < keys.len() && keys[5 + i] == a,
        None => false,
    }
}

/// Every descriptor of the list is satisfied, in stored order.
pub open spec fn metas_ok(metas: Seq<MetaV>, keys: Seq<Seq<u8>>, pid: Seq<u8>) -> bool {
    forall|i: int| 0 <= i < metas.len() ==> meta_ok(#[trigger] metas[i], i, keys, pid)
}

/// Resolves a recipe against the first `known` supplied keys.
pub fn resolve_seeds(seeds: &Vec<Seed>, keys: &Vec<Address>, known: usize) -> (r: Option<
    Vec<Vec<u8>>,
>)
    requires
        known <= keys@.len(),
    ensures
        match r {
            Some(v) => resolve_seeds_spec(
                seeds.deep_view(),
                keys.deep_view().take(known as int),
            ) == Some(v.deep_view()),
            None => resolve_seeds_spec(
                seeds.deep_view(),
                keys.deep_view().take(known as int),
            ) is None,
        },
{
    let ghost dv = seeds.deep_view();
    let ghost kk = keys.deep_view().take(known as int);
    let mut acc: Vec<Vec<u8>> = Vec::new();
    let mut i: usize = 0;
    while i < seeds.len()
        invariant
            i <= seeds@.len(),
            known <= keys@.len(),
            dv == seeds.deep_view(),
            kk == keys.deep_view().take(known as int),
            dv.len() == seeds@.len(),
            forall|j: int| 0 <= j < dv.len() ==> dv[j] == seeds@[j]@,
            kk.len() == known,
            forall|j: int| 0 <= j < known ==> kk[j] == keys@[j]@,
            acc.deep_view().len() == i as int,
            forall|j: int|
                0 <= j < i ==> resolve_seed_spec(dv[j], kk) == Some(
                    #[trigger] acc.deep_view()[j],
                ),
        decreases seeds@.len() - i,
    {
        match &seeds[i] {
            Seed::Literal { bytes } => {
                let ghost pre = acc.deep_view();
                let b = vstd::slice::slice_to_vec(bytes.as_slice());
                let ghost bv = b@;
                acc.push(b);
                proof {
                    assert(acc.deep_view() =~~= pre.push(bv));
                    assert(resolve_seed_spec(dv[i as int], kk) == Some(bv));
                }
            },
            Seed::AccountKey { index } => {
                let idx = *index as usize;
                if idx >= known {
                    proof {
                        assert(resolve_seed_spec(dv[i as int], kk) is None);
                        assert(resolve_seeds_spec(dv, kk) is None);
                    }
                    return None;
                }
                let ghost pre = acc.deep_view();
                let b = vstd::slice::slice_to_vec(keys[idx].bytes.as_slice());
                let ghost bv = b@;
                acc.push(b);
                proof {
                    assert(bv == kk[idx as int]);
                    assert(acc.deep_view() =~~= pre.push(bv));
                    assert(resolve_seed_spec(dv[i as int], kk) == Some(bv));
                }
            },
        }
        i += 1;
    }
    proof {
        assert forall|j: int| 0 <= j < dv.len() implies resolve_seed_spec(
            #[trigger] dv[j],
            kk,
        ) is Some by {
            assert(resolve_seed_spec(dv[j], kk) == Some(acc.deep_view()[j]));
        }
        assert(resolve_seeds_spec(dv, kk) is Some);
        assert(resolve_seeds_spec(dv, kk)->Some_0 =~~= acc.deep_view());
    }
    Some(acc)
}

/// Computes the address one descriptor requires, with the first `known`
/// supplied keys visible to its recipe.
pub fn expected_key(
    m: &ExtraAccountMeta,
    keys: &Vec<Address>,
    known: usize,
    program_id: &Address,
) -> (r: Option<Address>)
    requires
        known <= keys@.len(),
        program_id.wf(),
        forall|i: int| 0 <= i < keys@.len() ==> (#[trigger] keys@[i]).wf(),
    ensures
        match r {
            Some(a) => expected_key_spec(
                m@,
                keys.deep_view().take(known as int),
                program_id@,
            ) == Some(a@),
            None => expected_key_spec(
                m@,
                keys.deep_view().take(known as int),
                program_id@,
            ) is None,
        },
{
    let ghost kk = keys.deep_view().take(known as int);
    match m {
        ExtraAccountMeta::Fixed { address, .. } => Some(address.dup()),
        ExtraAccountMeta::ProgramDerived { seeds, .. } => {
            match resolve_seeds(seeds, keys, known) {
                Some(sv) => match crate::addr::try_find_pda(&sv, program_id) {
                    Some(p) => Some(p.0),
                    None => None,
                },
                None => None,
            }
        },
        ExtraAccountMeta::ExternalDerived { program_index, seeds, .. } => {
            let idx = *program_index as usize;
            if idx >= known {
                proof {
                    assert(expected_key_spec(m@, kk, program_id@) is None);
                }
                return None;
            }
            match resolve_seeds(seeds, keys, known) {
                Some(sv) => match crate::addr::try_find_pda(&sv, &keys[idx]) {
                    Some(p) => Some(p.0),
                    None => None,
                },
                None => None,
            }
        },
    }
}

/// Checks each stored descriptor, in order, against the supplied account
/// keys: the account at each descriptor's position must carry exactly the
/// address the descriptor requires.  The first mismatch rejects the whole
/// list.
pub fn check_account_keys(
    metas: &Vec<ExtraAccountMeta>,
    keys: &Vec<Address>,
    program_id: &Address,
) -> (r: Result<(), HookError>)
    requires
        program_id.wf(),
        forall|i: int| 0 <= i < keys@.len() ==> (#[trigger] keys@[i]).wf(),
    ensures
        match r {
            Ok(u) => metas_ok(metas.deep_view(), keys.deep_view(), program_id@),
            Err(e) => !metas_ok(metas.deep_view(), keys.deep_view(), program_id@) && e
                == HookError::ResolutionMismatch,
        },
{
    let ghost dv = metas.deep_view();
    let ghost kk = keys.deep_view();
    let mut i: usize = 0;
    while i < metas.len()
        invariant
            i <= metas@.len(),
            dv == metas.deep_view(),
            kk == keys.deep_view(),
            dv.len() == metas@.len(),
            forall|j: int| 0 <= j < dv.len() ==> dv[j] == metas@[j]@,
            kk.len() == keys@.len(),
            forall|j: int| 0 <= j < kk.len() ==> kk[j] == keys@[j]@,
            program_id.wf(),
            forall|j: int| 0 <= j < keys@.len() ==> (#[trigger] keys@[j]).wf(),
            forall|j: int| 0 <= j < i ==> meta_ok(#[trigger] dv[j], j, kk, program_id@),
        decreases metas@.len() - i,
    {
        let known: usize = if keys.len() >= 5 && i <= keys.len() - 5 {
            5 + i
        } else {
            keys.len()
        };
        proof {
            assert(known as int == known_len(kk.len() as int, i as int));
        }
        match expected_key(&metas[i], keys, known, program_id) {
            Some(a) => {
                if keys.len() > 5 && i < keys.len() - 5 {
                    if !a.eq_addr(&keys[5 + i]) {
                        proof {
                            assert(!meta_ok(dv[i as int], i as int, kk, program_id@));
                        }
                        return Err(HookError::ResolutionMismatch);
                    }
                } else {
                    proof {
                        assert(!(5 + i < kk.len()));
                        assert(!meta_ok(dv[i as int], i as int, kk, program_id@));
                    }
                    return Err(HookError::ResolutionMismatch);
                }
            },
            None => {
                proof {
                    assert(!meta_ok(dv[i as int], i as int, kk, program_id@));
                }
                return Err(HookError::ResolutionMismatch);
            },
        }
        i += 1;
    }
    Ok(())
}

/// The supplied account keys, in order.
pub open spec fn account_keys(accs: Seq<AccountV>) -> Seq<Seq<u8>> {
    Seq::new(accs.len(), |i: int| accs[i].key)
}

/// The verification gate's decision for one transfer: the base accounts
/// must be present, both source and destination must be mid-transfer, the
/// storage account must sit at the derived address, its content must decode,
/// every descriptor must be satisfied in order, and the destination's
/// credential must be valid at `now`.
pub open spec fn execute_spec(pid: Seq<u8>, accs: Seq<AccountV>, now: i64) -> Result<
    (),
    HookError,
> {
    if accs.len() < 5 {
        Err(HookError::PreconditionFailure)
    } else {
        match parsed_transferring(accs[0].data) {
            None => Err(HookError::MalformedInput),
            Some(false) => Err(HookError::PreconditionFailure),
            Some(true) => match parsed_transferring(accs[2].data) {
                None => Err(HookError::MalformedInput),
                Some(false) => Err(HookError::PreconditionFailure),
                Some(true) => match find_pda(storage_seeds(accs[1].key), pid) {
                    None => Err(HookError::PreconditionFailure),
                    Some(p) => if p.0 != accs[4].key {
                        Err(HookError::PreconditionFailure)
                    } else {
                        match decode_spec(accs[4].data) {
                            None => Err(HookError::MalformedInput),
                            Some(metas) => if !metas_ok(metas, account_keys(accs), pid) {
                                Err(HookError::ResolutionMismatch)
                            } else if accs.len() < 8 {
                                Err(HookError::CredentialInvalid)
                            } else if accs[7].owner != gateway_program_id_spec() {
                                Err(HookError::CredentialInvalid)
                            } else {
                                match parsed_credential(accs[7].data) {
                                    None => Err(HookError::CredentialInvalid),
                                    Some(c) => if credential_valid(
                                        c,
                                        accs[2].key,
                                        accs[5].key,
                                        now,
                                    ) {
                                        Ok(())
                                    } else {
                                        Err(HookError::CredentialInvalid)
                                    },
                                }
                            },
                        }
                    },
                },
            },
        }
    }
}

/// Runs the verification gate for one transfer.  The amount rides along in
/// the instruction but plays no part in descriptor resolution here; the
/// current time judges credential expiry.
pub fn process_execute(
    program_id: &Address,
    accounts: &Vec<AccountRecord>,
    amount: u64,
    now: i64,
) -> (r: Result<(), HookError>)
    requires
        program_id.wf(),
        forall|i: int| 0 <= i < accounts@.len() ==> (#[trigger] accounts@[i]).wf(),
    ensures
        r == execute_spec(program_id@, accounts.deep_view(), now),
{
    let ghost av = accounts.deep_view();
    proof {
        assert(av.len() == accounts@.len());
        assert(forall|j: int| 0 <= j < av.len() ==> av[j] == accounts@[j]@);
    }
    if accounts.len() < 5 {
        return Err(HookError::PreconditionFailure);
    }
    match transferring_flag(accounts[0].data.as_slice()) {
        None => {
            return Err(HookError::MalformedInput);
        },
        Some(false) => {
            return Err(HookError::PreconditionFailure);
        },
        Some(true) => {},
    }
    match transferring_flag(accounts[2].data.as_slice()) {
        None => {
            return Err(HookError::MalformedInput);
        },
        Some(false) => {
            return Err(HookError::PreconditionFailure);
        },
        Some(true) => {},
    }
    let expected = match get_extra_account_metas_address_and_bump_seed(
        &accounts[1].key,
        program_id,
    ) {
        Ok(p) => p.0,
        Err(_) => {
            return Err(HookError::PreconditionFailure);
        },
    };
    if !expected.eq_addr(&accounts[4].key) {
        return Err(HookError::PreconditionFailure);
    }
    let metas = match decode(accounts[4].data.as_slice()) {
        Ok(m) => m,
        Err(_) => {
            return Err(HookError::MalformedInput);
        },
    };
    let mut keys: Vec<Address> = Vec::new();
    let mut i: usize = 0;
    while i < accounts.len()
        invariant
            i <= accounts@.len(),
            av == accounts.deep_view(),
            av.len() == accounts@.len(),
            forall|j: int| 0 <= j < av.len() ==> av[j] == accounts@[j]@,
            forall|j: int| 0 <= j < accounts@.len() ==> (#[trigger] accounts@[j]).wf(),
            keys@.len() == i,
            forall|j: int| 0 <= j < i ==> (#[trigger] keys@[j])@ == av[j].key,
            forall|j: int| 0 <= j < i ==> (#[trigger] keys@[j]).wf(),
        decreases accounts@.len() - i,
    {
        keys.push(accounts[i].key.dup());
        i += 1;
    }
    proof {
        assert(keys.deep_view() =~~= account_keys(av));
    }
    match check_account_keys(&metas, &keys, program_id) {
        Ok(_) => {},
        Err(_) => {
            return Err(HookError::ResolutionMismatch);
        },
    }
    if accounts.len() < 8 {
        return Err(HookError::CredentialInvalid);
    }
    let gw = crate::addr::gateway_program_id();
    if !accounts[7].owner.eq_addr(&gw) {
        return Err(HookError::CredentialInvalid);
    }
    let cred = match parse_credential(accounts[7].data.as_slice()) {
        Some(c) => c,
        None => {
            return Err(HookError::CredentialInvalid);
        },
    };
    if cred.check(&accounts[2].key, &accounts[5].key, now) {
        let _ = amount;
        Ok(())
    } else {
        Err(HookError::CredentialInvalid)
    }
}

/// The storage account is already in use: it holds data.
pub open spec fn allocated(storage: AccountV) -> bool {
    storage.data.len() != 0
}

/// The ASCII bytes of the credential-tag seed literal.
pub open spec fn gateway_seed() -> Seq<u8> {
    seq![103u8, 97, 116, 101, 119, 97, 121]
}

/// The recipe of the externally derived credential descriptor: the
/// destination account's address, the credential-tag literal, a zero
/// configuration value, and the gatekeeper network's address.
pub open spec fn credential_seed_recipe() -> Seq<SeedV> {
    seq![
        SeedV::AccountKey { index: 2 },
        SeedV::Literal { bytes: gateway_seed() },
        SeedV::Literal { bytes: zero_bytes(8) },
        SeedV::AccountKey { index: 5 },
    ]
}

/// The three descriptors written at initialization: the gatekeeper network,
/// the credential-issuer program, and the externally derived credential
/// record for the destination account.
pub open spec fn expected_metas(gkn: Seq<u8>) -> Seq<MetaV> {
    seq![
        MetaV::Fixed { address: gkn, is_signer: false, is_writable: false },
        MetaV::Fixed { address: gateway_program_id_spec(), is_signer: false, is_writable: false },
        MetaV::ExternalDerived {
            program_index: 6,
            seeds: credential_seed_recipe(),
            is_signer: false,
            is_writable: false,
        },
    ]
}

/// The initialization decision: the mint must parse and carry an authority,
/// the invoking authority must have signed and be that authority, the
/// supplied storage account must sit at the derived address, and the storage
/// must not already exist.
pub open spec fn init_outcome(
    pid: Seq<u8>,
    storage: AccountV,
    mint: AccountV,
    authority: AccountV,
) -> Result<(), HookError> {
    match parsed_mint_authority(mint.data) {
        None => Err(HookError::MalformedInput),
        Some(None) => Err(HookError::PreconditionFailure),
        Some(Some(ma)) => if !authority.is_signer {
            Err(HookError::PreconditionFailure)
        } else if authority.key != ma {
            Err(HookError::PreconditionFailure)
        } else {
            match find_pda(storage_seeds(mint.key), pid) {
                None => Err(HookError::PreconditionFailure),
                Some(p) => if p.0 != storage.key {
                    Err(HookError::PreconditionFailure)
                } else if allocated(storage) {
                    Err(HookError::AllocationConflict)
                } else {
                    Ok(())
                },
            }
        },
    }
}

/// Initializes the descriptor storage for an asset: on success the storage
/// holds exactly the encoded three-descriptor list and belongs to this
/// program; on any failure the storage is untouched.
pub fn process_initialize_extra_account_metas(
    program_id: &Address,
    storage: &mut AccountRecord,
    mint: &AccountRecord,
    authority: &AccountRecord,
    gatekeeper_network: &Address,
) -> (r: Result<(), HookError>)
    requires
        program_id.wf(),
        mint.wf(),
        gatekeeper_network.wf(),
    ensures
        r == init_outcome(program_id@, old(storage)@, mint@, authority@),
        r is Ok ==> final(storage)@.data == encode_bytes(expected_metas(gatekeeper_network@))
            && final(storage)@.owner == program_id@ && final(storage)@.key == old(storage)@.key
            && final(storage)@.is_signer == old(storage)@.is_signer,
        r is Err ==> final(storage)@ == old(storage)@,
{
    let ma = match mint_authority_from(mint.data.as_slice()) {
        None => {
            return Err(HookError::MalformedInput);
        },
        Some(None) => {
            return Err(HookError::PreconditionFailure);
        },
        Some(Some(a)) => a,
    };
    if !authority.is_signer {
        return Err(HookError::PreconditionFailure);
    }
    if !authority.key.eq_addr(&ma) {
        return Err(HookError::PreconditionFailure);
    }
    let expected = match get_extra_account_metas_address_and_bump_seed(&mint.key, program_id) {
        Ok(p) => p.0,
        Err(_) => {
            return Err(HookError::PreconditionFailure);
        },
    };
    if !expected.eq_addr(&storage.key) {
        return Err(HookError::PreconditionFailure);
    }
    if storage.data.len() != 0 {
        return Err(HookError::AllocationConflict);
    }
    let metas = build_expected_metas(gatekeeper_network);
    let bytes = encode(&metas);
    storage.data = bytes;
    storage.owner = program_id.dup();
    Ok(())
}

/// Builds the three descriptors that initialization writes.
pub fn build_expected_metas(gatekeeper_network: &Address) -> (r: Vec<ExtraAccountMeta>)
    requires
        gatekeeper_network.wf(),
    ensures
        r.deep_view() == expected_metas(gatekeeper_network@),
        wf_metas(r.deep_view()),
{
    let m1 = ExtraAccountMeta::new_with_pubkey(gatekeeper_network, false, false);
    let gw = crate::addr::gateway_program_id();
    let m2 = ExtraAccountMeta::new_with_pubkey(&gw, false, false);
    let mut seeds: Vec<Seed> = Vec::new();
    seeds.push(Seed::AccountKey { index: 2 });
    let ga: [u8; 7] = [103, 97, 116, 101, 119, 97, 121];
    seeds.push(Seed::Literal { bytes: vstd::slice::slice_to_vec(ga.as_slice()) });
    let mut zeros: Vec<u8> = Vec::new();
    let mut z: usize = 0;
    while z < 8
        invariant
            z <= 8,
            zeros@ =~= zero_bytes(z as int),
        decreases 8 - z,
    {
        zeros.push(0);
        proof {
            assert(zeros@ =~= zero_bytes(z + 1));
        }
        z += 1;
    }
    seeds.push(Seed::Literal { bytes: zeros });
    seeds.push(Seed::AccountKey { index: 5 });
    proof {
        assert(seeds.deep_view() =~= credential_seed_recipe());
        lemma_credential_recipe_fits();
    }
    let m3 = match ExtraAccountMeta::new_external_pda_with_seeds(6, seeds, false, false) {
        Ok(m) => m,
        Err(_) => {
            proof {
                assert(false);
            }
            ExtraAccountMeta::new_with_pubkey(gatekeeper_network, false, false)
        },
    };
    let mut metas: Vec<ExtraAccountMeta> = Vec::new();
    metas.push(m1);
    metas.push(m2);
    metas.push(m3);
    proof {
        assert(metas.deep_view() =~= expected_metas(gatekeeper_network@));
    }
    metas
}

/// The credential recipe packs into 23 bytes, well within its payload slot.
pub proof fn lemma_credential_recipe_fits()
    ensures
        wf_seeds(credential_seed_recipe()),
        seeds_bytes(credential_seed_recipe()).len() == 23,
{
    let s0 = credential_seed_recipe();
    let s1 = seq![
        SeedV::Literal { bytes: gateway_seed() },
        SeedV::Literal { bytes: zero_bytes(8) },
        SeedV::AccountKey { index: 5u8 },
    ];
    let s2 = seq![SeedV::Literal { bytes: zero_bytes(8) }, SeedV::AccountKey { index: 5u8 }];
    let s3 = seq![SeedV::AccountKey { index: 5u8 }];
    let s4 = Seq::<SeedV>::empty();
    assert(s0.skip(1) =~= s1);
    assert(s1.skip(1) =~= s2);
    assert(s2.skip(1) =~= s3);
    assert(s3.skip(1) =~= s4);
    assert(seeds_bytes(s4).len() == 0);
    assert(seed_bytes(s3[0]).len() == 2);
    assert(seeds_bytes(s3).len() == 2);
    assert(seed_bytes(s2[0]).len() == 10);
    assert(seeds_bytes(s2).len() == 12);
    assert(seed_bytes(s1[0]).len() == 9);
    assert(seeds_bytes(s1).len() == 21);
    assert(seed_bytes(s0[0]).len() == 2);
    assert(seeds_bytes(s0).len() == 23);
}

/// The account list after a successful initialization: the storage account
/// now belongs to this program and holds the encoded descriptor list.
pub open spec fn written_storage(storage: AccountV, pid: Seq<u8>, gkn: Seq<u8>) -> AccountV {
    AccountV {
        key: storage.key,
        owner: pid,
        data: encode_bytes(expected_metas(gkn)),
        is_signer: storage.is_signer,
    }
}

/// Dispatches one instruction: an execute instruction runs the verification
/// gate and never changes the accounts; an initialization instruction runs
/// the one-time initialization on the first account; anything else is
/// rejected unchanged.
pub fn process(
    program_id: &Address,
    accounts: &mut Vec<AccountRecord>,
    input: &[u8],
    now: i64,
) -> (r: Result<(), HookError>)
    requires
        program_id.wf(),
        forall|i: int| 0 <= i < old(accounts)@.len() ==> (#[trigger] old(accounts)@[i]).wf(),
    ensures
        crate::instruction::unpack_spec(input@) is None ==> r == Err::<(), HookError>(
            HookError::MalformedInput,
        ) && final(accounts).deep_view() == old(accounts).deep_view(),
        crate::instruction::unpack_spec(input@) matches Some(
            crate::instruction::InstructionV::Execute { amount },
        ) ==> r == execute_spec(program_id@, old(accounts).deep_view(), now) && final(accounts).deep_view() == old(accounts).deep_view(),
        crate::instruction::unpack_spec(input@) matches Some(
            crate::instruction::InstructionV::InitializeExtraAccountMetas { gatekeeper_network },
        ) ==> {
            &&& old(accounts)@.len() < 4 ==> r == Err::<(), HookError>(
                HookError::PreconditionFailure,
            ) && final(accounts).deep_view() == old(accounts).deep_view()
            &&& old(accounts)@.len() >= 4 ==> {
                &&& r == init_outcome(
                    program_id@,
                    old(accounts).deep_view()[0],
                    old(accounts).deep_view()[1],
                    old(accounts).deep_view()[2],
                )
                &&& r is Ok ==> final(accounts).deep_view() == old(accounts).deep_view().update(
                    0,
                    written_storage(old(accounts).deep_view()[0], program_id@, gatekeeper_network),
                )
                &&& r is Err ==> final(accounts).deep_view() == old(accounts).deep_view()
            }
        },
{
    let ghost av0 = accounts.deep_view();
    let exec_disc = crate::codec::execute_discriminator();
    if input.len() >= 8 && bytes_eq(
        vstd::slice::slice_subrange(input, 0, 8),
        exec_disc.as_slice(),
    ) {
        proof {
            assert(input@.subrange(0, 8) =~= input@.take(8));
        }
        if input.len() < 16 {
            return Err(HookError::MalformedInput);
        }
        let amount = crate::instruction::read_u64_le(input, 8);
        let mut copy: Vec<AccountRecord> = Vec::new();
        let mut i: usize = 0;
        while i < accounts.len()
            invariant
                i <= accounts@.len(),
                copy@.len() == i,
                forall|j: int| 0 <= j < i ==> (#[trigger] copy@[j])@ == accounts@[j]@,
                forall|j: int| 0 <= j < accounts@.len() ==> (#[trigger] accounts@[j]).wf(),
                accounts@ == old(accounts)@,
            decreases accounts@.len() - i,
        {
            copy.push(accounts[i].dup());
            i += 1;
        }
        proof {
            assert(copy.deep_view() =~~= accounts.deep_view());
            assert(forall|j: int|
                0 <= j < copy@.len() ==> (#[trigger] copy@[j]).wf());
        }
        return process_execute(program_id, &copy, amount, now);
    }
    proof {
        if input@.len() >= 8 {
            assert(input@.subrange(0, 8) =~= input@.take(8));
        }
    }
    let init_disc = crate::instruction::InitializeExtraAccountMetasInstruction::discriminator();
    if input.len() >= 8 && bytes_eq(
        vstd::slice::slice_subrange(input, 0, 8),
        init_disc.as_slice(),
    ) {
        if input.len() < 40 {
            return Err(HookError::MalformedInput);
        }
        let gkn = Address::from_bytes(
            vstd::slice::slice_to_vec(vstd::slice::slice_subrange(input, 8, 40)),
        );
        if accounts.len() < 4 {
            return Err(HookError::PreconditionFailure);
        }
        let mut storage = accounts.remove(0);
        let mint = accounts[0].dup();
        let authority = accounts[1].dup();
        let r = process_initialize_extra_account_metas(
            program_id,
            &mut storage,
            &mint,
            &authority,
            &gkn,
        );
        accounts.insert(0, storage);
        proof {
            if r is Ok {
                assert(accounts.deep_view() =~~= av0.update(
                    0,
                    written_storage(av0[0], program_id@, gkn@),
                ));
            } else {
                assert(accounts.deep_view() =~~= av0);
            }
        }
        return r;
    }
    Err(HookError::MalformedInput)
}

} // verus!
