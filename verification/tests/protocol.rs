use civic_transfer_hook::HookError;
use civic_transfer_hook::addr::Address;
use civic_transfer_hook::addr::gateway_program_id;
use civic_transfer_hook::addr::get_extra_account_metas_address;
use civic_transfer_hook::addr::id;
use civic_transfer_hook::codec::ExtraAccountMeta;
use civic_transfer_hook::codec::Seed;
use civic_transfer_hook::codec::decode;
use civic_transfer_hook::codec::encode;
use civic_transfer_hook::codec::size_of;
use civic_transfer_hook::processor::AccountRecord;
use civic_transfer_hook::processor::build_expected_metas;
use civic_transfer_hook::processor::check_account_keys;
use civic_transfer_hook::processor::process_execute;
use civic_transfer_hook::processor::process_initialize_extra_account_metas;
use solana_program::program_option::COption;
use solana_program::program_pack::Pack;
use solana_program::pubkey::Pubkey;
use spl_token_2022::extension::BaseStateWithExtensionsMut;
use spl_token_2022::extension::ExtensionType;
use spl_token_2022::extension::StateWithExtensionsMut;
use spl_token_2022::extension::transfer_hook::TransferHookAccount;
use spl_token_2022::state::Account;
use spl_token_2022::state::AccountState;
use spl_token_2022::state::Mint;

fn addr(fill: u8) -> Address {
    Address::from_bytes(vec![fill; 32])
}

fn mint_bytes(authority: Option<[u8; 32]>) -> Vec<u8> {
    let mint = Mint {
        mint_authority: match authority {
            Some(a) => COption::Some(Pubkey::new_from_array(a)),
            None => COption::None,
        },
        supply: 0,
        decimals: 0,
        is_initialized: true,
        freeze_authority: COption::None,
    };
    let mut buf = vec![0u8; Mint::LEN];
    Mint::pack(mint, &mut buf).unwrap();
    buf
}

fn token_account_bytes(transferring: bool) -> Vec<u8> {
    let len = ExtensionType::try_calculate_account_len::<Account>(&[
        ExtensionType::TransferHookAccount,
    ])
    .unwrap();
    let mut buf = vec![0u8; len];
    let mut state = StateWithExtensionsMut::<Account>::unpack_uninitialized(&mut buf).unwrap();
    let ext = state.init_extension::<TransferHookAccount>(true).unwrap();
    ext.transferring = transferring.into();
    state.base.state = AccountState::Initialized;
    state.pack_base();
    state.init_account_type().unwrap();
    buf
}

fn account(key: Address, owner: Address, data: Vec<u8>, is_signer: bool) -> AccountRecord {
    AccountRecord { key, owner, data, is_signer }
}

#[test]
fn descriptor_list_roundtrips() {
    let metas = vec![
        ExtraAccountMeta::new_with_pubkey(&addr(1), false, true),
        ExtraAccountMeta::new_with_seeds(
            vec![
                Seed::Literal { bytes: vec![] },
                Seed::AccountKey { index: 3 },
                Seed::Literal { bytes: b"rule".to_vec() },
            ],
            true,
            false,
        )
        .unwrap(),
        ExtraAccountMeta::new_external_pda_with_seeds(
            6,
            vec![Seed::AccountKey { index: 2 }, Seed::Literal { bytes: vec![0; 8] }],
            false,
            false,
        )
        .unwrap(),
    ];
    let bytes = encode(&metas);
    assert_eq!(bytes.len(), size_of(3).unwrap());
    assert_eq!(decode(&bytes).unwrap(), metas);

    let empty: Vec<ExtraAccountMeta> = vec![];
    let bytes = encode(&empty);
    assert_eq!(bytes.len(), size_of(0).unwrap());
    assert_eq!(decode(&bytes).unwrap(), empty);
}

#[test]
fn size_of_matches_layout() {
    assert_eq!(size_of(0).unwrap(), 16);
    assert_eq!(size_of(3).unwrap(), 121);
}

#[test]
fn decode_rejects_short_and_mangled_buffers() {
    assert_eq!(decode(&[]), Err(HookError::MalformedInput));
    assert_eq!(decode(&[0u8; 15]), Err(HookError::MalformedInput));
    let metas = vec![ExtraAccountMeta::new_with_pubkey(&addr(5), false, false)];
    let mut bytes = encode(&metas);
    bytes[0] ^= 0xff;
    assert_eq!(decode(&bytes), Err(HookError::MalformedInput));
}

#[test]
fn supplied_order_is_significant() {
    let a = addr(0xaa);
    let b = addr(0xbb);
    let c = addr(0xcc);
    let metas = vec![
        ExtraAccountMeta::new_with_pubkey(&a, false, false),
        ExtraAccountMeta::new_with_pubkey(&b, false, false),
        ExtraAccountMeta::new_with_pubkey(&c, false, false),
    ];
    let base: Vec<Address> = (0..5).map(|i| addr(i)).collect();
    let in_order: Vec<Address> = base
        .iter()
        .map(|k| Address::from_bytes(k.bytes.clone()))
        .chain([&a, &b, &c].into_iter().map(|k| Address::from_bytes(k.bytes.clone())))
        .collect();
    assert_eq!(check_account_keys(&metas, &in_order, &id()), Ok(()));
    let swapped: Vec<Address> = base
        .iter()
        .map(|k| Address::from_bytes(k.bytes.clone()))
        .chain([&b, &a, &c].into_iter().map(|k| Address::from_bytes(k.bytes.clone())))
        .collect();
    assert_eq!(
        check_account_keys(&metas, &swapped, &id()),
        Err(HookError::ResolutionMismatch)
    );
}

#[test]
fn program_derived_descriptors_resolve() {
    let metas = vec![
        ExtraAccountMeta::new_with_seeds(
            vec![
                Seed::Literal { bytes: b"rule".to_vec() },
                Seed::AccountKey { index: 1 },
            ],
            false,
            false,
        )
        .unwrap(),
    ];
    let pid = Pubkey::new_from_array(id().bytes.clone().try_into().unwrap());
    let (pda, _) = Pubkey::find_program_address(&[b"rule", &[1u8; 32]], &pid);
    let mut keys: Vec<Address> = (0..5).map(|i| addr(i)).collect();
    keys.push(Address::from_bytes(pda.to_bytes().to_vec()));
    assert_eq!(check_account_keys(&metas, &keys, &id()), Ok(()));
    keys[5] = addr(0x99);
    assert_eq!(
        check_account_keys(&metas, &keys, &id()),
        Err(HookError::ResolutionMismatch)
    );
}

#[test]
fn initialization_writes_once_and_conflicts_after() {
    let mint_key = addr(11);
    let authority_key = addr(22);
    let gkn = addr(33);
    let storage_key = get_extra_account_metas_address(&mint_key).unwrap();
    let mut storage = account(storage_key, addr(0), vec![], false);
    let mint = account(
        Address::from_bytes(mint_key.bytes.clone()),
        addr(0),
        mint_bytes(Some([22u8; 32])),
        false,
    );
    let authority = account(Address::from_bytes(authority_key.bytes.clone()), addr(0), vec![], true);

    let first = process_initialize_extra_account_metas(&id(), &mut storage, &mint, &authority, &gkn);
    assert_eq!(first, Ok(()));
    let written = encode(&build_expected_metas(&gkn));
    assert_eq!(storage.data, written);
    assert_eq!(storage.owner, id());

    let second =
        process_initialize_extra_account_metas(&id(), &mut storage, &mint, &authority, &gkn);
    assert_eq!(second, Err(HookError::AllocationConflict));
    assert_eq!(storage.data, written);
}

#[test]
fn initialization_requires_the_mint_authority() {
    let mint_key = addr(11);
    let gkn = addr(33);
    let storage_key = get_extra_account_metas_address(&mint_key).unwrap();
    let mint = account(mint_key, addr(0), mint_bytes(Some([22u8; 32])), false);

    // Right key, but not a signer.
    let mut storage = account(Address::from_bytes(storage_key.bytes.clone()), addr(0), vec![], false);
    let unsigned = account(addr(22), addr(0), vec![], false);
    assert_eq!(
        process_initialize_extra_account_metas(&id(), &mut storage, &mint, &unsigned, &gkn),
        Err(HookError::PreconditionFailure)
    );
    assert!(storage.data.is_empty());

    // A signer, but not the mint authority.
    let impostor = account(addr(44), addr(0), vec![], true);
    assert_eq!(
        process_initialize_extra_account_metas(&id(), &mut storage, &mint, &impostor, &gkn),
        Err(HookError::PreconditionFailure)
    );
    assert!(storage.data.is_empty());

    // A mint without any authority.
    let bare_mint = account(addr(11), addr(0), mint_bytes(None), false);
    let signer = account(addr(22), addr(0), vec![], true);
    assert_eq!(
        process_initialize_extra_account_metas(&id(), &mut storage, &bare_mint, &signer, &gkn),
        Err(HookError::PreconditionFailure)
    );
    assert!(storage.data.is_empty());
}

fn credential_bytes(holder: &Address, network: &Address, state: u8, expire: Option<i64>) -> Vec<u8> {
    let mut b = vec![0u8]; // version
    b.push(0); // no parent token
    b.extend_from_slice(&holder.bytes);
    b.push(0); // no identity link
    b.extend_from_slice(&network.bytes);
    b.extend_from_slice(&[77u8; 32]); // issuing gatekeeper
    b.push(state);
    match expire {
        Some(t) => {
            b.push(1);
            b.extend_from_slice(&t.to_le_bytes());
        },
        None => b.push(0),
    }
    b
}

struct Scenario {
    accounts: Vec<AccountRecord>,
}

fn execute_scenario(holder_of_credential: Option<Address>, transferring: bool) -> Scenario {
    let mint_key = addr(11);
    let gkn = addr(33);
    let source_key = addr(1);
    let dest_key = addr(2);
    let authority_key = addr(3);
    let storage_key = get_extra_account_metas_address(&mint_key).unwrap();

    let mut storage = account(storage_key, addr(0), vec![], false);
    let mint = account(
        Address::from_bytes(mint_key.bytes.clone()),
        addr(0),
        mint_bytes(Some([22u8; 32])),
        false,
    );
    let authority = account(addr(22), addr(0), vec![], true);
    process_initialize_extra_account_metas(&id(), &mut storage, &mint, &authority, &gkn).unwrap();

    let gw = gateway_program_id();
    let gw_pk = Pubkey::new_from_array(gw.bytes.clone().try_into().unwrap());
    let (cred_pk, _bump) = Pubkey::find_program_address(
        &[&dest_key.bytes, b"gateway", &[0u8; 8], &gkn.bytes],
        &gw_pk,
    );
    let cred_key = Address::from_bytes(cred_pk.to_bytes().to_vec());
    let holder = holder_of_credential.unwrap_or_else(|| Address::from_bytes(dest_key.bytes.clone()));
    let cred_data = credential_bytes(&holder, &gkn, 0, None);

    let accounts = vec![
        account(source_key, addr(0), token_account_bytes(true), false),
        mint,
        account(dest_key, addr(0), token_account_bytes(transferring), false),
        account(authority_key, addr(0), vec![], false),
        storage,
        account(gkn, addr(0), vec![], false),
        account(Address::from_bytes(gw.bytes.clone()), addr(0), vec![], false),
        account(cred_key, gw, cred_data, false),
    ];
    Scenario { accounts }
}

#[test]
fn transfer_with_valid_credential_is_admitted() {
    let s = execute_scenario(None, true);
    assert_eq!(process_execute(&id(), &s.accounts, 500, 1_000_000), Ok(()));
}

#[test]
fn credential_for_another_holder_is_rejected() {
    let s = execute_scenario(Some(addr(0xee)), true);
    assert_eq!(
        process_execute(&id(), &s.accounts, 500, 1_000_000),
        Err(HookError::CredentialInvalid)
    );
}

#[test]
fn destination_not_transferring_is_rejected() {
    let s = execute_scenario(None, false);
    assert_eq!(
        process_execute(&id(), &s.accounts, 500, 1_000_000),
        Err(HookError::PreconditionFailure)
    );
}

#[test]
fn revoked_or_expired_credentials_are_rejected() {
    let mut s = execute_scenario(None, true);
    let gkn = addr(33);
    let dest = Address::from_bytes(s.accounts[2].key.bytes.clone());
    // Revoked.
    s.accounts[7].data = credential_bytes(&dest, &gkn, 2, None);
    assert_eq!(
        process_execute(&id(), &s.accounts, 500, 1_000_000),
        Err(HookError::CredentialInvalid)
    );
    // Expired before `now`.
    s.accounts[7].data = credential_bytes(&dest, &gkn, 0, Some(999_999));
    assert_eq!(
        process_execute(&id(), &s.accounts, 500, 1_000_000),
        Err(HookError::CredentialInvalid)
    );
    // Not yet expired.
    s.accounts[7].data = credential_bytes(&dest, &gkn, 0, Some(1_000_001));
    assert_eq!(process_execute(&id(), &s.accounts, 500, 1_000_000), Ok(()));
}

#[test]
fn storage_at_wrong_address_is_rejected() {
    let mut s = execute_scenario(None, true);
    s.accounts[4].key = addr(0x55);
    assert_eq!(
        process_execute(&id(), &s.accounts, 500, 1_000_000),
        Err(HookError::PreconditionFailure)
    );
}
