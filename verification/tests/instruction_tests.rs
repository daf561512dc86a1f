use civic_transfer_hook::HookError;
use civic_transfer_hook::addr::Address;
use civic_transfer_hook::addr::get_extra_account_metas_address;
use civic_transfer_hook::addr::id;
use civic_transfer_hook::instruction::CivicTransferHookInstruction;
use civic_transfer_hook::instruction::InitializeExtraAccountMetasInstruction;
use civic_transfer_hook::instruction::initialize_extra_account_meta;
use civic_transfer_hook::instruction::initialize_extra_account_metas;
use solana_program::hash;
use spl_discriminator::ArrayDiscriminator;
use spl_transfer_hook_interface::NAMESPACE;

fn addr(fill: u8) -> Address {
    Address::from_bytes(vec![fill; 32])
}

#[test]
fn initialize_validation_pubkeys_packing() {
    let check = CivicTransferHookInstruction::InitializeExtraAccountMetas {
        gatekeeper_network: addr(9),
    };
    let packed = check.pack();
    let preimage =
        hash::hashv(&[format!("{NAMESPACE}:initialize-extra-account-metas").as_bytes()]);
    let discriminator = &preimage.as_ref()[..ArrayDiscriminator::LENGTH];
    let mut expect = vec![];
    expect.extend_from_slice(discriminator.as_ref());
    expect.extend_from_slice(&[9u8; 32]);
    assert_eq!(packed, expect);
    let unpacked = CivicTransferHookInstruction::unpack(&expect).unwrap();
    assert_eq!(unpacked, check);
}

#[test]
fn unpack_rejects_garbage() {
    assert_eq!(
        CivicTransferHookInstruction::unpack(&[]),
        Err(HookError::MalformedInput)
    );
    assert_eq!(
        CivicTransferHookInstruction::unpack(&[1, 2, 3, 4, 5, 6, 7, 8]),
        Err(HookError::MalformedInput)
    );
    let mut short = InitializeExtraAccountMetasInstruction::discriminator();
    short.extend_from_slice(&[7u8; 31]);
    assert_eq!(
        CivicTransferHookInstruction::unpack(&short),
        Err(HookError::MalformedInput)
    );
}

#[test]
fn derived_storage_address_matches_interface_crate() {
    let mint = addr(42);
    let ours = get_extra_account_metas_address(&mint).unwrap();
    let theirs = spl_transfer_hook_interface::get_extra_account_metas_address(
        &solana_program::pubkey::Pubkey::new_from_array([42u8; 32]),
        &solana_program::pubkey::Pubkey::new_from_array(id().bytes.clone().try_into().unwrap()),
    );
    assert_eq!(ours.bytes, theirs.to_bytes().to_vec());
}

#[test]
fn initialization_instruction_builders_agree() {
    let mint = addr(1);
    let authority = addr(2);
    let gkn = addr(3);
    let storage = get_extra_account_metas_address(&mint).unwrap();
    let built = initialize_extra_account_meta(&mint, &authority, &gkn).unwrap();
    let direct = initialize_extra_account_metas(&id(), &storage, &mint, &authority, &gkn);
    assert_eq!(built.program_id, id());
    assert_eq!(built.data, direct.data);
    assert_eq!(built.accounts.len(), 4);
    assert_eq!(built.accounts[0].pubkey, storage);
    assert!(built.accounts[0].is_writable && !built.accounts[0].is_signer);
    assert_eq!(built.accounts[1].pubkey, mint);
    assert_eq!(built.accounts[2].pubkey, authority);
    assert!(built.accounts[2].is_signer);
    assert_eq!(built.accounts[3].pubkey.bytes, vec![0u8; 32]);
    let unpacked = CivicTransferHookInstruction::unpack(&built.data).unwrap();
    assert_eq!(
        unpacked,
        CivicTransferHookInstruction::InitializeExtraAccountMetas { gatekeeper_network: gkn }
    );
}
