use civic_transfer_hook::HookError;
use civic_transfer_hook::addr::Address;
use civic_transfer_hook::addr::get_extra_account_metas_address;
use civic_transfer_hook::addr::id;
use civic_transfer_hook::instruction::CivicTransferHookInstruction;
use civic_transfer_hook::processor::AccountRecord;
use civic_transfer_hook::processor::process;
use solana_program::hash;
use solana_program::program_option::COption;
use solana_program::program_pack::Pack;
use solana_program::pubkey::Pubkey;
use spl_transfer_hook_interface::NAMESPACE;
use spl_token_2022::state::Mint;

fn addr(fill: u8) -> Address {
    Address::from_bytes(vec![fill; 32])
}

fn mint_bytes(authority: [u8; 32]) -> Vec<u8> {
    let mint = Mint {
        mint_authority: COption::Some(Pubkey::new_from_array(authority)),
        supply: 0,
        decimals: 0,
        is_initialized: true,
        freeze_authority: COption::None,
    };
    let mut buf = vec![0u8; Mint::LEN];
    Mint::pack(mint, &mut buf).unwrap();
    buf
}

fn account(key: Address, owner: Address, data: Vec<u8>, is_signer: bool) -> AccountRecord {
    AccountRecord { key, owner, data, is_signer }
}

#[test]
fn dispatch_initializes_then_rejects_unknown_data() {
    let mint_key = addr(11);
    let gkn = addr(33);
    let storage_key = get_extra_account_metas_address(&mint_key).unwrap();
    let mut accounts = vec![
        account(storage_key, addr(0), vec![], false),
        account(mint_key, addr(0), mint_bytes([22u8; 32]), false),
        account(addr(22), addr(0), vec![], true),
        account(addr(0), addr(0), vec![], false),
    ];
    let input = CivicTransferHookInstruction::InitializeExtraAccountMetas {
        gatekeeper_network: gkn,
    }
    .pack();
    assert_eq!(process(&id(), &mut accounts, &input, 0), Ok(()));
    assert!(!accounts[0].data.is_empty());
    assert_eq!(accounts[0].owner, id());

    let before = accounts[0].data.clone();
    assert_eq!(
        process(&id(), &mut accounts, &[1, 2, 3], 0),
        Err(HookError::MalformedInput)
    );
    assert_eq!(accounts[0].data, before);

    // A second initialization through the dispatcher conflicts.
    assert_eq!(
        process(&id(), &mut accounts, &input, 0),
        Err(HookError::AllocationConflict)
    );
    assert_eq!(accounts[0].data, before);
}

#[test]
fn dispatch_routes_execute_by_discriminator() {
    // An execute instruction against an empty account list fails its
    // precondition, and an undersized amount is malformed; neither touches
    // the accounts.
    let preimage = hash::hashv(&[format!("{NAMESPACE}:execute").as_bytes()]);
    let mut input = preimage.as_ref()[..8].to_vec();
    input.extend_from_slice(&500u64.to_le_bytes());
    let mut accounts: Vec<AccountRecord> = vec![];
    assert_eq!(
        process(&id(), &mut accounts, &input, 0),
        Err(HookError::PreconditionFailure)
    );
    assert_eq!(
        process(&id(), &mut accounts, &input[..12], 0),
        Err(HookError::MalformedInput)
    );
}
