use anchor_lang::prelude::Pubkey;
use escrow::authority::{derive_authority, vault_authority, AuthorityHandle, ESCROW_PDA_SEED};
use escrow::error::EscrowError;
use escrow::escrow::{
    cancel_with_authority, exchange_with_authority, initialize_with_authority, Cancel, Exchange,
    Initialize, Settlement,
};
use escrow::identity::Identity;
use escrow::ledger::Ledger;
use escrow::record::{EscrowAccount, Offer};
use escrow::token::{
    close_account, set_authority, transfer, AccountInfo, CloseAccount, SetAuthority,
    TokenAccount, Transfer,
};

fn id(byte: u8) -> Identity {
    Identity::new([byte; 32])
}

fn given_authority() -> AuthorityHandle {
    vault_authority(&id(1)).expect("an authority exists")
}

fn signer(byte: u8) -> AccountInfo {
    AccountInfo { key: id(byte), is_signer: true }
}

fn account(key: u8, mint: u8, owner: u8, amount: u64) -> TokenAccount {
    TokenAccount { key: id(key), mint: id(mint), owner: id(owner), amount }
}

#[test]
fn identities_compare_by_their_bytes() {
    let mut bytes = [5u8; 32];
    assert!(Identity::new(bytes) == id(5));
    assert_eq!(id(5).to_bytes(), bytes);
    bytes[31] = 6;
    assert!(Identity::new(bytes) != id(5));
    bytes[31] = 5;
    bytes[0] = 4;
    assert!(Identity::new(bytes) != id(5));
    assert!(id(0) != id(1));
}

#[test]
fn the_seed_spells_escrow() {
    assert_eq!(&ESCROW_PDA_SEED, b"escrow");
}

#[test]
fn the_vault_authority_is_the_derived_address() {
    let expected: [u8; 32] = [
        252, 68, 38, 121, 51, 37, 36, 198, 250, 156, 238, 224, 76, 249, 94, 234, 15, 154, 157,
        88, 52, 105, 221, 220, 167, 132, 81, 255, 37, 54, 186, 237,
    ];
    let handle = vault_authority(&id(1)).expect("an authority exists");
    assert_eq!(handle.key(), Identity::new(expected));
    assert_eq!(handle.bump(), 255);
    let expected: [u8; 32] = [
        123, 107, 128, 18, 233, 247, 43, 233, 196, 152, 247, 157, 221, 250, 44, 238, 251, 238,
        93, 36, 251, 135, 185, 26, 6, 215, 162, 249, 159, 77, 168, 28,
    ];
    let handle = vault_authority(&id(3)).expect("an authority exists");
    assert_eq!(handle.key(), Identity::new(expected));
    assert_eq!(handle.bump(), 254);
}

#[test]
fn derivation_agrees_with_the_address_library() {
    for byte in [0u8, 1, 2, 3, 11, 200, 255] {
        let program = Pubkey::new_from_array([byte; 32]);
        let (address, bump) = Pubkey::find_program_address(&[b"escrow"], &program);
        let handle = vault_authority(&id(byte)).expect("an authority exists");
        assert_eq!(handle.key().to_bytes(), address.to_bytes());
        assert_eq!(handle.bump(), bump);
        assert!(handle.key() != id(byte));
        assert_eq!(derive_authority(&id(byte), b"escrow"), Some(handle));
    }
}

#[test]
fn derivation_depends_on_seed_and_program() {
    let first = derive_authority(&id(1), b"escrow").expect("an authority exists");
    let again = derive_authority(&id(1), b"escrow").expect("an authority exists");
    let other_seed = derive_authority(&id(1), b"token-seed").expect("an authority exists");
    let other_program = derive_authority(&id(2), b"escrow").expect("an authority exists");
    assert_eq!(first, again);
    assert!(first.key() != other_seed.key());
    assert!(first.key() != other_program.key());
    let (address, bump) =
        Pubkey::find_program_address(&[b"token-seed"], &Pubkey::new_from_array([1; 32]));
    assert_eq!(other_seed.key().to_bytes(), address.to_bytes());
    assert_eq!(other_seed.bump(), bump);
}

#[test]
fn a_seed_that_is_too_long_gives_no_authority() {
    let seed = [7u8; 33];
    assert_eq!(derive_authority(&id(1), &seed), None);
    let seed = [7u8; 32];
    assert!(derive_authority(&id(1), &seed).is_some());
    assert!(derive_authority(&id(1), b"").is_some());
}

#[test]
fn the_derived_authority_signs() {
    let handle = vault_authority(&id(3)).expect("an authority exists");
    assert_eq!(handle.signer(), AccountInfo { key: handle.key(), is_signer: true });
    assert_eq!(handle.signer().key.to_bytes()[0], 123);
}

#[test]
fn transfer_moves_the_amount() {
    let mut from = account(1, 10, 20, 70);
    let mut to = account(2, 10, 21, 5);
    let ctx = Transfer { from: id(1), to: id(2), authority: signer(20) };
    assert_eq!(transfer(&ctx, &mut from, &mut to, 30), Ok(()));
    assert_eq!(from, account(1, 10, 20, 40));
    assert_eq!(to, account(2, 10, 21, 35));
    assert_eq!(transfer(&ctx, &mut from, &mut to, 40), Ok(()));
    assert_eq!(from.amount, 0);
    assert_eq!(to.amount, 75);
    assert_eq!(transfer(&ctx, &mut from, &mut to, 0), Ok(()));
    assert_eq!(to.amount, 75);
}

#[test]
fn transfer_refusals() {
    let mut from = account(1, 10, 20, 70);
    let mut to = account(2, 10, 21, 5);
    let ctx = Transfer { from: id(1), to: id(2), authority: signer(20) };
    assert_eq!(transfer(&ctx, &mut from, &mut to, 71), Err(EscrowError::InsufficientFunds));
    let unsigned = Transfer { authority: AccountInfo { key: id(20), is_signer: false }, ..ctx };
    assert_eq!(transfer(&unsigned, &mut from, &mut to, 1), Err(EscrowError::Unauthorized));
    let stranger = Transfer { authority: signer(21), ..ctx };
    assert_eq!(transfer(&stranger, &mut from, &mut to, 1), Err(EscrowError::Unauthorized));
    assert_eq!(transfer(&stranger, &mut from, &mut to, 71), Err(EscrowError::Unauthorized));
    let misnamed = Transfer { from: id(3), ..ctx };
    assert_eq!(transfer(&misnamed, &mut from, &mut to, 1), Err(EscrowError::AccountMismatch));
    let misnamed = Transfer { to: id(3), ..ctx };
    assert_eq!(transfer(&misnamed, &mut from, &mut to, 1), Err(EscrowError::AccountMismatch));
    let mut other_asset = account(2, 11, 21, 5);
    assert_eq!(
        transfer(&ctx, &mut from, &mut other_asset, 1),
        Err(EscrowError::AccountMismatch)
    );
    assert_eq!(from, account(1, 10, 20, 70));
    assert_eq!(to, account(2, 10, 21, 5));
    assert_eq!(other_asset, account(2, 11, 21, 5));
}

#[test]
fn set_authority_hands_the_account_over() {
    let mut vault = account(1, 10, 20, 0);
    let ctx = SetAuthority { account_or_mint: id(1), current_authority: signer(20) };
    assert_eq!(set_authority(&ctx, &mut vault, id(30)), Ok(()));
    assert_eq!(vault, account(1, 10, 30, 0));
    assert_eq!(set_authority(&ctx, &mut vault, id(20)), Err(EscrowError::Unauthorized));
    let unsigned = SetAuthority {
        account_or_mint: id(1),
        current_authority: AccountInfo { key: id(30), is_signer: false },
    };
    assert_eq!(set_authority(&unsigned, &mut vault, id(20)), Err(EscrowError::Unauthorized));
    let misnamed = SetAuthority { account_or_mint: id(2), current_authority: signer(30) };
    assert_eq!(set_authority(&misnamed, &mut vault, id(20)), Err(EscrowError::AccountMismatch));
    assert_eq!(vault, account(1, 10, 30, 0));
}

#[test]
fn close_account_names_who_gets_the_deposit() {
    let ctx = CloseAccount { account: id(1), destination: id(50), authority: signer(20) };
    assert_eq!(close_account(&ctx, account(1, 10, 20, 0)), Ok(id(50)));
    assert_eq!(close_account(&ctx, account(1, 10, 20, 1)), Err(EscrowError::AccountMismatch));
    assert_eq!(close_account(&ctx, account(2, 10, 20, 0)), Err(EscrowError::AccountMismatch));
    assert_eq!(close_account(&ctx, account(1, 10, 21, 0)), Err(EscrowError::Unauthorized));
    let unsigned = CloseAccount { authority: AccountInfo { key: id(20), is_signer: false }, ..ctx };
    assert_eq!(close_account(&unsigned, account(1, 10, 20, 0)), Err(EscrowError::Unauthorized));
}

#[test]
fn error_messages() {
    assert_eq!(EscrowError::InsufficientFunds.message(), "insufficient funds");
    assert_eq!(EscrowError::Unauthorized.message(), "unauthorized");
    assert_eq!(EscrowError::AccountMismatch.message(), "account mismatch");
    assert_eq!(EscrowError::RecordNotFound.message(), "record not found");
}

#[test]
fn a_new_ledger_is_empty() {
    let ledger = Ledger::new();
    assert_eq!(ledger.account_count(), 0);
    assert_eq!(ledger.offer_count(), 0);
    assert_eq!(ledger.token_account(&id(1)), None);
    assert_eq!(ledger.open_offer(&id(1)), None);
    assert_eq!(ledger.find_account(&id(1)), None);
    assert_eq!(ledger.find_offer(&id(1)), None);
    assert!(!ledger.is_vault(&id(1)));
    assert_eq!(ledger.supply_of(&id(1)), 0);
}

#[test]
fn accounts_are_opened_once() {
    let mut ledger = Ledger::new();
    assert!(ledger.open_account(account(1, 10, 20, 5)));
    assert!(!ledger.open_account(account(1, 10, 20, 5)));
    assert!(!ledger.open_account(account(1, 11, 21, 0)));
    assert!(ledger.open_account(account(2, 10, 21, 6)));
    assert_eq!(ledger.account_count(), 2);
    assert_eq!(ledger.find_account(&id(1)), Some(0));
    assert_eq!(ledger.find_account(&id(2)), Some(1));
    assert_eq!(ledger.account_at(1), account(2, 10, 21, 6));
    assert_eq!(ledger.token_account(&id(1)), Some(account(1, 10, 20, 5)));
    assert_eq!(ledger.token_account(&id(3)), None);
    assert_eq!(ledger.supply_of(&id(10)), 11);
    assert_eq!(ledger.supply_of(&id(11)), 0);
}

#[test]
fn the_supply_of_an_asset_stays_in_range() {
    let mut ledger = Ledger::new();
    assert!(ledger.open_account(account(1, 10, 20, u64::MAX - 1)));
    assert!(!ledger.open_account(account(2, 10, 20, 2)));
    assert!(ledger.open_account(account(2, 10, 20, 1)));
    assert!(!ledger.open_account(account(3, 10, 20, 1)));
    assert!(ledger.open_account(account(3, 10, 20, 0)));
    assert!(ledger.open_account(account(4, 11, 20, u64::MAX)));
    assert_eq!(ledger.supply_of(&id(10)), u64::MAX);
    assert_eq!(ledger.supply_of(&id(11)), u64::MAX);
    assert_eq!(ledger.account_count(), 4);
}

#[test]
fn operations_under_a_given_authority() {
    let handle: AuthorityHandle = given_authority();
    let mut ledger = Ledger::new();
    assert!(ledger.open_account(account(30, 10, 20, 100)));
    assert!(ledger.open_account(account(31, 11, 20, 0)));
    assert!(ledger.open_account(account(32, 10, 21, 0)));
    assert!(ledger.open_account(account(33, 11, 21, 50)));
    let open = Initialize {
        initializer: signer(20),
        mint: id(10),
        vault_account: id(40),
        initializer_deposit_token_account: id(30),
        initializer_receive_token_account: id(31),
        escrow_account: id(41),
    };
    assert_eq!(
        initialize_with_authority(&mut ledger, None, &open, 100, 50),
        Err(EscrowError::Unauthorized)
    );
    assert_eq!(
        initialize_with_authority(&mut ledger, None, &open, 101, 50),
        Err(EscrowError::InsufficientFunds)
    );
    assert_eq!(initialize_with_authority(&mut ledger, Some(handle), &open, 100, 50), Ok(()));
    let offer = ledger.open_offer(&id(41)).expect("the offer is open");
    assert_eq!(offer.vault, TokenAccount { owner: handle.key(), ..account(40, 10, 0, 100) });
    assert_eq!(ledger.find_offer(&id(41)), Some(0));
    assert_eq!(ledger.offer_at(0), offer);

    let withdraw = Cancel {
        initializer: signer(20),
        vault_account: id(40),
        initializer_deposit_token_account: id(30),
        escrow_account: id(41),
    };
    let swap = Exchange {
        taker: signer(21),
        taker_deposit_token_account: id(33),
        taker_receive_token_account: id(32),
        initializer_deposit_token_account: id(30),
        initializer_receive_token_account: id(31),
        initializer: AccountInfo { key: id(20), is_signer: false },
        escrow_account: id(41),
        vault_account: id(40),
    };
    let other = vault_authority(&id(3)).expect("an authority exists");
    assert_eq!(
        cancel_with_authority(&mut ledger, None, &withdraw),
        Err(EscrowError::Unauthorized)
    );
    assert_eq!(
        cancel_with_authority(&mut ledger, Some(other), &withdraw),
        Err(EscrowError::Unauthorized)
    );
    assert_eq!(
        exchange_with_authority(&mut ledger, None, &swap),
        Err(EscrowError::Unauthorized)
    );
    assert_eq!(
        exchange_with_authority(&mut ledger, Some(other), &swap),
        Err(EscrowError::Unauthorized)
    );
    assert_eq!(ledger.open_offer(&id(41)), Some(offer));
    assert_eq!(
        exchange_with_authority(&mut ledger, Some(handle), &swap),
        Ok(Settlement { residual_destination: id(20) })
    );
    assert_eq!(ledger.token_account(&id(32)), Some(account(32, 10, 21, 100)));
    assert_eq!(ledger.token_account(&id(33)), Some(account(33, 11, 21, 0)));
    assert_eq!(ledger.token_account(&id(31)), Some(account(31, 11, 20, 50)));
    assert_eq!(ledger.token_account(&id(30)), Some(account(30, 10, 20, 0)));
    assert_eq!(
        cancel_with_authority(&mut ledger, Some(handle), &withdraw),
        Err(EscrowError::RecordNotFound)
    );
}

#[test]
fn the_contexts_name_the_accounts_of_each_step() {
    let handle = given_authority();
    let derived = AccountInfo { key: handle.key(), is_signer: true };
    let open = Initialize {
        initializer: signer(20),
        mint: id(10),
        vault_account: id(40),
        initializer_deposit_token_account: id(30),
        initializer_receive_token_account: id(31),
        escrow_account: id(41),
    };
    assert_eq!(
        open.into_transfer_to_pda_context(),
        Transfer { from: id(30), to: id(40), authority: signer(20) }
    );
    assert_eq!(
        open.into_set_authority_context(),
        SetAuthority { account_or_mint: id(40), current_authority: signer(20) }
    );
    let withdraw = Cancel {
        initializer: signer(20),
        vault_account: id(40),
        initializer_deposit_token_account: id(30),
        escrow_account: id(41),
    };
    assert_eq!(
        withdraw.into_transfer_to_initializer_context(&handle),
        Transfer { from: id(40), to: id(30), authority: derived }
    );
    assert_eq!(
        withdraw.into_close_context(&handle),
        CloseAccount { account: id(40), destination: id(20), authority: derived }
    );
    let swap = Exchange {
        taker: signer(21),
        taker_deposit_token_account: id(33),
        taker_receive_token_account: id(32),
        initializer_deposit_token_account: id(30),
        initializer_receive_token_account: id(31),
        initializer: AccountInfo { key: id(20), is_signer: false },
        escrow_account: id(41),
        vault_account: id(40),
    };
    assert_eq!(
        swap.into_transfer_to_initializer_context(),
        Transfer { from: id(33), to: id(31), authority: signer(21) }
    );
    assert_eq!(
        swap.into_transfer_to_taker_context(&handle),
        Transfer { from: id(40), to: id(32), authority: derived }
    );
    assert_eq!(
        swap.into_close_context(&handle),
        CloseAccount { account: id(40), destination: id(20), authority: derived }
    );
}

#[test]
fn an_open_offer_is_taken_into_the_ledger() {
    let record = EscrowAccount {
        initializer_key: id(20),
        initializer_deposit_token_account: id(30),
        initializer_receive_token_account: id(31),
        initializer_amount: 100,
        taker_amount: 50,
    };
    let handle = given_authority();
    let held = |key: u8, amount: u64| TokenAccount { owner: handle.key(), ..account(key, 10, 0, amount) };
    let offer = Offer { key: id(41), record, vault: held(40, 100) };
    let mut ledger = Ledger::new();
    assert!(ledger.open_account(account(30, 10, 20, 0)));
    assert!(!ledger.restore_offer(Offer { vault: held(40, 99), ..offer }));
    assert!(!ledger.restore_offer(Offer { vault: held(30, 100), ..offer }));
    assert!(ledger.restore_offer(offer));
    assert!(!ledger.restore_offer(offer));
    assert!(!ledger.restore_offer(Offer { key: id(42), ..offer }));
    assert!(!ledger.restore_offer(Offer { vault: held(43, 100), ..offer }));
    assert!(!ledger.restore_offer(Offer {
        key: id(42),
        record: EscrowAccount { initializer_amount: u64::MAX, ..record },
        vault: held(43, u64::MAX),
    }));
    assert_eq!(ledger.offer_count(), 1);
    assert_eq!(ledger.open_offer(&id(41)), Some(offer));
    assert_eq!(ledger.escrow_account(&id(41)), Some(record));
    assert!(ledger.is_vault(&id(40)));
    assert_eq!(ledger.supply_of(&id(10)), 100);

    let withdraw = Cancel {
        initializer: signer(20),
        vault_account: id(40),
        initializer_deposit_token_account: id(30),
        escrow_account: id(41),
    };
    assert_eq!(
        cancel_with_authority(&mut ledger, Some(handle), &withdraw),
        Ok(Settlement { residual_destination: id(20) })
    );
    assert_eq!(ledger.token_account(&id(30)), Some(account(30, 10, 20, 100)));
    assert_eq!(ledger.offer_count(), 0);
    assert_eq!(ledger.supply_of(&id(10)), 100);
}

#[test]
fn a_record_is_packed_into_its_bytes() {
    let record = EscrowAccount {
        initializer_key: id(20),
        initializer_deposit_token_account: id(30),
        initializer_receive_token_account: id(31),
        initializer_amount: 0x0102030405060708,
        taker_amount: 50,
    };
    let bytes = record.pack();
    assert_eq!(bytes.len(), 112);
    assert_eq!(bytes.len(), escrow::record::RECORD_LEN);
    assert_eq!(&bytes[0..32], &[20u8; 32]);
    assert_eq!(&bytes[32..64], &[30u8; 32]);
    assert_eq!(&bytes[64..96], &[31u8; 32]);
    assert_eq!(&bytes[96..104], &[8u8, 7, 6, 5, 4, 3, 2, 1]);
    assert_eq!(&bytes[104..112], &[50u8, 0, 0, 0, 0, 0, 0, 0]);
    assert_eq!(EscrowAccount::unpack(&bytes), Some(record));
}

#[test]
fn bytes_of_another_length_hold_no_record() {
    assert_eq!(EscrowAccount::unpack(&[]), None);
    assert_eq!(EscrowAccount::unpack(&[0u8; 111]), None);
    assert_eq!(EscrowAccount::unpack(&[0u8; 113]), None);
    assert_eq!(
        EscrowAccount::unpack(&[0u8; 112]),
        Some(EscrowAccount {
            initializer_key: id(0),
            initializer_deposit_token_account: id(0),
            initializer_receive_token_account: id(0),
            initializer_amount: 0,
            taker_amount: 0,
        })
    );
    let mut bytes = [0u8; 112];
    bytes[111] = 1;
    bytes[0] = 9;
    let record = EscrowAccount::unpack(&bytes).expect("a record");
    assert_eq!(record.taker_amount, 1 << 56);
    assert_eq!(record.initializer_key.to_bytes()[0], 9);
    assert_eq!(record.pack(), bytes.to_vec());
}
