use anchor_lang::prelude::Pubkey;
use blueshift_escrow::address::Address;
use blueshift_escrow::ledger::Ledger;
use blueshift_escrow::vault::custody::{find_vault, id, native};
use blueshift_escrow::vault::errors::VaultError;
use blueshift_escrow::vault::instructions::deposit::{derived_vault, pay_in, Deposit};
use blueshift_escrow::vault::instructions::withdraw::{pay_out, Withdraw};
use blueshift_escrow::vault::instructions::{process, DepositArgs, VaultInstruction};
use blueshift_escrow::vault::{deposit, withdraw};
use std::str::FromStr;

const RENT: u64 = 890_880;

fn party(tag: u8) -> Address {
    Address { bytes: [tag; 32] }
}

/// An owner with `funds` and the owner's vault.
fn opened(funds: u64) -> (Ledger, Address, Address) {
    let owner = party(1);
    let (vault, _) = find_vault(&owner).unwrap();
    let mut ledger = Ledger::new();
    ledger.credit(&owner, &native(), funds).unwrap();
    (ledger, owner, vault)
}

#[test]
fn the_vault_program_address_is_the_declared_one() {
    let declared = Pubkey::from_str("22222222222222222222222222222222222222222222").unwrap();
    assert_eq!(id().bytes, declared.to_bytes());
}

#[test]
fn the_native_asset_is_named_by_the_system_program() {
    let system = Pubkey::from_str("11111111111111111111111111111111").unwrap();
    assert_eq!(native().bytes, system.to_bytes());
    assert_eq!(native().bytes, [0u8; 32]);
}

#[test]
fn a_vault_is_derived_from_the_tag_and_its_owner() {
    let program = Pubkey::new_from_array(id().bytes);
    for tag in [0u8, 1, 2, 200] {
        let owner = party(tag);
        let (vault, bump) = find_vault(&owner).unwrap();
        let (expected, expected_bump) =
            Pubkey::find_program_address(&[b"vault", &owner.bytes], &program);
        assert_eq!(vault.bytes, expected.to_bytes());
        assert_eq!(bump, expected_bump);
        assert_ne!(vault, owner);
        assert_eq!(derived_vault(&owner), Some(vault));
        assert_ne!(derived_vault(&vault), Some(vault));
    }
    assert_ne!(find_vault(&party(1)).unwrap().0, find_vault(&party(2)).unwrap().0);
    assert_eq!(find_vault(&party(1)), find_vault(&party(1)));
}

#[test]
fn a_deposit_moves_funds_into_the_vault() {
    let (mut ledger, owner, vault) = opened(2_000_000);
    let ctx = Deposit { signer: owner, vault };
    assert_eq!(deposit(&mut ledger, &ctx, 500_000, RENT), Ok(()));
    assert_eq!(ledger.balance_of(&owner, &native()), 1_500_000);
    assert_eq!(ledger.balance_of(&vault, &native()), 500_000);
    assert_eq!(deposit(&mut ledger, &ctx, 1, RENT), Ok(()));
    assert_eq!(ledger.balance_of(&owner, &native()), 1_499_999);
    assert_eq!(ledger.balance_of(&vault, &native()), 500_001);
}

#[test]
fn a_deposit_of_nothing_is_refused() {
    let (mut ledger, owner, vault) = opened(2_000_000);
    let ctx = Deposit { signer: owner, vault };
    assert_eq!(deposit(&mut ledger, &ctx, 0, RENT), Err(VaultError::InvalidAmount));
    // The amount is judged before the vault's address.
    let stray = Deposit { signer: owner, vault: party(9) };
    assert_eq!(deposit(&mut ledger, &stray, 0, RENT), Err(VaultError::InvalidAmount));
    assert_eq!(ledger.balance_of(&owner, &native()), 2_000_000);
    assert_eq!(ledger.balance_of(&vault, &native()), 0);
}

#[test]
fn a_deposit_into_a_foreign_vault_is_refused() {
    let (mut ledger, owner, vault) = opened(2_000_000);
    let (foreign, _) = find_vault(&party(2)).unwrap();
    let ctx = Deposit { signer: owner, vault: foreign };
    assert_eq!(deposit(&mut ledger, &ctx, 5, RENT), Err(VaultError::DerivationMismatch));
    let ctx = Deposit { signer: owner, vault: owner };
    assert_eq!(deposit(&mut ledger, &ctx, 5, RENT), Err(VaultError::DerivationMismatch));
    assert_eq!(ledger.balance_of(&owner, &native()), 2_000_000);
    assert_eq!(ledger.balance_of(&foreign, &native()), 0);
    assert_eq!(ledger.balance_of(&vault, &native()), 0);
}

#[test]
fn an_owner_must_hold_more_than_the_rent_minimum() {
    let (mut ledger, owner, vault) = opened(RENT);
    let ctx = Deposit { signer: owner, vault };
    assert_eq!(deposit(&mut ledger, &ctx, 1, RENT), Err(VaultError::InsufficientFunds));
    assert_eq!(ledger.balance_of(&owner, &native()), RENT);
    ledger.credit(&owner, &native(), 1).unwrap();
    assert_eq!(deposit(&mut ledger, &ctx, 1, RENT), Ok(()));
    assert_eq!(ledger.balance_of(&owner, &native()), RENT);
    assert_eq!(ledger.balance_of(&vault, &native()), 1);
}

#[test]
fn a_deposit_beyond_the_owners_balance_is_refused() {
    let (mut ledger, owner, vault) = opened(2_000_000);
    let ctx = Deposit { signer: owner, vault };
    assert_eq!(deposit(&mut ledger, &ctx, 2_000_001, RENT), Err(VaultError::InsufficientFunds));
    assert_eq!(ledger.balance_of(&owner, &native()), 2_000_000);
    assert_eq!(ledger.balance_of(&vault, &native()), 0);
    assert_eq!(deposit(&mut ledger, &ctx, 2_000_000, RENT), Ok(()));
    assert_eq!(ledger.balance_of(&owner, &native()), 0);
    assert_eq!(ledger.balance_of(&vault, &native()), 2_000_000);
}

#[test]
fn a_deposit_the_vault_cannot_hold_is_refused() {
    let (mut ledger, owner, vault) = opened(2_000_000);
    ledger.credit(&vault, &native(), u64::MAX - 4).unwrap();
    let ctx = Deposit { signer: owner, vault };
    assert_eq!(deposit(&mut ledger, &ctx, 5, RENT), Err(VaultError::Overflow));
    assert_eq!(ledger.balance_of(&owner, &native()), 2_000_000);
    assert_eq!(ledger.balance_of(&vault, &native()), u64::MAX - 4);
}

#[test]
fn a_withdrawal_empties_the_vault() {
    let (mut ledger, owner, vault) = opened(2_000_000);
    deposit(&mut ledger, &Deposit { signer: owner, vault }, 700_000, RENT).unwrap();
    deposit(&mut ledger, &Deposit { signer: owner, vault }, 50, RENT).unwrap();
    assert_eq!(withdraw(&mut ledger, &Withdraw { signer: owner, vault }), Ok(()));
    assert_eq!(ledger.balance_of(&owner, &native()), 2_000_000);
    assert_eq!(ledger.balance_of(&vault, &native()), 0);
}

#[test]
fn an_empty_vault_cannot_be_withdrawn() {
    let (mut ledger, owner, vault) = opened(2_000_000);
    let ctx = Withdraw { signer: owner, vault };
    assert_eq!(withdraw(&mut ledger, &ctx), Err(VaultError::InvalidAmount));
    deposit(&mut ledger, &Deposit { signer: owner, vault }, 3, RENT).unwrap();
    assert_eq!(withdraw(&mut ledger, &ctx), Ok(()));
    assert_eq!(withdraw(&mut ledger, &ctx), Err(VaultError::InvalidAmount));
    assert_eq!(ledger.balance_of(&owner, &native()), 2_000_000);
}

#[test]
fn only_the_owner_withdraws_from_a_vault() {
    let (mut ledger, owner, vault) = opened(2_000_000);
    deposit(&mut ledger, &Deposit { signer: owner, vault }, 700_000, RENT).unwrap();
    let intruder = party(2);
    let ctx = Withdraw { signer: intruder, vault };
    assert_eq!(withdraw(&mut ledger, &ctx), Err(VaultError::DerivationMismatch));
    assert_eq!(ledger.balance_of(&vault, &native()), 700_000);
    assert_eq!(ledger.balance_of(&intruder, &native()), 0);
}

#[test]
fn a_withdrawal_the_owner_cannot_hold_is_refused() {
    let (mut ledger, owner, vault) = opened(2_000_000);
    deposit(&mut ledger, &Deposit { signer: owner, vault }, 10, RENT).unwrap();
    ledger.credit(&owner, &native(), u64::MAX - 1_999_990 - 9).unwrap();
    let ctx = Withdraw { signer: owner, vault };
    assert_eq!(withdraw(&mut ledger, &ctx), Err(VaultError::Overflow));
    assert_eq!(ledger.balance_of(&vault, &native()), 10);
    assert_eq!(ledger.balance_of(&owner, &native()), u64::MAX - 9);
}

#[test]
fn an_instruction_has_a_wire_form() {
    let pay = VaultInstruction::Deposit(DepositArgs { amount: 0x0102030405060708 });
    assert_eq!(pay.pack(), vec![0, 8, 7, 6, 5, 4, 3, 2, 1]);
    assert_eq!(VaultInstruction::Withdraw.pack(), vec![1]);
    assert_eq!(VaultInstruction::unpack(&[0, 8, 7, 6, 5, 4, 3, 2, 1]), Some(pay));
    assert_eq!(VaultInstruction::unpack(&[1]), Some(VaultInstruction::Withdraw));
}

#[test]
fn the_wire_form_is_the_borsh_form() {
    for amount in [0u64, 1, 255, 256, 890_880, u64::MAX] {
        let pay = VaultInstruction::Deposit(DepositArgs { amount });
        assert_eq!(pay.pack(), borsh::to_vec(&(0u8, amount)).unwrap());
        assert_eq!(VaultInstruction::unpack(&pay.pack()), Some(pay));
    }
    assert_eq!(VaultInstruction::Withdraw.pack(), borsh::to_vec(&1u8).unwrap());
}

#[test]
fn other_data_is_no_instruction() {
    assert_eq!(VaultInstruction::unpack(&[]), None);
    assert_eq!(VaultInstruction::unpack(&[0]), None);
    assert_eq!(VaultInstruction::unpack(&[2]), None);
    assert_eq!(VaultInstruction::unpack(&[0, 1, 2, 3, 4, 5, 6, 7]), None);
    assert_eq!(VaultInstruction::unpack(&[0, 1, 2, 3, 4, 5, 6, 7, 8, 9]), None);
    assert_eq!(VaultInstruction::unpack(&[1, 0]), None);
    assert_eq!(VaultInstruction::unpack(&[1, 0, 0, 0, 0, 0, 0, 0, 0]), None);
    assert_eq!(VaultInstruction::unpack(&[2, 0, 0, 0, 0, 0, 0, 0, 0]), None);
}

#[test]
fn an_instruction_is_carried_out_for_its_owner() {
    let (mut ledger, owner, vault) = opened(2_000_000);
    let pay = VaultInstruction::Deposit(DepositArgs { amount: 40 });
    assert_eq!(process(&mut ledger, &owner, &vault, &pay, RENT), Ok(()));
    assert_eq!(ledger.balance_of(&vault, &native()), 40);
    let none = VaultInstruction::Deposit(DepositArgs { amount: 0 });
    assert_eq!(process(&mut ledger, &owner, &vault, &none, RENT), Err(VaultError::InvalidAmount));
    assert_eq!(process(&mut ledger, &owner, &vault, &VaultInstruction::Withdraw, RENT), Ok(()));
    assert_eq!(ledger.balance_of(&vault, &native()), 0);
    assert_eq!(ledger.balance_of(&owner, &native()), 2_000_000);
    assert_eq!(
        process(&mut ledger, &owner, &vault, &VaultInstruction::Withdraw, RENT),
        Err(VaultError::InvalidAmount)
    );
}

#[test]
fn a_deposit_goes_to_the_vault_that_was_derived() {
    let (owner, vault, other) = (party(1), party(50), party(51));
    let mut ledger = Ledger::new();
    ledger.credit(&owner, &native(), 1_000).unwrap();
    let ctx = Deposit { signer: owner, vault };
    assert_eq!(pay_in(&mut ledger, &ctx, None, 10, 100), Err(VaultError::DerivationMismatch));
    assert_eq!(
        pay_in(&mut ledger, &ctx, Some(other), 10, 100),
        Err(VaultError::DerivationMismatch)
    );
    assert_eq!(pay_in(&mut ledger, &ctx, Some(other), 0, 100), Err(VaultError::InvalidAmount));
    assert_eq!(ledger.balance_of(&owner, &native()), 1_000);
    assert_eq!(pay_in(&mut ledger, &ctx, Some(vault), 10, 100), Ok(()));
    assert_eq!(ledger.balance_of(&owner, &native()), 990);
    assert_eq!(ledger.balance_of(&vault, &native()), 10);
    assert_eq!(ledger.balance_of(&other, &native()), 0);
}

#[test]
fn a_withdrawal_comes_from_the_vault_that_was_derived() {
    let (owner, vault, other) = (party(1), party(50), party(51));
    let mut ledger = Ledger::new();
    ledger.credit(&vault, &native(), 70).unwrap();
    ledger.credit(&other, &native(), 30).unwrap();
    let ctx = Withdraw { signer: owner, vault };
    assert_eq!(pay_out(&mut ledger, &ctx, None), Err(VaultError::DerivationMismatch));
    assert_eq!(pay_out(&mut ledger, &ctx, Some(other)), Err(VaultError::DerivationMismatch));
    assert_eq!(ledger.balance_of(&vault, &native()), 70);
    assert_eq!(pay_out(&mut ledger, &ctx, Some(vault)), Ok(()));
    assert_eq!(ledger.balance_of(&owner, &native()), 70);
    assert_eq!(ledger.balance_of(&vault, &native()), 0);
    assert_eq!(ledger.balance_of(&other, &native()), 30);
    assert_eq!(pay_out(&mut ledger, &ctx, Some(vault)), Err(VaultError::InvalidAmount));
}
