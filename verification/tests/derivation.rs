use anchor_lang::prelude::Pubkey;
use blueshift_escrow::address::Address;
use blueshift_escrow::escrow::custody::{holding, id, signer};
use blueshift_escrow::escrow::exchange::Custody;
use blueshift_escrow::escrow::state::Escrow;
use std::str::FromStr;

fn party(tag: u8) -> Address {
    Address { bytes: [tag; 32] }
}

fn derive(maker: &Address, seed: u64) -> Option<blueshift_escrow::escrow::custody::Derivation> {
    blueshift_escrow::escrow::custody::derive(maker, seed)
}

#[test]
fn the_program_address_is_the_declared_one() {
    let declared = Pubkey::from_str("6GNxX3PgZuHG3gi9o1gjye1CyyC3eVCTVGMQnV7EBnV7").unwrap();
    assert_eq!(id().bytes, declared.to_bytes());
}

#[test]
fn derive_is_deterministic() {
    let maker = party(1);
    let first = derive(&maker, 42).unwrap();
    let second = derive(&maker, 42).unwrap();
    assert_eq!(first, second);
    assert_eq!(first.escrow, second.escrow);
    assert_eq!(first.vault, second.vault);
    assert_eq!(first.bump, second.bump);
}

#[test]
fn distinct_seeds_derive_disjoint_addresses() {
    let maker = party(1);
    let first = derive(&maker, 1).unwrap();
    let second = derive(&maker, 2).unwrap();
    assert_ne!(first.escrow, second.escrow);
    assert_ne!(first.vault, second.vault);
    assert_ne!(first.escrow, second.vault);
    assert_ne!(first.vault, second.escrow);
    assert_ne!(first.escrow, first.vault);
}

#[test]
fn distinct_makers_derive_disjoint_addresses() {
    let first = derive(&party(1), 1).unwrap();
    let second = derive(&party(2), 1).unwrap();
    assert_ne!(first.escrow, second.escrow);
    assert_ne!(first.vault, second.vault);
}

#[test]
fn derive_hashes_the_tag_the_maker_and_the_seed() {
    let maker = party(1);
    let program = Pubkey::new_from_array(id().bytes);
    for seed in [0u64, 1, 2, 255, 256, 0x0102030405060708, u64::MAX] {
        let derived = derive(&maker, seed).unwrap();
        let (escrow, bump) = Pubkey::find_program_address(
            &[b"escrow", &maker.bytes, &seed.to_le_bytes()],
            &program,
        );
        assert_eq!(derived.escrow.bytes, escrow.to_bytes());
        assert_eq!(derived.bump, bump);
        let (vault, _) = Pubkey::find_program_address(&[b"vault", escrow.as_ref()], &program);
        assert_eq!(derived.vault.bytes, vault.to_bytes());
        // A derived address is never one of the inputs handed back.
        assert_ne!(derived.escrow, maker);
        assert_ne!(derived.vault, maker);
        assert_ne!(derived.escrow.bytes, program.to_bytes());
    }
}

#[test]
fn the_stored_bump_signs_for_the_record_address() {
    let (maker, mint_a, mint_b) = (party(1), party(10), party(11));
    let derived = derive(&maker, 9).unwrap();
    let record = Escrow { seed: 9, maker, mint_a, mint_b, receive: 5, bump: derived.bump };
    assert_eq!(signer(&record), Some(derived.escrow));

    let program = Pubkey::new_from_array(id().bytes);
    let created = Pubkey::create_program_address(
        &[b"escrow", &maker.bytes, &9u64.to_le_bytes(), &[derived.bump]],
        &program,
    )
    .unwrap();
    assert_eq!(signer(&record).unwrap().bytes, created.to_bytes());
}

#[test]
fn another_bump_seed_or_maker_does_not_sign_for_it() {
    let (maker, mint_a, mint_b) = (party(1), party(10), party(11));
    let derived = derive(&maker, 9).unwrap();
    let record = Escrow { seed: 9, maker, mint_a, mint_b, receive: 5, bump: derived.bump };
    let other_bump = Escrow { bump: derived.bump.wrapping_sub(1), ..record };
    assert_ne!(signer(&other_bump), Some(derived.escrow));
    let other_seed = Escrow { seed: 10, ..record };
    assert_ne!(signer(&other_seed), Some(derived.escrow));
    let other_maker = Escrow { maker: party(2), ..record };
    assert_ne!(signer(&other_maker), Some(derived.escrow));
    // The assets and the asked amount are no part of the seeds.
    let other_terms = Escrow { mint_a: mint_b, mint_b: mint_a, receive: 6, ..record };
    assert_eq!(signer(&other_terms), Some(derived.escrow));
}

#[test]
fn seeds_that_sign_for_no_address_give_none() {
    let (maker, mint_a, mint_b) = (party(1), party(10), party(11));
    let program = Pubkey::new_from_array(id().bytes);
    let mut rejected = None;
    for bump in 0..=u8::MAX {
        let created = Pubkey::create_program_address(
            &[b"escrow", &maker.bytes, &9u64.to_le_bytes(), &[bump]],
            &program,
        );
        if created.is_err() {
            rejected = Some(bump);
            break;
        }
    }
    let bump = rejected.unwrap();
    let record = Escrow { seed: 9, maker, mint_a, mint_b, receive: 5, bump };
    assert_eq!(signer(&record), None);
}

#[test]
fn a_custody_authorizes_its_own_pair_only() {
    let (maker, mint_a, mint_b) = (party(1), party(10), party(11));
    let derived = derive(&maker, 9).unwrap();
    let other = derive(&maker, 10).unwrap();
    let record = Escrow { seed: 9, maker, mint_a, mint_b, receive: 5, bump: derived.bump };
    let custody = Custody { escrow: derived.escrow, record, vault: derived.vault, amount: 3 };
    let signed = signer(&record);
    assert!(custody.authorizes(&signed, &derived.escrow, &derived.vault));
    assert!(!custody.authorizes(&signed, &derived.escrow, &other.vault));
    assert!(!custody.authorizes(&signed, &other.escrow, &derived.vault));
    assert!(!custody.authorizes(&None, &derived.escrow, &derived.vault));
    assert!(!custody.authorizes(&Some(other.escrow), &derived.escrow, &derived.vault));
    let forged = Escrow { bump: derived.bump.wrapping_add(1), ..record };
    assert!(!custody.authorizes(&signer(&forged), &derived.escrow, &derived.vault));
}

#[test]
fn addresses_compare_by_their_bytes() {
    let mut bytes = [7u8; 32];
    assert_eq!(Address { bytes }, party(7));
    bytes[31] = 8;
    assert_ne!(Address { bytes }, party(7));
    bytes[31] = 7;
    bytes[0] = 0;
    assert_ne!(Address { bytes }, party(7));
}

#[test]
fn an_address_is_thirty_two_bytes() {
    let bytes: Vec<u8> = (0u8..32).collect();
    let address = Address::from_slice(&bytes).unwrap();
    assert_eq!(address.bytes[0], 0);
    assert_eq!(address.bytes[31], 31);
    assert_eq!(address.to_vec(), bytes);
    assert_eq!(Address::from_slice(&bytes[..31]), None);
    assert_eq!(Address::from_slice(&[0u8; 33]), None);
    assert_eq!(Address::from_slice(&[]), None);
}

#[test]
fn the_holding_address_follows_from_the_record_address() {
    let program = Pubkey::new_from_array(id().bytes);
    for seed in [1u64, 2, 3] {
        let derived = derive(&party(1), seed).unwrap();
        assert_eq!(holding(&derived.escrow), Some(derived.vault));
        assert_ne!(holding(&derived.vault), Some(derived.vault));
    }
    let record = party(99);
    let (vault, _) = Pubkey::find_program_address(&[b"vault", &record.bytes], &program);
    assert_eq!(holding(&record).unwrap().bytes, vault.to_bytes());
    assert_ne!(holding(&record), Some(record));
}
