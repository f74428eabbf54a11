use blueshift_escrow::address::Address;
use blueshift_escrow::escrow::state::{Escrow, DISCRIMINATOR, INIT_SPACE, PACKED_LEN};

fn sample() -> Escrow {
    Escrow {
        seed: 0x0102030405060708,
        maker: Address { bytes: [0xaa; 32] },
        mint_a: Address { bytes: [0xbb; 32] },
        mint_b: Address { bytes: [0xcc; 32] },
        receive: 100,
        bump: 254,
    }
}

#[test]
fn a_record_packs_to_its_fixed_layout() {
    let data = sample().pack();
    assert_eq!(data.len(), 114);
    assert_eq!(PACKED_LEN, 114);
    assert_eq!(INIT_SPACE, 113);
    assert_eq!(PACKED_LEN, INIT_SPACE + 1);
    assert_eq!(DISCRIMINATOR, 1);
    assert_eq!(data[0], 1);
    assert_eq!(data[1..9], [8, 7, 6, 5, 4, 3, 2, 1]);
    assert_eq!(data[9..41], [0xaa; 32]);
    assert_eq!(data[41..73], [0xbb; 32]);
    assert_eq!(data[73..105], [0xcc; 32]);
    assert_eq!(data[105..113], [100, 0, 0, 0, 0, 0, 0, 0]);
    assert_eq!(data[113], 254);
}

#[test]
fn the_layout_is_the_borsh_form_of_the_fields_after_the_discriminator() {
    let record = sample();
    let fields = borsh::to_vec(&(
        record.seed,
        record.maker.bytes,
        record.mint_a.bytes,
        record.mint_b.bytes,
        record.receive,
        record.bump,
    ))
    .unwrap();
    assert_eq!(fields.len(), INIT_SPACE);
    let data = record.pack();
    assert_eq!(data[1..], fields[..]);
}

#[test]
fn a_packed_record_reads_back() {
    let record = sample();
    assert_eq!(Escrow::unpack(&record.pack()), Some(record));
    let extreme = Escrow { seed: u64::MAX, receive: u64::MAX, bump: 0, ..record };
    assert_eq!(Escrow::unpack(&extreme.pack()), Some(extreme));
    let zero = Escrow { seed: 0, receive: 0, bump: 255, ..record };
    assert_eq!(Escrow::unpack(&zero.pack()), Some(zero));
}

#[test]
fn what_follows_a_stored_record_is_not_read() {
    let record = sample();
    let mut data = record.pack();
    data.extend_from_slice(&[0u8; 7]);
    assert_eq!(data.len(), 8 + INIT_SPACE);
    assert_eq!(Escrow::unpack(&data), Some(record));
    data.extend_from_slice(&[9u8; 20]);
    assert_eq!(Escrow::unpack(&data), Some(record));
}

#[test]
fn short_or_foreign_data_is_no_record() {
    let record = sample();
    let data = record.pack();
    assert_eq!(Escrow::unpack(&data[..113]), None);
    assert_eq!(Escrow::unpack(&data[..1]), None);
    assert_eq!(Escrow::unpack(&[]), None);
    let mut foreign = data.clone();
    foreign[0] = 0;
    assert_eq!(Escrow::unpack(&foreign), None);
    foreign[0] = 2;
    assert_eq!(Escrow::unpack(&foreign), None);
}

#[test]
fn every_field_has_its_own_place() {
    let record = sample();
    let data = record.pack();
    for place in 1..114 {
        let mut changed = data.clone();
        changed[place] ^= 1;
        let read = Escrow::unpack(&changed).unwrap();
        assert_ne!(read, record);
        assert_eq!(read.pack(), changed);
    }
}
