use crate::address::Address;
use vstd::bytes::{
    lemma_auto_spec_u64_to_from_le_bytes, spec_u64_from_le_bytes, spec_u64_to_le_bytes,
    u64_from_le_bytes, u64_to_le_bytes,
};
use vstd::prelude::*;
use vstd::slice::slice_subrange;

verus! {

/// The persistent description of one open trade.
#[derive(Clone, Copy, Debug, PartialEq, Eq)]
pub struct Escrow {
    /// Nonce chosen by the maker; with the maker it fixes the record's address.
    pub seed: u64,
    /// The party that opened the trade and alone may cancel it.
    pub maker: Address,
    /// The asset held in custody.
    pub mint_a: Address,
    /// The asset asked in return.
    pub mint_b: Address,
    /// How much of `mint_b` the maker asks for the custody.
    pub receive: u64,
    /// The bump seed that completes the record's signer seeds.
    pub bump: u8,
}

/// An `Escrow` with its identities as byte sequences.
pub struct EscrowView {
    pub seed: u64,
    pub maker: Seq<u8>,
    pub mint_a: Seq<u8>,
    pub mint_b: Seq<u8>,
    pub receive: u64,
    pub bump: u8,
}

impl View for Escrow {
    type V = EscrowView;

    open spec fn view(&self) -> EscrowView {
        EscrowView {
            seed: self.seed,
            maker: self.maker@,
            mint_a: self.mint_a@,
            mint_b: self.mint_b@,
            receive: self.receive,
            bump: self.bump,
        }
    }
}

/// The byte that marks stored data as an escrow record.
pub const DISCRIMINATOR: u8 = 1;

/// The size of a record's fields in their stored form.
pub const INIT_SPACE: usize = 113;

/// The size of a stored record: the discriminator and the fields.
pub const PACKED_LEN: usize = 114;

/// The stored form of a record: the discriminator, then the fields in the
/// order seed, maker, offered asset, asked asset, asked amount, bump, with
/// the integers in little-endian order. Nothing in it varies in length.
pub open spec fn packed(record: EscrowView) -> Seq<u8> {
    seq![DISCRIMINATOR] + spec_u64_to_le_bytes(record.seed) + record.maker + record.mint_a
        + record.mint_b + spec_u64_to_le_bytes(record.receive) + seq![record.bump]
}

impl EscrowView {
    /// The identities of the record are 32 bytes each, as those of every
    /// `Escrow` are.
    pub open spec fn sized(self) -> bool {
        self.maker.len() == 32 && self.mint_a.len() == 32 && self.mint_b.len() == 32
    }
}

/// The parts of a stored record, each at its fixed place.
pub proof fn lemma_packed_parts(record: EscrowView)
    requires
        record.sized(),
    ensures
        packed(record).len() == PACKED_LEN,
        packed(record)[0] == DISCRIMINATOR,
        packed(record).subrange(1, 9) == spec_u64_to_le_bytes(record.seed),
        packed(record).subrange(9, 41) == record.maker,
        packed(record).subrange(41, 73) == record.mint_a,
        packed(record).subrange(73, 105) == record.mint_b,
        packed(record).subrange(105, 113) == spec_u64_to_le_bytes(record.receive),
        packed(record)[113] == record.bump,
{
    lemma_auto_spec_u64_to_from_le_bytes();
    let p = packed(record);
    assert(p.subrange(1, 9) =~= spec_u64_to_le_bytes(record.seed));
    assert(p.subrange(9, 41) =~= record.maker);
    assert(p.subrange(41, 73) =~= record.mint_a);
    assert(p.subrange(73, 105) =~= record.mint_b);
    assert(p.subrange(105, 113) =~= spec_u64_to_le_bytes(record.receive));
}

/// Two records with the same stored form are the same record.
pub proof fn lemma_packed_injective(first: EscrowView, second: EscrowView)
    requires
        first.sized(),
        second.sized(),
        packed(first) == packed(second),
    ensures
        first == second,
{
    lemma_packed_parts(first);
    lemma_packed_parts(second);
    lemma_auto_spec_u64_to_from_le_bytes();
    assert(spec_u64_from_le_bytes(spec_u64_to_le_bytes(first.seed)) == first.seed);
    assert(spec_u64_from_le_bytes(spec_u64_to_le_bytes(second.seed)) == second.seed);
    assert(spec_u64_from_le_bytes(spec_u64_to_le_bytes(first.receive)) == first.receive);
    assert(spec_u64_from_le_bytes(spec_u64_to_le_bytes(second.receive)) == second.receive);
}

impl Escrow {
    /// The stored form of the record.
    pub fn pack(&self) -> (data: Vec<u8>)
        ensures
            data@ == packed(self@),
            data@.len() == PACKED_LEN,
    {
        let mut data: Vec<u8> = Vec::new();
        data.push(DISCRIMINATOR);
        let mut seed = u64_to_le_bytes(self.seed);
        data.append(&mut seed);
        let mut maker = self.maker.to_vec();
        data.append(&mut maker);
        let mut mint_a = self.mint_a.to_vec();
        data.append(&mut mint_a);
        let mut mint_b = self.mint_b.to_vec();
        data.append(&mut mint_b);
        let mut receive = u64_to_le_bytes(self.receive);
        data.append(&mut receive);
        data.push(self.bump);
        proof {
            assert(data@ =~= packed(self@));
            lemma_packed_parts(self@);
        }
        data
    }

    /// Reads a record from stored data. The data must begin with the
    /// discriminator and hold all the fields; what follows them is not
    /// read.
    pub fn unpack(data: &[u8]) -> (record: Option<Escrow>)
        ensures
            match record {
                Some(r) => data@.len() >= PACKED_LEN && packed(r@) == data@.subrange(
                    0,
                    PACKED_LEN as int,
                ),
                None => data@.len() < PACKED_LEN || data@[0] != DISCRIMINATOR,
            },
    {
        if data.len() < PACKED_LEN || data[0] != DISCRIMINATOR {
            return None;
        }
        let seed = u64_from_le_bytes(slice_subrange(data, 1, 9));
        let maker = Address::from_slice(slice_subrange(data, 9, 41));
        let mint_a = Address::from_slice(slice_subrange(data, 41, 73));
        let mint_b = Address::from_slice(slice_subrange(data, 73, 105));
        let receive = u64_from_le_bytes(slice_subrange(data, 105, 113));
        let bump = data[113];
        match (maker, mint_a, mint_b) {
            (Some(maker), Some(mint_a), Some(mint_b)) => {
                let record = Escrow { seed, maker, mint_a, mint_b, receive, bump };
                proof {
                    lemma_auto_spec_u64_to_from_le_bytes();
                    assert(spec_u64_to_le_bytes(seed) == data@.subrange(1, 9));
                    assert(spec_u64_to_le_bytes(receive) == data@.subrange(105, 113));
                    assert(packed(record@) =~= data@.subrange(0, PACKED_LEN as int));
                }
                Some(record)
            },
            _ => None,
        }
    }
}

/// A stored record reads back as the record that was stored, whatever
/// follows it in the data.
pub proof fn lemma_unpack_reads_pack(record: EscrowView, read: EscrowView, data: Seq<u8>)
    requires
        record.sized(),
        read.sized(),
        data.len() >= PACKED_LEN,
        data.subrange(0, PACKED_LEN as int) == packed(record),
        packed(read) == data.subrange(0, PACKED_LEN as int),
    ensures
        read == record,
{
    lemma_packed_injective(read, record);
}

} // verus!
