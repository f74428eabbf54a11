use crate::address::{
    create_program_address, created_program_address, found_program_address, optional,
    try_find_program_address, Address,
};
use crate::escrow::state::Escrow;
use vstd::bytes::{spec_u64_to_le_bytes, u64_to_le_bytes};
use vstd::prelude::*;

verus! {

/// The bytes of the address this program is deployed at.
pub open spec fn program_id() -> Seq<u8> {
    seq![
        78u8, 58u8, 249u8, 78u8, 226u8, 157u8, 155u8, 186u8, 219u8, 0u8, 63u8, 163u8, 4u8, 90u8,
        46u8, 44u8, 1u8, 108u8, 218u8, 15u8, 22u8, 34u8, 146u8, 42u8, 201u8, 236u8, 131u8, 182u8,
        146u8, 204u8, 73u8, 82u8,
    ]
}

/// The address this program is deployed at.
pub fn id() -> (program: Address)
    ensures
        program@ == program_id(),
{
    let program = Address {
        bytes: [
            78, 58, 249, 78, 226, 157, 155, 186, 219, 0, 63, 163, 4, 90, 46, 44, 1, 108, 218, 15,
            22, 34, 146, 42, 201, 236, 131, 182, 146, 204, 73, 82,
        ],
    };
    assert(program@ =~= program_id());
    program
}

/// The first seed of every record address: the ASCII bytes of `escrow`.
pub open spec fn escrow_tag() -> Seq<u8> {
    seq![101u8, 115u8, 99u8, 114u8, 111u8, 119u8]
}

/// The first seed of every holding address: the ASCII bytes of `vault`.
pub open spec fn vault_tag() -> Seq<u8> {
    seq![118u8, 97u8, 117u8, 108u8, 116u8]
}

/// The seeds a record's address is derived from: the tag, the maker, and
/// the maker's nonce in little-endian order.
pub open spec fn escrow_seeds(maker: Seq<u8>, seed: u64) -> Seq<Seq<u8>> {
    seq![escrow_tag(), maker, spec_u64_to_le_bytes(seed)]
}

/// The seeds that sign for a record: its derivation seeds and its bump.
pub open spec fn signer_seeds(maker: Seq<u8>, seed: u64, bump: u8) -> Seq<Seq<u8>> {
    escrow_seeds(maker, seed).push(seq![bump])
}

/// The seeds a holding account's address is derived from: the tag and the
/// address of the record it serves.
pub open spec fn vault_seeds(escrow: Seq<u8>) -> Seq<Seq<u8>> {
    seq![vault_tag(), escrow]
}

/// The address of the record that `maker` opens under `seed`, with its bump.
pub open spec fn escrow_address(maker: Seq<u8>, seed: u64) -> Option<(Seq<u8>, u8)> {
    found_program_address(escrow_seeds(maker, seed), program_id())
}

/// The address of the holding account that serves the record at `escrow`.
pub open spec fn vault_address(escrow: Seq<u8>) -> Option<Seq<u8>> {
    match found_program_address(vault_seeds(escrow), program_id()) {
        Some((vault, _)) => Some(vault),
        None => None,
    }
}

/// The address that a maker, a nonce and a bump sign for. Funds leave a
/// holding account only where this is the address of its record.
pub open spec fn signer_address(maker: Seq<u8>, seed: u64, bump: u8) -> Option<Seq<u8>> {
    created_program_address(signer_seeds(maker, seed, bump), program_id())
}

/// The two addresses of one trade and the bump that signs for its custody.
#[derive(Clone, Copy, Debug, PartialEq, Eq)]
pub struct Derivation {
    /// Where the record lives.
    pub escrow: Address,
    /// Where the custody lives.
    pub vault: Address,
    /// The bump seed found with the record's address.
    pub bump: u8,
}

/// A `Derivation` with its addresses as byte sequences.
pub struct DerivationView {
    pub escrow: Seq<u8>,
    pub vault: Seq<u8>,
    pub bump: u8,
}

impl View for Derivation {
    type V = DerivationView;

    open spec fn view(&self) -> DerivationView {
        DerivationView { escrow: self.escrow@, vault: self.vault@, bump: self.bump }
    }
}

/// What `derive` yields: both addresses of the trade that `maker` opens
/// under `seed`, with a bump that signs for the record address; nothing
/// where either search finds no address.
pub open spec fn derivation(maker: Seq<u8>, seed: u64) -> Option<DerivationView> {
    match escrow_address(maker, seed) {
        Some((escrow, bump)) => match vault_address(escrow) {
            Some(vault) => if signer_address(maker, seed, bump) == Some(escrow) {
                Some(DerivationView { escrow, vault, bump })
            } else {
                None
            },
            None => None,
        },
        None => None,
    }
}

fn escrow_seed_parts(maker: &Address, seed: u64) -> (parts: Vec<Vec<u8>>)
    ensures
        parts.deep_view() == escrow_seeds(maker@, seed),
{
    let mut tag: Vec<u8> = Vec::new();
    tag.push(101);
    tag.push(115);
    tag.push(99);
    tag.push(114);
    tag.push(111);
    tag.push(119);
    let mut parts: Vec<Vec<u8>> = Vec::new();
    parts.push(tag);
    parts.push(maker.to_vec());
    parts.push(u64_to_le_bytes(seed));
    assert(parts.deep_view() =~~= escrow_seeds(maker@, seed));
    parts
}

fn vault_seed_parts(escrow: &Address) -> (parts: Vec<Vec<u8>>)
    ensures
        parts.deep_view() == vault_seeds(escrow@),
{
    let mut tag: Vec<u8> = Vec::new();
    tag.push(118);
    tag.push(97);
    tag.push(117);
    tag.push(108);
    tag.push(116);
    let mut parts: Vec<Vec<u8>> = Vec::new();
    parts.push(tag);
    parts.push(escrow.to_vec());
    assert(parts.deep_view() =~~= vault_seeds(escrow@));
    parts
}

/// A derivation that may be missing, with its addresses as bytes.
pub open spec fn derived_view(derived: Option<Derivation>) -> Option<DerivationView> {
    match derived {
        Some(d) => Some(d@),
        None => None,
    }
}

/// Derives the address of the holding account that serves the record at
/// `escrow`: a function of the record's address alone.
pub fn holding(escrow: &Address) -> (vault: Option<Address>)
    ensures
        optional(vault) == vault_address(escrow@),
{
    let seeds = vault_seed_parts(escrow);
    match try_find_program_address(&seeds, &id()) {
        Some((vault, _)) => Some(vault),
        None => None,
    }
}

/// Derives the record address, the holding address and the signing bump of
/// the trade that `maker` opens under `seed`.
pub fn derive(maker: &Address, seed: u64) -> (derived: Option<Derivation>)
    ensures
        derived_view(derived) == derivation(maker@, seed),
{
    let seeds = escrow_seed_parts(maker, seed);
    match try_find_program_address(&seeds, &id()) {
        None => None,
        Some((escrow, bump)) => match holding(&escrow) {
            None => None,
            Some(vault) => Some(Derivation { escrow, vault, bump }),
        },
    }
}

/// Recomputes, from what a record stores, the address its seeds sign for.
/// `None` where the stored seeds sign for no address.
pub fn signer(record: &Escrow) -> (address: Option<Address>)
    ensures
        optional(address) == signer_address(record.maker@, record.seed, record.bump),
{
    let mut seeds = escrow_seed_parts(&record.maker, record.seed);
    let mut bump: Vec<u8> = Vec::new();
    bump.push(record.bump);
    seeds.push(bump);
    assert(seeds.deep_view() =~~= signer_seeds(record.maker@, record.seed, record.bump));
    match create_program_address(&seeds, &id()) {
        Ok(address) => Some(address),
        Err(_) => None,
    }
}


/// Derivation determinism: whatever two derivations for one maker and one
/// seed yield, they yield the same: both nothing, or both the same record
/// address, holding address and bump.
pub proof fn lemma_derive_agrees(
    maker: Seq<u8>,
    seed: u64,
    first: Option<Derivation>,
    second: Option<Derivation>,
)
    requires
        derived_view(first) == derivation(maker, seed),
        derived_view(second) == derivation(maker, seed),
    ensures
        first is Some <==> second is Some,
        first matches Some(a) ==> (second matches Some(b) ==> a.escrow@ == b.escrow@ && a.vault@
            == b.vault@ && a.bump == b.bump),
{
}

} // verus!
