use crate::address::{
    created_program_address, found_program_address, try_find_program_address, Address,
};
use vstd::prelude::*;

verus! {

/// The bytes of the address the vault program is deployed at.
pub open spec fn program_id() -> Seq<u8> {
    seq![
        15u8, 30u8, 107u8, 20u8, 33u8, 192u8, 74u8, 7u8, 4u8, 49u8, 38u8, 92u8, 25u8, 197u8,
        187u8, 238u8, 25u8, 146u8, 186u8, 232u8, 175u8, 209u8, 205u8, 7u8, 142u8, 248u8, 175u8,
        112u8, 71u8, 220u8, 17u8, 247u8,
    ]
}

/// The address the vault program is deployed at.
pub fn id() -> (program: Address)
    ensures
        program@ == program_id(),
{
    let program = Address {
        bytes: [
            15, 30, 107, 20, 33, 192, 74, 7, 4, 49, 38, 92, 25, 197, 187, 238, 25, 146, 186, 232,
            175, 209, 205, 7, 142, 248, 175, 112, 71, 220, 17, 247,
        ],
    };
    assert(program@ =~= program_id());
    program
}

/// The asset a vault holds: the native one, named by the all-zero address.
pub open spec fn native_mint() -> Seq<u8> {
    Seq::new(32, |i: int| 0u8)
}

/// The asset a vault holds: the native one, named by the all-zero address.
pub fn native() -> (mint: Address)
    ensures
        mint@ == native_mint(),
{
    let mint = Address { bytes: [0u8; 32] };
    assert(mint@ =~= native_mint());
    mint
}

/// The first seed of every vault address: the ASCII bytes of `vault`.
pub open spec fn vault_tag() -> Seq<u8> {
    seq![118u8, 97u8, 117u8, 108u8, 116u8]
}

/// The seeds an owner's vault is derived from: the tag and the owner.
pub open spec fn vault_seeds(owner: Seq<u8>) -> Seq<Seq<u8>> {
    seq![vault_tag(), owner]
}

/// The address of the vault of `owner` and the bump that signs for it;
/// nothing where the search finds no address.
pub open spec fn vault_of(owner: Seq<u8>) -> Option<(Seq<u8>, u8)> {
    match found_program_address(vault_seeds(owner), program_id()) {
        Some((vault, bump)) => if created_program_address(
            vault_seeds(owner).push(seq![bump]),
            program_id(),
        ) == Some(vault) {
            Some((vault, bump))
        } else {
            None
        },
        None => None,
    }
}

/// The address of the vault of `owner`, without the bump.
pub open spec fn vault_address(owner: Seq<u8>) -> Option<Seq<u8>> {
    match vault_of(owner) {
        Some((vault, _)) => Some(vault),
        None => None,
    }
}

/// Derives the vault of `owner` and the bump that signs for it.
pub fn find_vault(owner: &Address) -> (found: Option<(Address, u8)>)
    ensures
        match found {
            Some((vault, bump)) => vault_of(owner@) == Some((vault@, bump)),
            None => vault_of(owner@) is None,
        },
{
    let mut tag: Vec<u8> = Vec::new();
    tag.push(118);
    tag.push(97);
    tag.push(117);
    tag.push(108);
    tag.push(116);
    let mut seeds: Vec<Vec<u8>> = Vec::new();
    seeds.push(tag);
    seeds.push(owner.to_vec());
    assert(seeds.deep_view() =~~= vault_seeds(owner@));
    try_find_program_address(&seeds, &id())
}

} // verus!
