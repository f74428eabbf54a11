use crate::ledger::{Balances, Ledger};
use crate::vault::errors::VaultError;
use crate::vault::instructions::deposit::{deposited, Deposit, DepositView};
use crate::vault::instructions::withdraw::{withdrawn, Withdraw, WithdrawView};
use vstd::bytes::{
    lemma_auto_spec_u64_to_from_le_bytes, spec_u64_from_le_bytes, spec_u64_to_le_bytes,
    u64_from_le_bytes, u64_to_le_bytes,
};
use vstd::prelude::*;
use vstd::slice::slice_subrange;

pub mod deposit;
pub mod withdraw;

verus! {

/// What a vault can be asked to do.
#[derive(Clone, Copy, Debug, PartialEq, Eq, Structural)]
pub enum VaultInstruction {
    /// Pay into the owner's vault.
    Deposit(DepositArgs),
    /// Empty the owner's vault into the owner's balance.
    Withdraw,
}

/// The arguments of a deposit.
#[derive(Clone, Copy, Debug, PartialEq, Eq, Structural)]
pub struct DepositArgs {
    /// How much to pay in.
    pub amount: u64,
}

/// The wire form of an instruction: one byte that tells the variant, 0 for
/// a deposit and 1 for a withdrawal, then the deposit's amount in
/// little-endian order.
pub open spec fn packed(instruction: VaultInstruction) -> Seq<u8> {
    match instruction {
        VaultInstruction::Deposit(args) => seq![0u8] + spec_u64_to_le_bytes(args.amount),
        VaultInstruction::Withdraw => seq![1u8],
    }
}

/// The instruction that the data is the wire form of, if it is one.
pub open spec fn unpacked(data: Seq<u8>) -> Option<VaultInstruction> {
    if data.len() == 9 && data[0] == 0 {
        Some(
            VaultInstruction::Deposit(
                DepositArgs { amount: spec_u64_from_le_bytes(data.subrange(1, 9)) },
            ),
        )
    } else if data.len() == 1 && data[0] == 1 {
        Some(VaultInstruction::Withdraw)
    } else {
        None
    }
}

/// Reading undoes writing, and only a wire form reads as an instruction:
/// data reads as an instruction exactly when it is that instruction's wire
/// form.
pub proof fn lemma_wire_form(instruction: VaultInstruction, data: Seq<u8>)
    ensures
        unpacked(packed(instruction)) == Some(instruction),
        unpacked(data) == Some(instruction) <==> data == packed(instruction),
{
    lemma_auto_spec_u64_to_from_le_bytes();
    match instruction {
        VaultInstruction::Deposit(args) => {
            let wire = packed(instruction);
            assert(wire.subrange(1, 9) =~= spec_u64_to_le_bytes(args.amount));
            if unpacked(data) == Some(instruction) {
                assert(spec_u64_to_le_bytes(spec_u64_from_le_bytes(data.subrange(1, 9)))
                    == data.subrange(1, 9));
                assert(data =~= wire);
            }
        },
        VaultInstruction::Withdraw => {
            if unpacked(data) == Some(instruction) {
                assert(data =~= packed(instruction));
            }
        },
    }
}

impl VaultInstruction {
    /// The wire form of the instruction.
    pub fn pack(&self) -> (data: Vec<u8>)
        ensures
            data@ == packed(*self),
    {
        let mut data: Vec<u8> = Vec::new();
        match self {
            VaultInstruction::Deposit(args) => {
                data.push(0);
                let mut amount = u64_to_le_bytes(args.amount);
                data.append(&mut amount);
            },
            VaultInstruction::Withdraw => {
                data.push(1);
            },
        }
        assert(data@ =~= packed(*self));
        data
    }

    /// Reads an instruction from its wire form; nothing from any other
    /// data.
    pub fn unpack(data: &[u8]) -> (instruction: Option<VaultInstruction>)
        ensures
            instruction == unpacked(data@),
    {
        if data.len() == 9 && data[0] == 0 {
            let amount = u64_from_le_bytes(slice_subrange(data, 1, 9));
            Some(VaultInstruction::Deposit(DepositArgs { amount }))
        } else if data.len() == 1 && data[0] == 1 {
            Some(VaultInstruction::Withdraw)
        } else {
            None
        }
    }
}

/// What an instruction does to the balances when it is carried out for the
/// named owner and vault.
pub open spec fn processed(
    balances: Balances,
    signer: Seq<u8>,
    vault: Seq<u8>,
    instruction: VaultInstruction,
    rent_minimum: u64,
) -> Result<Balances, VaultError> {
    match instruction {
        VaultInstruction::Deposit(args) => deposited(
            balances,
            DepositView { signer, vault },
            args.amount,
            rent_minimum,
        ),
        VaultInstruction::Withdraw => withdrawn(balances, WithdrawView { signer, vault }),
    }
}

/// Carries out an instruction for the named owner and vault, or refuses
/// and changes nothing.
pub fn process(
    ledger: &mut Ledger,
    signer: &crate::address::Address,
    vault: &crate::address::Address,
    instruction: &VaultInstruction,
    rent_minimum: u64,
) -> (done: Result<(), VaultError>)
    requires
        old(ledger).wf(),
    ensures
        final(ledger).wf(),
        match processed(old(ledger)@, signer@, vault@, *instruction, rent_minimum) {
            Ok(next) => done is Ok && final(ledger)@ == next,
            Err(e) => done == Err::<(), VaultError>(e) && final(ledger)@ == old(ledger)@,
        },
        final(ledger).same_supply(*old(ledger)),
{
    match instruction {
        VaultInstruction::Deposit(args) => deposit::handler(
            ledger,
            &Deposit { signer: *signer, vault: *vault },
            args.amount,
            rent_minimum,
        ),
        VaultInstruction::Withdraw => withdraw::handler(
            ledger,
            &Withdraw { signer: *signer, vault: *vault },
        ),
    }
}

} // verus!
