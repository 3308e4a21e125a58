//! The core registers that the unwinder knows: those it has read from the core and those it has
//! recovered for a caller.
use std::collections::BTreeMap;
use vstd::prelude::*;

use crate::cfi::Rule;

verus! {

/// Address of a core register.
pub type RegisterAddress = u16;

/// The link register.
pub const LR: RegisterAddress = 14;

/// The program counter.
pub const PC: RegisterAddress = 15;

/// The stack pointer.
pub const SP: RegisterAddress = 13;

/// The vector table offset register.
pub const VTOR: u32 = 0xE000_ED08;

/// The value of the link register at reset: it indicates the end of the call stack.
pub const LR_END: u32 = 0xFFFF_FFFF;

/// The address of the core register that DWARF numbers `register`: the numbers are the same.
pub fn gimli2probe(register: u16) -> (address: RegisterAddress)
    ensures
        address == register,
{
    register
}

/// The low 32 bits of a number, as an address.
pub open spec fn wrap32(n: int) -> u32 {
    (n % 0x1_0000_0000) as u32
}

/// Whether the offset can be added to the address in 64 bits.
pub open spec fn can_offset(base: u32, offset: i64) -> bool {
    base + offset <= i64::MAX
}

/// Whether the offset can be added to the address in 64 bits.
pub fn check_offset(base: u32, offset: i64) -> (ok: bool)
    ensures
        ok == can_offset(base, offset),
{
    offset <= i64::MAX - base as i64
}

/// The low 32 bits of the sum.
pub fn offset_address(base: u32, offset: i64) -> (address: u32)
    requires
        can_offset(base, offset),
    ensures
        address == wrap32(base + offset),
{
    let sum: i64 = base as i64 + offset;
    assert(sum as u32 == (sum as u64) % 0x1_0000_0000) by (bit_vector);
    assert(sum < 0 ==> sum as u64 == sum + 0x1_0000_0000_0000_0000) by (bit_vector);
    assert(sum >= 0 ==> sum as u64 == sum) by (bit_vector);
    #[verifier::truncate]
    (sum as u32)
}

/// What is to be done to find the value that a register had in the caller.
#[derive(Clone, Copy, PartialEq, Eq, Debug, Structural)]
pub enum Update {
    /// Read the word at the address.
    Read(u32),
    /// Nothing: its offset and the canonical frame address add to more than 64 bits hold.
    Overflow,
    /// Nothing: it is not known.
    Undefined,
    /// Nothing: its rule is not one by which it is saved at an offset.
    Unimplemented,
}

/// What is to be done by the rule, where the canonical frame address is `cfa`.
pub open spec fn update_by(cfa: u32, rule: Rule) -> Update {
    match rule {
        Rule::Undefined => Update::Undefined,
        Rule::Offset(offset) => if can_offset(cfa, offset) {
            Update::Read(wrap32(cfa + offset))
        } else {
            Update::Overflow
        },
        Rule::Other => Update::Unimplemented,
    }
}

/// The values of core registers that are known.
#[derive(Debug)]
pub struct Registers {
    cache: BTreeMap<u16, u32>,
}

impl View for Registers {
    type V = Map<u16, u32>;

    closed spec fn view(&self) -> Map<u16, u32> {
        self.cache@
    }
}

impl Registers {
    /// Only the link register and the stack pointer are known.
    pub fn new(lr: u32, sp: u32) -> (registers: Self)
        ensures
            registers@ == map![LR => lr, SP => sp],
    {
        broadcast use vstd::std_specs::btree::group_btree_axioms;

        let mut cache: BTreeMap<u16, u32> = BTreeMap::new();
        cache.insert(LR, lr);
        cache.insert(SP, sp);
        let registers = Registers { cache };
        assert(registers@ =~= map![LR => lr, SP => sp]);
        registers
    }

    /// The value of the register; `None` if it has yet to be read from the core.
    pub fn get(&self, register: RegisterAddress) -> (value: Option<u32>)
        ensures
            value == (if self@.contains_key(register) {
                Some(self@[register])
            } else {
                None
            }),
    {
        broadcast use vstd::std_specs::btree::group_btree_axioms;

        match self.cache.get(&register) {
            Some(value) => Some(*value),
            None => None,
        }
    }

    /// From now on the register has the value.
    pub fn insert(&mut self, register: RegisterAddress, value: u32)
        ensures
            final(self)@ == old(self)@.insert(register, value),
    {
        broadcast use vstd::std_specs::btree::group_btree_axioms;

        self.cache.insert(register, value);
    }

    /// The stack pointer becomes the canonical frame address, which lies `offset` from `base`, the
    /// value of the register that the rule names. Says whether that changes the stack pointer.
    pub fn update_cfa(&mut self, base: u32, offset: i64) -> (cfa_changed: bool)
        requires
            can_offset(base, offset),
        ensures
            final(self)@ == old(self)@.insert(SP, wrap32(base + offset)),
            cfa_changed <==> !(old(self)@.contains_key(SP) && old(self)@[SP] == wrap32(
                base + offset,
            )),
    {
        let cfa: u32 = offset_address(base, offset);
        let cfa_changed = match self.get(SP) {
            Some(sp) => sp != cfa,
            None => true,
        };
        self.insert(SP, cfa);
        cfa_changed
    }

    /// Where the value is that a register had in the caller, by the rule that it is saved at an offset
    /// from the canonical frame address. What is read there is then to be inserted.
    pub fn update(&self, rule: Rule) -> (address: u32)
        requires
            self@.contains_key(SP),
            rule is Offset,
            can_offset(self@[SP], rule->Offset_0),
        ensures
            address == wrap32(self@[SP] + rule->Offset_0),
    {
        match (self.get(SP), rule) {
            (Some(cfa), Rule::Offset(offset)) => offset_address(cfa, offset),
            _ => 0,
        }
    }

    /// What is to be done by any rule.
    pub fn try_update(&self, rule: Rule) -> (update: Update)
        requires
            self@.contains_key(SP),
        ensures
            update == update_by(self@[SP], rule),
    {
        match (self.get(SP), rule) {
            (Some(cfa), Rule::Offset(offset)) => {
                if check_offset(cfa, offset) {
                    Update::Read(self.update(rule))
                } else {
                    Update::Overflow
                }
            },
            (_, Rule::Undefined) => Update::Undefined,
            _ => Update::Unimplemented,
        }
    }
}

// -------------------------------------------------------------------------------------------
// Laws.

/// An address wraps around by whole multiples of 2^32.
pub proof fn law_addresses_wrap_around(n: int)
    ensures
        (n - wrap32(n)) % 0x1_0000_0000 == 0,
        0 <= n <= 0xffff_ffff ==> wrap32(n) == n,
{
}

/// An offset can be added exactly if the sum fits in a signed number of 64 bits.
pub proof fn law_offset_fits_in_64_bits(base: u32, offset: i64)
    ensures
        can_offset(base, offset) <==> base + offset <= 0x7fff_ffff_ffff_ffff,
{
}

/// A register that is saved at an offset is read at that offset from the canonical frame address,
/// modulo 2^32, wherever the sum can be computed; no other rule leads to a read.
pub proof fn law_only_offsets_are_read(cfa: u32, rule: Rule)
    ensures
        match rule {
            Rule::Offset(offset) => if cfa + offset <= 0x7fff_ffff_ffff_ffff {
                update_by(cfa, rule) matches Update::Read(address) && (cfa + offset - address)
                    % 0x1_0000_0000 == 0
            } else {
                update_by(cfa, rule) is Overflow
            },
            Rule::Undefined => update_by(cfa, rule) is Undefined,
            Rule::Other => update_by(cfa, rule) is Unimplemented,
        },
{
}

} // verus!
