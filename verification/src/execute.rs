//! The values that pass between the host and generated code, and the
//! layout of what the host prepares for a run: the stack, the two coroutine
//! records and the result slot.

use crate::jit::{saved_registers, slot_displacement, Register, NUMBER_TAG, WORD};
use vstd::prelude::*;

verus! {

/// The tag of a result value.
#[derive(Debug, PartialEq, Eq, Clone, Copy, Structural)]
pub enum InterfaceType {
    Void,
    Number,
}

/// A result value: a tag and one machine word.
#[derive(Debug, PartialEq, Eq, Clone, Copy, Structural)]
pub struct Interface {
    pub interface_type: InterfaceType,
    pub interface_data: usize,
}

/// The size of the stack that generated code runs on.
pub const STACK_SIZE: usize = 65536;

/// The number of slots of a coroutine record.
pub const RECORD_SLOTS: usize = 8;

/// The slot of a coroutine record that holds the stack pointer.
pub const STACK_POINTER_SLOT: usize = 7;

impl InterfaceType {
    /// The word that stands for the tag in a result slot.
    pub open spec fn spec_tag(self) -> usize {
        match self {
            InterfaceType::Void => 0,
            InterfaceType::Number => 1,
        }
    }

    /// The word that stands for the tag in a result slot.
    #[verifier::when_used_as_spec(spec_tag)]
    pub fn tag(self) -> (tag: usize)
        ensures
            tag == self.spec_tag(),
    {
        match self {
            InterfaceType::Void => 0,
            InterfaceType::Number => 1,
        }
    }

    /// The tag that a word of a result slot stands for, if it stands for
    /// one.
    pub fn from_tag(tag: usize) -> (interface_type: Option<InterfaceType>)
        ensures
            match interface_type {
                Some(interface_type) => interface_type.spec_tag() == tag,
                None => tag != InterfaceType::Void.spec_tag() && tag
                    != InterfaceType::Number.spec_tag(),
            },
    {
        if tag == 0 {
            Some(InterfaceType::Void)
        } else if tag == 1 {
            Some(InterfaceType::Number)
        } else {
            None
        }
    }
}

impl Interface {
    /// The result slot before a run: void, with a zero word.
    pub fn void() -> (interface: Interface)
        ensures
            interface == (Interface { interface_type: InterfaceType::Void, interface_data: 0 }),
    {
        Interface { interface_type: InterfaceType::Void, interface_data: 0 }
    }

    /// The result value that the two words of a result slot stand for, if
    /// the first is a tag.
    pub fn from_words(tag: usize, data: usize) -> (interface: Option<Interface>)
        ensures
            match interface {
                Some(interface) => interface.interface_type.spec_tag() == tag
                    && interface.interface_data == data,
                None => tag != InterfaceType::Void.spec_tag() && tag
                    != InterfaceType::Number.spec_tag(),
            },
    {
        match InterfaceType::from_tag(tag) {
            Some(interface_type) => Some(Interface { interface_type, interface_data: data }),
            None => None,
        }
    }
}

/// The tag that generated code stores for a number is the tag of
/// `InterfaceType::Number`.
pub proof fn lemma_number_tag_is_stored()
    ensures
        InterfaceType::Number.spec_tag() == NUMBER_TAG,
{
}

/// The offset, within a stack of `size` bytes, of the word that holds the
/// address of the entry point: one word below the end. A stack that is
/// smaller than a word has no such place.
pub fn entry_slot_offset(size: usize) -> (offset: Option<usize>)
    ensures
        match offset {
            Some(offset) => offset + WORD == size,
            None => size < WORD,
        },
{
    if size < 8 {
        None
    } else {
        Some(size - 8)
    }
}

/// The record of the host before a run: every slot is zero.
pub fn host_record() -> (record: [usize; 8])
    ensures
        forall|slot: int| 0 <= slot < RECORD_SLOTS ==> record@[slot] == 0,
{
    [0, 0, 0, 0, 0, 0, 0, 0]
}

/// The record of generated code before a run: every slot is zero but that
/// of the stack pointer, which holds `stack_pointer`.
pub fn guest_record(stack_pointer: usize) -> (record: [usize; 8])
    ensures
        record@[STACK_POINTER_SLOT as int] == stack_pointer,
        forall|slot: int|
            0 <= slot < RECORD_SLOTS && slot != STACK_POINTER_SLOT ==> record@[slot] == 0,
{
    [0, 0, 0, 0, 0, 0, 0, stack_pointer]
}

/// The slot of the stack pointer is the one that the trampoline loads the
/// stack pointer from, and a record has one slot for each saved register
/// and a scratch slot before them.
pub proof fn lemma_record_matches_trampoline()
    ensures
        saved_registers()[STACK_POINTER_SLOT - 1] == Register::Rsp,
        saved_registers().len() + 1 == RECORD_SLOTS,
        slot_displacement(STACK_POINTER_SLOT as int) == 56,
        slot_displacement(RECORD_SLOTS as int) == 64,
{
}

/// The address of an offset within a region that starts at `base`, where
/// the address fits in a machine word.
pub fn address_in(base: usize, offset: usize) -> (address: Option<usize>)
    ensures
        match address {
            Some(address) => address == base + offset,
            None => base + offset > usize::MAX,
        },
{
    base.checked_add(offset)
}

} // verus!
