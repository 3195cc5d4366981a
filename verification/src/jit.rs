//! The code generator: the instructions of the trampoline and of the entry
//! point, and the machine code that the assembler makes of them.
//!
//! The code is laid out in three blocks. The first, at offset 0, saves the
//! host's callee-saved registers and the stack pointer into the record that
//! `rdi` points at. The second loads them from the record that `rsi` points
//! at, and returns. Control falls from the first into the second: together
//! they are the register swap. The third is the entry point; it ends with a
//! jump to the second block.
//!
//! Before code is generated, the root is checked: every number token must
//! decode, and member expressions, calls and the extract and pipe operators
//! are refused, for code generation does not implement them.

use crate::flat::{
    FlatExpression, FlatOperator, FlatRoot, FlatRootView, FlatSource, FlatSourceView,
};
use crate::general::Error;
use crate::number::{cannot_decode_message, decode_number, number_value};
use iced_x86::code_asm::{
    qword_ptr, r12, r13, r14, r15, rax, rbp, rbx, rdi, rdx, rsi, rsp, AsmRegister64,
    CodeAssembler,
};
use iced_x86::IcedError;
use vstd::prelude::*;
use vstd::string::{StringExecFns, StringSliceAdditionalSpecFns};
use vstd::utf8::encode_utf8;

verus! {

/// A general-purpose register that generated code uses.
#[derive(Debug, PartialEq, Eq, Clone, Copy, Structural)]
pub enum Register {
    Rax,
    Rbx,
    Rdx,
    Rsi,
    Rdi,
    Rbp,
    Rsp,
    R12,
    R13,
    R14,
    R15,
}

/// An instruction of generated code. Memory operands are one machine word
/// wide and addressed by a base register and a displacement.
#[derive(Debug, PartialEq, Eq, Clone, Copy, Structural)]
pub enum Instruction {
    /// `mov [base + displacement], source`
    Store { base: Register, displacement: i32, source: Register },
    /// `mov target, [base + displacement]`
    Load { target: Register, base: Register, displacement: i32 },
    /// `mov qword [base + displacement], immediate`
    StoreImmediate { base: Register, displacement: i32, immediate: i32 },
    /// `mov target, value`
    LoadImmediate { target: Register, value: u64 },
    /// `push register`
    Push(Register),
    /// `pop register`
    Pop(Register),
    /// `ret`
    Return,
    /// `syscall`
    Syscall,
    /// `jmp address`
    Jump(u64),
}

/// Machine code, and the offsets of its three entry labels from its start.
#[derive(Debug, PartialEq, Eq, Clone)]
pub struct Bytecode {
    pub code: Vec<u8>,
    pub registers_swap: usize,
    pub registers_exit: usize,
    pub main: usize,
}

/// The size of a slot of a coroutine record, and of every field of the main
/// frame.
pub const WORD: i32 = 8;

/// The number of the `write` system call.
pub const WRITE: u64 = 1;

/// The file descriptor of standard output.
pub const STANDARD_OUTPUT: u64 = 1;

/// The interface tag of a number.
pub const NUMBER_TAG: i32 = 1;

/// The displacement of the buffer pointer in the main frame.
pub const FRAME_POINTER: i32 = 0;

/// The displacement of the buffer length in the main frame.
pub const FRAME_LENGTH: i32 = 8;

/// The displacement of the result's tag in the main frame.
pub const FRAME_RESULT_TAG: i32 = 16;

/// The displacement of the result's payload in the main frame.
pub const FRAME_RESULT_DATA: i32 = 24;

/// The registers that a coroutine record holds, in the order of their slots.
/// Slot 0 of a record is a scratch slot; the register at position `k` here
/// has slot `k + 1`.
pub open spec fn saved_registers() -> Seq<Register> {
    seq![
        Register::Rbx,
        Register::Rbp,
        Register::R12,
        Register::R13,
        Register::R14,
        Register::R15,
        Register::Rsp,
    ]
}

/// The displacement of a slot in a coroutine record.
pub open spec fn slot_displacement(slot: int) -> int {
    slot * WORD
}

/// The block that saves: each saved register goes to its slot of the record
/// that `rdi` points at.
pub open spec fn swap_program() -> Seq<Instruction> {
    Seq::new(
        saved_registers().len(),
        |k: int|
            Instruction::Store {
                base: Register::Rdi,
                displacement: slot_displacement(k + 1) as i32,
                source: saved_registers()[k],
            },
    )
}

/// The block that loads: each saved register comes from its slot of the
/// record that `rsi` points at; then control returns.
pub open spec fn exit_program() -> Seq<Instruction> {
    Seq::new(
        saved_registers().len(),
        |k: int|
            Instruction::Load {
                target: saved_registers()[k],
                base: Register::Rsi,
                displacement: slot_displacement(k + 1) as i32,
            },
    ).push(Instruction::Return)
}

/// The entry point. On entry `rdi` points at the host's record and `rdx` at
/// the main frame. The bytes of the frame's buffer are written to standard
/// output, what the system call returned is stored as a number in the
/// frame's result, and control goes, with the host's record in `rsi`, to the
/// block that loads, at address `exit`.
pub open spec fn main_program(exit: u64) -> Seq<Instruction> {
    seq![
        Instruction::Push(Register::Rdi),
        Instruction::Push(Register::Rdx),
        Instruction::LoadImmediate { target: Register::Rax, value: WRITE },
        Instruction::LoadImmediate { target: Register::Rdi, value: STANDARD_OUTPUT },
        Instruction::Load {
            target: Register::Rsi,
            base: Register::Rdx,
            displacement: FRAME_POINTER,
        },
        Instruction::Load { target: Register::Rdx, base: Register::Rdx, displacement: FRAME_LENGTH },
        Instruction::Syscall,
        Instruction::Pop(Register::Rdx),
        Instruction::Pop(Register::Rsi),
        Instruction::StoreImmediate {
            base: Register::Rdx,
            displacement: FRAME_RESULT_TAG,
            immediate: NUMBER_TAG,
        },
        Instruction::Store {
            base: Register::Rdx,
            displacement: FRAME_RESULT_DATA,
            source: Register::Rax,
        },
        Instruction::Jump(exit),
    ]
}

/// The registers that a coroutine record holds, in the order of their slots.
pub fn registers_to_save() -> (registers: [Register; 7])
    ensures
        registers@ == saved_registers(),
{
    let registers = [
        Register::Rbx,
        Register::Rbp,
        Register::R12,
        Register::R13,
        Register::R14,
        Register::R15,
        Register::Rsp,
    ];
    assert(registers@ =~= saved_registers());
    registers
}

/// The instructions of the block that saves.
pub fn swap_instructions() -> (program: Vec<Instruction>)
    ensures
        program@ == swap_program(),
{
    let registers = registers_to_save();
    let mut program: Vec<Instruction> = Vec::new();
    let mut k: usize = 0;
    while k < 7
        invariant
            k <= 7,
            registers@ == saved_registers(),
            program@ == swap_program().take(k as int),
        decreases 7 - k,
    {
        let displacement: i32 = (k as i32 + 1) * WORD;
        program.push(
            Instruction::Store { base: Register::Rdi, displacement, source: registers[k] },
        );
        assert(program@ =~= swap_program().take(k + 1));
        k += 1;
    }
    assert(swap_program().take(7) =~= swap_program());
    program
}

/// The instructions of the block that loads.
pub fn exit_instructions() -> (program: Vec<Instruction>)
    ensures
        program@ == exit_program(),
{
    let registers = registers_to_save();
    let mut program: Vec<Instruction> = Vec::new();
    let mut k: usize = 0;
    while k < 7
        invariant
            k <= 7,
            registers@ == saved_registers(),
            program@ == exit_program().take(k as int),
        decreases 7 - k,
    {
        let displacement: i32 = (k as i32 + 1) * WORD;
        program.push(
            Instruction::Load { target: registers[k], base: Register::Rsi, displacement },
        );
        assert(program@ =~= exit_program().take(k + 1));
        k += 1;
    }
    program.push(Instruction::Return);
    assert(program@ =~= exit_program());
    program
}

/// The instructions of the entry point, for a block that loads at address
/// `exit`.
pub fn main_instructions(exit: u64) -> (program: Vec<Instruction>)
    ensures
        program@ == main_program(exit),
{
    let mut program: Vec<Instruction> = Vec::new();
    program.push(Instruction::Push(Register::Rdi));
    program.push(Instruction::Push(Register::Rdx));
    program.push(Instruction::LoadImmediate { target: Register::Rax, value: WRITE });
    program.push(Instruction::LoadImmediate { target: Register::Rdi, value: STANDARD_OUTPUT });
    program.push(
        Instruction::Load {
            target: Register::Rsi,
            base: Register::Rdx,
            displacement: FRAME_POINTER,
        },
    );
    program.push(
        Instruction::Load { target: Register::Rdx, base: Register::Rdx, displacement: FRAME_LENGTH },
    );
    program.push(Instruction::Syscall);
    program.push(Instruction::Pop(Register::Rdx));
    program.push(Instruction::Pop(Register::Rsi));
    program.push(
        Instruction::StoreImmediate {
            base: Register::Rdx,
            displacement: FRAME_RESULT_TAG,
            immediate: NUMBER_TAG,
        },
    );
    program.push(
        Instruction::Store {
            base: Register::Rdx,
            displacement: FRAME_RESULT_DATA,
            source: Register::Rax,
        },
    );
    program.push(Instruction::Jump(exit));
    assert(program@ =~= main_program(exit));
    program
}

/// The assembler of the `iced-x86` crate.
#[verifier::external_type_specification]
#[verifier::external_body]
pub struct ExCodeAssembler(iced_x86::code_asm::CodeAssembler);

/// A 64-bit register operand of the assembler.
#[verifier::external_type_specification]
#[verifier::external_body]
pub struct ExAsmRegister64(iced_x86::code_asm::AsmRegister64);

/// The assembler's error.
#[verifier::external_type_specification]
#[verifier::external_body]
pub struct ExIcedError(iced_x86::IcedError);

/// The instructions that were added to an assembler, in order.
pub uninterp spec fn assembler_program(assembler: CodeAssembler) -> Seq<Instruction>;

/// Whether an assembler is as `CodeAssembler::new` makes one for 64-bit
/// code, but for the instructions that it holds: it is for 64-bit code, its
/// options are those of a new assembler, and no label and no prefix was set
/// that awaits the next instruction. Of such an assembler, what a call does
/// depends on the instructions that it holds and on the call's arguments
/// alone.
pub uninterp spec fn assembler_is_plain(assembler: CodeAssembler) -> bool;

/// The register that an operand of the assembler stands for, where it is
/// one of the registers that generated code uses.
pub uninterp spec fn register_of(operand: AsmRegister64) -> Option<Register>;

/// The machine code that the assembler makes of a program that is to run at
/// `address`, or none where the assembler cannot encode the program there.
pub uninterp spec fn machine_code(program: Seq<Instruction>, address: u64) -> Option<Seq<u8>>;

/// Whether the assembler can encode a program that is to run at `address`.
pub open spec fn encodes(program: Seq<Instruction>, address: u64) -> bool {
    machine_code(program, address) is Some
}

/// Calls `CodeAssembler::new` for 64-bit code, which is one of the three
/// sizes that it accepts. A new assembler holds no instruction and is plain.
#[verifier::external_body]
fn new_assembler() -> (result: Result<CodeAssembler, IcedError>)
    ensures
        result is Ok,
        result matches Ok(assembler) ==> assembler_program(assembler).len() == 0,
        result matches Ok(assembler) ==> assembler_is_plain(assembler),
{
    CodeAssembler::new(64)
}

/// Picks the assembler's constant for a register.
#[verifier::external_body]
fn operand(register: Register) -> (operand: AsmRegister64)
    ensures
        register_of(operand) == Some(register),
{
    match register {
        Register::Rax => rax,
        Register::Rbx => rbx,
        Register::Rdx => rdx,
        Register::Rsi => rsi,
        Register::Rdi => rdi,
        Register::Rbp => rbp,
        Register::Rsp => rsp,
        Register::R12 => r12,
        Register::R13 => r13,
        Register::R14 => r14,
        Register::R15 => r15,
    }
}

/// Calls `CodeAssembler::mov` with a memory operand and a register.
/// The call fails only where both a label and an anonymous label await, or
/// where the instruction cannot be built, and an instruction of this form
/// can always be built; it adds the instruction after those that are there
/// and leaves the assembler plain.
#[verifier::external_body]
fn add_store(
    assembler: &mut CodeAssembler,
    base: AsmRegister64,
    displacement: i32,
    source: AsmRegister64,
) -> (result: Result<(), IcedError>)
    requires
        assembler_is_plain(*old(assembler)),
        register_of(base) is Some,
        register_of(source) is Some,
    ensures
        result is Ok,
        assembler_program(*final(assembler)) == assembler_program(*old(assembler)).push(
            Instruction::Store {
                base: register_of(base)->0,
                displacement,
                source: register_of(source)->0,
            },
        ),
        assembler_is_plain(*final(assembler)),
{
    assembler.mov(qword_ptr(base + displacement), source)
}

/// Calls `CodeAssembler::mov` with a register and a memory operand.
/// The call fails only where both a label and an anonymous label await, or
/// where the instruction cannot be built, and an instruction of this form
/// can always be built; it adds the instruction after those that are there
/// and leaves the assembler plain.
#[verifier::external_body]
fn add_load(
    assembler: &mut CodeAssembler,
    target: AsmRegister64,
    base: AsmRegister64,
    displacement: i32,
) -> (result: Result<(), IcedError>)
    requires
        assembler_is_plain(*old(assembler)),
        register_of(target) is Some,
        register_of(base) is Some,
    ensures
        result is Ok,
        assembler_program(*final(assembler)) == assembler_program(*old(assembler)).push(
            Instruction::Load {
                target: register_of(target)->0,
                base: register_of(base)->0,
                displacement,
            },
        ),
        assembler_is_plain(*final(assembler)),
{
    assembler.mov(target, qword_ptr(base + displacement))
}

/// Calls `CodeAssembler::mov` with a memory operand of one machine word and
/// a 32-bit value, which is sign-extended: every such value is accepted.
/// The call fails only where both a label and an anonymous label await, or
/// where the instruction cannot be built, and an instruction of this form
/// can always be built; it adds the instruction after those that are there
/// and leaves the assembler plain.
#[verifier::external_body]
fn add_store_immediate(
    assembler: &mut CodeAssembler,
    base: AsmRegister64,
    displacement: i32,
    value: i32,
) -> (result: Result<(), IcedError>)
    requires
        assembler_is_plain(*old(assembler)),
        register_of(base) is Some,
    ensures
        result is Ok,
        assembler_program(*final(assembler)) == assembler_program(*old(assembler)).push(
            Instruction::StoreImmediate {
                base: register_of(base)->0,
                displacement,
                immediate: value,
            },
        ),
        assembler_is_plain(*final(assembler)),
{
    assembler.mov(qword_ptr(base + displacement), value)
}

/// Calls `CodeAssembler::mov` with a register and a 64-bit value: every
/// such value is accepted.
/// The call fails only where both a label and an anonymous label await, or
/// where the instruction cannot be built, and an instruction of this form
/// can always be built; it adds the instruction after those that are there
/// and leaves the assembler plain.
#[verifier::external_body]
fn add_load_immediate(
    assembler: &mut CodeAssembler,
    target: AsmRegister64,
    value: u64,
) -> (result: Result<(), IcedError>)
    requires
        assembler_is_plain(*old(assembler)),
        register_of(target) is Some,
    ensures
        result is Ok,
        assembler_program(*final(assembler)) == assembler_program(*old(assembler)).push(
            Instruction::LoadImmediate { target: register_of(target)->0, value },
        ),
        assembler_is_plain(*final(assembler)),
{
    assembler.mov(target, value)
}

/// Calls `CodeAssembler::push` with a register.
/// The call fails only where both a label and an anonymous label await, or
/// where the instruction cannot be built, and an instruction of this form
/// can always be built; it adds the instruction after those that are there
/// and leaves the assembler plain.
#[verifier::external_body]
fn add_push(
    assembler: &mut CodeAssembler,
    register: AsmRegister64,
) -> (result: Result<(), IcedError>)
    requires
        assembler_is_plain(*old(assembler)),
        register_of(register) is Some,
    ensures
        result is Ok,
        assembler_program(*final(assembler)) == assembler_program(*old(assembler)).push(
            Instruction::Push(register_of(register)->0),
        ),
        assembler_is_plain(*final(assembler)),
{
    assembler.push(register)
}

/// Calls `CodeAssembler::pop` with a register.
/// The call fails only where both a label and an anonymous label await, or
/// where the instruction cannot be built, and an instruction of this form
/// can always be built; it adds the instruction after those that are there
/// and leaves the assembler plain.
#[verifier::external_body]
fn add_pop(
    assembler: &mut CodeAssembler,
    register: AsmRegister64,
) -> (result: Result<(), IcedError>)
    requires
        assembler_is_plain(*old(assembler)),
        register_of(register) is Some,
    ensures
        result is Ok,
        assembler_program(*final(assembler)) == assembler_program(*old(assembler)).push(
            Instruction::Pop(register_of(register)->0),
        ),
        assembler_is_plain(*final(assembler)),
{
    assembler.pop(register)
}

/// Calls `CodeAssembler::ret`.
/// The call fails only where both a label and an anonymous label await, or
/// where the instruction cannot be built, and an instruction of this form
/// can always be built; it adds the instruction after those that are there
/// and leaves the assembler plain.
#[verifier::external_body]
fn add_return(
    assembler: &mut CodeAssembler,
) -> (result: Result<(), IcedError>)
    requires
        assembler_is_plain(*old(assembler)),
    ensures
        result is Ok,
        assembler_program(*final(assembler)) == assembler_program(*old(assembler)).push(
            Instruction::Return,
        ),
        assembler_is_plain(*final(assembler)),
{
    assembler.ret()
}

/// Calls `CodeAssembler::syscall`.
/// The call fails only where both a label and an anonymous label await, or
/// where the instruction cannot be built, and an instruction of this form
/// can always be built; it adds the instruction after those that are there
/// and leaves the assembler plain.
#[verifier::external_body]
fn add_syscall(
    assembler: &mut CodeAssembler,
) -> (result: Result<(), IcedError>)
    requires
        assembler_is_plain(*old(assembler)),
    ensures
        result is Ok,
        assembler_program(*final(assembler)) == assembler_program(*old(assembler)).push(
            Instruction::Syscall,
        ),
        assembler_is_plain(*final(assembler)),
{
    assembler.syscall()
}

/// Calls `CodeAssembler::jmp` with the address of the target: a near branch
/// to any address can be built.
/// The call fails only where both a label and an anonymous label await, or
/// where the instruction cannot be built, and an instruction of this form
/// can always be built; it adds the instruction after those that are there
/// and leaves the assembler plain.
#[verifier::external_body]
fn add_jump(
    assembler: &mut CodeAssembler,
    address: u64,
) -> (result: Result<(), IcedError>)
    requires
        assembler_is_plain(*old(assembler)),
    ensures
        result is Ok,
        assembler_program(*final(assembler)) == assembler_program(*old(assembler)).push(
            Instruction::Jump(address),
        ),
        assembler_is_plain(*final(assembler)),
{
    assembler.jmp(address)
}

/// Calls `CodeAssembler::assemble`, which encodes the instructions that
/// were added, for code that is to run at `address`. Of a plain assembler,
/// whether it succeeds and what it returns depend on those instructions and
/// on the address alone.
#[verifier::external_body]
fn assemble(assembler: &mut CodeAssembler, address: u64) -> (result: Result<Vec<u8>, IcedError>)
    requires
        assembler_is_plain(*old(assembler)),
    ensures
        match machine_code(assembler_program(*old(assembler)), address) {
            Some(code) => result matches Ok(bytes) && bytes@ == code,
            None => result is Err,
        },
{
    assembler.assemble(address)
}

/// The text of an error of the assembler, as its `Display` gives it.
#[verifier::external_body]
fn error_text(error: &IcedError) -> (text: String) {
    format!("{}", error)
}

/// Adds one instruction to a plain assembler. It never fails: every
/// instruction of generated code can be built.
fn add_instruction(assembler: &mut CodeAssembler, instruction: Instruction) -> (result: Result<
    (),
    IcedError,
>)
    requires
        assembler_is_plain(*old(assembler)),
    ensures
        result is Ok,
        assembler_program(*final(assembler)) == assembler_program(*old(assembler)).push(
            instruction,
        ),
        assembler_is_plain(*final(assembler)),
{
    match instruction {
        Instruction::Store { base, displacement, source } => add_store(
            assembler,
            operand(base),
            displacement,
            operand(source),
        ),
        Instruction::Load { target, base, displacement } => add_load(
            assembler,
            operand(target),
            operand(base),
            displacement,
        ),
        Instruction::StoreImmediate { base, displacement, immediate } => add_store_immediate(
            assembler,
            operand(base),
            displacement,
            immediate,
        ),
        Instruction::LoadImmediate { target, value } => add_load_immediate(
            assembler,
            operand(target),
            value,
        ),
        Instruction::Push(register) => add_push(assembler, operand(register)),
        Instruction::Pop(register) => add_pop(assembler, operand(register)),
        Instruction::Return => add_return(assembler),
        Instruction::Syscall => add_syscall(assembler),
        Instruction::Jump(address) => add_jump(assembler, address),
    }
}

/// Assembles a program that is to run at `address`. It succeeds exactly
/// where the assembler can encode the program there, and the result is then
/// the machine code of exactly this program.
pub fn assemble_program(program: &Vec<Instruction>, address: u64) -> (result: Result<
    Vec<u8>,
    IcedError,
>)
    ensures
        match machine_code(program@, address) {
            Some(code) => result matches Ok(bytes) && bytes@ == code,
            None => result is Err,
        },
{
    let mut assembler = match new_assembler() {
        Ok(assembler) => assembler,
        Err(error) => {
            return Err(error);
        },
    };
    let mut i: usize = 0;
    while i < program.len()
        invariant
            i <= program.len(),
            assembler_program(assembler) == program@.take(i as int),
            assembler_is_plain(assembler),
        decreases program.len() - i,
    {
        match add_instruction(&mut assembler, program[i]) {
            Ok(()) => {},
            Err(error) => {
                return Err(error);
            },
        }
        assert(program@.take(i + 1) =~= program@.take(i as int).push(program@[i as int]));
        i += 1;
    }
    assert(program@.take(program.len() as int) =~= program@);
    assemble(&mut assembler, address)
}

impl Bytecode {
    /// The bytecode that three blocks of machine code make: the blocks one
    /// after the other, the first label at the start of the first block, the
    /// second at the start of the second, the third at the start of the
    /// third.
    pub open spec fn of_blocks(swap: Seq<u8>, exit: Seq<u8>, main: Seq<u8>) -> (
        Seq<u8>,
        int,
        int,
        int,
    ) {
        (swap + exit + main, 0, swap.len() as int, (swap.len() + exit.len()) as int)
    }

    /// Whether this bytecode is what three blocks of machine code make.
    pub open spec fn is_of_blocks(self, swap: Seq<u8>, exit: Seq<u8>, main: Seq<u8>) -> bool {
        (self.code@, self.registers_swap as int, self.registers_exit as int, self.main as int)
            == Self::of_blocks(swap, exit, main)
    }

    /// Joins three blocks of machine code into one bytecode.
    pub fn from_blocks(swap: Vec<u8>, exit: Vec<u8>, main: Vec<u8>) -> (bytecode: Bytecode)
        requires
            swap.len() + exit.len() + main.len() <= usize::MAX,
        ensures
            bytecode.is_of_blocks(swap@, exit@, main@),
    {
        let registers_exit = swap.len();
        let main_offset = swap.len() + exit.len();
        let mut code = swap;
        let mut exit = exit;
        let mut main = main;
        code.append(&mut exit);
        code.append(&mut main);
        Bytecode { code, registers_swap: 0, registers_exit, main: main_offset }
    }
}

/// What becomes of generating the code of the trampoline and of the entry
/// point.
pub enum Compilation {
    /// The three blocks of machine code: the block that saves, the block
    /// that loads, and the entry point.
    Code(Seq<u8>, Seq<u8>, Seq<u8>),
    /// The assembler cannot encode one of the blocks.
    Refused,
    /// The blocks together are larger than a machine word can count.
    TooLarge,
}

/// What becomes of generating the code: the block that saves is encoded for
/// address 0, the block that loads for the address where the first ends,
/// and the entry point, which jumps to the block that loads, for the
/// address where the second ends.
pub open spec fn compilation() -> Compilation {
    match machine_code(swap_program(), 0) {
        Some(swap) => match machine_code(exit_program(), swap.len() as u64) {
            Some(exit) => if swap.len() + exit.len() > usize::MAX {
                Compilation::TooLarge
            } else {
                match machine_code(
                    main_program(swap.len() as u64),
                    (swap.len() + exit.len()) as u64,
                ) {
                    Some(main) => if swap.len() + exit.len() + main.len() > usize::MAX {
                        Compilation::TooLarge
                    } else {
                        Compilation::Code(swap, exit, main)
                    },
                    None => Compilation::Refused,
                }
            },
            None => Compilation::Refused,
        },
        None => Compilation::Refused,
    }
}

/// Whether the code of the trampoline and of the entry point can be
/// generated: the assembler can encode each of the three blocks at its
/// address, and the blocks together are not too large.
pub open spec fn compiles() -> bool {
    compilation() is Code
}

/// Whether a bytecode is the code of the trampoline and of the entry point:
/// the block that saves at offset 0, then the block that loads, then the
/// entry point, which jumps to the block that loads.
pub open spec fn is_compiled(bytecode: Bytecode) -> bool {
    compilation() matches Compilation::Code(swap, exit, main) && bytecode.is_of_blocks(
        swap,
        exit,
        main,
    )
}

/// Whether `result` is what generating the code comes to: the bytecode of
/// the three blocks, or a compile error, which for code that is too large
/// has a message of its own.
pub open spec fn is_compilation(result: Result<Bytecode, Error>) -> bool {
    match compilation() {
        Compilation::Code(swap, exit, main) => result matches Ok(bytecode)
            && bytecode.is_of_blocks(swap, exit, main),
        Compilation::Refused => result matches Err(error) && error is CompileError,
        Compilation::TooLarge => result matches Err(error) && error.is_compile(CODE_TOO_LARGE@),
    }
}

/// The labels of a bytecode that three blocks make stand in order: the
/// first at the start, and none beyond the end of the code.
pub proof fn lemma_labels_in_order(bytecode: Bytecode, swap: Seq<u8>, exit: Seq<u8>, main: Seq<u8>)
    requires
        bytecode.is_of_blocks(swap, exit, main),
    ensures
        bytecode.registers_swap == 0,
        bytecode.registers_swap <= bytecode.registers_exit <= bytecode.main <= bytecode.code@.len(),
{
}

/// The start of the message of a compile error; the assembler's own message follows.
pub const FAILED_TO_COMPILE: &'static str = "Failed to compile: ";

/// The message of the compile error for code whose size does not fit in a machine word.
pub const CODE_TOO_LARGE: &'static str = "Failed to compile: the code does not fit in memory";

/// The compile error that reports an error of the assembler.
fn assembler_error(cause: &IcedError) -> (error: Error)
    ensures
        error is CompileError,
{
    let mut message = String::from_str(FAILED_TO_COMPILE);
    message.append(error_text(cause).as_str());
    Error::CompileError(message)
}

/// Assembles a program that is to run at `address`, and reports an error of
/// the assembler as a compile error. It succeeds exactly where the
/// assembler can encode the program there.
pub fn assemble_block(program: &Vec<Instruction>, address: u64) -> (result: Result<Vec<u8>, Error>)
    ensures
        match machine_code(program@, address) {
            Some(code) => result matches Ok(bytes) && bytes@ == code,
            None => result matches Err(error) && error is CompileError,
        },
{
    match assemble_program(program, address) {
        Ok(code) => Ok(code),
        Err(error) => Err(assembler_error(&error)),
    }
}

/// Generates the code of the trampoline and of the entry point. It
/// succeeds exactly where the assembler can encode each of the three blocks
/// and the code is not too large, and the result is then the three blocks
/// one after the other, with a label at the start of each.
pub fn compile() -> (result: Result<Bytecode, Error>)
    ensures
        is_compilation(result),
        result is Ok <==> compiles(),
        result matches Ok(bytecode) ==> is_compiled(bytecode) && bytecode.registers_swap == 0
            && bytecode.registers_exit <= bytecode.main <= bytecode.code@.len(),
        result matches Err(error) ==> error is CompileError,
{
    let swap = match assemble_block(&swap_instructions(), 0) {
        Ok(code) => code,
        Err(error) => {
            return Err(error);
        },
    };
    let exit_address = swap.len() as u64;
    let exit = match assemble_block(&exit_instructions(), exit_address) {
        Ok(code) => code,
        Err(error) => {
            return Err(error);
        },
    };
    let main_address = match swap.len().checked_add(exit.len()) {
        Some(address) => address as u64,
        None => {
            return Err(Error::CompileError(String::from_str(CODE_TOO_LARGE)));
        },
    };
    let main = match assemble_block(&main_instructions(exit_address), main_address) {
        Ok(code) => code,
        Err(error) => {
            return Err(error);
        },
    };
    match (swap.len() + exit.len()).checked_add(main.len()) {
        Some(_) => Ok(Bytecode::from_blocks(swap, exit, main)),
        None => Err(Error::CompileError(String::from_str(CODE_TOO_LARGE))),
    }
}

/// The message for a member expression, which code generation does not
/// implement.
pub const MEMBER_NOT_IMPLEMENTED: &'static str =
    "Failed to compile: member expressions are not implemented";

/// The message for a call, which code generation does not implement.
pub const CALL_NOT_IMPLEMENTED: &'static str = "Failed to compile: calls are not implemented";

/// The message for the extract operator, which code generation does not
/// implement.
pub const EXTRACT_NOT_IMPLEMENTED: &'static str =
    "Failed to compile: the extract operator is not implemented";

/// The message for the pipe operator, which code generation does not
/// implement.
pub const PIPE_NOT_IMPLEMENTED: &'static str =
    "Failed to compile: the pipe operator is not implemented";

/// Whether a number token can be decoded to a value that fits.
pub open spec fn is_decodable(token: Seq<char>) -> bool {
    number_value(encode_utf8(token)) matches Some(value) && value <= i64::MAX
}

/// Why code cannot be generated for an expression: the message of the
/// error, if there is one. Member expressions and calls, and the extract
/// and pipe operators, are not implemented.
pub open spec fn expression_fault(expression: FlatExpression) -> Option<Seq<char>> {
    if expression is Member {
        Some(MEMBER_NOT_IMPLEMENTED@)
    } else if expression is Call {
        Some(CALL_NOT_IMPLEMENTED@)
    } else if expression.spec_binary().operator is Extract {
        Some(EXTRACT_NOT_IMPLEMENTED@)
    } else if expression.spec_binary().operator is Pipe {
        Some(PIPE_NOT_IMPLEMENTED@)
    } else {
        None
    }
}

/// The fault of the first number token that cannot be decoded.
pub open spec fn numbers_fault(numbers: Seq<Seq<char>>) -> Option<Seq<char>>
    decreases numbers.len(),
{
    if numbers.len() == 0 {
        None
    } else if !is_decodable(numbers.first()) {
        Some(cannot_decode_message(numbers.first()))
    } else {
        numbers_fault(numbers.drop_first())
    }
}

/// The fault of the first expression that is not implemented.
pub open spec fn expressions_fault(expressions: Seq<FlatExpression>) -> Option<Seq<char>>
    decreases expressions.len(),
{
    if expressions.len() == 0 {
        None
    } else if expression_fault(expressions.first()) is Some {
        expression_fault(expressions.first())
    } else {
        expressions_fault(expressions.drop_first())
    }
}

/// The fault of the first source that holds an expression that is not
/// implemented.
pub open spec fn sources_fault(sources: Seq<FlatSourceView>) -> Option<Seq<char>>
    decreases sources.len(),
{
    if sources.len() == 0 {
        None
    } else if expressions_fault(sources.first().expressions) is Some {
        expressions_fault(sources.first().expressions)
    } else {
        sources_fault(sources.drop_first())
    }
}

/// Why code cannot be generated for a root: the first number token that
/// cannot be decoded, else the first expression that is not implemented.
pub open spec fn root_fault(root: FlatRootView) -> Option<Seq<char>> {
    if numbers_fault(root.numbers) is Some {
        numbers_fault(root.numbers)
    } else {
        sources_fault(root.sources)
    }
}

/// Whether `result` is the compile error with the message that is expected,
/// or no error where none is expected.
pub open spec fn faults(result: Result<(), Error>, expected: Option<Seq<char>>) -> bool {
    match expected {
        Some(message) => result matches Err(error) && error.is_compile(message),
        None => result is Ok,
    }
}

/// Checks that code generation implements an expression.
pub fn check_expression(expression: &FlatExpression) -> (result: Result<(), Error>)
    ensures
        faults(result, expression_fault(*expression)),
{
    match expression {
        FlatExpression::Member(_) => Err(
            Error::CompileError(String::from_str(MEMBER_NOT_IMPLEMENTED)),
        ),
        FlatExpression::Call(_) => Err(Error::CompileError(String::from_str(CALL_NOT_IMPLEMENTED))),
        _ => match expression.binary().operator {
            FlatOperator::Extract => Err(
                Error::CompileError(String::from_str(EXTRACT_NOT_IMPLEMENTED)),
            ),
            FlatOperator::Pipe => Err(
                Error::CompileError(String::from_str(PIPE_NOT_IMPLEMENTED)),
            ),
            _ => Ok(()),
        },
    }
}

/// Checks that code generation implements every expression of a source.
pub fn check_source(source: &FlatSource) -> (result: Result<(), Error>)
    ensures
        faults(result, expressions_fault(source@.expressions)),
{
    let ghost expressions = source@.expressions;
    let mut i: usize = 0;
    assert(expressions.skip(0) =~= expressions);
    while i < source.expressions.len()
        invariant
            i <= source.expressions.len(),
            expressions == source.expressions@,
            expressions_fault(expressions) == expressions_fault(expressions.skip(i as int)),
        decreases source.expressions.len() - i,
    {
        assert(expressions.skip(i as int).first() == source.expressions@[i as int]);
        assert(expressions.skip(i as int).drop_first() =~= expressions.skip(i + 1));
        match check_expression(&source.expressions[i]) {
            Ok(()) => {},
            Err(error) => {
                return Err(error);
            },
        }
        i += 1;
    }
    Ok(())
}

/// Checks that code can be generated for a root: every number token must
/// decode to a value that fits, and every expression must be implemented.
pub fn check_root(root: &FlatRoot) -> (result: Result<(), Error>)
    ensures
        faults(result, root_fault(root@)),
{
    let ghost numbers = root@.numbers;
    let mut i: usize = 0;
    assert(numbers.skip(0) =~= numbers);
    while i < root.numbers.len()
        invariant
            i <= root.numbers.len(),
            numbers == root@.numbers,
            numbers_fault(numbers) == numbers_fault(numbers.skip(i as int)),
        decreases root.numbers.len() - i,
    {
        assert(numbers.skip(i as int).first() == root.numbers@[i as int]@);
        assert(numbers.skip(i as int).drop_first() =~= numbers.skip(i + 1));
        match decode_number(root.numbers[i].0.as_str()) {
            Ok(_) => {},
            Err(error) => {
                return Err(error);
            },
        }
        i += 1;
    }
    let ghost sources = root@.sources;
    let mut k: usize = 0;
    assert(sources.skip(0) =~= sources);
    while k < root.sources.len()
        invariant
            k <= root.sources.len(),
            sources == root@.sources,
            numbers_fault(root@.numbers) is None,
            sources_fault(sources) == sources_fault(sources.skip(k as int)),
        decreases root.sources.len() - k,
    {
        assert(sources.skip(k as int).first() == root.sources@[k as int]@);
        assert(sources.skip(k as int).drop_first() =~= sources.skip(k + 1));
        match check_source(&root.sources[k]) {
            Ok(()) => {},
            Err(error) => {
                return Err(error);
            },
        }
        k += 1;
    }
    Ok(())
}

/// Generates code for a root. A root with a number token that cannot be
/// decoded, or with an expression that is not implemented, is refused. For
/// any other root code is owed exactly where the code of the trampoline and
/// of the entry point can be generated, and the code is then that code,
/// whatever the root holds.
pub fn compile_root(root: FlatRoot) -> (result: Result<Bytecode, Error>)
    ensures
        match root_fault(root@) {
            Some(message) => result matches Err(error) && error.is_compile(message),
            None => is_compilation(result) && (result is Ok <==> compiles()),
        },
        result matches Ok(bytecode) ==> is_compiled(bytecode),
        result matches Err(error) ==> error is CompileError,
{
    match check_root(&root) {
        Ok(()) => compile(),
        Err(error) => Err(error),
    }
}

} // verus!
