use iced_x86::code_asm::{
    qword_ptr, r12, r13, r14, r15, rax, rbp, rbx, rdi, rdx, rsi, rsp, CodeAssembler,
};
use iced_x86::{BlockEncoderOptions, Decoder, DecoderOptions, Formatter, NasmFormatter};
use mage_rs::jit::{
    assemble_block, compile, exit_instructions, main_instructions, swap_instructions, Instruction,
    Register,
};
use mage_rs::{compile_root, Bytecode, FlatRoot};

/// The code that one assembler makes of the whole program, with labels.
fn in_one_piece() -> Bytecode {
    let mut assembler = CodeAssembler::new(64).unwrap();

    let mut registers_swap_label = assembler.create_label();
    let mut registers_exit_label = assembler.create_label();

    assembler.set_label(&mut registers_swap_label).unwrap();

    assembler.mov(qword_ptr(rdi + 8), rbx).unwrap();
    assembler.mov(qword_ptr(rdi + 16), rbp).unwrap();
    assembler.mov(qword_ptr(rdi + 24), r12).unwrap();
    assembler.mov(qword_ptr(rdi + 32), r13).unwrap();
    assembler.mov(qword_ptr(rdi + 40), r14).unwrap();
    assembler.mov(qword_ptr(rdi + 48), r15).unwrap();
    assembler.mov(qword_ptr(rdi + 56), rsp).unwrap();

    assembler.set_label(&mut registers_exit_label).unwrap();

    assembler.mov(rbx, qword_ptr(rsi + 8)).unwrap();
    assembler.mov(rbp, qword_ptr(rsi + 16)).unwrap();
    assembler.mov(r12, qword_ptr(rsi + 24)).unwrap();
    assembler.mov(r13, qword_ptr(rsi + 32)).unwrap();
    assembler.mov(r14, qword_ptr(rsi + 40)).unwrap();
    assembler.mov(r15, qword_ptr(rsi + 48)).unwrap();
    assembler.mov(rsp, qword_ptr(rsi + 56)).unwrap();

    assembler.ret().unwrap();

    let mut main_label = assembler.create_label();

    assembler.set_label(&mut main_label).unwrap();

    assembler.push(rdi).unwrap();
    assembler.push(rdx).unwrap();

    assembler.mov(rax, 1u64).unwrap();
    assembler.mov(rdi, 1u64).unwrap();
    assembler.mov(rsi, qword_ptr(rdx + 0)).unwrap();
    assembler.mov(rdx, qword_ptr(rdx + 8)).unwrap();
    assembler.syscall().unwrap();

    assembler.pop(rdx).unwrap();
    assembler.pop(rsi).unwrap();

    assembler.mov(qword_ptr(rdx + 16), 1).unwrap();
    assembler.mov(qword_ptr(rdx + 24), rax).unwrap();

    assembler.jmp(registers_exit_label).unwrap();

    let result = assembler
        .assemble_options(0, BlockEncoderOptions::RETURN_NEW_INSTRUCTION_OFFSETS)
        .unwrap();

    Bytecode {
        registers_swap: result.label_ip(&registers_swap_label).unwrap() as usize,
        registers_exit: result.label_ip(&registers_exit_label).unwrap() as usize,
        main: result.label_ip(&main_label).unwrap() as usize,
        code: result.inner.code_buffer,
    }
}

fn empty_root() -> FlatRoot {
    FlatRoot { sources: vec![], numbers: vec![], strings: vec![] }
}

fn listing(code: &[u8], address: u64) -> Vec<String> {
    let mut decoder = Decoder::with_ip(64, code, address, DecoderOptions::NONE);
    let mut formatter = NasmFormatter::new();
    let mut lines = Vec::new();
    while decoder.can_decode() {
        let instruction = decoder.decode();
        let mut line = String::new();
        formatter.format(&instruction, &mut line);
        lines.push(line);
    }
    lines
}

#[test]
fn blocks_make_the_code_of_one_assembler_with_labels() {
    assert_eq!(compile_root(empty_root()).unwrap(), in_one_piece());
}

#[test]
fn compile_root_does_not_depend_on_the_root() {
    let root = FlatRoot { sources: vec![], numbers: vec![mage_rs::FlatNumber("0d1".to_string())], strings: vec![] };
    assert_eq!(compile_root(root).unwrap(), compile().unwrap());
}

#[test]
fn swap_is_at_the_start_and_the_labels_are_in_order() {
    let bytecode = compile().unwrap();
    assert_eq!(bytecode.registers_swap, 0);
    assert!(bytecode.registers_swap < bytecode.registers_exit);
    assert!(bytecode.registers_exit < bytecode.main);
    assert!(bytecode.main < bytecode.code.len());
}

#[test]
fn code_is_the_three_blocks_one_after_the_other() {
    let bytecode = compile().unwrap();
    let swap = assemble_block(&swap_instructions(), 0).unwrap();
    let exit = assemble_block(&exit_instructions(), swap.len() as u64).unwrap();
    let main = assemble_block(
        &main_instructions(swap.len() as u64),
        (swap.len() + exit.len()) as u64,
    )
    .unwrap();
    assert_eq!(bytecode.registers_exit, swap.len());
    assert_eq!(bytecode.main, swap.len() + exit.len());
    assert_eq!(bytecode.code, [swap, exit, main].concat());
    assert_eq!(bytecode, Bytecode::from_blocks(
        bytecode.code[..bytecode.registers_exit].to_vec(),
        bytecode.code[bytecode.registers_exit..bytecode.main].to_vec(),
        bytecode.code[bytecode.main..].to_vec(),
    ));
}

#[test]
fn from_blocks_places_the_labels_at_the_block_starts() {
    let bytecode = Bytecode::from_blocks(vec![1, 2, 3], vec![4, 5], vec![6]);
    assert_eq!(
        bytecode,
        Bytecode { code: vec![1, 2, 3, 4, 5, 6], registers_swap: 0, registers_exit: 3, main: 5 }
    );
    let empty = Bytecode::from_blocks(vec![], vec![], vec![]);
    assert_eq!(empty, Bytecode { code: vec![], registers_swap: 0, registers_exit: 0, main: 0 });
}

#[test]
fn trampoline_saves_and_loads_each_register_in_its_slot() {
    assert_eq!(
        swap_instructions(),
        vec![
            Instruction::Store { base: Register::Rdi, displacement: 8, source: Register::Rbx },
            Instruction::Store { base: Register::Rdi, displacement: 16, source: Register::Rbp },
            Instruction::Store { base: Register::Rdi, displacement: 24, source: Register::R12 },
            Instruction::Store { base: Register::Rdi, displacement: 32, source: Register::R13 },
            Instruction::Store { base: Register::Rdi, displacement: 40, source: Register::R14 },
            Instruction::Store { base: Register::Rdi, displacement: 48, source: Register::R15 },
            Instruction::Store { base: Register::Rdi, displacement: 56, source: Register::Rsp },
        ]
    );
    assert_eq!(
        exit_instructions(),
        vec![
            Instruction::Load { target: Register::Rbx, base: Register::Rsi, displacement: 8 },
            Instruction::Load { target: Register::Rbp, base: Register::Rsi, displacement: 16 },
            Instruction::Load { target: Register::R12, base: Register::Rsi, displacement: 24 },
            Instruction::Load { target: Register::R13, base: Register::Rsi, displacement: 32 },
            Instruction::Load { target: Register::R14, base: Register::Rsi, displacement: 40 },
            Instruction::Load { target: Register::R15, base: Register::Rsi, displacement: 48 },
            Instruction::Load { target: Register::Rsp, base: Register::Rsi, displacement: 56 },
            Instruction::Return,
        ]
    );
}

#[test]
fn entry_point_writes_the_buffer_and_stores_the_result() {
    assert_eq!(
        main_instructions(27),
        vec![
            Instruction::Push(Register::Rdi),
            Instruction::Push(Register::Rdx),
            Instruction::LoadImmediate { target: Register::Rax, value: 1 },
            Instruction::LoadImmediate { target: Register::Rdi, value: 1 },
            Instruction::Load { target: Register::Rsi, base: Register::Rdx, displacement: 0 },
            Instruction::Load { target: Register::Rdx, base: Register::Rdx, displacement: 8 },
            Instruction::Syscall,
            Instruction::Pop(Register::Rdx),
            Instruction::Pop(Register::Rsi),
            Instruction::StoreImmediate { base: Register::Rdx, displacement: 16, immediate: 1 },
            Instruction::Store { base: Register::Rdx, displacement: 24, source: Register::Rax },
            Instruction::Jump(27),
        ]
    );
}

#[test]
fn machine_code_decodes_to_the_instructions() {
    let bytecode = compile().unwrap();
    let swap = listing(&bytecode.code[..bytecode.registers_exit], 0);
    assert_eq!(
        swap,
        vec![
            "mov [rdi+8],rbx",
            "mov [rdi+10h],rbp",
            "mov [rdi+18h],r12",
            "mov [rdi+20h],r13",
            "mov [rdi+28h],r14",
            "mov [rdi+30h],r15",
            "mov [rdi+38h],rsp",
        ]
    );
    let exit = listing(
        &bytecode.code[bytecode.registers_exit..bytecode.main],
        bytecode.registers_exit as u64,
    );
    assert_eq!(
        exit,
        vec![
            "mov rbx,[rsi+8]",
            "mov rbp,[rsi+10h]",
            "mov r12,[rsi+18h]",
            "mov r13,[rsi+20h]",
            "mov r14,[rsi+28h]",
            "mov r15,[rsi+30h]",
            "mov rsp,[rsi+38h]",
            "ret",
        ]
    );
    let main = listing(&bytecode.code[bytecode.main..], bytecode.main as u64);
    assert_eq!(main.len(), 12);
    assert_eq!(main[0], "push rdi");
    assert_eq!(main[1], "push rdx");
    assert_eq!(main[2], "mov rax,1");
    assert_eq!(main[3], "mov rdi,1");
    assert_eq!(main[4], "mov rsi,[rdx]");
    assert_eq!(main[5], "mov rdx,[rdx+8]");
    assert_eq!(main[6], "syscall");
    assert_eq!(main[7], "pop rdx");
    assert_eq!(main[8], "pop rsi");
    assert_eq!(main[9], "mov qword [rdx+10h],1");
    assert_eq!(main[10], "mov [rdx+18h],rax");
    assert_eq!(main[11], format!("jmp short {:016X}h", bytecode.registers_exit));
}

#[test]
fn each_instruction_is_assembled_as_itself() {
    let cases = [
        (Instruction::Store { base: Register::Rax, displacement: 8, source: Register::Rdx }, "mov [rax+8],rdx"),
        (Instruction::Load { target: Register::Rbp, base: Register::Rsp, displacement: 16 }, "mov rbp,[rsp+10h]"),
        (Instruction::StoreImmediate { base: Register::Rsi, displacement: 0, immediate: 7 }, "mov qword [rsi],7"),
        (Instruction::LoadImmediate { target: Register::R15, value: 9 }, "mov r15,9"),
        (Instruction::Push(Register::R12), "push r12"),
        (Instruction::Pop(Register::R13), "pop r13"),
        (Instruction::Push(Register::Rbx), "push rbx"),
        (Instruction::Pop(Register::R14), "pop r14"),
        (Instruction::Return, "ret"),
        (Instruction::Syscall, "syscall"),
    ];
    for (instruction, text) in cases {
        let code = assemble_block(&vec![instruction], 0).unwrap();
        assert_eq!(listing(&code, 0), vec![text.to_string()]);
    }
}

#[test]
fn empty_program_has_no_code() {
    assert_eq!(assemble_block(&vec![], 0).unwrap(), Vec::<u8>::new());
}

fn source_of(expressions: Vec<mage_rs::FlatExpression>) -> mage_rs::FlatSource {
    mage_rs::FlatSource { expressions, identifiers: vec![] }
}

fn binary_of(operator: mage_rs::FlatOperator) -> mage_rs::FlatBinary {
    mage_rs::FlatBinary {
        one: Some(mage_rs::FlatIndex::Number(0)),
        two: mage_rs::FlatIndex::Number(0),
        operator,
    }
}

fn refusal(message: &str) -> Result<Bytecode, mage_rs::Error> {
    Err(mage_rs::Error::CompileError(message.to_string()))
}

#[test]
fn implemented_expressions_are_compiled() {
    let operators = [
        mage_rs::FlatOperator::Multiply,
        mage_rs::FlatOperator::Divide,
        mage_rs::FlatOperator::Modulo,
        mage_rs::FlatOperator::Add,
        mage_rs::FlatOperator::Subtract,
        mage_rs::FlatOperator::Equal,
        mage_rs::FlatOperator::NotEqual,
        mage_rs::FlatOperator::LessThan,
        mage_rs::FlatOperator::GreaterThan,
        mage_rs::FlatOperator::LessEqual,
        mage_rs::FlatOperator::GreaterEqual,
        mage_rs::FlatOperator::And,
        mage_rs::FlatOperator::Or,
        mage_rs::FlatOperator::Constant,
        mage_rs::FlatOperator::Variable,
    ];
    let mut expressions = Vec::new();
    for operator in operators {
        expressions.push(mage_rs::FlatExpression::Multiplicative(binary_of(operator)));
        expressions.push(mage_rs::FlatExpression::Additive(binary_of(operator)));
        expressions.push(mage_rs::FlatExpression::Comparison(binary_of(operator)));
        expressions.push(mage_rs::FlatExpression::Logical(binary_of(operator)));
        expressions.push(mage_rs::FlatExpression::Assign(binary_of(operator)));
    }
    let root = FlatRoot {
        sources: vec![source_of(vec![]), source_of(expressions)],
        numbers: vec![
            mage_rs::FlatNumber("0".to_string()),
            mage_rs::FlatNumber("0b1".to_string()),
            mage_rs::FlatNumber("0XFF".to_string()),
        ],
        strings: vec![mage_rs::FlatString("'text'".to_string())],
    };
    assert_eq!(compile_root(root).unwrap(), in_one_piece());
}

#[test]
fn members_calls_extracts_and_pipes_are_not_implemented() {
    let member = FlatRoot {
        sources: vec![source_of(vec![mage_rs::FlatExpression::Member(binary_of(
            mage_rs::FlatOperator::Add,
        ))])],
        numbers: vec![mage_rs::FlatNumber("0".to_string())],
        strings: vec![],
    };
    assert_eq!(
        compile_root(member),
        refusal("Failed to compile: member expressions are not implemented")
    );
    let call = FlatRoot {
        sources: vec![
            source_of(vec![]),
            source_of(vec![
                mage_rs::FlatExpression::Additive(binary_of(mage_rs::FlatOperator::Add)),
                mage_rs::FlatExpression::Call(binary_of(mage_rs::FlatOperator::Pipe)),
                mage_rs::FlatExpression::Member(binary_of(mage_rs::FlatOperator::Extract)),
            ]),
        ],
        numbers: vec![],
        strings: vec![],
    };
    assert_eq!(compile_root(call), refusal("Failed to compile: calls are not implemented"));
    let extract = FlatRoot {
        sources: vec![source_of(vec![mage_rs::FlatExpression::Additive(binary_of(
            mage_rs::FlatOperator::Extract,
        ))])],
        numbers: vec![],
        strings: vec![],
    };
    assert_eq!(
        compile_root(extract),
        refusal("Failed to compile: the extract operator is not implemented")
    );
    let pipe = FlatRoot {
        sources: vec![source_of(vec![mage_rs::FlatExpression::Logical(binary_of(
            mage_rs::FlatOperator::Pipe,
        ))])],
        numbers: vec![],
        strings: vec![],
    };
    assert_eq!(
        compile_root(pipe),
        refusal("Failed to compile: the pipe operator is not implemented")
    );
}

#[test]
fn number_that_does_not_decode_is_refused_first() {
    let root = FlatRoot {
        sources: vec![source_of(vec![mage_rs::FlatExpression::Member(binary_of(
            mage_rs::FlatOperator::Extract,
        ))])],
        numbers: vec![
            mage_rs::FlatNumber("0d1".to_string()),
            mage_rs::FlatNumber("12".to_string()),
            mage_rs::FlatNumber("0q".to_string()),
        ],
        strings: vec![],
    };
    assert_eq!(compile_root(root), refusal("Error: Cannot decode number 12."));
    let large = FlatRoot {
        sources: vec![],
        numbers: vec![mage_rs::FlatNumber("0xffffffffffffffff".to_string())],
        strings: vec![],
    };
    assert_eq!(
        compile_root(large),
        refusal("Error: Cannot decode number 0xffffffffffffffff.")
    );
}

#[test]
fn code_is_owed_and_the_labels_stand_in_order() {
    let first = compile();
    let second = compile_root(empty_root());
    assert!(first.is_ok());
    assert_eq!(first, second);
    let bytecode = first.unwrap();
    assert_eq!(bytecode.registers_swap, 0);
    assert!(bytecode.registers_exit <= bytecode.main);
    assert!(bytecode.main <= bytecode.code.len());
    for program in [swap_instructions(), exit_instructions(), main_instructions(0)] {
        for address in [0u64, 27, 4096] {
            assert_eq!(
                mage_rs::jit::assemble_program(&program, address).unwrap(),
                assemble_block(&program, address).unwrap()
            );
        }
    }
}
