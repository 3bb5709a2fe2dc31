use rasm::defs::{Instruction, Ireg, Operand};
use rasm::session::displacement_bytes;
use rasm::x64::Assembler;
use rasm::Error;

fn filler() -> Instruction {
    Instruction::Ret
}

/// Reads the signed 32-bit value at `at` back from the text of a program.
fn field_at(text: &str, at: usize) -> i32 {
    let bytes: Vec<u8> = text
        .trim_start_matches('[')
        .trim_end_matches(']')
        .split(' ')
        .filter(|b| !b.is_empty())
        .map(|b| u8::from_str_radix(b.trim_start_matches("0x"), 16).unwrap())
        .collect();
    i32::from_le_bytes([bytes[at], bytes[at + 1], bytes[at + 2], bytes[at + 3]])
}

#[test]
fn displacement_counts_from_the_end_of_the_field() {
    assert_eq!(displacement_bytes(19, 1), [0x0e, 0x00, 0x00, 0x00]);
    assert_eq!(displacement_bytes(5, 1), [0x00, 0x00, 0x00, 0x00]);
    assert_eq!(displacement_bytes(0x12345, 1), [0x40, 0x23, 0x01, 0x00]);
    assert_eq!(displacement_bytes(262144, 0), [0xfc, 0xff, 0x03, 0x00]);
}

#[test]
fn backward_displacement_is_negative() {
    assert_eq!(displacement_bytes(18, 33), [0xed, 0xff, 0xff, 0xff]);
    assert_eq!(displacement_bytes(0, 1), [0xfb, 0xff, 0xff, 0xff]);
    assert_eq!(displacement_bytes(0, 262140), [0x00, 0x00, 0xfc, 0xff]);
    assert_eq!(displacement_bytes(4, 1), [0xff, 0xff, 0xff, 0xff]);
}

#[test]
fn displacement_agrees_with_the_formula() {
    for (defined, mention) in [(0u64, 0u64), (4, 0), (100, 7), (7, 100), (262144, 262140), (3, 3)] {
        let expected = (defined as i64 - mention as i64 - 4) as i32;
        assert_eq!(displacement_bytes(defined, mention), expected.to_le_bytes());
    }
}

#[test]
fn placeholder_is_zero_until_commit() {
    let mut session = Assembler::new();
    session.push_instruction(Instruction::Jmp(Operand::Lbl("end"))).unwrap();
    session.push_instruction(filler()).unwrap();
    session.push_instruction(Instruction::SetLbl("end")).unwrap();
    assert_eq!(session.buffer_fmt(), "[0xe9 0x00 0x00 0x00 0x00 0xc3]");
    assert!(session.commit().is_ok());
    assert_eq!(session.buffer_fmt(), "[0xe9 0x01 0x00 0x00 0x00 0xc3]");
}

#[test]
fn forward_reference_resolves() {
    let mut session = Assembler::new();
    session.push_instruction(Instruction::Jne(Operand::Lbl("ahead"))).unwrap();
    for _ in 0..10 {
        session.push_instruction(filler()).unwrap();
    }
    session.push_instruction(Instruction::SetLbl("ahead")).unwrap();
    session.push_instruction(filler()).unwrap();
    let code = session.commit().ok().unwrap();
    // mention at 2, definition at 16
    assert_eq!(field_at(&session.buffer_fmt(), 2), 16 - 2 - 4);
    assert_eq!(code.byte_at(2), Some(10));
    assert_eq!(code.byte_at(3), Some(0));
}

#[test]
fn backward_reference_resolves() {
    let mut session = Assembler::new();
    session.push_instruction(Instruction::SetLbl("top")).unwrap();
    for _ in 0..7 {
        session.push_instruction(filler()).unwrap();
    }
    session.push_instruction(Instruction::Jmp(Operand::Lbl("top"))).unwrap();
    let code = session.commit().ok().unwrap();
    // mention at 8, definition at 0
    assert_eq!(field_at(&session.buffer_fmt(), 8), 0 - 8 - 4);
    assert_eq!(session.buffer_fmt(), "[0xc3 0xc3 0xc3 0xc3 0xc3 0xc3 0xc3 0xe9 0xf4 0xff 0xff 0xff]");
    assert_eq!(code.byte_at(8), Some(0xf4));
    assert_eq!(code.byte_at(11), Some(0xff));
}

#[test]
fn jump_to_itself() {
    let mut session = Assembler::new();
    session.push_instruction(Instruction::SetLbl("spin")).unwrap();
    session.push_instruction(Instruction::Jmp(Operand::Lbl("spin"))).unwrap();
    assert!(session.commit().is_ok());
    assert_eq!(session.buffer_fmt(), "[0xe9 0xfb 0xff 0xff 0xff]");
}

#[test]
fn jump_to_the_next_instruction() {
    let mut session = Assembler::new();
    session.push_instruction(Instruction::Jmp(Operand::Lbl("next"))).unwrap();
    session.push_instruction(Instruction::SetLbl("next")).unwrap();
    session.push_instruction(filler()).unwrap();
    assert!(session.commit().is_ok());
    assert_eq!(session.buffer_fmt(), "[0xe9 0x00 0x00 0x00 0x00 0xc3]");
}

#[test]
fn two_mentions_resolve_to_the_same_target() {
    let mut session = Assembler::new();
    session.push_instruction(Instruction::Jmp(Operand::Lbl("end"))).unwrap();
    session.push_instruction(filler()).unwrap();
    session.push_instruction(Instruction::Je(Operand::Lbl("end"))).unwrap();
    session.push_instruction(filler()).unwrap();
    session.push_instruction(filler()).unwrap();
    session.push_instruction(Instruction::SetLbl("end")).unwrap();
    session.push_instruction(filler()).unwrap();
    assert!(session.commit().is_ok());
    let text = session.buffer_fmt();
    // mentions at 1 and 8, definition at 14
    let first = field_at(&text, 1);
    let second = field_at(&text, 8);
    assert_eq!(first, 9);
    assert_eq!(second, 2);
    assert_eq!(1 + 4 + first, 14);
    assert_eq!(8 + 4 + second, 14);
    assert_eq!(
        text,
        "[0xe9 0x09 0x00 0x00 0x00 0xc3 0x0f 0x84 0x02 0x00 0x00 0x00 0xc3 0xc3 0xc3]"
    );
}

#[test]
fn mentions_before_and_after_the_definition() {
    let mut session = Assembler::new();
    session.push_instruction(Instruction::Jmp(Operand::Lbl("mid"))).unwrap();
    session.push_instruction(Instruction::SetLbl("mid")).unwrap();
    session.push_instruction(filler()).unwrap();
    session.push_instruction(Instruction::Jmp(Operand::Lbl("mid"))).unwrap();
    assert!(session.commit().is_ok());
    // definition at 5; fields at 1 and 7
    assert_eq!(
        session.buffer_fmt(),
        "[0xe9 0x00 0x00 0x00 0x00 0xc3 0xe9 0xfa 0xff 0xff 0xff]"
    );
}

#[test]
fn several_labels() {
    let mut session = Assembler::new();
    session.push_instruction(Instruction::Jmp(Operand::Lbl("b"))).unwrap();
    session.push_instruction(Instruction::SetLbl("a")).unwrap();
    session.push_instruction(filler()).unwrap();
    session.push_instruction(Instruction::SetLbl("b")).unwrap();
    session.push_instruction(Instruction::Jmp(Operand::Lbl("a"))).unwrap();
    assert!(session.commit().is_ok());
    assert_eq!(
        session.buffer_fmt(),
        "[0xe9 0x01 0x00 0x00 0x00 0xc3 0xe9 0xfa 0xff 0xff 0xff]"
    );
}

#[test]
fn a_label_defined_again_takes_the_later_place() {
    let mut session = Assembler::new();
    session.push_instruction(Instruction::SetLbl("l")).unwrap();
    session.push_instruction(filler()).unwrap();
    session.push_instruction(Instruction::SetLbl("l")).unwrap();
    session.push_instruction(Instruction::Jmp(Operand::Lbl("l"))).unwrap();
    assert!(session.commit().is_ok());
    assert_eq!(session.buffer_fmt(), "[0xc3 0xe9 0xfb 0xff 0xff 0xff]");
}

#[test]
fn labels_are_told_apart_by_their_text() {
    let first = String::from("label");
    let second = String::from("label");
    let first: &'static str = first.leak();
    let second: &'static str = second.leak();
    let mut session = Assembler::new();
    session.push_instruction(Instruction::Jmp(Operand::Lbl(first))).unwrap();
    session.push_instruction(Instruction::SetLbl(second)).unwrap();
    assert!(session.commit().is_ok());
}

#[test]
fn unresolved_label_fails_commit() {
    let mut session = Assembler::new();
    session.push_instruction(Instruction::Jmp(Operand::Lbl("nowhere"))).unwrap();
    session.push_instruction(filler()).unwrap();
    assert!(matches!(session.commit(), Err(Error::UnknownLabel)));
}

#[test]
fn unresolved_label_leaves_the_program_as_it_was() {
    let mut session = Assembler::new();
    session.push_instruction(Instruction::SetLbl("known")).unwrap();
    session.push_instruction(filler()).unwrap();
    session.push_instruction(Instruction::Jmp(Operand::Lbl("known"))).unwrap();
    session.push_instruction(Instruction::Jmp(Operand::Lbl("unknown"))).unwrap();
    let before = session.buffer_fmt();
    assert!(matches!(session.commit(), Err(Error::UnknownLabel)));
    assert_eq!(session.buffer_fmt(), before);
    assert_eq!(before, "[0xc3 0xe9 0x00 0x00 0x00 0x00 0xe9 0x00 0x00 0x00 0x00]");
    // the label can still be supplied
    session.push_instruction(Instruction::SetLbl("unknown")).unwrap();
    assert!(session.commit().is_ok());
    assert_eq!(
        session.buffer_fmt(),
        "[0xc3 0xe9 0xfa 0xff 0xff 0xff 0xe9 0x00 0x00 0x00 0x00]"
    );
}

#[test]
fn label_of_another_session_is_unknown() {
    let mut first = Assembler::new();
    first.push_instruction(Instruction::SetLbl("shared")).unwrap();
    let mut second = Assembler::new();
    second.push_instruction(Instruction::Jmp(Operand::Lbl("shared"))).unwrap();
    assert!(first.commit().is_ok());
    assert!(matches!(second.commit(), Err(Error::UnknownLabel)));
}

#[test]
fn commit_uses_up_labels_and_mentions() {
    let mut session = Assembler::new();
    session.push_instruction(Instruction::SetLbl("once")).unwrap();
    session.push_instruction(Instruction::Jmp(Operand::Lbl("once"))).unwrap();
    assert!(session.commit().is_ok());
    // a second commit has nothing left to patch
    assert!(session.commit().is_ok());
    assert_eq!(session.buffer_fmt(), "[0xe9 0xfb 0xff 0xff 0xff]");
    // and the label is gone
    session.push_instruction(Instruction::Jmp(Operand::Lbl("once"))).unwrap();
    assert!(matches!(session.commit(), Err(Error::UnknownLabel)));
}

#[test]
fn program_without_jumps_commits_unchanged() {
    let mut session = Assembler::new();
    session
        .push_instruction(Instruction::Mov(Operand::Ireg(Ireg::RAX), Operand::Ireg(Ireg::RCX)))
        .unwrap();
    session.push_instruction(filler()).unwrap();
    let before = session.buffer_fmt();
    assert!(session.commit().is_ok());
    assert_eq!(session.buffer_fmt(), before);
}

#[test]
fn unused_label_is_harmless() {
    let mut session = Assembler::new();
    session.push_instruction(Instruction::SetLbl("unused")).unwrap();
    session.push_instruction(filler()).unwrap();
    assert!(session.commit().is_ok());
    assert_eq!(session.buffer_fmt(), "[0xc3]");
}

#[test]
fn resolve_labels_patches_without_a_region() {
    let mut session = Assembler::new();
    session.serialize_instruction(Instruction::Jmp(Operand::Lbl("end"))).unwrap();
    session.serialize_instruction(filler()).unwrap();
    session.serialize_instruction(Instruction::SetLbl("end")).unwrap();
    assert_eq!(session.resolve_labels(), Ok(()));
    assert_eq!(session.buffer_fmt(), "[0xe9 0x01 0x00 0x00 0x00 0xc3]");
    // labels and mentions are used up
    assert_eq!(session.resolve_labels(), Ok(()));
    session.serialize_instruction(Instruction::Jmp(Operand::Lbl("end"))).unwrap();
    assert_eq!(session.resolve_labels(), Err(Error::UnknownLabel));
}

#[test]
fn resolve_labels_fails_on_an_undefined_label_and_patches_nothing() {
    let mut session = Assembler::new();
    session.serialize_instruction(Instruction::SetLbl("top")).unwrap();
    session.serialize_instruction(Instruction::Jne(Operand::Lbl("top"))).unwrap();
    session.serialize_instruction(Instruction::Jne(Operand::Lbl("gone"))).unwrap();
    let before = session.buffer_fmt();
    assert_eq!(session.resolve_labels(), Err(Error::UnknownLabel));
    assert_eq!(session.buffer_fmt(), before);
}

#[test]
fn serialize_instruction_is_what_push_does() {
    let program = || {
        vec![
            Instruction::Mov(Operand::Ireg(Ireg::R9), Operand::Qword(-2)),
            Instruction::Jne(Operand::Lbl("l")),
            Instruction::SetLbl("l"),
            Instruction::Ret,
        ]
    };
    let mut pushed = Assembler::new();
    let mut serialized = Assembler::new();
    for instr in program() {
        assert_eq!(pushed.push_instruction(instr), Ok(()));
    }
    for instr in program() {
        assert_eq!(serialized.serialize_instruction(instr), Ok(()));
    }
    assert_eq!(pushed.buffer_fmt(), serialized.buffer_fmt());
    assert_eq!(
        serialized.buffer_fmt(),
        "[0x49 0xb9 0xfe 0xff 0xff 0xff 0xff 0xff 0xff 0xff 0x0f 0x85 0x00 0x00 0x00 0x00 0xc3]"
    );
    assert_eq!(serialized.serialize_instruction(Instruction::Jmp(Operand::Mem)), Err(Error::Nyi));
}
