use rasm::defs::{Instruction, Ireg, Operand};
use rasm::x64::{Assembler, REGION_SIZE};
use rasm::Error;

fn filled(bytes: usize) -> Assembler {
    let mut session = Assembler::new();
    for _ in 0..bytes {
        session.push_instruction(Instruction::Ret).unwrap();
    }
    session
}

#[test]
fn region_size_is_256_kib() {
    assert_eq!(REGION_SIZE, 1024 * 256);
}

#[test]
fn program_may_fill_the_region() {
    let mut session = filled(REGION_SIZE);
    let code = session.commit().ok().unwrap();
    assert_eq!(code.len(), REGION_SIZE);
    assert_eq!(code.byte_at(0), Some(0xc3));
    assert_eq!(code.byte_at(REGION_SIZE - 1), Some(0xc3));
    assert_eq!(code.byte_at(REGION_SIZE), None);
}

#[test]
fn push_beyond_the_region_fails() {
    let mut session = filled(REGION_SIZE);
    assert_eq!(session.push_instruction(Instruction::Ret), Err(Error::Serialize));
    let code = session.commit().ok().unwrap();
    assert_eq!(code.len(), REGION_SIZE);
}

#[test]
fn instruction_that_does_not_fit_whole_is_not_written() {
    let mut session = filled(REGION_SIZE - 2);
    let mov = Instruction::Mov(Operand::Ireg(Ireg::RAX), Operand::Ireg(Ireg::RCX));
    assert_eq!(session.push_instruction(mov), Err(Error::Serialize));
    assert_eq!(session.push_instruction(Instruction::Ret), Ok(()));
    assert_eq!(session.push_instruction(Instruction::Ret), Ok(()));
    assert_eq!(session.push_instruction(Instruction::Ret), Err(Error::Serialize));
    let code = session.commit().ok().unwrap();
    assert_eq!(code.len(), REGION_SIZE);
    assert_eq!(code.byte_at(REGION_SIZE - 3), Some(0xc3));
    assert_eq!(code.byte_at(REGION_SIZE - 2), Some(0xc3));
    assert_eq!(code.byte_at(REGION_SIZE - 1), Some(0xc3));
}

#[test]
fn jump_that_does_not_fit_leaves_no_mention() {
    let mut session = filled(REGION_SIZE - 4);
    assert_eq!(
        session.push_instruction(Instruction::Jmp(Operand::Lbl("missing"))),
        Err(Error::Serialize)
    );
    assert_eq!(
        session.push_instruction(Instruction::Jne(Operand::Lbl("missing"))),
        Err(Error::Serialize)
    );
    // no mention was recorded, so nothing is left unresolved
    let code = session.commit().ok().unwrap();
    assert_eq!(code.len(), REGION_SIZE - 4);
}

#[test]
fn jump_that_just_fits_is_written() {
    let mut session = filled(REGION_SIZE - 5);
    session.push_instruction(Instruction::SetLbl("end")).unwrap();
    assert_eq!(session.push_instruction(Instruction::Jmp(Operand::Lbl("end"))), Ok(()));
    assert_eq!(session.push_instruction(Instruction::Ret), Err(Error::Serialize));
    let code = session.commit().ok().unwrap();
    assert_eq!(code.len(), REGION_SIZE);
    assert_eq!(code.byte_at(REGION_SIZE - 5), Some(0xe9));
    assert_eq!(code.byte_at(REGION_SIZE - 4), Some(0xfb));
    assert_eq!(code.byte_at(REGION_SIZE - 1), Some(0xff));
}

#[test]
fn label_at_the_end_of_a_full_region() {
    let mut session = Assembler::new();
    session.push_instruction(Instruction::Jmp(Operand::Lbl("end"))).unwrap();
    for _ in 0..REGION_SIZE - 5 {
        session.push_instruction(Instruction::Ret).unwrap();
    }
    assert_eq!(session.push_instruction(Instruction::SetLbl("end")), Ok(()));
    let code = session.commit().ok().unwrap();
    // displacement 262144 - 1 - 4 = 0x0003fffb
    assert_eq!(code.byte_at(1), Some(0xfb));
    assert_eq!(code.byte_at(2), Some(0xff));
    assert_eq!(code.byte_at(3), Some(0x03));
    assert_eq!(code.byte_at(4), Some(0x00));
}

#[test]
fn unsupported_instruction_is_refused_and_nothing_is_written() {
    let mut session = Assembler::new();
    session.push_instruction(Instruction::Ret).unwrap();
    let odd = Instruction::Mov(Operand::Ireg(Ireg::RAX), Operand::Mem);
    assert_eq!(session.push_instruction(odd), Err(Error::Nyi));
    assert_eq!(session.push_instruction(Instruction::Jmp(Operand::Mem)), Err(Error::Nyi));
    assert_eq!(session.buffer_fmt(), "[0xc3]");
}

#[test]
fn unsupported_instruction_is_refused_even_when_full() {
    let mut session = filled(REGION_SIZE);
    let odd = Instruction::Push(Operand::Byte(1));
    assert_eq!(session.push_instruction(odd), Err(Error::Nyi));
}

#[test]
fn label_definition_needs_no_room() {
    let mut session = filled(REGION_SIZE);
    assert_eq!(session.push_instruction(Instruction::SetLbl("end")), Ok(()));
}
