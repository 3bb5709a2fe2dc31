//! The byte-level encoding of instructions.
//!
//! [`encoding`] states, for every instruction the assembler accepts, the
//! exact machine code it stands for.  Jumps to a label are encoded with a
//! displacement of zero; the assembler fills the displacement in once every
//! label is known.

use vstd::prelude::*;
use crate::defs::{Freg, Instruction, Ireg, Operand, MOD_ADDR_REG, REX};
use crate::Error;

verus! {

/// REX prefix that extends the register named by an opcode or an r/m field
/// and leaves the operand size alone.
pub const REX_B: u8 = 0x41;

/// The REX prefix of a 64-bit instruction: `r` is the domain of the
/// register in the ModR/M register field, `b` the domain of the register
/// in the r/m field or in the opcode.
pub open spec fn spec_rex_w(r: u8, b: u8) -> u8 {
    REX | (r << 2) | b
}

/// The ModR/M byte that addresses two registers directly.
pub open spec fn spec_modrm(reg: u8, rm: u8) -> u8 {
    MOD_ADDR_REG | (reg << 3) | rm
}

/// An opcode whose low three bits name a register.
pub open spec fn spec_opcode_with(base: u8, reg: u8) -> u8 {
    base | reg
}

/// The REX prefix in arithmetic terms: the fixed bits, four times the
/// domain bit of the register field, and the domain bit of the r/m field.
pub proof fn lemma_rex_w(r: u8, b: u8)
    requires
        r <= 1,
        b <= 1,
    ensures
        spec_rex_w(r, b) == 0x48 + 4 * r + b,
{
    assert((0x48u8 | (r << 2) | b) == 0x48 + 4 * r + b) by (bit_vector)
        requires
            r <= 1,
            b <= 1,
    ;
}

/// The ModR/M byte in arithmetic terms: the mode bits, eight times the
/// register field, and the r/m field.
pub proof fn lemma_modrm(reg: u8, rm: u8)
    requires
        reg <= 7,
        rm <= 7,
    ensures
        spec_modrm(reg, rm) == 0xc0 + 8 * reg + rm,
{
    assert((0xc0u8 | (reg << 3) | rm) == 0xc0 + 8 * reg + rm) by (bit_vector)
        requires
            reg <= 7,
            rm <= 7,
    ;
}

/// An opcode with a register in its low bits, in arithmetic terms.
pub proof fn lemma_opcode_with(base: u8, reg: u8)
    requires
        base % 8 == 0,
        reg <= 7,
    ensures
        spec_opcode_with(base, reg) == base + reg,
{
    assert((base | reg) == base + reg) by (bit_vector)
        requires
            base % 8 == 0,
            reg <= 7,
    ;
}

/// Computes the REX prefix of a 64-bit instruction.
#[verifier::when_used_as_spec(spec_rex_w)]
pub fn rex_w(r: u8, b: u8) -> (prefix: u8)
    ensures
        prefix == spec_rex_w(r, b),
{
    REX | (r << 2) | b
}

/// Computes the ModR/M byte for two directly addressed registers.
#[verifier::when_used_as_spec(spec_modrm)]
pub fn modrm(reg: u8, rm: u8) -> (byte: u8)
    ensures
        byte == spec_modrm(reg, rm),
{
    MOD_ADDR_REG | (reg << 3) | rm
}

/// Computes an opcode that carries a register in its low three bits.
#[verifier::when_used_as_spec(spec_opcode_with)]
pub fn opcode_with(base: u8, reg: u8) -> (opcode: u8)
    ensures
        opcode == spec_opcode_with(base, reg),
{
    base | reg
}

/// The little-endian two's-complement bytes of a signed 8-bit immediate.
pub open spec fn imm8(v: int) -> Seq<u8> {
    seq![(v % 0x100) as u8]
}

/// The four bytes of `u`, least significant first.
pub open spec fn le_bytes4(u: int) -> Seq<u8> {
    seq![
        (u % 0x100) as u8,
        (u / 0x100 % 0x100) as u8,
        (u / 0x1_0000 % 0x100) as u8,
        (u / 0x100_0000 % 0x100) as u8,
    ]
}

/// The eight bytes of `u`, least significant first.
pub open spec fn le_bytes8(u: int) -> Seq<u8> {
    seq![
        (u % 0x100) as u8,
        (u / 0x100 % 0x100) as u8,
        (u / 0x1_0000 % 0x100) as u8,
        (u / 0x100_0000 % 0x100) as u8,
        (u / 0x1_0000_0000 % 0x100) as u8,
        (u / 0x100_0000_0000 % 0x100) as u8,
        (u / 0x1_0000_0000_0000 % 0x100) as u8,
        (u / 0x100_0000_0000_0000 % 0x100) as u8,
    ]
}

/// The little-endian two's-complement bytes of a signed 32-bit value.
pub open spec fn imm32(v: int) -> Seq<u8> {
    le_bytes4(v % 0x1_0000_0000)
}

/// The little-endian two's-complement bytes of a signed 64-bit immediate.
pub open spec fn imm64(v: int) -> Seq<u8> {
    le_bytes8(v % 0x1_0000_0000_0000_0000)
}

/// A 64-bit instruction on two registers: REX prefix, opcode, ModR/M.
/// `reg` is the register in the ModR/M register field, `rm` the one in the
/// r/m field.
pub open spec fn reg_rm(opcode: Seq<u8>, reg: Ireg, rm: Ireg) -> Seq<u8> {
    seq![rex_w(reg.rex(), rm.rex())] + opcode + seq![modrm(reg.reg(), rm.reg())]
}

/// A 64-bit instruction of the immediate group `0x83`: the operation is
/// selected by `digit` in the ModR/M register field and applied to `rm`
/// with a sign-extended byte.
pub open spec fn rm_imm8(digit: u8, rm: Ireg, imm: i8) -> Seq<u8> {
    seq![rex_w(0, rm.rex()), 0x83u8, modrm(digit, rm.reg())] + imm8(imm as int)
}

/// The load of a 64-bit immediate: the opcode names the register and the
/// immediate follows it.
pub open spec fn load_imm64(reg: Ireg, imm: i64) -> Seq<u8> {
    seq![rex_w(0, reg.rex()), opcode_with(0xb8, reg.reg())] + imm64(imm as int)
}

/// An SSE instruction on two registers: opcode, ModR/M.
pub open spec fn xmm_rm(opcode: Seq<u8>, reg: Freg, rm: Freg) -> Seq<u8> {
    opcode + seq![modrm(reg.reg(), rm.reg())]
}

/// A one-byte instruction whose opcode names the register; a prefix is
/// needed only to reach the extended registers.
pub open spec fn short_form(base: u8, reg: Ireg) -> Seq<u8> {
    if reg.rex() == 1 {
        seq![REX_B, opcode_with(base, reg.reg())]
    } else {
        seq![opcode_with(base, reg.reg())]
    }
}

/// An indirect instruction of group `0xff` on one register.
pub open spec fn indirect(digit: u8, rm: Ireg) -> Seq<u8> {
    if rm.rex() == 1 {
        seq![REX_B, 0xffu8, modrm(digit, rm.reg())]
    } else {
        seq![0xffu8, modrm(digit, rm.reg())]
    }
}

/// The four bytes that hold the place of a jump's displacement.
pub open spec fn placeholder() -> Seq<u8> {
    seq![0u8, 0u8, 0u8, 0u8]
}

/// For a jump, its opcode and its operand; nothing for any other
/// instruction.
pub open spec fn jump_parts(instr: Instruction) -> Option<(Seq<u8>, Operand)> {
    match instr {
        Instruction::Jmp(target) => Some((seq![0xe9u8], target)),
        Instruction::Ja(target) => Some((seq![0x0fu8, 0x87u8], target)),
        Instruction::Jae(target) => Some((seq![0x0fu8, 0x83u8], target)),
        Instruction::Jb(target) => Some((seq![0x0fu8, 0x82u8], target)),
        Instruction::Jbe(target) => Some((seq![0x0fu8, 0x86u8], target)),
        Instruction::Jc(target) => Some((seq![0x0fu8, 0x82u8], target)),
        Instruction::Je(target) => Some((seq![0x0fu8, 0x84u8], target)),
        Instruction::Jg(target) => Some((seq![0x0fu8, 0x8fu8], target)),
        Instruction::Jge(target) => Some((seq![0x0fu8, 0x8du8], target)),
        Instruction::Jl(target) => Some((seq![0x0fu8, 0x8cu8], target)),
        Instruction::Jle(target) => Some((seq![0x0fu8, 0x8eu8], target)),
        Instruction::Jna(target) => Some((seq![0x0fu8, 0x86u8], target)),
        Instruction::Jnae(target) => Some((seq![0x0fu8, 0x82u8], target)),
        Instruction::Jnb(target) => Some((seq![0x0fu8, 0x83u8], target)),
        Instruction::Jnbe(target) => Some((seq![0x0fu8, 0x87u8], target)),
        Instruction::Jnc(target) => Some((seq![0x0fu8, 0x83u8], target)),
        Instruction::Jne(target) => Some((seq![0x0fu8, 0x85u8], target)),
        Instruction::Jng(target) => Some((seq![0x0fu8, 0x8eu8], target)),
        Instruction::Jnge(target) => Some((seq![0x0fu8, 0x8cu8], target)),
        Instruction::Jnl(target) => Some((seq![0x0fu8, 0x8du8], target)),
        Instruction::Jnle(target) => Some((seq![0x0fu8, 0x8fu8], target)),
        Instruction::Jno(target) => Some((seq![0x0fu8, 0x81u8], target)),
        Instruction::Jnp(target) => Some((seq![0x0fu8, 0x8bu8], target)),
        Instruction::Jns(target) => Some((seq![0x0fu8, 0x89u8], target)),
        Instruction::Jnz(target) => Some((seq![0x0fu8, 0x85u8], target)),
        Instruction::Jo(target) => Some((seq![0x0fu8, 0x80u8], target)),
        Instruction::Jp(target) => Some((seq![0x0fu8, 0x8au8], target)),
        Instruction::Jpe(target) => Some((seq![0x0fu8, 0x8au8], target)),
        Instruction::Jpo(target) => Some((seq![0x0fu8, 0x8bu8], target)),
        Instruction::Js(target) => Some((seq![0x0fu8, 0x88u8], target)),
        Instruction::Jz(target) => Some((seq![0x0fu8, 0x84u8], target)),
        _ => None,
    }
}

/// The label that a jump refers to, if `instr` is a jump to a label.
pub open spec fn mentioned_label(instr: Instruction) -> Option<Seq<char>> {
    match jump_parts(instr) {
        Some((_, Operand::Lbl(name))) => Some(name@),
        _ => None,
    }
}

/// The label that `instr` defines, if it is a label definition.
pub open spec fn defined_label(instr: Instruction) -> Option<Seq<char>> {
    match instr {
        Instruction::SetLbl(name) => Some(name@),
        _ => None,
    }
}

/// The machine code of an addition.  Between two general-purpose
/// registers the second operand stands in the ModR/M register field and
/// the first in the r/m field.
pub open spec fn add_encoding(op1: Operand, op2: Operand) -> Option<Seq<u8>> {
    match (op1, op2) {
        (Operand::Ireg(r1), Operand::Ireg(r2)) => Some(reg_rm(seq![0x01u8], r2, r1)),
        (Operand::Freg(x1), Operand::Freg(x2)) => Some(
            xmm_rm(seq![0xf2u8, 0x0fu8, 0x58u8], x1, x2),
        ),
        (Operand::Ireg(r1), Operand::Byte(b2)) => Some(rm_imm8(0, r1, b2)),
        _ => None,
    }
}

/// The machine code of a subtraction.  Between two registers the second
/// operand stands in the ModR/M register field and the first in the r/m
/// field.
pub open spec fn sub_encoding(op1: Operand, op2: Operand) -> Option<Seq<u8>> {
    match (op1, op2) {
        (Operand::Ireg(r1), Operand::Ireg(r2)) => Some(reg_rm(seq![0x29u8], r2, r1)),
        (Operand::Ireg(r1), Operand::Byte(b2)) => Some(rm_imm8(5, r1, b2)),
        _ => None,
    }
}

/// The machine code of a signed multiplication.  The destination is the
/// first operand and stands in the ModR/M register field.
pub open spec fn mul_encoding(op1: Operand, op2: Operand) -> Option<Seq<u8>> {
    match (op1, op2) {
        (Operand::Ireg(r1), Operand::Ireg(r2)) => Some(reg_rm(seq![0x0fu8, 0xafu8], r1, r2)),
        _ => None,
    }
}

/// The machine code of a move.  Between two general-purpose registers
/// the second operand stands in the ModR/M register field and the first in
/// the r/m field.
pub open spec fn mov_encoding(op1: Operand, op2: Operand) -> Option<Seq<u8>> {
    match (op1, op2) {
        (Operand::Ireg(r1), Operand::Ireg(r2)) => Some(reg_rm(seq![0x89u8], r2, r1)),
        (Operand::Freg(x1), Operand::Freg(x2)) => Some(
            xmm_rm(seq![0x66u8, 0x0fu8, 0x6fu8], x1, x2),
        ),
        (Operand::Ireg(r1), Operand::Qword(i2)) => Some(load_imm64(r1, i2)),
        _ => None,
    }
}

/// The machine code of a comparison.  The first operand stands in the
/// ModR/M register field.
pub open spec fn cmp_encoding(op1: Operand, op2: Operand) -> Option<Seq<u8>> {
    match (op1, op2) {
        (Operand::Ireg(r1), Operand::Ireg(r2)) => Some(reg_rm(seq![0x3bu8], r1, r2)),
        _ => None,
    }
}

/// The machine code of a push.  The operand size is 64 bits without a
/// prefix.
pub open spec fn push_encoding(op1: Operand) -> Option<Seq<u8>> {
    match op1 {
        Operand::Ireg(r1) => Some(short_form(0x50, r1)),
        _ => None,
    }
}

/// The machine code of a pop.  The operand size is 64 bits without a
/// prefix.
pub open spec fn pop_encoding(op1: Operand) -> Option<Seq<u8>> {
    match op1 {
        Operand::Ireg(r1) => Some(short_form(0x58, r1)),
        _ => None,
    }
}

/// The machine code of an indirect call.
pub open spec fn call_encoding(op1: Operand) -> Option<Seq<u8>> {
    match op1 {
        Operand::Ireg(r1) => Some(indirect(2, r1)),
        _ => None,
    }
}

/// The machine code of an instruction that is not a jump, or `None` where
/// the instruction has no encoding for its operands.
pub open spec fn plain_encoding(instr: Instruction) -> Option<Seq<u8>> {
    match instr {
        Instruction::Ret => Some(seq![0xc3u8]),
        Instruction::SetLbl(_) => Some(Seq::empty()),
        Instruction::Add(op1, op2) => add_encoding(op1, op2),
        Instruction::Sub(op1, op2) => sub_encoding(op1, op2),
        Instruction::Mul(op1, op2) => mul_encoding(op1, op2),
        Instruction::Mov(op1, op2) => mov_encoding(op1, op2),
        Instruction::Cmp(op1, op2) => cmp_encoding(op1, op2),
        Instruction::Push(op1) => push_encoding(op1),
        Instruction::Pop(op1) => pop_encoding(op1),
        Instruction::Call(op1) => call_encoding(op1),
        _ => None,
    }
}

/// The machine code that `instr` contributes to a program, or `None` where
/// the instruction has no encoding for its operands.  A jump to a label
/// is its opcode followed by the placeholder of its displacement.
pub open spec fn encoding(instr: Instruction) -> Option<Seq<u8>> {
    match jump_parts(instr) {
        Some((opcode, Operand::Lbl(_))) => Some(opcode + placeholder()),
        Some(_) => None,
        None => plain_encoding(instr),
    }
}

/// The code of the instructions on two general-purpose registers,
/// byte by byte.  Addition, subtraction and move put the second operand
/// in the ModR/M register field and the first in the r/m field;
/// multiplication and comparison put the first operand in the register
/// field.
pub proof fn lemma_reg_reg_bytes(a: Ireg, b: Ireg)
    ensures
        encoding(Instruction::Add(Operand::Ireg(a), Operand::Ireg(b))) == Some(
            seq![rex_w(b.rex(), a.rex()), 0x01u8, modrm(b.reg(), a.reg())],
        ),
        encoding(Instruction::Sub(Operand::Ireg(a), Operand::Ireg(b))) == Some(
            seq![rex_w(b.rex(), a.rex()), 0x29u8, modrm(b.reg(), a.reg())],
        ),
        encoding(Instruction::Mov(Operand::Ireg(a), Operand::Ireg(b))) == Some(
            seq![rex_w(b.rex(), a.rex()), 0x89u8, modrm(b.reg(), a.reg())],
        ),
        encoding(Instruction::Mul(Operand::Ireg(a), Operand::Ireg(b))) == Some(
            seq![rex_w(a.rex(), b.rex()), 0x0fu8, 0xafu8, modrm(a.reg(), b.reg())],
        ),
        encoding(Instruction::Cmp(Operand::Ireg(a), Operand::Ireg(b))) == Some(
            seq![rex_w(a.rex(), b.rex()), 0x3bu8, modrm(a.reg(), b.reg())],
        ),
        rex_w(b.rex(), a.rex()) == 0x48 + 4 * b.rex() + a.rex(),
        rex_w(a.rex(), b.rex()) == 0x48 + 4 * a.rex() + b.rex(),
        modrm(b.reg(), a.reg()) == 0xc0 + 8 * b.reg() + a.reg(),
        modrm(a.reg(), b.reg()) == 0xc0 + 8 * a.reg() + b.reg(),
{
    lemma_rex_w(b.rex(), a.rex());
    lemma_rex_w(a.rex(), b.rex());
    lemma_modrm(b.reg(), a.reg());
    lemma_modrm(a.reg(), b.reg());
    assert(reg_rm(seq![0x01u8], b, a) =~= seq![
        rex_w(b.rex(), a.rex()),
        0x01u8,
        modrm(b.reg(), a.reg()),
    ]);
    assert(reg_rm(seq![0x29u8], b, a) =~= seq![
        rex_w(b.rex(), a.rex()),
        0x29u8,
        modrm(b.reg(), a.reg()),
    ]);
    assert(reg_rm(seq![0x89u8], b, a) =~= seq![
        rex_w(b.rex(), a.rex()),
        0x89u8,
        modrm(b.reg(), a.reg()),
    ]);
    assert(reg_rm(seq![0x0fu8, 0xafu8], a, b) =~= seq![
        rex_w(a.rex(), b.rex()),
        0x0fu8,
        0xafu8,
        modrm(a.reg(), b.reg()),
    ]);
    assert(reg_rm(seq![0x3bu8], a, b) =~= seq![
        rex_w(a.rex(), b.rex()),
        0x3bu8,
        modrm(a.reg(), b.reg()),
    ]);
}

/// The code of an addition or subtraction of a byte, byte by byte: the
/// prefix with the domain of the register, `83`, the ModR/M byte with
/// `0` for addition or `5` for subtraction in its register field, and
/// the byte in two's complement.
pub proof fn lemma_reg_byte_bytes(r: Ireg, v: i8)
    ensures
        encoding(Instruction::Add(Operand::Ireg(r), Operand::Byte(v))) == Some(
            seq![rex_w(0, r.rex()), 0x83u8, modrm(0, r.reg()), (v as int % 0x100) as u8],
        ),
        encoding(Instruction::Sub(Operand::Ireg(r), Operand::Byte(v))) == Some(
            seq![rex_w(0, r.rex()), 0x83u8, modrm(5, r.reg()), (v as int % 0x100) as u8],
        ),
        rex_w(0, r.rex()) == 0x48 + r.rex(),
        modrm(0, r.reg()) == 0xc0 + r.reg(),
        modrm(5, r.reg()) == 0xe8 + r.reg(),
        (v as int % 0x100) as u8 == (if v >= 0 {
            v as int
        } else {
            v + 0x100
        }),
{
    lemma_rex_w(0, r.rex());
    lemma_modrm(0, r.reg());
    lemma_modrm(5, r.reg());
    assert(rm_imm8(0, r, v) =~= seq![
        rex_w(0, r.rex()),
        0x83u8,
        modrm(0, r.reg()),
        (v as int % 0x100) as u8,
    ]);
    assert(rm_imm8(5, r, v) =~= seq![
        rex_w(0, r.rex()),
        0x83u8,
        modrm(5, r.reg()),
        (v as int % 0x100) as u8,
    ]);
}

/// The code of the load of a 64-bit immediate, byte by byte: the prefix
/// with the domain of the register, `b8` plus the offset of the register,
/// and the eight bytes of the value, least significant first.  There is
/// no ModR/M byte.
pub proof fn lemma_load_bytes(r: Ireg, v: i64)
    ensures
        encoding(Instruction::Mov(Operand::Ireg(r), Operand::Qword(v))) == Some(
            seq![rex_w(0, r.rex()), opcode_with(0xb8, r.reg())] + imm64(v as int),
        ),
        imm64(v as int).len() == 8,
        rex_w(0, r.rex()) == 0x48 + r.rex(),
        opcode_with(0xb8, r.reg()) == 0xb8 + r.reg(),
{
    lemma_rex_w(0, r.rex());
    lemma_opcode_with(0xb8, r.reg());
}

/// The code of a push and of a pop, byte by byte: the opcode `50` or
/// `58` plus the offset of the register, after the prefix `41` if the
/// register is one of `R8` to `R15`.
pub proof fn lemma_stack_bytes(r: Ireg)
    ensures
        encoding(Instruction::Push(Operand::Ireg(r))) == Some(
            if r.rex() == 0 {
                seq![opcode_with(0x50, r.reg())]
            } else {
                seq![0x41u8, opcode_with(0x50, r.reg())]
            },
        ),
        encoding(Instruction::Pop(Operand::Ireg(r))) == Some(
            if r.rex() == 0 {
                seq![opcode_with(0x58, r.reg())]
            } else {
                seq![0x41u8, opcode_with(0x58, r.reg())]
            },
        ),
        opcode_with(0x50, r.reg()) == 0x50 + r.reg(),
        opcode_with(0x58, r.reg()) == 0x58 + r.reg(),
{
    lemma_opcode_with(0x50, r.reg());
    lemma_opcode_with(0x58, r.reg());
}

/// Computes the byte of a signed 8-bit immediate.
pub fn imm8_byte(v: i8) -> (byte: u8)
    ensures
        seq![byte] == imm8(v as int),
{
    let byte: u8 = if v >= 0 {
        v as u8
    } else {
        ((v - i8::MIN) as u8) + 0x80
    };
    assert(seq![byte] =~= imm8(v as int));
    byte
}

/// Computes the little-endian bytes of a signed 64-bit immediate.
pub fn imm64_bytes(v: i64) -> (bytes: [u8; 8])
    ensures
        bytes@ == imm64(v as int),
{
    let u: u64 = if v >= 0 {
        v as u64
    } else {
        ((v - i64::MIN) as u64) + 0x8000_0000_0000_0000
    };
    let bytes: [u8; 8] = [
        (u % 0x100) as u8,
        (u / 0x100 % 0x100) as u8,
        (u / 0x1_0000 % 0x100) as u8,
        (u / 0x100_0000 % 0x100) as u8,
        (u / 0x1_0000_0000 % 0x100) as u8,
        (u / 0x100_0000_0000 % 0x100) as u8,
        (u / 0x1_0000_0000_0000 % 0x100) as u8,
        (u / 0x100_0000_0000_0000 % 0x100) as u8,
    ];
    assert(u == (v as int) % 0x1_0000_0000_0000_0000);
    assert(bytes@ =~= le_bytes8(u as int));
    bytes
}

/// Appends `tail` to `code`.
pub fn append(code: &mut Vec<u8>, tail: &[u8])
    ensures
        final(code)@ == old(code)@ + tail@,
{
    let mut at: usize = 0;
    while at < tail.len()
        invariant
            at <= tail@.len(),
            code@ == old(code)@ + tail@.subrange(0, at as int),
        decreases tail@.len() - at,
    {
        code.push(tail[at]);
        at += 1;
    }
}

/// Encodes a 64-bit instruction on two registers.
pub fn encode_reg_rm(opcode: Vec<u8>, reg: Ireg, rm: Ireg) -> (code: Vec<u8>)
    ensures
        code@ == reg_rm(opcode@, reg, rm),
{
    let mut code: Vec<u8> = Vec::new();
    code.push(rex_w(reg.rex(), rm.rex()));
    append(&mut code, opcode.as_slice());
    code.push(modrm(reg.reg(), rm.reg()));
    code
}

/// Encodes an instruction of the immediate group `0x83`.
pub fn encode_rm_imm8(digit: u8, rm: Ireg, imm: i8) -> (code: Vec<u8>)
    ensures
        code@ == rm_imm8(digit, rm, imm),
{
    let mut code: Vec<u8> = Vec::new();
    code.push(rex_w(0, rm.rex()));
    code.push(0x83);
    code.push(modrm(digit, rm.reg()));
    code.push(imm8_byte(imm));
    code
}

/// Encodes an SSE instruction on two registers.
pub fn encode_xmm_rm(opcode: Vec<u8>, reg: Freg, rm: Freg) -> (code: Vec<u8>)
    ensures
        code@ == xmm_rm(opcode@, reg, rm),
{
    let mut code = opcode;
    code.push(modrm(reg.reg(), rm.reg()));
    code
}

/// Encodes the load of a 64-bit immediate into a register.
pub fn encode_load(reg: Ireg, imm: i64) -> (code: Vec<u8>)
    ensures
        code@ == load_imm64(reg, imm),
{
    let mut code: Vec<u8> = Vec::new();
    code.push(rex_w(0, reg.rex()));
    code.push(opcode_with(0xb8, reg.reg()));
    let imm = imm64_bytes(imm);
    append(&mut code, imm.as_slice());
    code
}

/// Encodes a one-byte instruction whose opcode names the register.
pub fn encode_short_form(base: u8, reg: Ireg) -> (code: Vec<u8>)
    ensures
        code@ == short_form(base, reg),
{
    let mut code: Vec<u8> = Vec::new();
    if reg.rex() == 1 {
        code.push(REX_B);
    }
    code.push(opcode_with(base, reg.reg()));
    code
}

/// Encodes an indirect instruction of group `0xff`.
pub fn encode_indirect(digit: u8, rm: Ireg) -> (code: Vec<u8>)
    ensures
        code@ == indirect(digit, rm),
{
    let mut code: Vec<u8> = Vec::new();
    if rm.rex() == 1 {
        code.push(REX_B);
    }
    code.push(0xff);
    code.push(modrm(digit, rm.reg()));
    code
}

/// The opcode of a one-byte instruction.
fn opcode1(first: u8) -> (opcode: Vec<u8>)
    ensures
        opcode@ == seq![first],
{
    let mut opcode: Vec<u8> = Vec::new();
    opcode.push(first);
    opcode
}

/// The opcode of a two-byte instruction.
fn opcode2(first: u8, second: u8) -> (opcode: Vec<u8>)
    ensures
        opcode@ == seq![first, second],
{
    let mut opcode: Vec<u8> = Vec::new();
    opcode.push(first);
    opcode.push(second);
    opcode
}

/// The opcode of a three-byte instruction.
fn opcode3(first: u8, second: u8, third: u8) -> (opcode: Vec<u8>)
    ensures
        opcode@ == seq![first, second, third],
{
    let mut opcode: Vec<u8> = Vec::new();
    opcode.push(first);
    opcode.push(second);
    opcode.push(third);
    opcode
}

/// What one instruction contributes to a program.
pub enum Encoded {
    /// Machine code, complete as it stands.
    Code(Vec<u8>),
    /// The opcode of a jump whose displacement waits for the named label.
    Jump(Vec<u8>, &'static str),
    /// The definition of the named label; no code.
    Label(&'static str),
}

impl Encoded {
    /// `self` is what `instr` contributes: the bytes are those of
    /// [`encoding`], and a label is carried exactly where `instr` defines
    /// or mentions one.
    pub open spec fn encodes(self, instr: Instruction) -> bool {
        match self {
            Encoded::Code(code) => {
                &&& jump_parts(instr) is None
                &&& defined_label(instr) is None
                &&& plain_encoding(instr) == Some(code@)
            },
            Encoded::Jump(opcode, to) => jump_parts(instr) == Some((opcode@, Operand::Lbl(to))),
            Encoded::Label(name) => instr == Instruction::SetLbl(name),
        }
    }
}

/// Encodes a jump with the given opcode.
fn encode_jump(opcode: Vec<u8>, target: Operand) -> (encoded: Result<Encoded, Error>)
    ensures
        match encoded {
            Ok(e) => target is Lbl && e == Encoded::Jump(opcode, target->Lbl_0),
            Err(e) => !(target is Lbl) && e == Error::Nyi,
        },
{
    match target {
        Operand::Lbl(to) => Ok(Encoded::Jump(opcode, to)),
        _ => Err(Error::Nyi),
    }
}

/// Encodes an addition.
fn encode_add(op1: Operand, op2: Operand) -> (code: Option<Vec<u8>>)
    ensures
        match code {
            Some(code) => add_encoding(op1, op2) == Some(code@),
            None => add_encoding(op1, op2) is None,
        },
{
    match (op1, op2) {
        (Operand::Ireg(r1), Operand::Ireg(r2)) => Some(encode_reg_rm(opcode1(0x01), r2, r1)),
        (Operand::Freg(x1), Operand::Freg(x2)) => Some(
            encode_xmm_rm(opcode3(0xf2, 0x0f, 0x58), x1, x2),
        ),
        (Operand::Ireg(r1), Operand::Byte(b2)) => Some(encode_rm_imm8(0, r1, b2)),
        _ => None,
    }
}

/// Encodes a subtraction.
fn encode_sub(op1: Operand, op2: Operand) -> (code: Option<Vec<u8>>)
    ensures
        match code {
            Some(code) => sub_encoding(op1, op2) == Some(code@),
            None => sub_encoding(op1, op2) is None,
        },
{
    match (op1, op2) {
        (Operand::Ireg(r1), Operand::Ireg(r2)) => Some(encode_reg_rm(opcode1(0x29), r2, r1)),
        (Operand::Ireg(r1), Operand::Byte(b2)) => Some(encode_rm_imm8(5, r1, b2)),
        _ => None,
    }
}

/// Encodes a signed multiplication.
fn encode_mul(op1: Operand, op2: Operand) -> (code: Option<Vec<u8>>)
    ensures
        match code {
            Some(code) => mul_encoding(op1, op2) == Some(code@),
            None => mul_encoding(op1, op2) is None,
        },
{
    match (op1, op2) {
        (Operand::Ireg(r1), Operand::Ireg(r2)) => Some(encode_reg_rm(opcode2(0x0f, 0xaf), r1, r2)),
        _ => None,
    }
}

/// Encodes a move.
fn encode_mov(op1: Operand, op2: Operand) -> (code: Option<Vec<u8>>)
    ensures
        match code {
            Some(code) => mov_encoding(op1, op2) == Some(code@),
            None => mov_encoding(op1, op2) is None,
        },
{
    match (op1, op2) {
        (Operand::Ireg(r1), Operand::Ireg(r2)) => Some(encode_reg_rm(opcode1(0x89), r2, r1)),
        (Operand::Freg(x1), Operand::Freg(x2)) => Some(
            encode_xmm_rm(opcode3(0x66, 0x0f, 0x6f), x1, x2),
        ),
        (Operand::Ireg(r1), Operand::Qword(i2)) => Some(encode_load(r1, i2)),
        _ => None,
    }
}

/// Encodes a comparison.
fn encode_cmp(op1: Operand, op2: Operand) -> (code: Option<Vec<u8>>)
    ensures
        match code {
            Some(code) => cmp_encoding(op1, op2) == Some(code@),
            None => cmp_encoding(op1, op2) is None,
        },
{
    match (op1, op2) {
        (Operand::Ireg(r1), Operand::Ireg(r2)) => Some(encode_reg_rm(opcode1(0x3b), r1, r2)),
        _ => None,
    }
}

/// Encodes a push.
fn encode_push(op1: Operand) -> (code: Option<Vec<u8>>)
    ensures
        match code {
            Some(code) => push_encoding(op1) == Some(code@),
            None => push_encoding(op1) is None,
        },
{
    match op1 {
        Operand::Ireg(r1) => Some(encode_short_form(0x50, r1)),
        _ => None,
    }
}

/// Encodes a pop.
fn encode_pop(op1: Operand) -> (code: Option<Vec<u8>>)
    ensures
        match code {
            Some(code) => pop_encoding(op1) == Some(code@),
            None => pop_encoding(op1) is None,
        },
{
    match op1 {
        Operand::Ireg(r1) => Some(encode_short_form(0x58, r1)),
        _ => None,
    }
}

/// Encodes an indirect call.
fn encode_call(op1: Operand) -> (code: Option<Vec<u8>>)
    ensures
        match code {
            Some(code) => call_encoding(op1) == Some(code@),
            None => call_encoding(op1) is None,
        },
{
    match op1 {
        Operand::Ireg(r1) => Some(encode_indirect(2, r1)),
        _ => None,
    }
}

/// Wraps the code of an instruction that is not a jump.
fn plain(code: Option<Vec<u8>>) -> (encoded: Result<Encoded, Error>)
    ensures
        match code {
            Some(code) => encoded == Ok::<Encoded, Error>(Encoded::Code(code)),
            None => encoded == Err::<Encoded, Error>(Error::Nyi),
        },
{
    match code {
        Some(code) => Ok(Encoded::Code(code)),
        None => Err(Error::Nyi),
    }
}

/// Encodes one instruction.
///
/// Fails with [`Error::Nyi`] exactly where the instruction has no encoding
/// for the operands it was given.
pub fn encode(instr: &Instruction) -> (encoded: Result<Encoded, Error>)
    ensures
        match encoded {
            Ok(e) => encoding(*instr) is Some && e.encodes(*instr),
            Err(e) => encoding(*instr) is None && e == Error::Nyi,
        },
{
    match instr {
        Instruction::Ret => Ok(Encoded::Code(opcode1(0xc3))),
        Instruction::Add(op1, op2) => plain(encode_add(*op1, *op2)),
        Instruction::Sub(op1, op2) => plain(encode_sub(*op1, *op2)),
        Instruction::Mul(op1, op2) => plain(encode_mul(*op1, *op2)),
        Instruction::Mov(op1, op2) => plain(encode_mov(*op1, *op2)),
        Instruction::Cmp(op1, op2) => plain(encode_cmp(*op1, *op2)),
        Instruction::Push(op1) => plain(encode_push(*op1)),
        Instruction::Pop(op1) => plain(encode_pop(*op1)),
        Instruction::SetLbl(l) => Ok(Encoded::Label(*l)),
        Instruction::Call(op1) => plain(encode_call(*op1)),
        Instruction::Jmp(op1) => encode_jump(opcode1(0xe9), *op1),
        Instruction::Ja(op1) => encode_jump(opcode2(0x0f, 0x87), *op1),
        Instruction::Jae(op1) => encode_jump(opcode2(0x0f, 0x83), *op1),
        Instruction::Jb(op1) => encode_jump(opcode2(0x0f, 0x82), *op1),
        Instruction::Jbe(op1) => encode_jump(opcode2(0x0f, 0x86), *op1),
        Instruction::Jc(op1) => encode_jump(opcode2(0x0f, 0x82), *op1),
        Instruction::Je(op1) => encode_jump(opcode2(0x0f, 0x84), *op1),
        Instruction::Jg(op1) => encode_jump(opcode2(0x0f, 0x8f), *op1),
        Instruction::Jge(op1) => encode_jump(opcode2(0x0f, 0x8d), *op1),
        Instruction::Jl(op1) => encode_jump(opcode2(0x0f, 0x8c), *op1),
        Instruction::Jle(op1) => encode_jump(opcode2(0x0f, 0x8e), *op1),
        Instruction::Jna(op1) => encode_jump(opcode2(0x0f, 0x86), *op1),
        Instruction::Jnae(op1) => encode_jump(opcode2(0x0f, 0x82), *op1),
        Instruction::Jnb(op1) => encode_jump(opcode2(0x0f, 0x83), *op1),
        Instruction::Jnbe(op1) => encode_jump(opcode2(0x0f, 0x87), *op1),
        Instruction::Jnc(op1) => encode_jump(opcode2(0x0f, 0x83), *op1),
        Instruction::Jne(op1) => encode_jump(opcode2(0x0f, 0x85), *op1),
        Instruction::Jng(op1) => encode_jump(opcode2(0x0f, 0x8e), *op1),
        Instruction::Jnge(op1) => encode_jump(opcode2(0x0f, 0x8c), *op1),
        Instruction::Jnl(op1) => encode_jump(opcode2(0x0f, 0x8d), *op1),
        Instruction::Jnle(op1) => encode_jump(opcode2(0x0f, 0x8f), *op1),
        Instruction::Jno(op1) => encode_jump(opcode2(0x0f, 0x81), *op1),
        Instruction::Jnp(op1) => encode_jump(opcode2(0x0f, 0x8b), *op1),
        Instruction::Jns(op1) => encode_jump(opcode2(0x0f, 0x89), *op1),
        Instruction::Jnz(op1) => encode_jump(opcode2(0x0f, 0x85), *op1),
        Instruction::Jo(op1) => encode_jump(opcode2(0x0f, 0x80), *op1),
        Instruction::Jp(op1) => encode_jump(opcode2(0x0f, 0x8a), *op1),
        Instruction::Jpe(op1) => encode_jump(opcode2(0x0f, 0x8a), *op1),
        Instruction::Jpo(op1) => encode_jump(opcode2(0x0f, 0x8b), *op1),
        Instruction::Js(op1) => encode_jump(opcode2(0x0f, 0x88), *op1),
        Instruction::Jz(op1) => encode_jump(opcode2(0x0f, 0x84), *op1),
    }
}

} // verus!
