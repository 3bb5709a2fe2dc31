//! Reading machine code back.
//!
//! [`decode`] takes the bytes of one instruction apart the way a processor
//! does: an optional REX prefix, the opcode, the ModR/M byte, the
//! immediate.  It is written from the instruction formats alone and knows
//! nothing of how the encoder builds its bytes.  [`lemma_decode_encoding`]
//! ties the two together: the code of every instruction reads back as
//! that instruction.

use vstd::prelude::*;
use crate::defs::{Freg, Instruction, Ireg, Operand};
use crate::encoding::{
    add_encoding, encoding, imm32, imm64, imm8, indirect, jump_parts, lemma_modrm,
    lemma_opcode_with, lemma_rex_w, load_imm64, mov_encoding, placeholder, plain_encoding, reg_rm,
    rm_imm8, short_form, spec_modrm, spec_opcode_with, spec_rex_w, sub_encoding, xmm_rm, REX_B,
};

verus! {

/// The general-purpose register with hardware number `n`.
pub open spec fn ireg(n: int) -> Ireg {
    if n == 0 {
        Ireg::RAX
    } else if n == 1 {
        Ireg::RCX
    } else if n == 2 {
        Ireg::RDX
    } else if n == 3 {
        Ireg::RBX
    } else if n == 4 {
        Ireg::RSP
    } else if n == 5 {
        Ireg::RBP
    } else if n == 6 {
        Ireg::RSI
    } else if n == 7 {
        Ireg::RDI
    } else if n == 8 {
        Ireg::R8
    } else if n == 9 {
        Ireg::R9
    } else if n == 10 {
        Ireg::R10
    } else if n == 11 {
        Ireg::R11
    } else if n == 12 {
        Ireg::R12
    } else if n == 13 {
        Ireg::R13
    } else if n == 14 {
        Ireg::R14
    } else {
        Ireg::R15
    }
}

/// The SSE register with hardware number `n`.
pub open spec fn freg(n: int) -> Freg {
    if n == 0 {
        Freg::XMM0
    } else if n == 1 {
        Freg::XMM1
    } else if n == 2 {
        Freg::XMM2
    } else if n == 3 {
        Freg::XMM3
    } else if n == 4 {
        Freg::XMM4
    } else if n == 5 {
        Freg::XMM5
    } else if n == 6 {
        Freg::XMM6
    } else {
        Freg::XMM7
    }
}

/// What a REX prefix says about the instruction that follows it.
pub struct Prefix {
    /// The operands are 64 bits wide.
    pub wide: bool,
    /// The fourth bit of the register in the ModR/M register field.
    pub r: int,
    /// The fourth bit of the register in the r/m field or in the opcode.
    pub b: int,
}

/// `byte` is a REX prefix.
pub open spec fn is_rex(byte: u8) -> bool {
    0x40 <= byte <= 0x4f
}

/// The fields of the REX prefix `byte`.
pub open spec fn prefix_of(byte: u8) -> Prefix {
    Prefix { wide: byte as int / 8 % 2 == 1, r: byte as int / 4 % 2, b: byte as int % 2 }
}

/// The fields that hold where an instruction has no REX prefix.
pub open spec fn no_prefix() -> Prefix {
    Prefix { wide: false, r: 0, b: 0 }
}

/// The addressing mode of a ModR/M byte; `3` addresses a register.
pub open spec fn mode(modrm: u8) -> int {
    modrm as int / 64
}

/// The register field of a ModR/M byte.
pub open spec fn reg_field(modrm: u8) -> int {
    modrm as int / 8 % 8
}

/// The r/m field of a ModR/M byte.
pub open spec fn rm_field(modrm: u8) -> int {
    modrm as int % 8
}

/// The signed value that the processor reads from four little-endian
/// bytes.
pub open spec fn read_i32(field: Seq<u8>) -> int {
    let u = field[0] + 0x100 * field[1] + 0x1_0000 * field[2] + 0x100_0000 * field[3];
    if u < 0x8000_0000 {
        u
    } else {
        u - 0x1_0000_0000
    }
}

/// The signed value that the processor reads from eight little-endian
/// bytes.
pub open spec fn read_i64(field: Seq<u8>) -> int {
    let u = field[0] + 0x100 * field[1] + 0x1_0000 * field[2] + 0x100_0000 * field[3]
        + 0x1_0000_0000 * field[4] + 0x100_0000_0000 * field[5] + 0x1_0000_0000_0000 * field[6]
        + 0x100_0000_0000_0000 * field[7];
    if u < 0x8000_0000_0000_0000 {
        u
    } else {
        u - 0x1_0000_0000_0000_0000
    }
}

/// The signed value that the processor reads from one byte.
pub open spec fn read_i8(field: Seq<u8>) -> int {
    if field[0] < 0x80 {
        field[0] as int
    } else {
        field[0] - 0x100
    }
}

/// The conditional jump with condition code `cc`, under the first of its
/// names.
pub open spec fn jump_on(cc: int, target: Operand) -> Instruction {
    if cc == 0 {
        Instruction::Jo(target)
    } else if cc == 1 {
        Instruction::Jno(target)
    } else if cc == 2 {
        Instruction::Jb(target)
    } else if cc == 3 {
        Instruction::Jae(target)
    } else if cc == 4 {
        Instruction::Je(target)
    } else if cc == 5 {
        Instruction::Jne(target)
    } else if cc == 6 {
        Instruction::Jbe(target)
    } else if cc == 7 {
        Instruction::Ja(target)
    } else if cc == 8 {
        Instruction::Js(target)
    } else if cc == 9 {
        Instruction::Jns(target)
    } else if cc == 10 {
        Instruction::Jp(target)
    } else if cc == 11 {
        Instruction::Jnp(target)
    } else if cc == 12 {
        Instruction::Jl(target)
    } else if cc == 13 {
        Instruction::Jge(target)
    } else if cc == 14 {
        Instruction::Jle(target)
    } else {
        Instruction::Jg(target)
    }
}

/// Reads a 64-bit instruction on two registers, given its opcode and its
/// registers in the ModR/M register field and the r/m field.
pub open spec fn decode_reg_rm(opcode: u8, reg: Ireg, rm: Ireg) -> Option<Instruction> {
    if opcode == 0x01 {
        Some(Instruction::Add(Operand::Ireg(rm), Operand::Ireg(reg)))
    } else if opcode == 0x29 {
        Some(Instruction::Sub(Operand::Ireg(rm), Operand::Ireg(reg)))
    } else if opcode == 0x89 {
        Some(Instruction::Mov(Operand::Ireg(rm), Operand::Ireg(reg)))
    } else if opcode == 0x3b {
        Some(Instruction::Cmp(Operand::Ireg(reg), Operand::Ireg(rm)))
    } else {
        None
    }
}

/// Reads an instruction whose first opcode byte is the escape `0x0f`;
/// `code` is what follows the escape.
pub open spec fn decode_escaped(prefix: Prefix, code: Seq<u8>) -> Option<Instruction> {
    if code.len() == 0 {
        None
    } else if code[0] == 0xaf {
        if prefix.wide && code.len() == 2 && mode(code[1]) == 3 {
            Some(
                Instruction::Mul(
                    Operand::Ireg(ireg(8 * prefix.r + reg_field(code[1]))),
                    Operand::Ireg(ireg(8 * prefix.b + rm_field(code[1]))),
                ),
            )
        } else {
            None
        }
    } else if 0x80 <= code[0] <= 0x8f {
        if code.len() == 5 {
            Some(jump_on(code[0] - 0x80, Operand::Dword(read_i32(code.subrange(1, 5)) as i32)))
        } else {
            None
        }
    } else {
        None
    }
}

/// Reads an SSE instruction; `code` is what follows the mandatory prefix
/// `first`.
pub open spec fn decode_sse(first: u8, code: Seq<u8>) -> Option<Instruction> {
    if code.len() == 3 && code[0] == 0x0f && mode(code[2]) == 3 {
        let reg = Operand::Freg(freg(reg_field(code[2])));
        let rm = Operand::Freg(freg(rm_field(code[2])));
        if first == 0xf2 && code[1] == 0x58 {
            Some(Instruction::Add(reg, rm))
        } else if first == 0x66 && code[1] == 0x6f {
            Some(Instruction::Mov(reg, rm))
        } else {
            None
        }
    } else {
        None
    }
}

/// Reads an instruction from its opcode on; `prefix` is what its REX
/// prefix said, if it had one.
pub open spec fn decode_opcode(prefix: Prefix, code: Seq<u8>) -> Option<Instruction> {
    if code.len() == 0 {
        None
    } else {
        let opcode = code[0];
        let rest = code.subrange(1, code.len() as int);
        if opcode == 0xc3 {
            if rest.len() == 0 {
                Some(Instruction::Ret)
            } else {
                None
            }
        } else if 0x50 <= opcode <= 0x57 {
            if rest.len() == 0 {
                Some(Instruction::Push(Operand::Ireg(ireg(8 * prefix.b + (opcode - 0x50)))))
            } else {
                None
            }
        } else if 0x58 <= opcode <= 0x5f {
            if rest.len() == 0 {
                Some(Instruction::Pop(Operand::Ireg(ireg(8 * prefix.b + (opcode - 0x58)))))
            } else {
                None
            }
        } else if 0xb8 <= opcode <= 0xbf {
            if prefix.wide && rest.len() == 8 {
                Some(
                    Instruction::Mov(
                        Operand::Ireg(ireg(8 * prefix.b + (opcode - 0xb8))),
                        Operand::Qword(read_i64(rest) as i64),
                    ),
                )
            } else {
                None
            }
        } else if opcode == 0xe9 {
            if rest.len() == 4 {
                Some(Instruction::Jmp(Operand::Dword(read_i32(rest) as i32)))
            } else {
                None
            }
        } else if opcode == 0x0f {
            decode_escaped(prefix, rest)
        } else if opcode == 0xf2 || opcode == 0x66 {
            decode_sse(opcode, rest)
        } else if opcode == 0x83 {
            if prefix.wide && rest.len() == 2 && mode(rest[0]) == 3 {
                let rm = Operand::Ireg(ireg(8 * prefix.b + rm_field(rest[0])));
                let imm = Operand::Byte(read_i8(rest.subrange(1, 2)) as i8);
                if reg_field(rest[0]) == 0 {
                    Some(Instruction::Add(rm, imm))
                } else if reg_field(rest[0]) == 5 {
                    Some(Instruction::Sub(rm, imm))
                } else {
                    None
                }
            } else {
                None
            }
        } else if opcode == 0xff {
            if rest.len() == 1 && mode(rest[0]) == 3 && reg_field(rest[0]) == 2 {
                Some(Instruction::Call(Operand::Ireg(ireg(8 * prefix.b + rm_field(rest[0])))))
            } else {
                None
            }
        } else if prefix.wide && rest.len() == 1 && mode(rest[0]) == 3 {
            decode_reg_rm(
                opcode,
                ireg(8 * prefix.r + reg_field(rest[0])),
                ireg(8 * prefix.b + rm_field(rest[0])),
            )
        } else {
            None
        }
    }
}

/// Reads the instruction that the bytes `code` are, if they are exactly
/// one instruction known to the assembler.  A jump reads back with its
/// displacement as a 32-bit immediate operand.
pub open spec fn decode(code: Seq<u8>) -> Option<Instruction> {
    if code.len() == 0 {
        None
    } else if is_rex(code[0]) {
        decode_opcode(prefix_of(code[0]), code.subrange(1, code.len() as int))
    } else {
        decode_opcode(no_prefix(), code)
    }
}

/// A signed byte is read back from its encoding.
pub proof fn lemma_read_imm8(v: int)
    requires
        i8::MIN <= v <= i8::MAX,
    ensures
        imm8(v).len() == 1,
        read_i8(imm8(v)) == v,
{
}

/// A signed 32-bit value is read back from its encoding.
pub proof fn lemma_read_imm32(v: int)
    requires
        i32::MIN <= v <= i32::MAX,
    ensures
        imm32(v).len() == 4,
        read_i32(imm32(v)) == v,
{
    let u = v % 0x1_0000_0000;
    let q1 = u / 0x100;
    let q2 = u / 0x1_0000;
    let q3 = u / 0x100_0000;
    assert(q1 / 0x100 == q2);
    assert(q2 / 0x100 == q3);
    assert(q3 / 0x100 == 0);
}

/// A signed 64-bit value is read back from its encoding.
pub proof fn lemma_read_imm64(v: int)
    requires
        i64::MIN <= v <= i64::MAX,
    ensures
        imm64(v).len() == 8,
        read_i64(imm64(v)) == v,
{
    let u = v % 0x1_0000_0000_0000_0000;
    let q1 = u / 0x100;
    let q2 = u / 0x1_0000;
    let q3 = u / 0x100_0000;
    let q4 = u / 0x1_0000_0000;
    let q5 = u / 0x100_0000_0000;
    let q6 = u / 0x1_0000_0000_0000;
    let q7 = u / 0x100_0000_0000_0000;
    assert(q1 / 0x100 == q2);
    assert(q2 / 0x100 == q3);
    assert(q3 / 0x100 == q4);
    assert(q4 / 0x100 == q5);
    assert(q5 / 0x100 == q6);
    assert(q6 / 0x100 == q7);
    assert(q7 / 0x100 == 0);
}

/// The operand of a jump as it reads back: where the encoder was given a
/// label, the code holds the displacement zero in its place.
pub open spec fn target_read_back(target: Operand) -> Operand {
    match target {
        Operand::Lbl(_) => Operand::Dword(0),
        _ => target,
    }
}

/// The instruction as it reads back from its code.  The names of the
/// conditional jumps that stand for one condition share one encoding and
/// read back under the first of them; a jump to a label reads back with
/// displacement zero; every other instruction reads back as it is.
pub open spec fn read_back(instr: Instruction) -> Instruction {
    match instr {
        Instruction::Jmp(t) => Instruction::Jmp(target_read_back(t)),
        Instruction::Jo(t) => Instruction::Jo(target_read_back(t)),
        Instruction::Jno(t) => Instruction::Jno(target_read_back(t)),
        Instruction::Jb(t) => Instruction::Jb(target_read_back(t)),
        Instruction::Jc(t) => Instruction::Jb(target_read_back(t)),
        Instruction::Jnae(t) => Instruction::Jb(target_read_back(t)),
        Instruction::Jae(t) => Instruction::Jae(target_read_back(t)),
        Instruction::Jnb(t) => Instruction::Jae(target_read_back(t)),
        Instruction::Jnc(t) => Instruction::Jae(target_read_back(t)),
        Instruction::Je(t) => Instruction::Je(target_read_back(t)),
        Instruction::Jz(t) => Instruction::Je(target_read_back(t)),
        Instruction::Jne(t) => Instruction::Jne(target_read_back(t)),
        Instruction::Jnz(t) => Instruction::Jne(target_read_back(t)),
        Instruction::Jbe(t) => Instruction::Jbe(target_read_back(t)),
        Instruction::Jna(t) => Instruction::Jbe(target_read_back(t)),
        Instruction::Ja(t) => Instruction::Ja(target_read_back(t)),
        Instruction::Jnbe(t) => Instruction::Ja(target_read_back(t)),
        Instruction::Js(t) => Instruction::Js(target_read_back(t)),
        Instruction::Jns(t) => Instruction::Jns(target_read_back(t)),
        Instruction::Jp(t) => Instruction::Jp(target_read_back(t)),
        Instruction::Jpe(t) => Instruction::Jp(target_read_back(t)),
        Instruction::Jnp(t) => Instruction::Jnp(target_read_back(t)),
        Instruction::Jpo(t) => Instruction::Jnp(target_read_back(t)),
        Instruction::Jl(t) => Instruction::Jl(target_read_back(t)),
        Instruction::Jnge(t) => Instruction::Jl(target_read_back(t)),
        Instruction::Jge(t) => Instruction::Jge(target_read_back(t)),
        Instruction::Jnl(t) => Instruction::Jge(target_read_back(t)),
        Instruction::Jle(t) => Instruction::Jle(target_read_back(t)),
        Instruction::Jng(t) => Instruction::Jle(target_read_back(t)),
        Instruction::Jg(t) => Instruction::Jg(target_read_back(t)),
        Instruction::Jnle(t) => Instruction::Jg(target_read_back(t)),
        _ => instr,
    }
}

/// A general-purpose register is found again from its two fields.
proof fn lemma_ireg_fields(r: Ireg)
    ensures
        r.rex() <= 1,
        r.reg() <= 7,
        ireg(8 * r.rex() + r.reg()) == r,
{
}

/// An SSE register is found again from its number.
proof fn lemma_freg_field(x: Freg)
    ensures
        x.reg() <= 7,
        freg(x.reg() as int) == x,
{
}

/// The fields of a REX prefix are read back from the prefix.
proof fn lemma_prefix_fields(r: u8, b: u8)
    requires
        r <= 1,
        b <= 1,
    ensures
        is_rex(spec_rex_w(r, b)),
        prefix_of(spec_rex_w(r, b)) == (Prefix { wide: true, r: r as int, b: b as int }),
{
    lemma_rex_w(r, b);
}

/// The prefix that only extends a register reads back as such.
proof fn lemma_short_prefix_fields()
    ensures
        is_rex(REX_B),
        prefix_of(REX_B) == (Prefix { wide: false, r: 0, b: 1 }),
{
}

/// The fields of a ModR/M byte are read back from the byte.
proof fn lemma_modrm_fields(reg: u8, rm: u8)
    requires
        reg <= 7,
        rm <= 7,
    ensures
        mode(spec_modrm(reg, rm)) == 3,
        reg_field(spec_modrm(reg, rm)) == reg,
        rm_field(spec_modrm(reg, rm)) == rm,
{
    lemma_modrm(reg, rm);
}

/// A 64-bit instruction on two registers reads back with its registers.
proof fn lemma_decode_reg_rm(opcode: u8, reg: Ireg, rm: Ireg)
    requires
        opcode == 0x01 || opcode == 0x29 || opcode == 0x89 || opcode == 0x3b,
    ensures
        decode(reg_rm(seq![opcode], reg, rm)) == decode_reg_rm(opcode, reg, rm),
{
    lemma_ireg_fields(reg);
    lemma_ireg_fields(rm);
    lemma_prefix_fields(reg.rex(), rm.rex());
    lemma_modrm_fields(reg.reg(), rm.reg());
    let code = reg_rm(seq![opcode], reg, rm);
    let body = code.subrange(1, code.len() as int);
    assert(body =~= seq![opcode, spec_modrm(reg.reg(), rm.reg())]);
    assert(body.subrange(1, body.len() as int) =~= seq![spec_modrm(reg.reg(), rm.reg())]);
}

/// A signed multiplication reads back with its registers.
proof fn lemma_decode_mul(reg: Ireg, rm: Ireg)
    ensures
        decode(reg_rm(seq![0x0fu8, 0xafu8], reg, rm)) == Some(
            Instruction::Mul(Operand::Ireg(reg), Operand::Ireg(rm)),
        ),
{
    lemma_ireg_fields(reg);
    lemma_ireg_fields(rm);
    lemma_prefix_fields(reg.rex(), rm.rex());
    lemma_modrm_fields(reg.reg(), rm.reg());
    let code = reg_rm(seq![0x0fu8, 0xafu8], reg, rm);
    let body = code.subrange(1, code.len() as int);
    assert(body =~= seq![0x0fu8, 0xafu8, spec_modrm(reg.reg(), rm.reg())]);
    assert(body.subrange(1, body.len() as int) =~= seq![0xafu8, spec_modrm(reg.reg(), rm.reg())]);
}

/// An instruction of the immediate group reads back with its register
/// and its immediate.
proof fn lemma_decode_rm_imm8(digit: u8, rm: Ireg, imm: i8)
    requires
        digit == 0 || digit == 5,
    ensures
        decode(rm_imm8(digit, rm, imm)) == Some(
            if digit == 0 {
                Instruction::Add(Operand::Ireg(rm), Operand::Byte(imm))
            } else {
                Instruction::Sub(Operand::Ireg(rm), Operand::Byte(imm))
            },
        ),
{
    lemma_ireg_fields(rm);
    lemma_prefix_fields(0, rm.rex());
    lemma_modrm_fields(digit, rm.reg());
    lemma_read_imm8(imm as int);
    let code = rm_imm8(digit, rm, imm);
    let body = code.subrange(1, code.len() as int);
    assert(body =~= seq![0x83u8, spec_modrm(digit, rm.reg())] + imm8(imm as int));
    let rest = body.subrange(1, body.len() as int);
    assert(rest =~= seq![spec_modrm(digit, rm.reg())] + imm8(imm as int));
    assert(rest.subrange(1, 2) =~= imm8(imm as int));
}

/// An SSE instruction reads back with its registers.
proof fn lemma_decode_xmm_rm(first: u8, second: u8, reg: Freg, rm: Freg)
    requires
        first == 0xf2 && second == 0x58 || first == 0x66 && second == 0x6f,
    ensures
        decode(xmm_rm(seq![first, 0x0fu8, second], reg, rm)) == Some(
            if first == 0xf2 {
                Instruction::Add(Operand::Freg(reg), Operand::Freg(rm))
            } else {
                Instruction::Mov(Operand::Freg(reg), Operand::Freg(rm))
            },
        ),
{
    lemma_freg_field(reg);
    lemma_freg_field(rm);
    lemma_modrm_fields(reg.reg(), rm.reg());
    let code = xmm_rm(seq![first, 0x0fu8, second], reg, rm);
    assert(code =~= seq![first, 0x0fu8, second, spec_modrm(reg.reg(), rm.reg())]);
    assert(code.subrange(1, code.len() as int) =~= seq![
        0x0fu8,
        second,
        spec_modrm(reg.reg(), rm.reg()),
    ]);
}

/// The load of an immediate reads back with its register and its value.
proof fn lemma_decode_load(reg: Ireg, imm: i64)
    ensures
        decode(load_imm64(reg, imm)) == Some(
            Instruction::Mov(Operand::Ireg(reg), Operand::Qword(imm)),
        ),
{
    lemma_ireg_fields(reg);
    lemma_prefix_fields(0, reg.rex());
    lemma_opcode_with(0xb8, reg.reg());
    lemma_read_imm64(imm as int);
    let code = load_imm64(reg, imm);
    let body = code.subrange(1, code.len() as int);
    assert(body =~= seq![spec_opcode_with(0xb8, reg.reg())] + imm64(imm as int));
    assert(body.subrange(1, body.len() as int) =~= imm64(imm as int));
}

/// A push or a pop reads back with its register.
proof fn lemma_decode_short_form(base: u8, reg: Ireg)
    requires
        base == 0x50 || base == 0x58,
    ensures
        decode(short_form(base, reg)) == Some(
            if base == 0x50 {
                Instruction::Push(Operand::Ireg(reg))
            } else {
                Instruction::Pop(Operand::Ireg(reg))
            },
        ),
{
    lemma_ireg_fields(reg);
    lemma_short_prefix_fields();
    lemma_opcode_with(base, reg.reg());
    let code = short_form(base, reg);
    let opcode = spec_opcode_with(base, reg.reg());
    if reg.rex() == 1 {
        let body = code.subrange(1, code.len() as int);
        assert(body =~= seq![opcode]);
        assert(body.subrange(1, body.len() as int) =~= Seq::<u8>::empty());
    } else {
        assert(code.subrange(1, code.len() as int) =~= Seq::<u8>::empty());
    }
}

/// An indirect call reads back with its register.
proof fn lemma_decode_call(rm: Ireg)
    ensures
        decode(indirect(2, rm)) == Some(Instruction::Call(Operand::Ireg(rm))),
{
    lemma_ireg_fields(rm);
    lemma_short_prefix_fields();
    lemma_modrm_fields(2, rm.reg());
    let code = indirect(2, rm);
    let modrm = spec_modrm(2, rm.reg());
    if rm.rex() == 1 {
        let body = code.subrange(1, code.len() as int);
        assert(body =~= seq![0xffu8, modrm]);
        assert(body.subrange(1, body.len() as int) =~= seq![modrm]);
    } else {
        assert(code.subrange(1, code.len() as int) =~= seq![modrm]);
    }
}

/// A jump whose displacement is still the placeholder reads back as a
/// jump with displacement zero.
proof fn lemma_decode_jump(opcode: Seq<u8>)
    requires
        opcode == seq![0xe9u8] || (opcode.len() == 2 && opcode[0] == 0x0f && 0x80 <= opcode[1]
            <= 0x8f),
    ensures
        decode(opcode + placeholder()) == Some(
            if opcode.len() == 1 {
                Instruction::Jmp(Operand::Dword(0))
            } else {
                jump_on(opcode[1] - 0x80, Operand::Dword(0))
            },
        ),
{
    let code = opcode + placeholder();
    let rest = code.subrange(1, code.len() as int);
    if opcode.len() == 1 {
        assert(rest =~= placeholder());
    } else {
        assert(rest =~= seq![opcode[1]] + placeholder());
        assert(rest.subrange(1, 5) =~= placeholder());
    }
}

/// A jump whose displacement is `d` reads back as a jump by `d`.
pub proof fn lemma_decode_resolved_jump(opcode: Seq<u8>, d: int)
    requires
        opcode == seq![0xe9u8] || (opcode.len() == 2 && opcode[0] == 0x0f && 0x80 <= opcode[1]
            <= 0x8f),
        i32::MIN <= d <= i32::MAX,
    ensures
        decode(opcode + imm32(d)) == Some(
            if opcode.len() == 1 {
                Instruction::Jmp(Operand::Dword(d as i32))
            } else {
                jump_on(opcode[1] - 0x80, Operand::Dword(d as i32))
            },
        ),
{
    lemma_read_imm32(d);
    let code = opcode + imm32(d);
    let rest = code.subrange(1, code.len() as int);
    if opcode.len() == 1 {
        assert(rest =~= imm32(d));
    } else {
        assert(rest =~= seq![opcode[1]] + imm32(d));
        assert(rest.subrange(1, 5) =~= imm32(d));
    }
}

/// An addition reads back as it is.
proof fn lemma_decode_add(op1: Operand, op2: Operand)
    requires
        add_encoding(op1, op2) is Some,
    ensures
        decode(add_encoding(op1, op2).unwrap()) == Some(Instruction::Add(op1, op2)),
{
    match (op1, op2) {
        (Operand::Ireg(r1), Operand::Ireg(r2)) => lemma_decode_reg_rm(0x01, r2, r1),
        (Operand::Freg(x1), Operand::Freg(x2)) => lemma_decode_xmm_rm(0xf2, 0x58, x1, x2),
        (Operand::Ireg(r1), Operand::Byte(b2)) => lemma_decode_rm_imm8(0, r1, b2),
        _ => {},
    }
}

/// A subtraction reads back as it is.
proof fn lemma_decode_sub(op1: Operand, op2: Operand)
    requires
        sub_encoding(op1, op2) is Some,
    ensures
        decode(sub_encoding(op1, op2).unwrap()) == Some(Instruction::Sub(op1, op2)),
{
    match (op1, op2) {
        (Operand::Ireg(r1), Operand::Ireg(r2)) => lemma_decode_reg_rm(0x29, r2, r1),
        (Operand::Ireg(r1), Operand::Byte(b2)) => lemma_decode_rm_imm8(5, r1, b2),
        _ => {},
    }
}

/// A move reads back as it is.
proof fn lemma_decode_mov(op1: Operand, op2: Operand)
    requires
        mov_encoding(op1, op2) is Some,
    ensures
        decode(mov_encoding(op1, op2).unwrap()) == Some(Instruction::Mov(op1, op2)),
{
    match (op1, op2) {
        (Operand::Ireg(r1), Operand::Ireg(r2)) => lemma_decode_reg_rm(0x89, r2, r1),
        (Operand::Freg(x1), Operand::Freg(x2)) => lemma_decode_xmm_rm(0x66, 0x6f, x1, x2),
        (Operand::Ireg(r1), Operand::Qword(i2)) => lemma_decode_load(r1, i2),
        _ => {},
    }
}

/// An instruction that is neither a jump nor a label definition reads
/// back as it is.
proof fn lemma_decode_plain(instr: Instruction)
    requires
        jump_parts(instr) is None,
        plain_encoding(instr) is Some,
        !(instr is SetLbl),
    ensures
        decode(plain_encoding(instr).unwrap()) == Some(instr),
{
    match instr {
        Instruction::Ret => {
            let code = seq![0xc3u8];
            assert(code.subrange(1, code.len() as int) =~= Seq::<u8>::empty());
        },
        Instruction::Add(op1, op2) => lemma_decode_add(op1, op2),
        Instruction::Sub(op1, op2) => lemma_decode_sub(op1, op2),
        Instruction::Mul(op1, op2) => match (op1, op2) {
            (Operand::Ireg(r1), Operand::Ireg(r2)) => lemma_decode_mul(r1, r2),
            _ => {},
        },
        Instruction::Mov(op1, op2) => lemma_decode_mov(op1, op2),
        Instruction::Cmp(op1, op2) => match (op1, op2) {
            (Operand::Ireg(r1), Operand::Ireg(r2)) => lemma_decode_reg_rm(0x3b, r1, r2),
            _ => {},
        },
        Instruction::Push(op1) => match op1 {
            Operand::Ireg(r1) => lemma_decode_short_form(0x50, r1),
            _ => {},
        },
        Instruction::Pop(op1) => match op1 {
            Operand::Ireg(r1) => lemma_decode_short_form(0x58, r1),
            _ => {},
        },
        Instruction::Call(op1) => match op1 {
            Operand::Ireg(r1) => lemma_decode_call(r1),
            _ => {},
        },
        _ => {},
    }
}

/// The opcode of a jump selects, on reading back, the first name of the
/// jump.
proof fn lemma_jump_names(instr: Instruction)
    requires
        jump_parts(instr) is Some,
    ensures
        ({
            let (opcode, target) = jump_parts(instr).unwrap();
            &&& opcode == seq![0xe9u8] || (opcode.len() == 2 && opcode[0] == 0x0f && 0x80
                <= opcode[1] <= 0x8f)
            &&& read_back(instr) == if opcode.len() == 1 {
                Instruction::Jmp(target_read_back(target))
            } else {
                jump_on(opcode[1] - 0x80, target_read_back(target))
            }
        }),
{
}

/// The code of an instruction reads back as that instruction: the same
/// operation on the same operands.  This holds of every instruction that
/// has code; a label definition has none.
pub proof fn lemma_decode_encoding(instr: Instruction)
    requires
        encoding(instr) is Some,
        !(instr is SetLbl),
    ensures
        decode(encoding(instr).unwrap()) == Some(read_back(instr)),
{
    if jump_parts(instr) is Some {
        lemma_jump_names(instr);
        lemma_decode_jump(jump_parts(instr).unwrap().0);
    } else {
        lemma_decode_plain(instr);
    }
}

} // verus!
