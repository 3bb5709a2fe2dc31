//! The vocabulary of the assembler: registers, operands and instructions.

use vstd::prelude::*;

verus! {

/// REX prefix with the W bit set: the operand size is 64 bits.
pub const REX: u8 = 0x48;

/// ModR/M addressing mode: both operands are registers.
pub const MOD_ADDR_REG: u8 = 0xc0;

/// ModR/M addressing mode: memory operand without displacement.
pub const MOD_ADDR_WO_OFFSET: u8 = 0x00;

/// ModR/M addressing mode: memory operand with a 32-bit displacement.
pub const MOD_ADDR_W_OFFSET: u8 = 0x80;

/// The sixteen 64-bit general-purpose registers, in hardware order.
#[derive(Debug, Clone, Copy, PartialEq, Eq, Structural)]
pub enum Ireg {
    RAX,
    RCX,
    RDX,
    RBX,
    RSP,
    RBP,
    RSI,
    RDI,
    R8,
    R9,
    R10,
    R11,
    R12,
    R13,
    R14,
    R15,
}

impl Ireg {
    /// The hardware number of the register, `0` for `RAX` up to `15` for `R15`.
    pub open spec fn ordinal(&self) -> u8 {
        match self {
            Ireg::RAX => 0,
            Ireg::RCX => 1,
            Ireg::RDX => 2,
            Ireg::RBX => 3,
            Ireg::RSP => 4,
            Ireg::RBP => 5,
            Ireg::RSI => 6,
            Ireg::RDI => 7,
            Ireg::R8 => 8,
            Ireg::R9 => 9,
            Ireg::R10 => 10,
            Ireg::R11 => 11,
            Ireg::R12 => 12,
            Ireg::R13 => 13,
            Ireg::R14 => 14,
            Ireg::R15 => 15,
        }
    }

    /// The register's domain: `1` for the extended registers `R8`..`R15`.
    pub open spec fn spec_rex(&self) -> u8 {
        self.ordinal() / 8
    }

    /// The register's offset within its domain, the three bits that go
    /// into a ModR/M field or the low bits of an opcode.
    pub open spec fn spec_reg(&self) -> u8 {
        self.ordinal() % 8
    }

    /// The hardware number of the register.
    pub fn number(&self) -> (n: u8)
        ensures
            n == self.ordinal(),
            n < 16,
    {
        match self {
            Ireg::RAX => 0,
            Ireg::RCX => 1,
            Ireg::RDX => 2,
            Ireg::RBX => 3,
            Ireg::RSP => 4,
            Ireg::RBP => 5,
            Ireg::RSI => 6,
            Ireg::RDI => 7,
            Ireg::R8 => 8,
            Ireg::R9 => 9,
            Ireg::R10 => 10,
            Ireg::R11 => 11,
            Ireg::R12 => 12,
            Ireg::R13 => 13,
            Ireg::R14 => 14,
            Ireg::R15 => 15,
        }
    }

    /// The domain bit of the register, as it enters a REX prefix.
    #[verifier::when_used_as_spec(spec_rex)]
    pub fn rex(&self) -> (d: u8)
        ensures
            d == self.spec_rex(),
            d <= 1,
    {
        self.number() / 8
    }

    /// The three-bit offset of the register within its domain.
    #[verifier::when_used_as_spec(spec_reg)]
    pub fn reg(&self) -> (o: u8)
        ensures
            o == self.spec_reg(),
            o <= 7,
    {
        self.number() % 8
    }

    /// The two fields of a register stay in range and together give back
    /// its hardware number.
    pub proof fn lemma_fields_reconstruct(self)
        ensures
            self.spec_rex() == 0 || self.spec_rex() == 1,
            self.spec_reg() <= 7,
            self.spec_rex() * 8 + self.spec_reg() == self.ordinal(),
            self.ordinal() < 16,
    {
    }
}

/// The eight SSE registers that can be named without a REX prefix.
#[derive(Debug, Clone, Copy, PartialEq, Eq, Structural)]
pub enum Freg {
    XMM0,
    XMM1,
    XMM2,
    XMM3,
    XMM4,
    XMM5,
    XMM6,
    XMM7,
}

impl Freg {
    /// The hardware number of the register, `0` for `XMM0` up to `7`.
    pub open spec fn spec_reg(&self) -> u8 {
        match self {
            Freg::XMM0 => 0,
            Freg::XMM1 => 1,
            Freg::XMM2 => 2,
            Freg::XMM3 => 3,
            Freg::XMM4 => 4,
            Freg::XMM5 => 5,
            Freg::XMM6 => 6,
            Freg::XMM7 => 7,
        }
    }

    /// The three bits that name the register in a ModR/M field.
    #[verifier::when_used_as_spec(spec_reg)]
    pub fn reg(&self) -> (o: u8)
        ensures
            o == self.spec_reg(),
            o <= 7,
    {
        match self {
            Freg::XMM0 => 0,
            Freg::XMM1 => 1,
            Freg::XMM2 => 2,
            Freg::XMM3 => 3,
            Freg::XMM4 => 4,
            Freg::XMM5 => 5,
            Freg::XMM6 => 6,
            Freg::XMM7 => 7,
        }
    }
}

/// One operand of an instruction.
#[derive(Debug, Clone, Copy)]
pub enum Operand {
    /// A general-purpose register.
    Ireg(Ireg),
    /// An SSE register.
    Freg(Freg),
    /// A signed 8-bit immediate.
    Byte(i8),
    /// A signed 16-bit immediate.
    Word(i16),
    /// A signed 32-bit immediate.
    Dword(i32),
    /// A signed 64-bit immediate.
    Qword(i64),
    /// A double-precision immediate, given by its IEEE 754 bit pattern.
    Float(u64),
    /// A reference to a label by name.
    Lbl(&'static str),
    /// A memory operand.
    Mem,
}

/// One instruction, or the pseudo-instruction that defines a label.
pub enum Instruction {
    /// Add the second operand to the first.
    Add(Operand, Operand),
    /// Subtract the second operand from the first.
    Sub(Operand, Operand),
    /// Signed multiply of the first operand by the second.
    Mul(Operand, Operand),
    /// Copy the second operand into the first.
    Mov(Operand, Operand),
    /// Compare the first operand with the second and set the flags.
    Cmp(Operand, Operand),
    /// Jump near, relative to the next instruction.
    Jmp(Operand),
    /// Jump near if above.
    Ja(Operand),
    /// Jump near if above or equal.
    Jae(Operand),
    /// Jump near if below.
    Jb(Operand),
    /// Jump near if below or equal.
    Jbe(Operand),
    /// Jump near if carry.
    Jc(Operand),
    /// Jump near if equal.
    Je(Operand),
    /// Jump near if greater.
    Jg(Operand),
    /// Jump near if greater or equal.
    Jge(Operand),
    /// Jump near if less.
    Jl(Operand),
    /// Jump near if less or equal.
    Jle(Operand),
    /// Jump near if not above.
    Jna(Operand),
    /// Jump near if not above or equal.
    Jnae(Operand),
    /// Jump near if not below.
    Jnb(Operand),
    /// Jump near if not below or equal.
    Jnbe(Operand),
    /// Jump near if not carry.
    Jnc(Operand),
    /// Jump near if not equal.
    Jne(Operand),
    /// Jump near if not greater.
    Jng(Operand),
    /// Jump near if not greater or equal.
    Jnge(Operand),
    /// Jump near if not less.
    Jnl(Operand),
    /// Jump near if not less or equal.
    Jnle(Operand),
    /// Jump near if not overflow.
    Jno(Operand),
    /// Jump near if not parity.
    Jnp(Operand),
    /// Jump near if not sign.
    Jns(Operand),
    /// Jump near if not zero.
    Jnz(Operand),
    /// Jump near if overflow.
    Jo(Operand),
    /// Jump near if parity.
    Jp(Operand),
    /// Jump near if parity even.
    Jpe(Operand),
    /// Jump near if parity odd.
    Jpo(Operand),
    /// Jump near if sign.
    Js(Operand),
    /// Jump near if zero.
    Jz(Operand),
    /// Push a register onto the stack.
    Push(Operand),
    /// Pop the top of the stack into a register.
    Pop(Operand),
    /// Define a label at the current position; emits no code.
    SetLbl(&'static str),
    /// Call near, indirect through a register.
    Call(Operand),
    /// Return near to the caller.
    Ret,
}

} // verus!
