use rasm::defs::{Freg, Ireg};

const IREGS: [Ireg; 16] = [
    Ireg::RAX,
    Ireg::RCX,
    Ireg::RDX,
    Ireg::RBX,
    Ireg::RSP,
    Ireg::RBP,
    Ireg::RSI,
    Ireg::RDI,
    Ireg::R8,
    Ireg::R9,
    Ireg::R10,
    Ireg::R11,
    Ireg::R12,
    Ireg::R13,
    Ireg::R14,
    Ireg::R15,
];

const FREGS: [Freg; 8] = [
    Freg::XMM0,
    Freg::XMM1,
    Freg::XMM2,
    Freg::XMM3,
    Freg::XMM4,
    Freg::XMM5,
    Freg::XMM6,
    Freg::XMM7,
];

#[test]
fn integer_registers_are_numbered_in_hardware_order() {
    for (ordinal, register) in IREGS.iter().enumerate() {
        assert_eq!(register.number() as usize, ordinal);
    }
}

#[test]
fn register_fields_stay_in_range() {
    for register in IREGS.iter() {
        assert!(register.rex() == 0 || register.rex() == 1);
        assert!(register.reg() <= 7);
    }
}

#[test]
fn register_fields_reconstruct_the_ordinal() {
    for (ordinal, register) in IREGS.iter().enumerate() {
        assert_eq!((register.rex() * 8 + register.reg()) as usize, ordinal);
    }
}

#[test]
fn low_registers_have_domain_zero() {
    assert_eq!(Ireg::RAX.rex(), 0);
    assert_eq!(Ireg::RAX.reg(), 0);
    assert_eq!(Ireg::RSP.rex(), 0);
    assert_eq!(Ireg::RSP.reg(), 4);
    assert_eq!(Ireg::RDI.rex(), 0);
    assert_eq!(Ireg::RDI.reg(), 7);
}

#[test]
fn extended_registers_have_domain_one() {
    assert_eq!(Ireg::R8.rex(), 1);
    assert_eq!(Ireg::R8.reg(), 0);
    assert_eq!(Ireg::R9.rex(), 1);
    assert_eq!(Ireg::R9.reg(), 1);
    assert_eq!(Ireg::R15.rex(), 1);
    assert_eq!(Ireg::R15.reg(), 7);
}

#[test]
fn float_registers_are_numbered_in_hardware_order() {
    for (ordinal, register) in FREGS.iter().enumerate() {
        assert_eq!(register.reg() as usize, ordinal);
    }
}

#[test]
fn registers_compare_by_identity() {
    assert_eq!(Ireg::RAX, Ireg::RAX);
    assert_ne!(Ireg::RAX, Ireg::R8);
    assert_eq!(Freg::XMM3, Freg::XMM3);
    assert_ne!(Freg::XMM3, Freg::XMM4);
}
