use rasm::text::format_program;
use rasm::x64::Assembler;

#[test]
fn empty_program_is_a_pair_of_brackets() {
    assert_eq!(format_program(&[]), "[]");
    assert_eq!(Assembler::new().buffer_fmt(), "[]");
}

#[test]
fn one_byte_has_no_blank() {
    assert_eq!(format_program(&[0xc3]), "[0xc3]");
}

#[test]
fn bytes_are_separated_by_one_blank() {
    assert_eq!(format_program(&[0x48, 0x89, 0xc8]), "[0x48 0x89 0xc8]");
}

#[test]
fn small_values_keep_two_digits() {
    assert_eq!(format_program(&[0x00, 0x01, 0x0a, 0x0f, 0x10]), "[0x00 0x01 0x0a 0x0f 0x10]");
}

#[test]
fn digits_are_lower_case() {
    assert_eq!(format_program(&[0xab, 0xcd, 0xef, 0xff]), "[0xab 0xcd 0xef 0xff]");
}

#[test]
fn every_byte_is_formatted_like_the_platform_does() {
    for value in 0..=255u8 {
        assert_eq!(format_program(&[value]), format!("[0x{:02x}]", value));
    }
}

#[test]
fn long_program_is_formatted_like_the_platform_does() {
    let bytes: Vec<u8> = (0..1000).map(|at| (at * 7 % 256) as u8).collect();
    let expected = format!(
        "[{}]",
        bytes.iter().map(|b| format!("0x{:02x}", b)).collect::<Vec<_>>().join(" ")
    );
    assert_eq!(format_program(&bytes), expected);
}
