//! Machine code as text, for people to read.

use vstd::prelude::*;
use vstd::string::StringExecFns;

verus! {

/// The sixteen hexadecimal digits, in order, in lower case.
pub open spec fn hex_digits() -> Seq<char> {
    seq!['0', '1', '2', '3', '4', '5', '6', '7', '8', '9', 'a', 'b', 'c', 'd', 'e', 'f']
}

/// One byte as text: `0x` and two hexadecimal digits.
pub open spec fn byte_text(byte: u8) -> Seq<char> {
    seq!['0', 'x', hex_digits()[byte as int / 16], hex_digits()[byte as int % 16]]
}

/// The bytes as text, one after the other, with a blank between two.
pub open spec fn bytes_text(bytes: Seq<u8>) -> Seq<char>
    decreases bytes.len(),
{
    if bytes.len() == 0 {
        Seq::empty()
    } else if bytes.len() == 1 {
        byte_text(bytes[0])
    } else {
        bytes_text(bytes.drop_last()) + seq![' '] + byte_text(bytes.last())
    }
}

/// A program as text: its bytes between square brackets.
pub open spec fn program_text(bytes: Seq<u8>) -> Seq<char> {
    seq!['['] + bytes_text(bytes) + seq![']']
}

/// The text of one hexadecimal digit.
fn hex_digit(n: u8) -> (digit: &'static str)
    requires
        n < 16,
    ensures
        digit@ == seq![hex_digits()[n as int]],
{
    proof {
        reveal_strlit("0");
        reveal_strlit("1");
        reveal_strlit("2");
        reveal_strlit("3");
        reveal_strlit("4");
        reveal_strlit("5");
        reveal_strlit("6");
        reveal_strlit("7");
        reveal_strlit("8");
        reveal_strlit("9");
        reveal_strlit("a");
        reveal_strlit("b");
        reveal_strlit("c");
        reveal_strlit("d");
        reveal_strlit("e");
        reveal_strlit("f");
    }
    let digit = match n {
        0 => "0",
        1 => "1",
        2 => "2",
        3 => "3",
        4 => "4",
        5 => "5",
        6 => "6",
        7 => "7",
        8 => "8",
        9 => "9",
        10 => "a",
        11 => "b",
        12 => "c",
        13 => "d",
        14 => "e",
        _ => "f",
    };
    assert(digit@ =~= seq![hex_digits()[n as int]]);
    digit
}

/// Writes a program as text.
pub fn format_program(bytes: &[u8]) -> (text: String)
    ensures
        text@ == program_text(bytes@),
{
    proof {
        reveal_strlit("[");
        reveal_strlit("]");
        reveal_strlit(" ");
        reveal_strlit("0x");
    }
    let mut text = String::new();
    text.append("[");
    let mut at: usize = 0;
    while at < bytes.len()
        invariant
            at <= bytes@.len(),
            "["@ == seq!['['],
            " "@ == seq![' '],
            "0x"@ == seq!['0', 'x'],
            text@ == seq!['['] + bytes_text(bytes@.subrange(0, at as int)),
        decreases bytes@.len() - at,
    {
        let ghost seen = bytes@.subrange(0, at as int);
        let ghost more = bytes@.subrange(0, at + 1);
        let byte = bytes[at];
        if at > 0 {
            text.append(" ");
        }
        text.append("0x");
        text.append(hex_digit(byte / 16));
        text.append(hex_digit(byte % 16));
        proof {
            assert(more.drop_last() =~= seen);
            assert(more.last() == byte);
            assert(text@ =~= seq!['['] + bytes_text(more));
        }
        at += 1;
    }
    assert(bytes@.subrange(0, at as int) =~= bytes@);
    text.append("]");
    text
}

} // verus!
