//! Lowercase hexadecimal rendering of byte sequences.

use vstd::prelude::*;

verus! {

/// The sixteen lowercase hexadecimal digit characters, indexed by value.
pub open spec fn hex_digit(v: int) -> char {
    if v == 0 {
        '0'
    } else if v == 1 {
        '1'
    } else if v == 2 {
        '2'
    } else if v == 3 {
        '3'
    } else if v == 4 {
        '4'
    } else if v == 5 {
        '5'
    } else if v == 6 {
        '6'
    } else if v == 7 {
        '7'
    } else if v == 8 {
        '8'
    } else if v == 9 {
        '9'
    } else if v == 10 {
        'a'
    } else if v == 11 {
        'b'
    } else if v == 12 {
        'c'
    } else if v == 13 {
        'd'
    } else if v == 14 {
        'e'
    } else {
        'f'
    }
}

/// True of the characters that lowercase hexadecimal rendering can emit.
pub open spec fn is_lower_hex_char(c: char) -> bool {
    ('0' <= c && c <= '9') || ('a' <= c && c <= 'f')
}

/// The numeric value of a lowercase hexadecimal digit character.
pub open spec fn hex_val(c: char) -> int {
    if '0' <= c && c <= '9' {
        c as u32 - 48
    } else {
        c as u32 - 87
    }
}

/// Reading a digit character back gives the value it was made from.
pub proof fn lemma_hex_val_digit(v: int)
    requires
        0 <= v < 16,
    ensures
        is_lower_hex_char(hex_digit(v)),
        hex_val(hex_digit(v)) == v,
{
}

/// Tests for a lowercase hexadecimal digit character.
pub fn is_lower_hex(c: char) -> (b: bool)
    ensures
        b == is_lower_hex_char(c),
{
    ('0' <= c && c <= '9') || ('a' <= c && c <= 'f')
}

/// Reads the value of a lowercase hexadecimal digit character.
pub fn hex_char_val(c: char) -> (v: u8)
    requires
        is_lower_hex_char(c),
    ensures
        v as int == hex_val(c),
        v < 16,
{
    let u = c as u32;
    if u >= 97 {
        (u - 87) as u8
    } else {
        (u - 48) as u8
    }
}

/// The lowercase hexadecimal rendering of a byte sequence: two digit
/// characters per byte, high nibble first.
pub open spec fn hex_of(bytes: Seq<u8>) -> Seq<char>
    decreases bytes.len(),
{
    if bytes.len() == 0 {
        seq![]
    } else {
        seq![
            hex_digit(bytes.first() as int / 16),
            hex_digit(bytes.first() as int % 16),
        ] + hex_of(bytes.drop_first())
    }
}

/// The rendering is twice as long as the input, and every character it emits
/// is a lowercase hexadecimal digit.
pub proof fn lemma_hex_of_shape(bytes: Seq<u8>)
    ensures
        hex_of(bytes).len() == 2 * bytes.len(),
        forall|i: int| 0 <= i < hex_of(bytes).len() ==> is_lower_hex_char(#[trigger] hex_of(bytes)[i]),
    decreases bytes.len(),
{
    if bytes.len() > 0 {
        lemma_hex_of_shape(bytes.drop_first());
    }
}

/// Renders a byte slice as its lowercase hexadecimal string.
pub fn bytes_to_hex(bytes: &[u8]) -> (r: Vec<char>)
    ensures
        r@ == hex_of(bytes@),
{
    let mut out: Vec<char> = Vec::new();
    let n = bytes.len();
    assert(bytes@.skip(0) == bytes@);
    for i in 0..n
        invariant
            n == bytes@.len(),
            hex_of(bytes@) =~= out@ + hex_of(bytes@.skip(i as int)),
    {
        let b = bytes[i];
        out.push(hex_digit_char(b / 16));
        out.push(hex_digit_char(b % 16));
        assert(bytes@.skip(i as int).drop_first() == bytes@.skip(i + 1));
    }
    out
}

/// Picks the lowercase digit character for a nibble value.
pub fn hex_digit_char(v: u8) -> (c: char)
    requires
        v < 16,
    ensures
        c == hex_digit(v as int),
{
    match v {
        0 => '0',
        1 => '1',
        2 => '2',
        3 => '3',
        4 => '4',
        5 => '5',
        6 => '6',
        7 => '7',
        8 => '8',
        9 => '9',
        10 => 'a',
        11 => 'b',
        12 => 'c',
        13 => 'd',
        14 => 'e',
        _ => 'f',
    }
}

} // verus!
