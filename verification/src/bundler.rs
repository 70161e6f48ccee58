//! Rendering of a serialized program as source text: a byte-array
//! literal for embedding into a generated standalone program.
//!
//! Writing the generated file and invoking a native compiler on it is
//! I/O and lives with the caller; this module owns the text itself.

use vstd::prelude::*;

use crate::text::push_char;

verus! {

/// The character for one hexadecimal digit, upper case.
pub open spec fn spec_hex_digit(d: int) -> char
    recommends
        0 <= d < 16,
{
    if d == 0 {
        '0'
    } else if d == 1 {
        '1'
    } else if d == 2 {
        '2'
    } else if d == 3 {
        '3'
    } else if d == 4 {
        '4'
    } else if d == 5 {
        '5'
    } else if d == 6 {
        '6'
    } else if d == 7 {
        '7'
    } else if d == 8 {
        '8'
    } else if d == 9 {
        '9'
    } else if d == 10 {
        'A'
    } else if d == 11 {
        'B'
    } else if d == 12 {
        'C'
    } else if d == 13 {
        'D'
    } else if d == 14 {
        'E'
    } else {
        'F'
    }
}

/// The text for the byte at position `i`: `0x.., ` with a line break
/// and indent after every twelfth byte.
pub open spec fn spec_byte_entry(b: u8, i: int) -> Seq<char> {
    seq!['0', 'x', spec_hex_digit(b as int / 16), spec_hex_digit(b as int % 16), ',', ' '] + if (i + 1) % 12
        == 0 {
        seq!['\n', ' ', ' ', ' ', ' ']
    } else {
        Seq::empty()
    }
}

/// The text for all bytes from position `i` on.
pub open spec fn spec_byte_literal(bytes: Seq<u8>, i: int) -> Seq<char>
    decreases bytes.len() - i,
{
    if i >= bytes.len() {
        Seq::empty()
    } else {
        spec_byte_entry(bytes[i], i) + spec_byte_literal(bytes, i + 1)
    }
}

/// One hexadecimal digit as a character.
fn hex_char(d: u8) -> (c: char)
    requires
        d < 16,
    ensures
        c == spec_hex_digit(d as int),
{
    if d == 0 {
        '0'
    } else if d == 1 {
        '1'
    } else if d == 2 {
        '2'
    } else if d == 3 {
        '3'
    } else if d == 4 {
        '4'
    } else if d == 5 {
        '5'
    } else if d == 6 {
        '6'
    } else if d == 7 {
        '7'
    } else if d == 8 {
        '8'
    } else if d == 9 {
        '9'
    } else if d == 10 {
        'A'
    } else if d == 11 {
        'B'
    } else if d == 12 {
        'C'
    } else if d == 13 {
        'D'
    } else if d == 14 {
        'E'
    } else {
        'F'
    }
}

/// Render serialized bytes as the body of a byte-array literal:
/// `0x41, 0x52, ...`, twelve bytes to a line.
pub fn render_byte_array(bytes: &Vec<u8>) -> (r: String)
    ensures
        r@ == spec_byte_literal(bytes@, 0),
{
    let mut out = String::new();
    let n = bytes.len();
    let mut i: usize = 0;
    proof {
        assert(out@ + spec_byte_literal(bytes@, 0) =~= spec_byte_literal(bytes@, 0));
    }
    while i < n
        invariant
            n == bytes@.len(),
            i <= n,
            out@ + spec_byte_literal(bytes@, i as int) == spec_byte_literal(bytes@, 0),
        decreases n - i,
    {
        let ghost out0 = out@;
        let b = bytes[i];
        push_char(&mut out, '0');
        push_char(&mut out, 'x');
        push_char(&mut out, hex_char(b / 16));
        push_char(&mut out, hex_char(b % 16));
        push_char(&mut out, ',');
        push_char(&mut out, ' ');
        if (i + 1) % 12 == 0 {
            push_char(&mut out, '\n');
            push_char(&mut out, ' ');
            push_char(&mut out, ' ');
            push_char(&mut out, ' ');
            push_char(&mut out, ' ');
        }
        proof {
            assert(out@ =~= out0 + spec_byte_entry(bytes@[i as int], i as int));
            assert(out@ + spec_byte_literal(bytes@, i as int + 1) =~= out0 + spec_byte_literal(
                bytes@,
                i as int,
            ));
        }
        i += 1;
    }
    proof {
        assert(spec_byte_literal(bytes@, n as int) =~= Seq::<char>::empty());
        assert(out@ =~= spec_byte_literal(bytes@, 0));
    }
    out
}

} // verus!
