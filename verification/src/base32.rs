//! The symbol alphabet used for command identifiers: a base-32 style set in
//! which decimal digits stand for themselves and letters fold to upper case,
//! with the easily confused letters read as the digits they resemble.

use vstd::prelude::*;

verus! {

/// The value a symbol maps to in the command alphabet, given its code point:
/// digits map to themselves, letters map case-insensitively to their
/// upper-case form except that `I` and lower-case `l` read as `1`, `O` as
/// `0`, `S` as `5` and `Z` as `2`. Everything else maps to 0, which marks
/// the symbol as invalid.
pub open spec fn symbol_value(c: int) -> u8 {
    if 48 <= c <= 57 {
        c as u8
    } else if 65 <= c <= 90 {
        if c == 73 {
            49u8
        } else if c == 79 {
            48u8
        } else if c == 83 {
            53u8
        } else if c == 90 {
            50u8
        } else {
            c as u8
        }
    } else if 97 <= c <= 122 {
        if c == 105 {
            49u8
        } else if c == 108 {
            49u8
        } else if c == 111 {
            48u8
        } else if c == 115 {
            53u8
        } else if c == 122 {
            50u8
        } else {
            (c - 32) as u8
        }
    } else {
        0u8
    }
}

fn symbol_lookup(c: u32) -> (v: u8)
    requires
        c <= 127,
    ensures
        v == symbol_value(c as int),
{
    if c >= 48 && c <= 57 {
        c as u8
    } else if c >= 65 && c <= 90 {
        if c == 73 {
            49
        } else if c == 79 {
            48
        } else if c == 83 {
            53
        } else if c == 90 {
            50
        } else {
            c as u8
        }
    } else if c >= 97 && c <= 122 {
        if c == 105 {
            49
        } else if c == 108 {
            49
        } else if c == 111 {
            48
        } else if c == 115 {
            53
        } else if c == 122 {
            50
        } else {
            (c - 32) as u8
        }
    } else {
        0
    }
}

/// Converts one symbol to its command-alphabet value: `Ok` exactly when the
/// character is seven-bit and stands in the alphabet.
pub fn from_char(w: char) -> (r: Result<u8, &'static str>)
    ensures
        w as u32 > 127 ==> r == Err::<u8, &'static str>("character out of base32 range."),
        w as u32 <= 127 && symbol_value(w as int) == 0 ==> r == Err::<u8, &'static str>(
            "character not found in conversion table.",
        ),
        w as u32 <= 127 && symbol_value(w as int) != 0 ==> r == Ok::<u8, &'static str>(
            symbol_value(w as int),
        ),
{
    let c = w as u32;
    if c > 127 {
        return Err("character out of base32 range.");
    }
    let v = symbol_lookup(c);
    if v == 0 {
        Err("character not found in conversion table.")
    } else {
        Ok(v)
    }
}

} // verus!
