use vstd::prelude::*;

verus! {

/// Whether `c` is an ASCII hexadecimal digit, in either case.
pub open spec fn is_hex_digit(c: char) -> bool {
    ('0' <= c && c <= '9') || ('a' <= c && c <= 'f') || ('A' <= c && c <= 'F')
}

/// The value of a hexadecimal digit.
pub open spec fn hex_digit_value(c: char) -> int {
    if '0' <= c && c <= '9' {
        c as int - '0' as int
    } else if 'a' <= c && c <= 'f' {
        c as int - 'a' as int + 10
    } else {
        c as int - 'A' as int + 10
    }
}

/// Whether the four characters of `s` from `start` on exist and are all hexadecimal digits.
pub open spec fn has_hex_field(s: Seq<char>, start: int) -> bool {
    &&& 0 <= start
    &&& start + 4 <= s.len()
    &&& forall|j: int| start <= j < start + 4 ==> is_hex_digit(#[trigger] s[j])
}

/// The number that four hexadecimal digits from `start` on spell, most significant first.
pub open spec fn hex_field_value(s: Seq<char>, start: int) -> int {
    hex_digit_value(s[start]) * 4096 + hex_digit_value(s[start + 1]) * 256
        + hex_digit_value(s[start + 2]) * 16 + hex_digit_value(s[start + 3])
}

/// The 16-bit value held in the four-digit field at `start`, or 0 when there is no such field.
pub open spec fn field_value(s: Seq<char>, start: int) -> u16 {
    if has_hex_field(s, start) {
        hex_field_value(s, start) as u16
    } else {
        0
    }
}

/// The upper-case hexadecimal digits, in order of value.
pub open spec fn upper_hex_digits() -> Seq<char> {
    seq!['0', '1', '2', '3', '4', '5', '6', '7', '8', '9', 'A', 'B', 'C', 'D', 'E', 'F']
}

/// The nibble of `v` that stands `shift` bits up.
pub open spec fn nibble(v: u16, shift: u16) -> u16 {
    (v >> shift) & 0xf
}

/// `v` written as exactly four upper-case hexadecimal digits, zero-padded.
pub open spec fn hex4(v: u16) -> Seq<char> {
    seq![
        upper_hex_digits()[nibble(v, 12) as int],
        upper_hex_digits()[nibble(v, 8) as int],
        upper_hex_digits()[nibble(v, 4) as int],
        upper_hex_digits()[nibble(v, 0) as int],
    ]
}

/// Reads one hexadecimal digit.
pub fn hex_digit(c: char) -> (r: Option<u16>)
    ensures
        r == (if is_hex_digit(c) {
            Some(hex_digit_value(c) as u16)
        } else {
            None::<u16>
        }),
        r is Some ==> r->0 < 16,
{
    if '0' <= c && c <= '9' {
        Some((c as u32 - '0' as u32) as u16)
    } else if 'a' <= c && c <= 'f' {
        Some((c as u32 - 'a' as u32 + 10) as u16)
    } else if 'A' <= c && c <= 'F' {
        Some((c as u32 - 'A' as u32 + 10) as u16)
    } else {
        None
    }
}

/// Reads the four-digit hexadecimal field of `s` at `start`; 0 when fewer than four
/// characters remain there or one of them is not a hexadecimal digit.
pub fn read_hex_field(s: &Vec<char>, start: usize) -> (r: u16)
    ensures
        r == field_value(s@, start as int),
{
    if start > s.len() || s.len() - start < 4 {
        return 0;
    }
    let d0 = match hex_digit(s[start]) {
        Some(d) => d,
        None => return 0,
    };
    let d1 = match hex_digit(s[start + 1]) {
        Some(d) => d,
        None => return 0,
    };
    let d2 = match hex_digit(s[start + 2]) {
        Some(d) => d,
        None => return 0,
    };
    let d3 = match hex_digit(s[start + 3]) {
        Some(d) => d,
        None => return 0,
    };
    assert(has_hex_field(s@, start as int)) by {
        assert forall|j: int| start <= j < start + 4 implies is_hex_digit(#[trigger] s@[j]) by {
            if j == start + 1 {
            } else if j == start + 2 {
            } else if j == start + 3 {
            }
        }
    }
    d0 * 4096 + d1 * 256 + d2 * 16 + d3
}

} // verus!
