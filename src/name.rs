use vstd::prelude::*;

use crate::hex::{field_value, has_hex_field, hex4, hex_digit_value, is_hex_digit, nibble, upper_hex_digits};

verus! {

/// The placeholder display name of a device whose identifiers are `vid` and `pid`:
/// `Unknown Device (VVVV:PPPP)` with both in four upper-case hexadecimal digits.
pub open spec fn device_name(vid: u16, pid: u16) -> Seq<char> {
    "Unknown Device ("@ + hex4(vid) + seq![':'] + hex4(pid) + seq![')']
}

/// Appends the digit of `v` that stands `shift` bits up.
fn push_nibble(s: &mut String, v: u16, shift: u16)
    requires
        shift == 0 || shift == 4 || shift == 8 || shift == 12,
    ensures
        final(s)@ == old(s)@.push(upper_hex_digits()[nibble(v, shift) as int]),
{
    let digits = "0123456789ABCDEF";
    proof {
        reveal_strlit("0123456789ABCDEF");
    }
    assert(digits@ =~= upper_hex_digits());
    let n: u16 = (v >> shift) & 0xf;
    assert(n < 16) by (bit_vector)
        requires
            n == (v >> shift) & 0xf,
    ;
    let d = digits.substring_char(n as usize, n as usize + 1);
    assert(d@ =~= seq![upper_hex_digits()[n as int]]);
    s.append(d);
}

/// Appends `v` as four upper-case hexadecimal digits.
fn push_hex4(s: &mut String, v: u16)
    ensures
        final(s)@ == old(s)@ + hex4(v),
{
    push_nibble(s, v, 12);
    push_nibble(s, v, 8);
    push_nibble(s, v, 4);
    push_nibble(s, v, 0);
    assert(final(s)@ =~= old(s)@ + hex4(v));
}

/// The display name given to a device that is known only by its vendor and product
/// identifiers: `Unknown Device (VVVV:PPPP)`, each in four upper-case hexadecimal digits.
pub fn simple_name_from_ids(vid: u16, pid: u16) -> (r: String)
    ensures
        r@ == device_name(vid, pid),
{
    let mut s = String::from_str("Unknown Device (");
    push_hex4(&mut s, vid);
    s.append(":");
    push_hex4(&mut s, pid);
    s.append(")");
    proof {
        reveal_strlit(":");
        reveal_strlit(")");
    }
    assert(s@ =~= device_name(vid, pid));
    s
}

/// Each upper-case digit is a hexadecimal digit whose value is its position.
proof fn lemma_upper_digit(n: int)
    requires
        0 <= n < 16,
    ensures
        is_hex_digit(upper_hex_digits()[n]),
        hex_digit_value(upper_hex_digits()[n]) == n,
{
    assert(upper_hex_digits()[0] == '0' && upper_hex_digits()[1] == '1');
    assert(upper_hex_digits()[2] == '2' && upper_hex_digits()[3] == '3');
    assert(upper_hex_digits()[4] == '4' && upper_hex_digits()[5] == '5');
    assert(upper_hex_digits()[6] == '6' && upper_hex_digits()[7] == '7');
    assert(upper_hex_digits()[8] == '8' && upper_hex_digits()[9] == '9');
    assert(upper_hex_digits()[10] == 'A' && upper_hex_digits()[11] == 'B');
    assert(upper_hex_digits()[12] == 'C' && upper_hex_digits()[13] == 'D');
    assert(upper_hex_digits()[14] == 'E' && upper_hex_digits()[15] == 'F');
}

/// Four upper-case digits of `v` read back as `v`.
pub proof fn lemma_hex4_reads_back(v: u16)
    ensures
        has_hex_field(hex4(v), 0),
        field_value(hex4(v), 0) == v,
{
    let h = hex4(v);
    assert(nibble(v, 12) < 16 && nibble(v, 8) < 16 && nibble(v, 4) < 16 && nibble(v, 0) < 16)
        by (bit_vector);
    lemma_upper_digit(nibble(v, 12) as int);
    lemma_upper_digit(nibble(v, 8) as int);
    lemma_upper_digit(nibble(v, 4) as int);
    lemma_upper_digit(nibble(v, 0) as int);
    assert(forall|j: int| 0 <= j < 4 ==> is_hex_digit(#[trigger] h[j])) by {
        assert(h[0] == upper_hex_digits()[nibble(v, 12) as int]);
        assert(h[1] == upper_hex_digits()[nibble(v, 8) as int]);
        assert(h[2] == upper_hex_digits()[nibble(v, 4) as int]);
        assert(h[3] == upper_hex_digits()[nibble(v, 0) as int]);
    }
    assert(nibble(v, 12) * 4096 + nibble(v, 8) * 256 + nibble(v, 4) * 16 + nibble(v, 0) == v)
        by (bit_vector);
}

/// The name given to a device shows both of its identifiers, each as four upper-case
/// hexadecimal digits that read back as the identifier: the vendor's right after the
/// opening parenthesis, the product's right after the colon.
pub proof fn lemma_name_shows_ids(vid: u16, pid: u16)
    ensures
        device_name(vid, pid).len() == 26,
        device_name(vid, pid).subrange(16, 20) == hex4(vid),
        device_name(vid, pid).subrange(21, 25) == hex4(pid),
        field_value(device_name(vid, pid), 16) == vid,
        field_value(device_name(vid, pid), 21) == pid,
{
    reveal_strlit("Unknown Device (");
    let n = device_name(vid, pid);
    assert(n.subrange(16, 20) =~= hex4(vid));
    assert(n.subrange(21, 25) =~= hex4(pid));
    lemma_hex4_reads_back(vid);
    lemma_hex4_reads_back(pid);
    assert forall|j: int| 0 <= j < 4 implies n[16 + j] == hex4(vid)[j] && n[21 + j] == hex4(pid)[j] by {
        assert(n.subrange(16, 20)[j] == n[16 + j]);
        assert(n.subrange(21, 25)[j] == n[21 + j]);
    }
    assert(is_hex_digit(hex4(vid)[0]) && is_hex_digit(hex4(vid)[1]));
    assert(is_hex_digit(hex4(vid)[2]) && is_hex_digit(hex4(vid)[3]));
    assert(is_hex_digit(hex4(pid)[0]) && is_hex_digit(hex4(pid)[1]));
    assert(is_hex_digit(hex4(pid)[2]) && is_hex_digit(hex4(pid)[3]));
}

} // verus!
