use vstd::prelude::*;

use crate::hex::{field_value, read_hex_field};

verus! {

/// Whether `key` occurs in `s` starting at position `i`.
pub open spec fn key_at(s: Seq<char>, key: Seq<char>, i: int) -> bool {
    &&& 0 <= i
    &&& i + key.len() <= s.len()
    &&& s.subrange(i, i + key.len()) == key
}

/// Whether `i` is the first position at which `key` occurs in `s`.
pub open spec fn is_first_key(s: Seq<char>, key: Seq<char>, i: int) -> bool {
    &&& key_at(s, key, i)
    &&& forall|j: int| 0 <= j < i ==> !key_at(s, key, j)
}

/// Whether `key` occurs anywhere in `s`.
pub open spec fn contains_key(s: Seq<char>, key: Seq<char>) -> bool {
    exists|i: int| key_at(s, key, i)
}

/// The identifier that `path` carries after the first occurrence of `key`: the four
/// hexadecimal digits that follow it, read as a number, or 0 when `key` does not occur,
/// fewer than four characters follow it, or they are not all hexadecimal digits.
pub open spec fn parsed_value(path: Seq<char>, key: Seq<char>) -> u16 {
    if contains_key(path, key) {
        let i = choose|i: int| is_first_key(path, key, i);
        field_value(path, i + key.len())
    } else {
        0
    }
}

/// At most one position is the first occurrence of a key.
proof fn lemma_first_key_unique(s: Seq<char>, key: Seq<char>, i: int, j: int)
    requires
        is_first_key(s, key, i),
        is_first_key(s, key, j),
    ensures
        i == j,
{
    if i < j {
        assert(!key_at(s, key, i));
    } else if j < i {
        assert(!key_at(s, key, j));
    }
}

/// The characters of `s`, in order.
pub fn chars_of(s: &str) -> (r: Vec<char>)
    ensures
        r@ == s@,
{
    let mut r: Vec<char> = Vec::new();
    for c in it: s.chars()
        invariant
            it.seq() == s@,
            r@ == it.seq().take(it.index() as int),
    {
        r.push(c);
    }
    r
}

/// Whether `key` occurs in `s` at position `i`.
fn matches_at(s: &Vec<char>, key: &Vec<char>, i: usize) -> (r: bool)
    requires
        i + key@.len() <= s@.len(),
    ensures
        r == key_at(s@, key@, i as int),
{
    let n: usize = s.len();
    let mut k: usize = 0;
    while k < key.len()
        invariant
            k <= key@.len(),
            n == s@.len(),
            i + key@.len() <= s@.len(),
            forall|m: int| 0 <= m < k ==> s@[i + m] == key@[m],
        decreases key@.len() - k,
    {
        if s[i + k] != key[k] {
            assert(s@.subrange(i as int, i + key@.len())[k as int] != key@[k as int]);
            return false;
        }
        k = k + 1;
    }
    assert(s@.subrange(i as int, i + key@.len()) =~= key@);
    true
}

/// The first position at which `key` occurs in `s`, if it occurs at all.
pub fn find_key(s: &Vec<char>, key: &Vec<char>) -> (r: Option<usize>)
    ensures
        match r {
            Some(i) => is_first_key(s@, key@, i as int),
            None => !contains_key(s@, key@),
        },
{
    if key.len() > s.len() {
        assert forall|i: int| !key_at(s@, key@, i) by {}
        return None;
    }
    if key.len() == 0 {
        assert(s@.subrange(0, 0) =~= key@);
        return Some(0);
    }
    let end: usize = s.len() - key.len() + 1;
    let mut i: usize = 0;
    while i < end
        invariant
            end + key@.len() == s@.len() + 1,
            i <= end,
            forall|j: int| 0 <= j < i ==> !key_at(s@, key@, j),
        decreases end - i,
    {
        if matches_at(s, key, i) {
            return Some(i);
        }
        i = i + 1;
    }
    None
}

/// The identifier that `path` carries after the first occurrence of `key`, as characters.
pub fn parse_value_in(path: &Vec<char>, key: &Vec<char>) -> (r: u16)
    ensures
        r == parsed_value(path@, key@),
{
    match find_key(path, key) {
        Some(i) => {
            proof {
                let c = choose|c: int| is_first_key(path@, key@, c);
                lemma_first_key_unique(path@, key@, i as int, c);
            }
            if key.len() > path.len() - i {
                return 0;
            }
            read_hex_field(path, i + key.len())
        },
        None => 0,
    }
}

/// Reads the 16-bit identifier that follows the first occurrence of `key` in `path`:
/// exactly the next four characters, read as hexadecimal. Yields 0 when `key` does not
/// occur, when fewer than four characters follow it, or when they are not all
/// hexadecimal digits; it never fails.
pub fn parse_value_from_path(path: &str, key: &str) -> (r: u16)
    ensures
        r == parsed_value(path@, key@),
{
    let p = chars_of(path);
    let k = chars_of(key);
    parse_value_in(&p, &k)
}

} // verus!
