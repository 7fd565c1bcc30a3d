//! The display name a live node is listed under.
//!
//! The name is derived deterministically from the node identifier: `node-`
//! followed by the first eight digits of the identifier's canonical lowercase
//! hexadecimal form, that is, the top 32 bits of the identifier.

use vstd::prelude::*;
use vstd::string::StringExecFns;

verus! {

/// The lowercase hexadecimal digit for a value below 16.
pub open spec fn hex_digit_char(d: u32) -> char {
    if d == 0 {
        '0'
    } else if d == 1 {
        '1'
    } else if d == 2 {
        '2'
    } else if d == 3 {
        '3'
    } else if d == 4 {
        '4'
    } else if d == 5 {
        '5'
    } else if d == 6 {
        '6'
    } else if d == 7 {
        '7'
    } else if d == 8 {
        '8'
    } else if d == 9 {
        '9'
    } else if d == 10 {
        'a'
    } else if d == 11 {
        'b'
    } else if d == 12 {
        'c'
    } else if d == 13 {
        'd'
    } else if d == 14 {
        'e'
    } else {
        'f'
    }
}

/// The `k`-th hexadecimal digit of `v`, counted from the least significant.
pub open spec fn nibble_of(v: u32, k: u32) -> u32 {
    (v >> (k * 4)) & 0xf
}

/// The eight hexadecimal digits of `v`, most significant first.
pub open spec fn hex8(v: u32) -> Seq<char> {
    Seq::new(8, |i: int| hex_digit_char(nibble_of(v, (7 - i) as u32)))
}

/// The top 32 bits of an identifier.
pub open spec fn high32(id: u128) -> u32 {
    (id >> 96) as u32
}

/// The display name derived from the identifier `id`.
pub open spec fn node_name_of(id: u128) -> Seq<char> {
    "node-"@ + hex8(high32(id))
}

/// The one-character string for a hexadecimal digit.
fn hex_digit(d: u32) -> (r: &'static str)
    requires
        d < 16,
    ensures
        r@ == seq![hex_digit_char(d)],
{
    proof {
        reveal_strlit("0");
        reveal_strlit("1");
        reveal_strlit("2");
        reveal_strlit("3");
        reveal_strlit("4");
        reveal_strlit("5");
        reveal_strlit("6");
        reveal_strlit("7");
        reveal_strlit("8");
        reveal_strlit("9");
        reveal_strlit("a");
        reveal_strlit("b");
        reveal_strlit("c");
        reveal_strlit("d");
        reveal_strlit("e");
        reveal_strlit("f");
    }
    if d == 0 {
        "0"
    } else if d == 1 {
        "1"
    } else if d == 2 {
        "2"
    } else if d == 3 {
        "3"
    } else if d == 4 {
        "4"
    } else if d == 5 {
        "5"
    } else if d == 6 {
        "6"
    } else if d == 7 {
        "7"
    } else if d == 8 {
        "8"
    } else if d == 9 {
        "9"
    } else if d == 10 {
        "a"
    } else if d == 11 {
        "b"
    } else if d == 12 {
        "c"
    } else if d == 13 {
        "d"
    } else if d == 14 {
        "e"
    } else {
        "f"
    }
}

/// The display name for the node with identifier `id`.
pub fn node_name(id: u128) -> (r: String)
    ensures
        r@ == node_name_of(id),
{
    let hi: u32 = (id >> 96) as u32;
    let mut r: String = "node-".to_owned();
    let mut i: usize = 0;
    while i < 8
        invariant
            i <= 8,
            hi == high32(id),
            r@ == "node-"@ + hex8(hi).take(i as int),
        decreases 8 - i,
    {
        let shift: u32 = (7 - i as u32) * 4;
        let nib: u32 = (hi >> shift) & 0xf;
        proof {
            assert(nib < 16) by {
                assert((hi >> shift) & 0xf < 16) by (bit_vector);
            }
            assert(nib == nibble_of(hi, (7 - i) as u32));
            assert(hex8(hi)[i as int] == hex_digit_char(nib));
        }
        let d = hex_digit(nib);
        r.append(d);
        i = i + 1;
        proof {
            assert(hex8(hi).take(i as int) =~= hex8(hi).take(i - 1).push(hex8(hi)[i - 1]));
            assert(r@ =~= "node-"@ + hex8(hi).take(i as int));
        }
    }
    proof {
        assert(hex8(hi).take(8) =~= hex8(hi));
    }
    r
}

} // verus!
