//! Fixed-width hexadecimal rendering of a 64-bit digest: 16 upper-case,
//! zero-padded digits.  The rendering is injective, so two digests collide as
//! fingerprint strings only if they are the same digest.

use vstd::prelude::*;

verus! {

/// The nibble of `h` rendered at position `i`; position 0 is the most
/// significant nibble.
pub open spec fn nibble_of(h: u64, i: int) -> u64 {
    (h >> (((15 - i) * 4) as u64)) & 0xf
}

/// The upper-case hexadecimal digit character for a value below 16.
pub open spec fn hex_digit(d: u64) -> char {
    if d == 0 {
        '0'
    } else if d == 1 {
        '1'
    } else if d == 2 {
        '2'
    } else if d == 3 {
        '3'
    } else if d == 4 {
        '4'
    } else if d == 5 {
        '5'
    } else if d == 6 {
        '6'
    } else if d == 7 {
        '7'
    } else if d == 8 {
        '8'
    } else if d == 9 {
        '9'
    } else if d == 10 {
        'A'
    } else if d == 11 {
        'B'
    } else if d == 12 {
        'C'
    } else if d == 13 {
        'D'
    } else if d == 14 {
        'E'
    } else {
        'F'
    }
}

/// The rendering of a 64-bit value: its 16 nibbles as upper-case digits,
/// most significant first.
pub open spec fn hex_chars(h: u64) -> Seq<char> {
    Seq::new(16, |i: int| hex_digit(nibble_of(h, i)))
}

/// The rendering is injective: two 64-bit values that render to the same 16
/// digits are the same value, so distinct digests give distinct fingerprint
/// strings.
pub proof fn lemma_hex_chars_injective(h1: u64, h2: u64)
    requires
        hex_chars(h1) == hex_chars(h2),
    ensures
        h1 == h2,
{
    assert(forall|x: u64, s: u64| ((x >> s) & 0xf) < 16) by (bit_vector);
    assert forall|i: int| 0 <= i < 16 implies nibble_of(h1, i) == nibble_of(h2, i) by {
        assert(hex_chars(h1)[i] == hex_chars(h2)[i]);
        assert(hex_chars(h1)[i] == hex_digit(nibble_of(h1, i)));
        assert(hex_chars(h2)[i] == hex_digit(nibble_of(h2, i)));
        assert(nibble_of(h1, i) < 16);
        assert(nibble_of(h2, i) < 16);
        assert(hex_digit(nibble_of(h1, i)) == hex_digit(nibble_of(h2, i)));
    }
    assert(nibble_of(h1, 0) == (h1 >> 60u64) & 0xf);
    assert(nibble_of(h1, 1) == (h1 >> 56u64) & 0xf);
    assert(nibble_of(h1, 2) == (h1 >> 52u64) & 0xf);
    assert(nibble_of(h1, 3) == (h1 >> 48u64) & 0xf);
    assert(nibble_of(h1, 4) == (h1 >> 44u64) & 0xf);
    assert(nibble_of(h1, 5) == (h1 >> 40u64) & 0xf);
    assert(nibble_of(h1, 6) == (h1 >> 36u64) & 0xf);
    assert(nibble_of(h1, 7) == (h1 >> 32u64) & 0xf);
    assert(nibble_of(h1, 8) == (h1 >> 28u64) & 0xf);
    assert(nibble_of(h1, 9) == (h1 >> 24u64) & 0xf);
    assert(nibble_of(h1, 10) == (h1 >> 20u64) & 0xf);
    assert(nibble_of(h1, 11) == (h1 >> 16u64) & 0xf);
    assert(nibble_of(h1, 12) == (h1 >> 12u64) & 0xf);
    assert(nibble_of(h1, 13) == (h1 >> 8u64) & 0xf);
    assert(nibble_of(h1, 14) == (h1 >> 4u64) & 0xf);
    assert(nibble_of(h1, 15) == (h1 >> 0u64) & 0xf);
    assert(h1 == h2) by (bit_vector)
        requires
            (h1 >> 60u64) & 0xf == (h2 >> 60u64) & 0xf,
            (h1 >> 56u64) & 0xf == (h2 >> 56u64) & 0xf,
            (h1 >> 52u64) & 0xf == (h2 >> 52u64) & 0xf,
            (h1 >> 48u64) & 0xf == (h2 >> 48u64) & 0xf,
            (h1 >> 44u64) & 0xf == (h2 >> 44u64) & 0xf,
            (h1 >> 40u64) & 0xf == (h2 >> 40u64) & 0xf,
            (h1 >> 36u64) & 0xf == (h2 >> 36u64) & 0xf,
            (h1 >> 32u64) & 0xf == (h2 >> 32u64) & 0xf,
            (h1 >> 28u64) & 0xf == (h2 >> 28u64) & 0xf,
            (h1 >> 24u64) & 0xf == (h2 >> 24u64) & 0xf,
            (h1 >> 20u64) & 0xf == (h2 >> 20u64) & 0xf,
            (h1 >> 16u64) & 0xf == (h2 >> 16u64) & 0xf,
            (h1 >> 12u64) & 0xf == (h2 >> 12u64) & 0xf,
            (h1 >> 8u64) & 0xf == (h2 >> 8u64) & 0xf,
            (h1 >> 4u64) & 0xf == (h2 >> 4u64) & 0xf,
            (h1 >> 0u64) & 0xf == (h2 >> 0u64) & 0xf,
    ;
}

/// The single-character string for one hexadecimal digit.
fn hex_digit_str(d: u64) -> (r: &'static str)
    requires
        d < 16,
    ensures
        r@ == seq![hex_digit(d)],
{
    proof {
        reveal_strlit("0");
        reveal_strlit("1");
        reveal_strlit("2");
        reveal_strlit("3");
        reveal_strlit("4");
        reveal_strlit("5");
        reveal_strlit("6");
        reveal_strlit("7");
        reveal_strlit("8");
        reveal_strlit("9");
        reveal_strlit("A");
        reveal_strlit("B");
        reveal_strlit("C");
        reveal_strlit("D");
        reveal_strlit("E");
        reveal_strlit("F");
    }
    let r = if d == 0 {
        "0"
    } else if d == 1 {
        "1"
    } else if d == 2 {
        "2"
    } else if d == 3 {
        "3"
    } else if d == 4 {
        "4"
    } else if d == 5 {
        "5"
    } else if d == 6 {
        "6"
    } else if d == 7 {
        "7"
    } else if d == 8 {
        "8"
    } else if d == 9 {
        "9"
    } else if d == 10 {
        "A"
    } else if d == 11 {
        "B"
    } else if d == 12 {
        "C"
    } else if d == 13 {
        "D"
    } else if d == 14 {
        "E"
    } else {
        "F"
    };
    proof {
        assert(r@ =~= seq![hex_digit(d)]);
    }
    r
}

/// Render `h` as a fixed-width (16-character), upper-case, zero-padded
/// hexadecimal string.
pub fn to_hex_upper(h: u64) -> (s: String)
    ensures
        s@ == hex_chars(h),
{
    let mut s = String::new();
    let mut i: usize = 0;
    proof {
        assert(s@ =~= hex_chars(h).take(0));
    }
    while i < 16
        invariant
            i <= 16,
            s@ == hex_chars(h).take(i as int),
        decreases 16 - i,
    {
        let shift: u64 = ((15 - i) * 4) as u64;
        let d: u64 = (h >> shift) & 0xf;
        proof {
            assert(shift < 64);
            assert((h >> shift) & 0xf < 16) by (bit_vector);
            assert(d == nibble_of(h, i as int));
        }
        let ds = hex_digit_str(d);
        s.append(ds);
        proof {
            assert(hex_chars(h).take(i + 1) =~= hex_chars(h).take(i as int) + seq![
                hex_digit(nibble_of(h, i as int)),
            ]);
        }
        i = i + 1;
    }
    proof {
        assert(hex_chars(h).take(16) =~= hex_chars(h));
    }
    s
}

} // verus!
