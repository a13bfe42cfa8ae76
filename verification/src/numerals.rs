//! Numbers written out as text: sixteen hexadecimal digits for identifiers,
//! decimal digits for messages.

use vstd::prelude::*;
use vstd::string::StringExecFns;

verus! {

/// The digit for a value below sixteen: `0` to `9`, then `a` to `f`.
pub open spec fn digit(d: u64) -> char {
    if d == 0 {
        '0'
    } else if d == 1 {
        '1'
    } else if d == 2 {
        '2'
    } else if d == 3 {
        '3'
    } else if d == 4 {
        '4'
    } else if d == 5 {
        '5'
    } else if d == 6 {
        '6'
    } else if d == 7 {
        '7'
    } else if d == 8 {
        '8'
    } else if d == 9 {
        '9'
    } else if d == 10 {
        'a'
    } else if d == 11 {
        'b'
    } else if d == 12 {
        'c'
    } else if d == 13 {
        'd'
    } else if d == 14 {
        'e'
    } else {
        'f'
    }
}

/// The four-bit group of `n` that is `k` groups above the lowest one.
pub open spec fn nibble(n: u64, k: u64) -> u64 {
    (n >> (4 * k) as u64) & 0xf
}

/// `n` as sixteen hexadecimal digits, most significant first, zero-padded.
pub open spec fn hex16(n: u64) -> Seq<char> {
    Seq::new(16, |i: int| digit(nibble(n, (15 - i) as u64)))
}

/// `n` in decimal digits, without leading zeros.
pub open spec fn decimal(n: nat) -> Seq<char>
    decreases n,
{
    if n < 10 {
        seq![digit(n as u64)]
    } else {
        decimal(n / 10).push(digit((n % 10) as u64))
    }
}

/// `n` in decimal digits behind its sign, which is written for every
/// number: `+` for zero and above, `-` below.
pub open spec fn signed_decimal(n: int) -> Seq<char> {
    if n < 0 {
        "-"@ + decimal((-n) as nat)
    } else {
        "+"@ + decimal(n as nat)
    }
}

fn digit_text(d: u64) -> (r: &'static str)
    requires
        d < 16,
    ensures
        r@ == seq![digit(d)],
{
    proof {
        reveal_strlit("0");
        reveal_strlit("1");
        reveal_strlit("2");
        reveal_strlit("3");
        reveal_strlit("4");
        reveal_strlit("5");
        reveal_strlit("6");
        reveal_strlit("7");
        reveal_strlit("8");
        reveal_strlit("9");
        reveal_strlit("a");
        reveal_strlit("b");
        reveal_strlit("c");
        reveal_strlit("d");
        reveal_strlit("e");
        reveal_strlit("f");
    }
    let r = match d {
        0 => "0",
        1 => "1",
        2 => "2",
        3 => "3",
        4 => "4",
        5 => "5",
        6 => "6",
        7 => "7",
        8 => "8",
        9 => "9",
        10 => "a",
        11 => "b",
        12 => "c",
        13 => "d",
        14 => "e",
        _ => "f",
    };
    assert(r@ =~= seq![digit(d)]);
    r
}

/// Appends the sixteen hexadecimal digits of `n` to `out`.
pub fn push_hex16(out: &mut String, n: u64)
    ensures
        final(out)@ == old(out)@ + hex16(n),
{
    let mut k: u64 = 16;
    assert(hex16(n).take(0) =~= Seq::<char>::empty());
    assert(out@ + Seq::<char>::empty() =~= out@);
    while k > 0
        invariant
            k <= 16,
            out@ == old(out)@ + hex16(n).take(16 - k),
        decreases k,
    {
        k -= 1;
        let shift: u64 = 4 * k;
        let d: u64 = (n >> shift) & 0xf;
        assert((n >> shift) & 0xf < 16) by (bit_vector);
        proof {
            assert(d == nibble(n, k));
            assert(hex16(n)[15 - k] == digit(d));
            assert(hex16(n).take(16 - k) =~= hex16(n).take(15 - k).push(digit(d)));
            assert(old(out)@ + hex16(n).take(15 - k) + seq![digit(d)] =~= old(out)@ + hex16(
                n,
            ).take(16 - k));
        }
        out.append(digit_text(d));
    }
    assert(hex16(n).take(16) =~= hex16(n));
}

/// Appends the decimal digits of `n` to `out`.
pub fn push_decimal(out: &mut String, n: u64)
    ensures
        final(out)@ == old(out)@ + decimal(n as nat),
    decreases n,
{
    if n >= 10 {
        push_decimal(out, n / 10);
    }
    let d: u64 = n % 10;
    out.append(digit_text(d));
    proof {
        if n >= 10 {
            assert(old(out)@ + decimal((n / 10) as nat) + seq![digit(d)] =~= old(out)@
                + decimal(n as nat));
        }
    }
}

} // verus!
