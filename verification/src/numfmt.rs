//! Verified decimal formatting of process ids, used to build the exact
//! human-readable failure messages.

use vstd::prelude::*;
use vstd::string::StringExecFns;

verus! {

/// The character for one decimal digit.
pub open spec fn digit_char(d: int) -> char
    recommends
        0 <= d < 10,
{
    if d == 0 {
        '0'
    } else if d == 1 {
        '1'
    } else if d == 2 {
        '2'
    } else if d == 3 {
        '3'
    } else if d == 4 {
        '4'
    } else if d == 5 {
        '5'
    } else if d == 6 {
        '6'
    } else if d == 7 {
        '7'
    } else if d == 8 {
        '8'
    } else {
        '9'
    }
}

/// The decimal representation of `n`, most significant digit first,
/// with no leading zeros (a lone `0` for zero).
pub open spec fn dec_rep(n: nat) -> Seq<char>
    decreases n,
{
    if n < 10 {
        seq![digit_char(n as int)]
    } else {
        dec_rep(n / 10) + seq![digit_char((n % 10) as int)]
    }
}

/// The digit characters of `ds`, last element first.
spec fn rev_digit_chars(ds: Seq<u8>) -> Seq<char>
    decreases ds.len(),
{
    if ds.len() == 0 {
        Seq::empty()
    } else {
        seq![digit_char(ds.last() as int)] + rev_digit_chars(ds.drop_last())
    }
}

/// The string slice holding one decimal digit.
fn digit_str(d: u8) -> (s: &'static str)
    requires
        d < 10,
    ensures
        s@ =~= seq![digit_char(d as int)],
{
    proof {
        reveal_strlit("0");
        reveal_strlit("1");
        reveal_strlit("2");
        reveal_strlit("3");
        reveal_strlit("4");
        reveal_strlit("5");
        reveal_strlit("6");
        reveal_strlit("7");
        reveal_strlit("8");
        reveal_strlit("9");
    }
    match d {
        0 => "0",
        1 => "1",
        2 => "2",
        3 => "3",
        4 => "4",
        5 => "5",
        6 => "6",
        7 => "7",
        8 => "8",
        _ => "9",
    }
}

/// The decimal representation of `n` as a string.
pub fn u32_dec_string(n: u32) -> (s: String)
    ensures
        s@ == dec_rep(n as nat),
{
    let mut digits: Vec<u8> = Vec::new();
    let mut m: u32 = n;
    while m >= 10
        invariant
            dec_rep(n as nat) == dec_rep(m as nat) + rev_digit_chars(digits@),
            forall|i: int| 0 <= i < digits@.len() ==> digits@[i] < 10,
        decreases m,
    {
        let d: u8 = (m % 10) as u8;
        proof {
            assert(digits@.push(d).drop_last() =~= digits@);
            assert(rev_digit_chars(digits@.push(d)) =~= seq![digit_char(d as int)]
                + rev_digit_chars(digits@));
            assert(dec_rep(m as nat) =~= dec_rep(m as nat / 10) + seq![
                digit_char((m as nat % 10) as int),
            ]);
            assert(dec_rep(m as nat) + rev_digit_chars(digits@) =~= dec_rep(m as nat / 10)
                + rev_digit_chars(digits@.push(d)));
        }
        digits.push(d);
        m = m / 10;
    }
    let d: u8 = m as u8;
    proof {
        assert(digits@.push(d).drop_last() =~= digits@);
        assert(rev_digit_chars(digits@.push(d)) =~= seq![digit_char(d as int)]
            + rev_digit_chars(digits@));
        assert(dec_rep(m as nat) =~= seq![digit_char(d as int)]);
        assert(dec_rep(n as nat) =~= rev_digit_chars(digits@.push(d)));
    }
    digits.push(d);
    let mut s = String::new();
    let mut i: usize = digits.len();
    proof {
        assert(digits@.take(i as int) =~= digits@);
        assert(s@ + rev_digit_chars(digits@) =~= rev_digit_chars(digits@));
    }
    while i > 0
        invariant
            i <= digits.len(),
            forall|k: int| 0 <= k < digits@.len() ==> digits@[k] < 10,
            dec_rep(n as nat) == rev_digit_chars(digits@),
            s@ + rev_digit_chars(digits@.take(i as int)) == rev_digit_chars(digits@),
        decreases i,
    {
        proof {
            assert(digits@.take(i as int).drop_last() =~= digits@.take(i as int - 1));
            assert(digits@.take(i as int).last() == digits@[i as int - 1]);
        }
        let piece = digit_str(digits[i - 1]);
        s.append(piece);
        i -= 1;
    }
    proof {
        assert(digits@.take(0) =~= Seq::<u8>::empty());
        assert(s@ =~= dec_rep(n as nat));
    }
    s
}

} // verus!
