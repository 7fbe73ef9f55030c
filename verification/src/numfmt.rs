use vstd::prelude::*;

verus! {

/// Number of decimal digits of `n`.
pub open spec fn num_digits(n: nat) -> nat
    decreases n,
{
    if n < 10 {
        1
    } else {
        1 + num_digits(n / 10)
    }
}

/// The decimal digit character for `d < 10`.
pub open spec fn digit_char(d: nat) -> char {
    if d == 0 {
        '0'
    } else if d == 1 {
        '1'
    } else if d == 2 {
        '2'
    } else if d == 3 {
        '3'
    } else if d == 4 {
        '4'
    } else if d == 5 {
        '5'
    } else if d == 6 {
        '6'
    } else if d == 7 {
        '7'
    } else if d == 8 {
        '8'
    } else {
        '9'
    }
}

/// The decimal representation of `n`, most significant digit first.
pub open spec fn dec_rep(n: nat) -> Seq<char>
    decreases n,
{
    if n < 10 {
        seq![digit_char(n)]
    } else {
        dec_rep(n / 10) + seq![digit_char(n % 10)]
    }
}

pub proof fn lemma_dec_rep_len(n: nat)
    ensures
        dec_rep(n).len() == num_digits(n),
    decreases n,
{
    if n >= 10 {
        lemma_dec_rep_len(n / 10);
    }
}

/// A crude digit-count bound, enough to rule out overflow when counting.
pub proof fn lemma_num_digits_le(n: nat)
    ensures
        num_digits(n) <= n + 1,
    decreases n,
{
    if n >= 10 {
        lemma_num_digits_le(n / 10);
    }
}

/// Numbers below ten thousand have at most four digits.
pub proof fn lemma_num_digits_small(n: nat)
    requires
        n < 10000,
    ensures
        num_digits(n) <= 4,
{
    if n >= 10 {
        if n / 10 >= 10 {
            if n / 10 / 10 >= 10 {
                assert(n / 10 / 10 / 10 < 10);
                assert(num_digits(n / 10 / 10 / 10) == 1);
            }
            assert(num_digits(n / 10 / 10) <= 2);
        }
        assert(num_digits(n / 10) <= 3);
    }
}

fn digit_str(d: usize) -> (r: &'static str)
    requires
        d < 10,
    ensures
        r@ == seq![digit_char(d as nat)],
{
    proof {
        reveal_strlit("0");
        reveal_strlit("1");
        reveal_strlit("2");
        reveal_strlit("3");
        reveal_strlit("4");
        reveal_strlit("5");
        reveal_strlit("6");
        reveal_strlit("7");
        reveal_strlit("8");
        reveal_strlit("9");
    }
    let r: &'static str = match d {
        0 => "0",
        1 => "1",
        2 => "2",
        3 => "3",
        4 => "4",
        5 => "5",
        6 => "6",
        7 => "7",
        8 => "8",
        _ => "9",
    };
    proof {
        assert(r@ =~= seq![digit_char(d as nat)]);
    }
    r
}

/// Appends the decimal representation of `n` to `s`.
pub fn push_decimal(s: &mut String, n: usize)
    ensures
        final(s)@ == old(s)@ + dec_rep(n as nat),
    decreases n,
{
    if n >= 10 {
        push_decimal(s, n / 10);
        let d = digit_str(n % 10);
        s.append(d);
        proof {
            assert(s@ =~= old(s)@ + dec_rep(n as nat));
        }
    } else {
        let d = digit_str(n);
        s.append(d);
        proof {
            assert(s@ =~= old(s)@ + dec_rep(n as nat));
        }
    }
}

/// Counts the decimal digits of `n`.
pub fn count_digits(n: usize) -> (r: usize)
    ensures
        r == num_digits(n as nat),
    decreases n,
{
    if n < 10 {
        1
    } else {
        let rest = count_digits(n / 10);
        proof {
            lemma_num_digits_le((n / 10) as nat);
        }
        rest + 1
    }
}

} // verus!
