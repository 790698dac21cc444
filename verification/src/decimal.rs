//! Decimal rendering of integers into strings, proved against the
//! mathematical digit sequence. Used wherever a user-visible string carries
//! a number: stored file names, configurable durations in denial messages.
use vstd::prelude::*;

use vstd::string::StringExecFns;

verus! {

/// The character of one decimal digit.
pub open spec fn digit_char(d: nat) -> char {
    if d == 0 {
        '0'
    } else if d == 1 {
        '1'
    } else if d == 2 {
        '2'
    } else if d == 3 {
        '3'
    } else if d == 4 {
        '4'
    } else if d == 5 {
        '5'
    } else if d == 6 {
        '6'
    } else if d == 7 {
        '7'
    } else if d == 8 {
        '8'
    } else {
        '9'
    }
}

/// The decimal rendering of `n`, most significant digit first, no leading
/// zeros (a single `'0'` for zero).
pub open spec fn dec_digits(n: nat) -> Seq<char>
    decreases n,
{
    if n < 10 {
        seq![digit_char(n)]
    } else {
        dec_digits(n / 10).push(digit_char(n % 10))
    }
}

/// The decimal rendering of a possibly negative number: a leading `'-'`
/// before the digits of its magnitude.
pub open spec fn int_digits(i: int) -> Seq<char> {
    if i < 0 {
        seq!['-'] + dec_digits((-i) as nat)
    } else {
        dec_digits(i as nat)
    }
}

spec fn rev_chars(v: Seq<u64>) -> Seq<char>
    decreases v.len(),
{
    if v.len() == 0 {
        Seq::empty()
    } else {
        rev_chars(v.drop_first()).push(digit_char(v[0] as nat))
    }
}

proof fn lemma_rev_chars_push(v: Seq<u64>, x: u64)
    ensures
        rev_chars(v.push(x)) == seq![digit_char(x as nat)] + rev_chars(v),
    decreases v.len(),
{
    let pushed = v.push(x);
    if v.len() == 0 {
        assert(pushed[0] == x);
        assert(pushed.drop_first() =~= v);
        assert(rev_chars(v) == Seq::<char>::empty());
        assert(rev_chars(pushed) == rev_chars(v).push(digit_char(x as nat)));
        assert(rev_chars(v).push(digit_char(x as nat)) =~= seq![digit_char(x as nat)] + rev_chars(
            v,
        ));
    } else {
        assert(pushed.drop_first() =~= v.drop_first().push(x));
        lemma_rev_chars_push(v.drop_first(), x);
        assert(rev_chars(pushed) == rev_chars(v.drop_first().push(x)).push(
            digit_char(pushed[0] as nat),
        ));
        assert(rev_chars(pushed) =~= seq![digit_char(x as nat)] + rev_chars(v));
    }
}

fn digit_str(d: u64) -> (s: &'static str)
    requires
        d < 10,
    ensures
        s@ == seq![digit_char(d as nat)],
{
    let s = match d {
        0 => "0",
        1 => "1",
        2 => "2",
        3 => "3",
        4 => "4",
        5 => "5",
        6 => "6",
        7 => "7",
        8 => "8",
        _ => "9",
    };
    proof {
        reveal_strlit("0");
        reveal_strlit("1");
        reveal_strlit("2");
        reveal_strlit("3");
        reveal_strlit("4");
        reveal_strlit("5");
        reveal_strlit("6");
        reveal_strlit("7");
        reveal_strlit("8");
        reveal_strlit("9");
        assert(s@ =~= seq![digit_char(d as nat)]);
    }
    s
}

/// Append the decimal rendering of `n` to `out`.
pub fn append_dec(out: &mut String, n: u64)
    ensures
        final(out)@ == old(out)@ + dec_digits(n as nat),
{
    let mut v: Vec<u64> = Vec::new();
    let mut m = n;
    proof {
        assert(dec_digits(n as nat) + rev_chars(v@) =~= dec_digits(n as nat));
    }
    while m >= 10
        invariant
            dec_digits(n as nat) == dec_digits(m as nat) + rev_chars(v@),
            forall|k: int| 0 <= k < v@.len() ==> #[trigger] v@[k] < 10,
        decreases m,
    {
        let ghost prev = v@;
        v.push(m % 10);
        proof {
            lemma_rev_chars_push(prev, m % 10);
            assert(dec_digits(m as nat) == dec_digits((m / 10) as nat).push(
                digit_char((m % 10) as nat),
            ));
            assert(dec_digits((m / 10) as nat) + rev_chars(v@) =~= dec_digits(m as nat)
                + rev_chars(prev));
        }
        m = m / 10;
    }
    let ghost prev = v@;
    v.push(m);
    proof {
        lemma_rev_chars_push(prev, m);
        assert(dec_digits(m as nat) + rev_chars(prev) =~= rev_chars(v@));
        assert(rev_chars(v@) == dec_digits(n as nat));
    }
    let mut j: usize = v.len();
    proof {
        assert(rev_chars(v@.skip(j as int)).len() == 0);
        assert(out@ + rev_chars(v@.skip(j as int)) =~= out@);
    }
    while j > 0
        invariant
            j <= v@.len(),
            rev_chars(v@) == dec_digits(n as nat),
            forall|k: int| 0 <= k < v@.len() ==> #[trigger] v@[k] < 10,
            out@ == old(out)@ + rev_chars(v@.skip(j as int)),
        decreases j,
    {
        let d = v[j - 1];
        out.append(digit_str(d));
        proof {
            assert(v@.skip(j - 1).drop_first() =~= v@.skip(j as int));
            assert(v@.skip(j - 1)[0] == v@[j - 1]);
            assert(rev_chars(v@.skip(j - 1)) == rev_chars(v@.skip(j as int)).push(
                digit_char(v@[j - 1] as nat),
            ));
            assert(old(out)@ + rev_chars(v@.skip(j - 1)) =~= (old(out)@ + rev_chars(
                v@.skip(j as int),
            )) + seq![digit_char(v@[j - 1] as nat)]);
        }
        j -= 1;
    }
    proof {
        assert(v@.skip(0) =~= v@);
    }
}

} // verus!
