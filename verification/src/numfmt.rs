//! Decimal formatting of unsigned counters, so that numeric settings
//! can be serialized into argument lists with a proved text form.

use vstd::prelude::*;

verus! {

/// The decimal digit character for one value below ten.
pub open spec fn dec_digit(d: nat) -> char {
    if d == 0 {
        '0'
    } else if d == 1 {
        '1'
    } else if d == 2 {
        '2'
    } else if d == 3 {
        '3'
    } else if d == 4 {
        '4'
    } else if d == 5 {
        '5'
    } else if d == 6 {
        '6'
    } else if d == 7 {
        '7'
    } else if d == 8 {
        '8'
    } else {
        '9'
    }
}

/// The usual decimal writing of a natural number, most significant
/// digit first and without leading zeroes.
pub open spec fn dec_rep(n: nat) -> Seq<char>
    decreases n,
{
    if n < 10 {
        seq![dec_digit(n)]
    } else {
        dec_rep(n / 10).push(dec_digit(n % 10))
    }
}

/// The concatenation of the given fragments read from last to first.
spec fn rev_concat(parts: Seq<&str>) -> Seq<char>
    decreases parts.len(),
{
    if parts.len() == 0 {
        Seq::empty()
    } else {
        parts.last()@ + rev_concat(parts.drop_last())
    }
}

/// The single-character fragment for one digit value.
fn digit_str(d: u64) -> (r: &'static str)
    requires
        d < 10,
    ensures
        r@ == seq![dec_digit(d as nat)],
{
    proof {
        reveal_strlit("0");
        reveal_strlit("1");
        reveal_strlit("2");
        reveal_strlit("3");
        reveal_strlit("4");
        reveal_strlit("5");
        reveal_strlit("6");
        reveal_strlit("7");
        reveal_strlit("8");
        reveal_strlit("9");
    }
    let r: &'static str = if d == 0 {
        "0"
    } else if d == 1 {
        "1"
    } else if d == 2 {
        "2"
    } else if d == 3 {
        "3"
    } else if d == 4 {
        "4"
    } else if d == 5 {
        "5"
    } else if d == 6 {
        "6"
    } else if d == 7 {
        "7"
    } else if d == 8 {
        "8"
    } else {
        "9"
    };
    proof {
        assert(r@ =~= seq![dec_digit(d as nat)]);
    }
    r
}

/// Writes a counter in decimal.
pub fn u64_to_string(n: u64) -> (r: String)
    ensures
        r@ == dec_rep(n as nat),
{
    let mut parts: Vec<&str> = Vec::new();
    let mut m: u64 = n;
    proof {
        assert(dec_rep(n as nat) =~= dec_rep(m as nat) + rev_concat(parts@));
    }
    loop
        invariant_except_break
            dec_rep(n as nat) == dec_rep(m as nat) + rev_concat(parts@),
        ensures
            dec_rep(n as nat) == rev_concat(parts@),
        decreases m,
    {
        let d = m % 10;
        let ds = digit_str(d);
        let ghost before = parts@;
        parts.push(ds);
        proof {
            assert(parts@.drop_last() =~= before);
            assert(parts@.last() == ds);
            assert(rev_concat(parts@) == seq![dec_digit(d as nat)] + rev_concat(before));
        }
        if m < 10 {
            proof {
                assert(dec_rep(m as nat) =~= seq![dec_digit(d as nat)]);
                assert(rev_concat(parts@) =~= dec_rep(m as nat) + rev_concat(before));
            }
            break;
        }
        proof {
            assert((m / 10) as nat == (m as nat) / 10);
            assert(dec_rep(m as nat) == dec_rep((m as nat) / 10).push(dec_digit((m as nat) % 10)));
            assert(dec_rep(m as nat) =~= dec_rep((m / 10) as nat) + seq![dec_digit(d as nat)]);
            assert((dec_rep((m / 10) as nat) + seq![dec_digit(d as nat)]) + rev_concat(before)
                =~= dec_rep((m / 10) as nat) + (seq![dec_digit(d as nat)] + rev_concat(before)));
        }
        m = m / 10;
    }
    let ghost digits = dec_rep(n as nat);
    let mut s = String::new();
    let mut i: usize = parts.len();
    proof {
        assert(parts@.take(parts@.len() as int) =~= parts@);
        assert(s@ + rev_concat(parts@.take(i as int)) =~= digits);
    }
    while i > 0
        invariant
            i <= parts@.len(),
            s@ + rev_concat(parts@.take(i as int)) == digits,
        decreases i,
    {
        i -= 1;
        let ghost before = s@;
        s.append(parts[i]);
        proof {
            let t = parts@.take(i as int + 1);
            assert(t.last() == parts@[i as int]);
            assert(t.drop_last() =~= parts@.take(i as int));
            assert(before + (parts@[i as int]@ + rev_concat(parts@.take(i as int))) =~= s@
                + rev_concat(parts@.take(i as int)));
        }
    }
    proof {
        assert(parts@.take(0) =~= Seq::<&str>::empty());
        assert(s@ =~= s@ + rev_concat(parts@.take(0)));
    }
    s
}

} // verus!
