//! Decimal rendering of unsigned integers.

use vstd::prelude::*;
use vstd::string::*;
use crate::text::lemma_append_single;

verus! {

/// The character for one decimal digit.
pub open spec fn digit_char(d: nat) -> char {
    if d == 0 {
        '0'
    } else if d == 1 {
        '1'
    } else if d == 2 {
        '2'
    } else if d == 3 {
        '3'
    } else if d == 4 {
        '4'
    } else if d == 5 {
        '5'
    } else if d == 6 {
        '6'
    } else if d == 7 {
        '7'
    } else if d == 8 {
        '8'
    } else {
        '9'
    }
}

/// The decimal rendering of `n`, most significant digit first,
/// with no leading zeros (zero itself renders as a single `'0'`).
pub open spec fn dec_str(n: nat) -> Seq<char>
    decreases n,
{
    if n < 10 {
        seq![digit_char(n)]
    } else {
        dec_str(n / 10).push(digit_char(n % 10))
    }
}

/// The digits held in `ds`, read from the last element to the first.
pub open spec fn digits_rev(ds: Seq<u64>) -> Seq<char> {
    Seq::new(ds.len(), |i: int| digit_char(ds[ds.len() - 1 - i] as nat))
}

/// One decimal digit as a string.
fn digit_str(d: u64) -> (s: String)
    requires
        d < 10,
    ensures
        s@ == seq![digit_char(d as nat)],
{
    let s = if d == 0 {
        String::from_str("0")
    } else if d == 1 {
        String::from_str("1")
    } else if d == 2 {
        String::from_str("2")
    } else if d == 3 {
        String::from_str("3")
    } else if d == 4 {
        String::from_str("4")
    } else if d == 5 {
        String::from_str("5")
    } else if d == 6 {
        String::from_str("6")
    } else if d == 7 {
        String::from_str("7")
    } else if d == 8 {
        String::from_str("8")
    } else {
        String::from_str("9")
    };
    proof {
        reveal_strlit("0");
        reveal_strlit("1");
        reveal_strlit("2");
        reveal_strlit("3");
        reveal_strlit("4");
        reveal_strlit("5");
        reveal_strlit("6");
        reveal_strlit("7");
        reveal_strlit("8");
        reveal_strlit("9");
        assert(s@ =~= seq![digit_char(d as nat)]);
    }
    s
}

/// The decimal rendering of `n`.
pub fn u64_to_decimal(n: u64) -> (s: String)
    ensures
        s@ == dec_str(n as nat),
{
    let mut ds: Vec<u64> = Vec::new();
    let mut m: u64 = n;
    proof {
        assert(digits_rev(ds@) =~= Seq::<char>::empty());
        assert(dec_str(n as nat) =~= dec_str(m as nat) + digits_rev(ds@));
    }
    while m >= 10
        invariant
            dec_str(n as nat) == dec_str(m as nat) + digits_rev(ds@),
            forall|i: int| 0 <= i < ds@.len() ==> ds@[i] < 10,
        decreases m,
    {
        let ghost ds0 = ds@;
        let ghost m0 = m;
        let d = m % 10;
        ds.push(d);
        m = m / 10;
        proof {
            lemma_append_single(dec_str((m0 / 10) as nat), digit_char((m0 % 10) as nat));
            assert(dec_str(m0 as nat) == dec_str((m0 / 10) as nat) + seq![
                digit_char((m0 % 10) as nat),
            ]);
            assert(digits_rev(ds@) =~= seq![digit_char(d as nat)] + digits_rev(ds0));
            assert(dec_str(m as nat) + seq![digit_char(d as nat)] + digits_rev(ds0) =~= dec_str(
                m as nat,
            ) + digits_rev(ds@));
            assert(dec_str(n as nat) == dec_str(m as nat) + digits_rev(ds@));
        }
    }
    let mut out = digit_str(m);
    let mut i: usize = ds.len();
    proof {
        assert(digits_rev(ds@).take((ds@.len() - i) as int) =~= Seq::<char>::empty());
        assert(out@ =~= seq![digit_char(m as nat)] + digits_rev(ds@).take((ds@.len() - i) as int));
    }
    while i > 0
        invariant
            i <= ds@.len(),
            m < 10,
            forall|j: int| 0 <= j < ds@.len() ==> ds@[j] < 10,
            dec_str(n as nat) == dec_str(m as nat) + digits_rev(ds@),
            out@ == seq![digit_char(m as nat)] + digits_rev(ds@).take((ds@.len() - i) as int),
        decreases i,
    {
        i = i - 1;
        let ghost k = (ds@.len() - (i + 1)) as int;
        let dstr = digit_str(ds[i]);
        out.append(dstr.as_str());
        proof {
            assert(digits_rev(ds@)[k] == digit_char(ds@[i as int] as nat));
            assert(digits_rev(ds@).take(k + 1) =~= digits_rev(ds@).take(k).push(
                digit_char(ds@[i as int] as nat),
            ));
            assert(out@ =~= seq![digit_char(m as nat)] + digits_rev(ds@).take(k + 1));
        }
    }
    proof {
        assert(digits_rev(ds@).take(ds@.len() as int) =~= digits_rev(ds@));
        assert(dec_str(m as nat) =~= seq![digit_char(m as nat)]);
        assert(out@ =~= dec_str(n as nat));
    }
    out
}

} // verus!
