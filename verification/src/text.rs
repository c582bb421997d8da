//! Plain-text formatting for the status bar and the scoreboard:
//! decimal numbers, padding, and the population fraction, all over
//! integers.

use vstd::prelude::*;

use vstd::string::StringExecFns;
use vstd::string::StrSliceExecFns;

verus! {

/// The decimal digit character for a value below ten.
pub open spec fn spec_digit_char(d: int) -> char {
    if d == 0 {
        '0'
    } else if d == 1 {
        '1'
    } else if d == 2 {
        '2'
    } else if d == 3 {
        '3'
    } else if d == 4 {
        '4'
    } else if d == 5 {
        '5'
    } else if d == 6 {
        '6'
    } else if d == 7 {
        '7'
    } else if d == 8 {
        '8'
    } else {
        '9'
    }
}

/// The decimal digits of `n`, most significant first, with no leading
/// zeros (a single zero for zero itself).
pub open spec fn spec_decimal(n: nat) -> Seq<char>
    decreases n,
{
    if n < 10 {
        seq![spec_digit_char(n as int)]
    } else {
        spec_decimal(n / 10).push(spec_digit_char((n % 10) as int))
    }
}

/// `s` filled on the left with `fill` up to `width` characters; a string
/// already that long is unchanged.
pub open spec fn spec_pad_left(s: Seq<char>, width: int, fill: char) -> Seq<char> {
    if s.len() >= width {
        s
    } else {
        Seq::new((width - s.len()) as nat, |i: int| fill) + s
    }
}

/// `s` filled on the right with `fill` up to `width` characters; a
/// string already that long is unchanged.
pub open spec fn spec_pad_right(s: Seq<char>, width: int, fill: char) -> Seq<char> {
    if s.len() >= width {
        s
    } else {
        s + Seq::new((width - s.len()) as nat, |i: int| fill)
    }
}

/// `count` out of `total` as a zero-padded fixed-point fraction with
/// four decimal places and a trailing percent sign, at least seven
/// characters before the sign, the fractional digits truncated.
pub open spec fn spec_fraction_text(count: nat, total: nat) -> Seq<char> {
    let ip = count / total;
    let frac = (count % total) * 10000 / total;
    spec_pad_left(
        spec_decimal(ip) + seq!['.'] + spec_pad_left(spec_decimal(frac), 4, '0'),
        7,
        '0',
    ) + seq!['%']
}

/// The one-character string for a decimal digit.
pub fn digit_str(d: u64) -> (s: &'static str)
    requires
        d < 10,
    ensures
        s@ == seq![spec_digit_char(d as int)],
{
    proof {
        reveal_strlit("0");
        reveal_strlit("1");
        reveal_strlit("2");
        reveal_strlit("3");
        reveal_strlit("4");
        reveal_strlit("5");
        reveal_strlit("6");
        reveal_strlit("7");
        reveal_strlit("8");
        reveal_strlit("9");
    }
    let s = match d {
        0 => "0",
        1 => "1",
        2 => "2",
        3 => "3",
        4 => "4",
        5 => "5",
        6 => "6",
        7 => "7",
        8 => "8",
        _ => "9",
    };
    proof {
        assert(s@ =~= seq![spec_digit_char(d as int)]);
    }
    s
}

/// `n` written in decimal.
pub fn decimal_string(n: u64) -> (s: String)
    ensures
        s@ == spec_decimal(n as nat),
    decreases n,
{
    if n < 10 {
        String::from_str(digit_str(n))
    } else {
        let mut s = decimal_string(n / 10);
        s.append(digit_str(n % 10));
        proof {
            assert(s@ =~= spec_decimal((n / 10) as nat).push(
                spec_digit_char((n % 10) as nat as int),
            ));
        }
        s
    }
}

/// `s` filled on the left with the single-character `fill` up to
/// `width` characters.
pub fn pad_left(s: String, width: usize, fill: &str) -> (r: String)
    requires
        fill@.len() == 1,
    ensures
        r@ == spec_pad_left(s@, width as int, fill@[0]),
{
    let len = s.as_str().unicode_len();
    if len >= width {
        s
    } else {
        let mut r = String::new();
        let mut k: usize = 0;
        let n = width - len;
        while k < n
            invariant
                k <= n,
                fill@.len() == 1,
                r@ =~= Seq::new(k as nat, |i: int| fill@[0]),
            decreases n - k,
        {
            r.append(fill);
            proof {
                assert(r@ =~= Seq::new((k + 1) as nat, |i: int| fill@[0]));
            }
            k = k + 1;
        }
        r.append(s.as_str());
        proof {
            assert(r@ =~= spec_pad_left(s@, width as int, fill@[0]));
        }
        r
    }
}

/// `s` filled on the right with the single-character `fill` up to
/// `width` characters.
pub fn pad_right(s: String, width: usize, fill: &str) -> (r: String)
    requires
        fill@.len() == 1,
    ensures
        r@ == spec_pad_right(s@, width as int, fill@[0]),
{
    let len = s.as_str().unicode_len();
    if len >= width {
        s
    } else {
        let ghost s0 = s@;
        let mut r = s;
        let mut k: usize = 0;
        let n = width - len;
        while k < n
            invariant
                k <= n,
                fill@.len() == 1,
                r@ =~= s0 + Seq::new(k as nat, |i: int| fill@[0]),
            decreases n - k,
        {
            r.append(fill);
            proof {
                assert(r@ =~= s0 + Seq::new((k + 1) as nat, |i: int| fill@[0]));
            }
            k = k + 1;
        }
        proof {
            assert(r@ =~= spec_pad_right(s0, width as int, fill@[0]));
        }
        r
    }
}

/// `count` out of `total` as the scoreboard's fixed-point percentage
/// text.
pub fn fraction_text(count: u64, total: u64) -> (s: String)
    requires
        total >= 1,
    ensures
        s@ == spec_fraction_text(count as nat, total as nat),
{
    let ip: u64 = count / total;
    let rem: u64 = count % total;
    let frac128: u128 = (rem as u128) * 10000 / (total as u128);
    proof {
        assert((rem as int) * 10000 < (total as int) * 10000) by (nonlinear_arith)
            requires
                0 <= rem < total,
        ;
        assert((rem as int) * 10000 / (total as int) < 10000) by (nonlinear_arith)
            requires
                0 < total,
                (rem as int) * 10000 < (total as int) * 10000,
        ;
    }
    let frac: u64 = frac128 as u64;
    let mut s = decimal_string(ip);
    proof {
        reveal_strlit(".");
        reveal_strlit("%");
        reveal_strlit("0");
    }
    s.append(".");
    let fd = decimal_string(frac);
    let fp = pad_left(fd, 4, "0");
    s.append(fp.as_str());
    let mut r = pad_left(s, 7, "0");
    r.append("%");
    proof {
        assert(r@ =~= spec_fraction_text(count as nat, total as nat));
    }
    r
}

} // verus!
