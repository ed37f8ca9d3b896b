//! Decimal text for the numbers the game shows.

use vstd::prelude::*;
use vstd::string::StringExecFns;
use vstd::string::StrSliceExecFns;

verus! {

/// Tells whether two texts are the same.
pub fn same_text(a: &str, b: &str) -> (same: bool)
    ensures
        same == (a@ == b@),
{
    a.to_owned() == b.to_owned()
}

/// The character of a decimal digit.
pub open spec fn digit_char(d: int) -> char {
    if d == 0 {
        '0'
    } else if d == 1 {
        '1'
    } else if d == 2 {
        '2'
    } else if d == 3 {
        '3'
    } else if d == 4 {
        '4'
    } else if d == 5 {
        '5'
    } else if d == 6 {
        '6'
    } else if d == 7 {
        '7'
    } else if d == 8 {
        '8'
    } else {
        '9'
    }
}

/// The decimal digits of `n`, most significant first, without padding.
pub open spec fn decimal(n: nat) -> Seq<char>
    decreases n,
{
    if n < 10 {
        seq![digit_char(n as int)]
    } else {
        decimal(n / 10).push(digit_char((n % 10) as int))
    }
}

/// `s` with zeros in front until it is `width` characters long.
pub open spec fn pad_zero(s: Seq<char>, width: nat) -> Seq<char> {
    if s.len() >= width {
        s
    } else {
        Seq::new((width - s.len()) as nat, |i: int| '0') + s
    }
}

/// The decimal text of a whole number, with a minus sign where it is
/// negative.
pub open spec fn signed_decimal(v: int) -> Seq<char> {
    if v < 0 {
        seq!['-'] + decimal((-v) as nat)
    } else {
        decimal(v as nat)
    }
}

/// The one-character text of a decimal digit.
fn digit_str(d: u64) -> (s: &'static str)
    requires
        d < 10,
    ensures
        s@ == seq![digit_char(d as int)],
{
    proof {
        reveal_strlit("0");
        reveal_strlit("1");
        reveal_strlit("2");
        reveal_strlit("3");
        reveal_strlit("4");
        reveal_strlit("5");
        reveal_strlit("6");
        reveal_strlit("7");
        reveal_strlit("8");
        reveal_strlit("9");
    }
    let s = if d == 0 {
        "0"
    } else if d == 1 {
        "1"
    } else if d == 2 {
        "2"
    } else if d == 3 {
        "3"
    } else if d == 4 {
        "4"
    } else if d == 5 {
        "5"
    } else if d == 6 {
        "6"
    } else if d == 7 {
        "7"
    } else if d == 8 {
        "8"
    } else {
        "9"
    };
    assert(s@ =~= seq![digit_char(d as int)]);
    s
}

/// Appends the decimal digits of `value`.
pub fn push_decimal(out: &mut String, value: u64)
    ensures
        final(out)@ == old(out)@ + decimal(value as nat),
    decreases value,
{
    if value >= 10 {
        push_decimal(out, value / 10);
    }
    out.append(digit_str(value % 10));
    assert(final(out)@ =~= old(out)@ + decimal(value as nat));
}

/// The number of decimal digits of `value`.
pub fn decimal_len(value: u64) -> (len: usize)
    ensures
        len == decimal(value as nat).len(),
        1 <= len <= 20,
    decreases value,
{
    if value >= 10 {
        let rest = decimal_len(value / 10);
        proof {
            lemma_decimal_len(value as nat);
        }
        rest + 1
    } else {
        1
    }
}

/// A number below ten to the power of `k` has at most `k` digits; in
/// particular a 64-bit number has at most twenty.
pub proof fn lemma_decimal_len(n: nat)
    ensures
        n < 10 ==> decimal(n).len() == 1,
        n < 100 ==> decimal(n).len() <= 2,
        n < 1000 ==> decimal(n).len() <= 3,
        n < 10000 ==> decimal(n).len() <= 4,
        n < 100000 ==> decimal(n).len() <= 5,
        n < 1000000 ==> decimal(n).len() <= 6,
        n < 10000000 ==> decimal(n).len() <= 7,
        n < 100000000 ==> decimal(n).len() <= 8,
        n < 1000000000 ==> decimal(n).len() <= 9,
        n < 10000000000 ==> decimal(n).len() <= 10,
        n < 100000000000 ==> decimal(n).len() <= 11,
        n < 1000000000000 ==> decimal(n).len() <= 12,
        n < 10000000000000 ==> decimal(n).len() <= 13,
        n < 100000000000000 ==> decimal(n).len() <= 14,
        n < 1000000000000000 ==> decimal(n).len() <= 15,
        n < 10000000000000000 ==> decimal(n).len() <= 16,
        n < 100000000000000000 ==> decimal(n).len() <= 17,
        n < 1000000000000000000 ==> decimal(n).len() <= 18,
        n < 10000000000000000000 ==> decimal(n).len() <= 19,
        n < 100000000000000000000 ==> decimal(n).len() <= 20,
        decimal(n).len() >= 1,
    decreases n,
{
    if n >= 10 {
        lemma_decimal_len(n / 10);
    }
}

/// Appends the decimal digits of `value`, with zeros in front up to
/// `width` characters.
pub fn push_padded(out: &mut String, value: u64, width: usize)
    ensures
        final(out)@ == old(out)@ + pad_zero(decimal(value as nat), width as nat),
{
    let len = decimal_len(value);
    let ghost start = out@;
    let mut i: usize = len;
    while i < width
        invariant
            len <= i,
            len < width ==> i <= width,
            len >= width ==> i == len,
            out@ == start + Seq::new((i - len) as nat, |k: int| '0'),
        decreases width - i,
    {
        proof {
            reveal_strlit("0");
        }
        out.append("0");
        i += 1;
        assert(out@ =~= start + Seq::new((i - len) as nat, |k: int| '0'));
    }
    push_decimal(out, value);
    assert(out@ =~= start + pad_zero(decimal(value as nat), width as nat));
}

/// Appends the decimal text of `value`, with a minus sign where it is
/// negative.
pub fn push_signed(out: &mut String, value: i64)
    ensures
        final(out)@ == old(out)@ + signed_decimal(value as int),
{
    if value < 0 {
        proof {
            reveal_strlit("-");
        }
        out.append("-");
        let magnitude: u64 = (-(value as i128)) as u64;
        push_decimal(out, magnitude);
        assert(final(out)@ =~= old(out)@ + signed_decimal(value as int));
    } else {
        push_decimal(out, value as u64);
    }
}

/// The text of a pair of numbers: both in parentheses, a comma and a space
/// between them.
pub open spec fn pair_text(pair: (i64, i64)) -> Seq<char> {
    seq!['('] + signed_decimal(pair.0 as int) + seq![',', ' '] + signed_decimal(pair.1 as int)
        + seq![')']
}

/// Appends the text of a pair of numbers.
pub fn push_pair(out: &mut String, pair: (i64, i64))
    ensures
        final(out)@ == old(out)@ + pair_text(pair),
{
    proof {
        reveal_strlit("(");
        reveal_strlit(", ");
        reveal_strlit(")");
    }
    out.append("(");
    push_signed(out, pair.0);
    out.append(", ");
    push_signed(out, pair.1);
    out.append(")");
    assert(", "@ =~= seq![',', ' ']);
    assert(final(out)@ =~= old(out)@ + pair_text(pair));
}

} // verus!
