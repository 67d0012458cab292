//! Decimal rendering and small text helpers shared by the argument synthesizers.
use vstd::prelude::*;

verus! {

/// The character of a decimal digit.
pub open spec fn digit_char(d: nat) -> char {
    if d == 0 {
        '0'
    } else if d == 1 {
        '1'
    } else if d == 2 {
        '2'
    } else if d == 3 {
        '3'
    } else if d == 4 {
        '4'
    } else if d == 5 {
        '5'
    } else if d == 6 {
        '6'
    } else if d == 7 {
        '7'
    } else if d == 8 {
        '8'
    } else {
        '9'
    }
}

/// The value of a decimal digit character (0 for any other character).
pub open spec fn char_value(c: char) -> nat {
    if c == '1' {
        1
    } else if c == '2' {
        2
    } else if c == '3' {
        3
    } else if c == '4' {
        4
    } else if c == '5' {
        5
    } else if c == '6' {
        6
    } else if c == '7' {
        7
    } else if c == '8' {
        8
    } else if c == '9' {
        9
    } else {
        0
    }
}

/// Shortest decimal notation of a natural number.
pub open spec fn dec(n: nat) -> Seq<char>
    decreases n,
{
    if n < 10 {
        seq![digit_char(n)]
    } else {
        dec(n / 10).push(digit_char(n % 10))
    }
}

/// The number that a string of decimal digits denotes.
pub open spec fn digits_value(s: Seq<char>) -> nat
    decreases s.len(),
{
    if s.len() == 0 {
        0
    } else {
        digits_value(s.drop_last()) * 10 + char_value(s.last())
    }
}

/// `n` in decimal, with leading zeros up to `width` characters (never truncated).
pub open spec fn zero_padded(n: nat, width: nat) -> Seq<char> {
    if dec(n).len() < width {
        Seq::new((width - dec(n).len()) as nat, |i: int| '0') + dec(n)
    } else {
        dec(n)
    }
}

/// Decimal notation of a signed integer.
pub open spec fn signed_dec(x: int) -> Seq<char> {
    if x < 0 {
        seq!['-'] + dec((-x) as nat)
    } else {
        dec(x as nat)
    }
}

/// A quantity given in thousandths, written as the shortest decimal fraction
/// (`7500` is `7.5`, `5000` is `5`, `250` is `0.25`).
pub open spec fn thousandths_text(t: nat) -> Seq<char> {
    let whole = t / 1000;
    let frac = t % 1000;
    if frac == 0 {
        dec(whole)
    } else if frac % 100 == 0 {
        dec(whole) + seq!['.'] + dec(frac / 100)
    } else if frac % 10 == 0 {
        dec(whole) + seq!['.'] + zero_padded(frac / 10, 2)
    } else {
        dec(whole) + seq!['.'] + zero_padded(frac, 3)
    }
}

/// The views of a list of strings.
pub open spec fn texts(v: Seq<String>) -> Seq<Seq<char>> {
    v.map_values(|s: String| s@)
}

/// The parts written one after another, with `sep` between neighbours.
pub open spec fn joined(parts: Seq<Seq<char>>, sep: Seq<char>) -> Seq<char>
    decreases parts.len(),
{
    if parts.len() == 0 {
        Seq::empty()
    } else if parts.len() == 1 {
        parts[0]
    } else {
        joined(parts.drop_last(), sep) + sep + parts.last()
    }
}

pub proof fn lemma_dec_len_bound(n: nat, k: nat, p: nat)
    requires
        n < p,
        p == pow10(k),
        k >= 1,
    ensures
        dec(n).len() <= k,
    decreases k,
{
    if n >= 10 {
        assert(n / 10 < pow10((k - 1) as nat)) by {
            assert(pow10(k) == 10 * pow10((k - 1) as nat));
        }
        if k == 1 {
            assert(pow10(1) == 10 * pow10(0));
            assert(false);
        } else {
            lemma_dec_len_bound(n / 10, (k - 1) as nat, pow10((k - 1) as nat));
        }
    }
}

/// Powers of ten.
pub open spec fn pow10(k: nat) -> nat
    decreases k,
{
    if k == 0 {
        1
    } else {
        10 * pow10((k - 1) as nat)
    }
}

pub proof fn lemma_digit_round_trip(d: nat)
    requires
        d < 10,
    ensures
        char_value(digit_char(d)) == d,
{
}

pub proof fn lemma_dec_value(n: nat)
    ensures
        digits_value(dec(n)) == n,
    decreases n,
{
    if n >= 10 {
        lemma_dec_value(n / 10);
        let s = dec(n);
        assert(s.drop_last() =~= dec(n / 10));
        assert(s.last() == digit_char(n % 10));
        lemma_digit_round_trip(n % 10);
        assert(digits_value(s) == digits_value(dec(n / 10)) * 10 + n % 10);
        assert(n == (n / 10) * 10 + n % 10);
    } else {
        let s = dec(n);
        assert(s.drop_last() =~= Seq::<char>::empty());
        assert(digits_value(Seq::<char>::empty()) == 0);
        lemma_digit_round_trip(n);
        assert(digits_value(s) == digits_value(s.drop_last()) * 10 + char_value(s.last()));
    }
}

pub proof fn lemma_leading_zeros_value(z: nat, s: Seq<char>)
    ensures
        digits_value(Seq::new(z, |i: int| '0') + s) == digits_value(s),
    decreases s.len() + z,
{
    let zs = Seq::new(z, |i: int| '0');
    if s.len() == 0 {
        assert(zs + s =~= zs);
        if z > 0 {
            let shorter = Seq::new((z - 1) as nat, |i: int| '0');
            assert(zs.drop_last() =~= shorter + Seq::<char>::empty());
            lemma_leading_zeros_value((z - 1) as nat, Seq::<char>::empty());
        }
    } else {
        assert((zs + s).drop_last() =~= zs + s.drop_last());
        lemma_leading_zeros_value(z, s.drop_last());
    }
}

pub proof fn lemma_zero_padded_value(n: nat, width: nat)
    ensures
        digits_value(zero_padded(n, width)) == n,
{
    lemma_dec_value(n);
    if dec(n).len() < width {
        lemma_leading_zeros_value((width - dec(n).len()) as nat, dec(n));
    }
}

pub proof fn lemma_zero_padded_len(n: nat, width: nat, p: nat)
    requires
        width >= 1,
        p == pow10(width),
        n < p,
    ensures
        zero_padded(n, width).len() == width,
{
    lemma_dec_len_bound(n, width, p);
}

/// Appends a copy of `s` to a list of arguments.
pub fn push_arg(args: &mut Vec<String>, s: &str)
    ensures
        texts(final(args)@) == texts(old(args)@).push(s@),
{
    args.push(String::from_str(s));
    proof {
        assert(texts(final(args)@) =~= texts(old(args)@).push(s@));
    }
}

/// Appends `s` to a list of arguments.
pub fn push_owned(args: &mut Vec<String>, s: String)
    ensures
        texts(final(args)@) == texts(old(args)@).push(s@),
{
    let ghost v = s@;
    args.push(s);
    proof {
        assert(texts(final(args)@) =~= texts(old(args)@).push(v));
    }
}

/// A string holding the text of a literal.
pub fn text(s: &str) -> (r: String)
    ensures
        r@ == s@,
{
    String::from_str(s)
}

/// The literal text of one decimal digit.
fn digit_str(d: u64) -> (r: &'static str)
    requires
        d < 10,
    ensures
        r@ == seq![digit_char(d as nat)],
{
    proof {
        reveal_strlit("0");
        reveal_strlit("1");
        reveal_strlit("2");
        reveal_strlit("3");
        reveal_strlit("4");
        reveal_strlit("5");
        reveal_strlit("6");
        reveal_strlit("7");
        reveal_strlit("8");
        reveal_strlit("9");
    }
    if d == 0 {
        "0"
    } else if d == 1 {
        "1"
    } else if d == 2 {
        "2"
    } else if d == 3 {
        "3"
    } else if d == 4 {
        "4"
    } else if d == 5 {
        "5"
    } else if d == 6 {
        "6"
    } else if d == 7 {
        "7"
    } else if d == 8 {
        "8"
    } else {
        "9"
    }
}

/// Appends `n` in decimal.
pub fn push_decimal(out: &mut String, n: u64)
    ensures
        final(out)@ == old(out)@ + dec(n as nat),
    decreases n,
{
    if n < 10 {
        out.append(digit_str(n));
    } else {
        push_decimal(out, n / 10);
        out.append(digit_str(n % 10));
        proof {
            assert(final(out)@ =~= old(out)@ + dec(n as nat));
        }
    }
}

/// Appends `n` in decimal, with leading zeros up to `width` characters.
pub fn push_padded(out: &mut String, n: u64, width: u64)
    requires
        width <= 20,
    ensures
        final(out)@ == old(out)@ + zero_padded(n as nat, width as nat),
{
    let mut digits = String::new();
    push_decimal(&mut digits, n);
    let len = digits.as_str().unicode_len();
    let mut missing: u64 = if (len as u64) < width {
        width - len as u64
    } else {
        0
    };
    let ghost start = out@;
    let ghost total = missing;
    proof {
        if dec(n as nat).len() < width {
            assert(total == width - dec(n as nat).len());
        }
    }
    while missing > 0
        invariant
            missing <= total,
            out@ == start + Seq::new((total - missing) as nat, |i: int| '0'),
        decreases missing,
    {
        proof {
            reveal_strlit("0");
        }
        out.append("0");
        missing = missing - 1;
        proof {
            assert(out@ =~= start + Seq::new((total - missing) as nat, |i: int| '0'));
        }
    }
    out.append(digits.as_str());
    proof {
        if dec(n as nat).len() < width {
            assert(out@ =~= start + zero_padded(n as nat, width as nat));
        } else {
            assert(out@ =~= start + zero_padded(n as nat, width as nat));
        }
    }
}

/// Appends a signed integer in decimal.
pub fn push_signed(out: &mut String, x: i64)
    ensures
        final(out)@ == old(out)@ + signed_dec(x as int),
{
    if x < 0 {
        proof {
            reveal_strlit("-");
        }
        out.append("-");
        let magnitude: u64 = if x == i64::MIN {
            9223372036854775808u64
        } else {
            (-x) as u64
        };
        push_decimal(out, magnitude);
        proof {
            assert(final(out)@ =~= old(out)@ + signed_dec(x as int));
        }
    } else {
        push_decimal(out, x as u64);
    }
}

/// Appends a quantity in thousandths as its shortest decimal fraction.
pub fn push_thousandths(out: &mut String, t: u64)
    ensures
        final(out)@ == old(out)@ + thousandths_text(t as nat),
{
    let whole = t / 1000;
    let frac = t % 1000;
    let ghost start = out@;
    push_decimal(out, whole);
    if frac != 0 {
        proof {
            reveal_strlit(".");
        }
        out.append(".");
        if frac % 100 == 0 {
            push_decimal(out, frac / 100);
        } else if frac % 10 == 0 {
            push_padded(out, frac / 10, 2);
        } else {
            push_padded(out, frac, 3);
        }
    }
    proof {
        assert(out@ =~= start + thousandths_text(t as nat));
    }
}

} // verus!
