//! Text building blocks shared by the console, the logger and the colour codes:
//! decimal rendering of integers, padding, and comparison of string slices.
use vstd::prelude::*;
use vstd::string::*;

verus! {

/// The character of a decimal digit `d` (for `d` in `0..10`).
pub open spec fn digit_char(d: nat) -> char {
    if d == 0 {
        '0'
    } else if d == 1 {
        '1'
    } else if d == 2 {
        '2'
    } else if d == 3 {
        '3'
    } else if d == 4 {
        '4'
    } else if d == 5 {
        '5'
    } else if d == 6 {
        '6'
    } else if d == 7 {
        '7'
    } else if d == 8 {
        '8'
    } else {
        '9'
    }
}

/// The decimal representation of `n`, most significant digit first, without leading zeros
/// (what `{}` prints for an unsigned integer).
pub open spec fn decimal(n: nat) -> Seq<char>
    decreases n,
{
    if n < 10 {
        seq![digit_char(n)]
    } else {
        decimal(n / 10).push(digit_char(n % 10))
    }
}

/// `s` preceded by as many `fill` characters as it takes to reach `width` characters
/// (what `{:>width}` and `{:0width}` print); `s` itself when it is already that long.
pub open spec fn pad_left(s: Seq<char>, width: nat, fill: char) -> Seq<char> {
    if s.len() < width {
        Seq::new((width - s.len()) as nat, |i: int| fill) + s
    } else {
        s
    }
}

/// The one-character string of the digit `d`.
fn digit_str(d: u64) -> (s: &'static str)
    requires
        d < 10,
    ensures
        s@ == seq![digit_char(d as nat)],
{
    proof {
        reveal_strlit("0");
        reveal_strlit("1");
        reveal_strlit("2");
        reveal_strlit("3");
        reveal_strlit("4");
        reveal_strlit("5");
        reveal_strlit("6");
        reveal_strlit("7");
        reveal_strlit("8");
        reveal_strlit("9");
    }
    if d == 0 {
        "0"
    } else if d == 1 {
        "1"
    } else if d == 2 {
        "2"
    } else if d == 3 {
        "3"
    } else if d == 4 {
        "4"
    } else if d == 5 {
        "5"
    } else if d == 6 {
        "6"
    } else if d == 7 {
        "7"
    } else if d == 8 {
        "8"
    } else {
        "9"
    }
}

/// Appends the decimal representation of `n` to `out`.
pub fn push_decimal(out: &mut String, n: u64)
    ensures
        final(out)@ == old(out)@ + decimal(n as nat),
    decreases n,
{
    if n >= 10 {
        push_decimal(out, n / 10);
    }
    let d = digit_str(n % 10);
    out.append(d);
    proof {
        if n >= 10 {
            assert(decimal(n as nat) == decimal((n / 10) as nat).push(digit_char((n % 10) as nat)));
        }
    }
    assert(final(out)@ =~= old(out)@ + decimal(n as nat));
}

/// The decimal representation of `n` as a new string.
pub fn decimal_string(n: u64) -> (s: String)
    ensures
        s@ == decimal(n as nat),
{
    let mut s = String::new();
    push_decimal(&mut s, n);
    assert(s@ =~= decimal(n as nat));
    s
}

/// Appends `text` to `out`, preceded by copies of the single character `fill` up to `width`
/// characters in all.
pub fn push_padded(out: &mut String, text: &str, width: usize, fill: &str)
    requires
        fill@.len() == 1,
    ensures
        final(out)@ == old(out)@ + pad_left(text@, width as nat, fill@[0]),
{
    let len = text.unicode_len();
    if len < width {
        let mut i: usize = 0;
        while i < width - len
            invariant
                len == text@.len(),
                len < width,
                fill@.len() == 1,
                i <= width - len,
                out@ =~= old(out)@ + Seq::new(i as nat, |k: int| fill@[0]),
            decreases width - len - i,
        {
            out.append(fill);
            i = i + 1;
        }
    }
    out.append(text);
    assert(out@ =~= old(out)@ + pad_left(text@, width as nat, fill@[0]));
}

/// Whether two string slices hold the same characters.
pub fn text_eq(a: &str, b: &str) -> (r: bool)
    ensures
        r == (a@ == b@),
{
    let n = a.unicode_len();
    if n != b.unicode_len() {
        return false;
    }
    let mut i: usize = 0;
    while i < n
        invariant
            n == a@.len(),
            n == b@.len(),
            i <= n,
            forall|j: int| 0 <= j < i ==> a@[j] == b@[j],
        decreases n - i,
    {
        if a.get_char(i) != b.get_char(i) {
            return false;
        }
        i = i + 1;
    }
    assert(a@ =~= b@);
    true
}

/// Whether `c` is a decimal digit.
pub open spec fn is_digit(c: char) -> bool {
    '0' <= c <= '9'
}

/// The value of the decimal digit `c`.
pub open spec fn digit_value(c: char) -> nat {
    if c == '1' {
        1
    } else if c == '2' {
        2
    } else if c == '3' {
        3
    } else if c == '4' {
        4
    } else if c == '5' {
        5
    } else if c == '6' {
        6
    } else if c == '7' {
        7
    } else if c == '8' {
        8
    } else if c == '9' {
        9
    } else {
        0
    }
}

/// The number a string of decimal digits stands for.
pub open spec fn digits_value(s: Seq<char>) -> nat
    decreases s.len(),
{
    if s.len() == 0 {
        0
    } else {
        digits_value(s.drop_last()) * 10 + digit_value(s.last())
    }
}

/// The decimal representation of `n` is a non-empty string of digits that stands for `n`.
pub proof fn lemma_decimal_digits(n: nat)
    ensures
        decimal(n).len() >= 1,
        digits_value(decimal(n)) == n,
        forall|i: int| 0 <= i < decimal(n).len() ==> is_digit(#[trigger] decimal(n)[i]),
    decreases n,
{
    if n < 10 {
        assert(seq![digit_char(n)].drop_last() =~= Seq::<char>::empty());
        assert(digit_value(digit_char(n)) == n);
        assert(digits_value(decimal(n)) == digits_value(Seq::<char>::empty()) * 10 + digit_value(
            digit_char(n),
        ));
    } else {
        lemma_decimal_digits(n / 10);
        let d = decimal(n);
        assert(d.drop_last() =~= decimal(n / 10));
        assert(d.last() == digit_char(n % 10));
        assert(digit_value(digit_char(n % 10)) == n % 10);
        assert(digits_value(d) == digits_value(decimal(n / 10)) * 10 + digit_value(d.last()));
        assert((n / 10) * 10 + n % 10 == n);
    }
}

/// Different numbers have different decimal representations.
pub proof fn lemma_decimal_injective(n: nat, m: nat)
    requires
        decimal(n) == decimal(m),
    ensures
        n == m,
{
    lemma_decimal_digits(n);
    lemma_decimal_digits(m);
}

/// A split at the first separator is unique: when `x` and `y` hold no `sep`,
/// `x + [sep] + u == y + [sep] + v` only when `x == y` and `u == v`.
pub proof fn lemma_split_at_separator(x: Seq<char>, u: Seq<char>, y: Seq<char>, v: Seq<char>, sep: char)
    requires
        forall|i: int| 0 <= i < x.len() ==> #[trigger] x[i] != sep,
        forall|i: int| 0 <= i < y.len() ==> #[trigger] y[i] != sep,
        x + seq![sep] + u == y + seq![sep] + v,
    ensures
        x == y,
        u == v,
{
    let a = x + seq![sep] + u;
    let b = y + seq![sep] + v;
    if x.len() < y.len() {
        assert(a[x.len() as int] == sep);
        assert(b[x.len() as int] == y[x.len() as int]);
    } else if y.len() < x.len() {
        assert(b[y.len() as int] == sep);
        assert(a[y.len() as int] == x[y.len() as int]);
    } else {
        assert forall|i: int| 0 <= i < x.len() implies x[i] == y[i] by {
            assert(a[i] == x[i]);
            assert(b[i] == y[i]);
        }
        assert(x =~= y);
        assert(u =~= a.skip(x.len() + 1int));
        assert(v =~= b.skip(y.len() + 1int));
    }
}

/// The digit characters are the ASCII characters `0` to `9`, in order: digit `d` has code
/// `48 + d`.
pub proof fn lemma_digit_char_ascii()
    ensures
        forall|d: nat| d < 10 ==> (#[trigger] digit_char(d)) as u32 == 48 + d,
        forall|d: nat| d < 10 ==> digit_value(#[trigger] digit_char(d)) == d,
{
    assert forall|d: nat| d < 10 implies (#[trigger] digit_char(d)) as u32 == 48 + d && digit_value(digit_char(d)) == d by {
        if d == 0 {} else if d == 1 {} else if d == 2 {} else if d == 3 {} else if d == 4 {}
        else if d == 5 {} else if d == 6 {} else if d == 7 {} else if d == 8 {} else {}
    }
}

/// Padding puts `width - s.len()` copies of `fill` before `s` when `s` is shorter than `width`,
/// and nothing otherwise: the result keeps `s` at its end and is at least `width` long.
pub proof fn lemma_pad_left(s: Seq<char>, width: nat, fill: char)
    ensures
        pad_left(s, width, fill).len() == if s.len() < width { width } else { s.len() },
        pad_left(s, width, fill).subrange(
            pad_left(s, width, fill).len() - s.len(),
            pad_left(s, width, fill).len() as int,
        ) == s,
        forall|i: int|
            0 <= i < pad_left(s, width, fill).len() - s.len() ==> #[trigger] pad_left(s, width, fill)[i]
                == fill,
{
    let p = pad_left(s, width, fill);
    assert(p.subrange(p.len() - s.len(), p.len() as int) =~= s);
}

/// Ten to the power `k`.
pub open spec fn pow10(k: nat) -> nat
    decreases k,
{
    if k == 0 {
        1
    } else {
        10 * pow10((k - 1) as nat)
    }
}

/// The decimal representation of a number below `10^k` has at most `k` digits.
pub proof fn lemma_decimal_len(n: nat, k: nat)
    requires
        n < pow10(k),
        k >= 1,
    ensures
        decimal(n).len() <= k,
    decreases k,
{
    if n >= 10 {
        if k == 1 {
        } else {
            lemma_decimal_len(n / 10, (k - 1) as nat);
        }
    }
}


/// A string of zeros stands for 0.
pub proof fn lemma_zeros_value(z: nat)
    ensures
        digits_value(Seq::new(z, |i: int| '0')) == 0,
    decreases z,
{
    if z > 0 {
        lemma_zeros_value((z - 1) as nat);
        assert(Seq::new(z, |i: int| '0').drop_last() =~= Seq::new((z - 1) as nat, |i: int| '0'));
    }
}

/// Leading zeros do not change the number a string of digits stands for.
pub proof fn lemma_leading_zeros_value(z: nat, s: Seq<char>)
    ensures
        digits_value(Seq::new(z, |i: int| '0') + s) == digits_value(s),
    decreases s.len(),
{
    let zs = Seq::new(z, |i: int| '0');
    if s.len() == 0 {
        assert(zs + s =~= zs);
        lemma_zeros_value(z);
    } else {
        lemma_leading_zeros_value(z, s.drop_last());
        assert((zs + s).drop_last() =~= zs + s.drop_last());
        assert((zs + s).last() == s.last());
    }
}

} // verus!
