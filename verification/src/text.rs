//! Fixed-width text fragments: decimal numerals and padding.
//!
//! Widths are counted in characters, and a fragment that is already as wide
//! as the requested width (or wider) is left exactly as it is.

use vstd::prelude::*;
use vstd::string::*;

verus! {

/// The numeral character of a single decimal digit.
pub open spec fn digit(d: int) -> char
    recommends
        0 <= d < 10,
{
    ('0' as u8 + d) as char
}

/// The decimal numeral of `n`, most significant digit first, without leading
/// zeros (zero itself is written `0`).
pub open spec fn decimal(n: nat) -> Seq<char>
    decreases n,
{
    if n < 10 {
        seq![digit(n as int)]
    } else {
        decimal(n / 10).push(digit((n % 10) as int))
    }
}

/// `count` copies of the character `c`.
pub open spec fn fill(c: char, count: nat) -> Seq<char> {
    Seq::new(count, |i: int| c)
}

/// `s` moved to the right edge of a field of `width` characters, the gap on
/// its left taken up by `pad`.
pub open spec fn padded_left(s: Seq<char>, width: nat, pad: char) -> Seq<char> {
    if s.len() >= width {
        s
    } else {
        fill(pad, (width - s.len()) as nat) + s
    }
}

/// `s` right-aligned with spaces in a field of `width` characters.
pub open spec fn right_aligned(s: Seq<char>, width: nat) -> Seq<char> {
    padded_left(s, width, ' ')
}

/// The numeral of `n` with leading zeros up to `width` characters.
pub open spec fn zero_padded(n: nat, width: nat) -> Seq<char> {
    padded_left(decimal(n), width, '0')
}

/// `s` centred with spaces in a field of `width` characters. When the gap
/// cannot be split evenly, the extra space goes to the right.
pub open spec fn centered(s: Seq<char>, width: nat) -> Seq<char> {
    if s.len() >= width {
        s
    } else {
        let gap = (width - s.len()) as nat;
        fill(' ', gap / 2) + s + fill(' ', (gap - gap / 2) as nat)
    }
}

/// A numeral is never empty.
pub proof fn lemma_decimal_len_positive(n: nat)
    ensures
        decimal(n).len() >= 1,
    decreases n,
{
    if n >= 10 {
        lemma_decimal_len_positive(n / 10);
    }
}

/// Numbers below a thousand take at most three characters; each power of
/// ten below that bound adds one.
pub proof fn lemma_decimal_len_small(n: nat)
    requires
        n < 1000,
    ensures
        n < 10 ==> decimal(n).len() == 1,
        10 <= n < 100 ==> decimal(n).len() == 2,
        100 <= n ==> decimal(n).len() == 3,
{
    reveal_with_fuel(decimal, 3);
}

/// Padding and centring never shorten a fragment and never leave it narrower
/// than the field.
pub proof fn lemma_padding_len(s: Seq<char>, width: nat, pad: char)
    ensures
        padded_left(s, width, pad).len() == if s.len() >= width { s.len() } else { width },
        centered(s, width).len() == if s.len() >= width { s.len() } else { width },
{
}

fn digit_text(d: u8) -> (s: &'static str)
    requires
        d < 10,
    ensures
        s@ == seq![digit(d as int)],
{
    let digits = "0123456789";
    proof {
        reveal_strlit("0123456789");
    }
    let at: usize = d as usize;
    let s = digits.substring_ascii(at, at + 1);
    assert(s@ =~= seq![digit(d as int)]);
    s
}

/// Appends the decimal numeral of `n` to `out`.
pub fn push_decimal(out: &mut String, n: u128)
    ensures
        final(out)@ == old(out)@ + decimal(n as nat),
    decreases n,
{
    if n >= 10 {
        push_decimal(out, n / 10);
    }
    out.append(digit_text((n % 10) as u8));
    assert(out@ =~= old(out)@ + decimal(n as nat));
}

/// Appends `count` copies of the one-character text `unit` to `out`.
fn push_fill(out: &mut String, unit: &str, count: usize)
    requires
        unit@.len() == 1,
    ensures
        final(out)@ == old(out)@ + fill(unit@[0], count as nat),
{
    let mut done: usize = 0;
    assert(out@ =~= old(out)@ + fill(unit@[0], 0));
    while done < count
        invariant
            done <= count,
            unit@.len() == 1,
            out@ == old(out)@ + fill(unit@[0], done as nat),
        decreases count - done,
    {
        out.append(unit);
        done = done + 1;
        assert(out@ =~= old(out)@ + fill(unit@[0], done as nat));
    }
}

/// The decimal numeral of `n`.
pub fn decimal_string(n: u128) -> (out: String)
    ensures
        out@ == decimal(n as nat),
{
    let mut out = String::new();
    push_decimal(&mut out, n);
    assert(out@ =~= decimal(n as nat));
    out
}

/// Right-aligns `s` with spaces in a field of `width` characters.
pub fn right_align(s: &str, width: usize) -> (out: String)
    ensures
        out@ == right_aligned(s@, width as nat),
{
    let len: usize = s.unicode_len();
    let mut out = String::new();
    if len < width {
        proof {
            reveal_strlit(" ");
        }
        push_fill(&mut out, " ", width - len);
    }
    out.append(s);
    assert(out@ =~= right_aligned(s@, width as nat));
    out
}

/// The numeral of `n` with leading zeros up to `width` characters.
pub fn zero_pad(n: u64, width: usize) -> (out: String)
    ensures
        out@ == zero_padded(n as nat, width as nat),
{
    let numeral = decimal_string(n as u128);
    let len: usize = numeral.as_str().unicode_len();
    let mut out = String::new();
    if len < width {
        proof {
            reveal_strlit("0");
        }
        push_fill(&mut out, "0", width - len);
    }
    out.append(numeral.as_str());
    assert(out@ =~= zero_padded(n as nat, width as nat));
    out
}

/// Centres `s` with spaces in a field of `width` characters.
pub fn center(s: &str, width: usize) -> (out: String)
    ensures
        out@ == centered(s@, width as nat),
{
    let len: usize = s.unicode_len();
    let mut out = String::new();
    if len < width {
        proof {
            reveal_strlit(" ");
        }
        let gap: usize = width - len;
        let left: usize = gap / 2;
        push_fill(&mut out, " ", left);
        out.append(s);
        push_fill(&mut out, " ", gap - left);
    } else {
        out.append(s);
    }
    assert(out@ =~= centered(s@, width as nat));
    out
}

} // verus!
