//! Reading words and numbers out of a line of text.
//!
//! A word is a maximal run of characters that are not white space, where
//! white space is what Unicode calls `White_Space`. A number is an unsigned
//! decimal numeral, which may carry a leading plus sign.

use vstd::prelude::*;

verus! {

/// Whether `c` is white space: one of the characters that Unicode classes
/// as `White_Space`.
pub open spec fn is_space(c: char) -> bool {
    let u = c as u32;
    ||| 0x09 <= u <= 0x0D
    ||| u == 0x20
    ||| u == 0x85
    ||| u == 0xA0
    ||| u == 0x1680
    ||| 0x2000 <= u <= 0x200A
    ||| u == 0x2028
    ||| u == 0x2029
    ||| u == 0x202F
    ||| u == 0x205F
    ||| u == 0x3000
}

/// The first position at or after `from` that does not hold white space, or
/// the end of `s` if there is none.
pub open spec fn skip_spaces(s: Seq<char>, from: int) -> int
    decreases s.len() - from,
{
    if 0 <= from < s.len() && is_space(s[from]) {
        skip_spaces(s, from + 1)
    } else {
        from
    }
}

/// The first position at or after `from` that holds white space, or the end
/// of `s` if there is none.
pub open spec fn skip_word(s: Seq<char>, from: int) -> int
    decreases s.len() - from,
{
    if 0 <= from < s.len() && !is_space(s[from]) {
        skip_word(s, from + 1)
    } else {
        from
    }
}

/// Where the word number `k` of `s` begins, counting from zero; the length of
/// `s` if it has no such word.
pub open spec fn word_start(s: Seq<char>, k: nat) -> int
    decreases k,
{
    if k == 0 {
        skip_spaces(s, 0)
    } else {
        skip_spaces(s, skip_word(s, word_start(s, (k - 1) as nat)))
    }
}

/// Where the word number `k` of `s` ends: one past its last character.
pub open spec fn word_end(s: Seq<char>, k: nat) -> int {
    skip_word(s, word_start(s, k))
}

/// The word number `k` of `s`, counting from zero, if `s` has that many.
pub open spec fn word(s: Seq<char>, k: nat) -> Option<Seq<char>> {
    if word_start(s, k) < s.len() {
        Some(s.subrange(word_start(s, k), word_end(s, k)))
    } else {
        None
    }
}

/// Whether `s` has a word number `k` and `span` gives the position of its
/// first character and the position after its last.
pub open spec fn spans_word(s: Seq<char>, k: int, span: (usize, usize)) -> bool {
    &&& k >= 0
    &&& word(s, k as nat) is Some
    &&& span.0 == word_start(s, k as nat)
    &&& span.1 == word_end(s, k as nat)
}

/// Whether `c` is one of the ten decimal digits.
pub open spec fn is_digit(c: char) -> bool {
    '0' <= c <= '9'
}

/// Whether `s` holds decimal digits and nothing else.
pub open spec fn all_digits(s: Seq<char>) -> bool {
    forall|i: int| 0 <= i < s.len() ==> is_digit(#[trigger] s[i])
}

/// The value of one digit; zero for any other character.
pub open spec fn digit_value(c: char) -> nat {
    if is_digit(c) {
        (c as u32 - '0' as u32) as nat
    } else {
        0
    }
}

/// The number that a run of digits denotes, most significant digit first.
pub open spec fn digits_value(s: Seq<char>) -> nat
    decreases s.len(),
{
    if s.len() == 0 {
        0
    } else {
        10 * digits_value(s.drop_last()) + digit_value(s.last())
    }
}

/// The digits of a numeral: the numeral without its plus sign, if it has one.
pub open spec fn unsigned_part(token: Seq<char>) -> Seq<char> {
    if token.len() > 0 && token[0] == '+' {
        token.skip(1)
    } else {
        token
    }
}

/// The number that `token` denotes: an optional plus sign, then at least one
/// digit and nothing but digits, the value no greater than `u64::MAX`.
/// Anything else denotes no number.
pub open spec fn parse_u64(token: Seq<char>) -> Option<u64> {
    let digits = unsigned_part(token);
    if digits.len() > 0 && all_digits(digits) && digits_value(digits) <= u64::MAX {
        Some(digits_value(digits) as u64)
    } else {
        None
    }
}

/// Skipping never moves backwards nor past the end, and stops where it says.
pub proof fn lemma_skip_bounds(s: Seq<char>, from: int)
    requires
        0 <= from <= s.len(),
    ensures
        from <= skip_spaces(s, from) <= s.len(),
        from <= skip_word(s, from) <= s.len(),
        skip_spaces(s, from) < s.len() ==> !is_space(s[skip_spaces(s, from)]),
        skip_word(s, from) < s.len() ==> is_space(s[skip_word(s, from)]),
        forall|i: int| from <= i < skip_spaces(s, from) ==> is_space(#[trigger] s[i]),
        forall|i: int| from <= i < skip_word(s, from) ==> !is_space(#[trigger] s[i]),
    decreases s.len() - from,
{
    if from < s.len() {
        lemma_skip_bounds(s, from + 1);
    }
}

/// The words of a line lie one after the other inside it.
pub proof fn lemma_word_bounds(s: Seq<char>, k: nat)
    ensures
        0 <= word_start(s, k) <= word_end(s, k) <= s.len(),
        k > 0 ==> word_end(s, (k - 1) as nat) <= word_start(s, k),
        word_start(s, k) < s.len() ==> word_start(s, k) < word_end(s, k),
    decreases k,
{
    if k == 0 {
        lemma_skip_bounds(s, 0);
    } else {
        lemma_word_bounds(s, (k - 1) as nat);
        lemma_skip_bounds(s, word_start(s, (k - 1) as nat));
        lemma_skip_bounds(s, word_end(s, (k - 1) as nat));
    }
    lemma_skip_bounds(s, word_start(s, k));
}

/// A word is not empty, holds no white space, and cannot be extended: it is
/// bounded by white space or by the ends of the line. A line that lacks a word
/// lacks all later ones.
pub proof fn lemma_word_is_maximal(s: Seq<char>, k: nat)
    ensures
        word(s, k) matches Some(w) ==> {
            &&& w.len() > 0
            &&& forall|i: int| 0 <= i < w.len() ==> !is_space(#[trigger] w[i])
            &&& word_start(s, k) > 0 ==> is_space(s[word_start(s, k) - 1])
            &&& word_end(s, k) < s.len() ==> is_space(s[word_end(s, k)])
        },
        word(s, k) is None ==> word(s, k + 1) is None,
{
    lemma_word_bounds(s, k);
    let start = word_start(s, k);
    lemma_skip_bounds(s, start);
    if k == 0 {
        lemma_skip_bounds(s, 0);
    } else {
        let before = word_end(s, (k - 1) as nat);
        lemma_word_bounds(s, (k - 1) as nat);
        lemma_skip_bounds(s, word_start(s, (k - 1) as nat));
        lemma_skip_bounds(s, before);
        if start < s.len() && start == before {
            // The previous word ended here, so it ended on white space.
            assert(is_space(s[before]));
        }
    }
    if start >= s.len() {
        assert(skip_word(s, start) == start);
        assert(skip_spaces(s, start) == start);
        assert(word_start(s, k + 1) == skip_spaces(s, skip_word(s, word_start(s, k))));
    }
}

/// Appending a digit to a run of digits never makes its value smaller.
pub proof fn lemma_digits_value_grows(s: Seq<char>, n: int)
    requires
        0 <= n <= s.len(),
    ensures
        digits_value(s.take(n)) <= digits_value(s),
    decreases s.len() - n,
{
    if n < s.len() {
        lemma_digits_value_grows(s, n + 1);
        assert(s.take(n + 1).drop_last() =~= s.take(n));
    } else {
        assert(s.take(n) =~= s);
    }
}

/// Whether `c` is white space.
pub fn is_whitespace(c: char) -> (b: bool)
    ensures
        b == is_space(c),
{
    let u: u32 = c as u32;
    (0x09 <= u && u <= 0x0D) || u == 0x20 || u == 0x85 || u == 0xA0 || u == 0x1680 || (0x2000 <= u
        && u <= 0x200A) || u == 0x2028 || u == 0x2029 || u == 0x202F || u == 0x205F || u == 0x3000
}

/// The characters of `s`, one by one.
pub fn chars_of(s: &str) -> (chars: Vec<char>)
    ensures
        chars@ == s@,
{
    let mut chars: Vec<char> = Vec::new();
    for c in iter: s.chars()
        invariant
            iter.seq() == s@,
            chars@ == s@.take(iter.index() as int),
    {
        assert(s@.take(iter.index() + 1) =~= s@.take(iter.index() as int).push(c));
        chars.push(c);
    }
    assert(s@.take(s@.len() as int) =~= s@);
    chars
}

/// The first position at or after `from` that does not hold white space.
pub(crate) fn after_spaces(chars: &Vec<char>, from: usize) -> (at: usize)
    requires
        from <= chars.len(),
    ensures
        at == skip_spaces(chars@, from as int),
        from <= at <= chars.len(),
{
    let mut at: usize = from;
    while at < chars.len() && is_whitespace(chars[at])
        invariant
            from <= at <= chars.len(),
            skip_spaces(chars@, at as int) == skip_spaces(chars@, from as int),
        decreases chars.len() - at,
    {
        at = at + 1;
    }
    at
}

/// The first position at or after `from` that holds white space.
pub(crate) fn after_word(chars: &Vec<char>, from: usize) -> (at: usize)
    requires
        from <= chars.len(),
    ensures
        at == skip_word(chars@, from as int),
        from <= at <= chars.len(),
{
    let mut at: usize = from;
    while at < chars.len() && !is_whitespace(chars[at])
        invariant
            from <= at <= chars.len(),
            skip_word(chars@, at as int) == skip_word(chars@, from as int),
        decreases chars.len() - at,
    {
        at = at + 1;
    }
    at
}

/// Whether the characters of `chars` from `from` up to `to` spell `word`.
pub(crate) fn spells(chars: &Vec<char>, from: usize, to: usize, word: &str) -> (b: bool)
    requires
        from <= to <= chars.len(),
    ensures
        b == (chars@.subrange(from as int, to as int) == word@),
{
    let expected = chars_of(word);
    let ghost part = chars@.subrange(from as int, to as int);
    if expected.len() != to - from {
        return false;
    }
    let mut i: usize = 0;
    while i < expected.len()
        invariant
            from <= to <= chars.len(),
            expected@ == word@,
            expected.len() == to - from,
            i <= expected.len(),
            part == chars@.subrange(from as int, to as int),
            forall|j: int| 0 <= j < i ==> part[j] == expected@[j],
        decreases expected.len() - i,
    {
        if chars[from + i] != expected[i] {
            assert(part[i as int] == chars@[from + i]);
            return false;
        }
        i = i + 1;
    }
    assert(part =~= expected@);
    true
}

/// Reads the characters of `chars` from `from` up to `to` as a number.
pub(crate) fn parse_range(chars: &Vec<char>, from: usize, to: usize) -> (value: Option<u64>)
    requires
        from <= to <= chars.len(),
    ensures
        value == parse_u64(chars@.subrange(from as int, to as int)),
{
    let ghost token = chars@.subrange(from as int, to as int);
    let start: usize = if from < to && chars[from] == '+' {
        from + 1
    } else {
        from
    };
    let ghost digits = chars@.subrange(start as int, to as int);
    assert(digits =~= unsigned_part(token));
    if start == to {
        return None;
    }
    let mut value: u64 = 0;
    let mut at: usize = start;
    assert(digits.take(0) =~= Seq::<char>::empty());
    while at < to
        invariant
            from <= start <= at <= to <= chars.len(),
            token == chars@.subrange(from as int, to as int),
            digits == chars@.subrange(start as int, to as int),
            digits == unsigned_part(token),
            all_digits(digits.take(at - start)),
            value == digits_value(digits.take(at - start)),
        decreases to - at,
    {
        let c: char = chars[at];
        let ghost next = digits.take(at - start + 1);
        assert(next.drop_last() =~= digits.take(at - start));
        assert(next.last() == c);
        assert(digits[at - start] == c);
        if c < '0' || c > '9' {
            assert(!is_digit(digits[at - start]));
            return None;
        }
        let d: u64 = (c as u32 - '0' as u32) as u64;
        if value > (u64::MAX - d) / 10 {
            proof {
                lemma_digits_value_grows(digits, at - start + 1);
            }
            return None;
        }
        value = 10 * value + d;
        at = at + 1;
        assert forall|i: int| 0 <= i < next.len() implies is_digit(#[trigger] next[i]) by {
            if i < next.len() - 1 {
                assert(next[i] == digits.take(at - start - 1)[i]);
            }
        }
    }
    assert(digits.take(to - start) =~= digits);
    Some(value)
}

/// Reads `token` as a number.
pub fn parse_number(token: &str) -> (value: Option<u64>)
    ensures
        value == parse_u64(token@),
{
    let chars = chars_of(token);
    assert(chars@.subrange(0, chars@.len() as int) =~= token@);
    parse_range(&chars, 0, chars.len())
}

/// Where the first words of a line lie: for each of them the position of its
/// first character and the position after its last, in order. No more than
/// `limit` words are looked for.
pub fn word_bounds(chars: &Vec<char>, limit: usize) -> (bounds: Vec<(usize, usize)>)
    ensures
        bounds.len() <= limit,
        forall|k: int| 0 <= k < bounds.len() ==> #[trigger] spans_word(chars@, k, bounds@[k]),
        bounds.len() < limit ==> word(chars@, bounds.len() as nat) is None,
{
    let mut bounds: Vec<(usize, usize)> = Vec::new();
    let mut at: usize = after_spaces(chars, 0);
    while bounds.len() < limit && at < chars.len()
        invariant
            at <= chars.len(),
            bounds.len() <= limit,
            at == word_start(chars@, bounds.len() as nat),
            forall|k: int| 0 <= k < bounds.len() ==> #[trigger] spans_word(chars@, k, bounds@[k]),
        decreases chars.len() - at,
    {
        let end: usize = after_word(chars, at);
        let ghost found = bounds@;
        let ghost start = at;
        proof {
            lemma_word_bounds(chars@, found.len());
            assert(word_start(chars@, found.len() + 1) == skip_spaces(
                chars@,
                word_end(chars@, found.len()),
            ));
        }
        bounds.push((at, end));
        at = after_spaces(chars, end);
        assert forall|k: int| 0 <= k < bounds.len() implies #[trigger] spans_word(
            chars@,
            k,
            bounds@[k],
        ) by {
            if k < found.len() {
                assert(spans_word(chars@, k, found[k]));
            } else {
                assert(word_start(chars@, k as nat) == start);
            }
        }
    }
    bounds
}

} // verus!
