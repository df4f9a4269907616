//! Decimal numerals: writing integers as text and reading them back.

use vstd::prelude::*;
use vstd::string::*;

verus! {

/// The character of a decimal digit.
pub open spec fn spec_digit(d: nat) -> char
    recommends
        d < 10,
{
    if d == 0 {
        '0'
    } else if d == 1 {
        '1'
    } else if d == 2 {
        '2'
    } else if d == 3 {
        '3'
    } else if d == 4 {
        '4'
    } else if d == 5 {
        '5'
    } else if d == 6 {
        '6'
    } else if d == 7 {
        '7'
    } else if d == 8 {
        '8'
    } else {
        '9'
    }
}

/// The decimal numeral of a natural number, without leading zeros.
pub open spec fn spec_decimal(n: nat) -> Seq<char>
    decreases n,
{
    if n < 10 {
        seq![spec_digit(n)]
    } else {
        spec_decimal(n / 10).push(spec_digit(n % 10))
    }
}

/// The decimal numeral of an integer: a minus sign before the numeral of
/// the magnitude of a negative one.
pub open spec fn spec_decimal_int(n: int) -> Seq<char> {
    if n < 0 {
        seq!['-'] + spec_decimal((-n) as nat)
    } else {
        spec_decimal(n as nat)
    }
}

fn digit_str(d: u128) -> (s: &'static str)
    requires
        d < 10,
    ensures
        s@ == seq![spec_digit(d as nat)],
{
    proof {
        reveal_strlit("0");
        reveal_strlit("1");
        reveal_strlit("2");
        reveal_strlit("3");
        reveal_strlit("4");
        reveal_strlit("5");
        reveal_strlit("6");
        reveal_strlit("7");
        reveal_strlit("8");
        reveal_strlit("9");
    }
    let s = if d == 0 {
        "0"
    } else if d == 1 {
        "1"
    } else if d == 2 {
        "2"
    } else if d == 3 {
        "3"
    } else if d == 4 {
        "4"
    } else if d == 5 {
        "5"
    } else if d == 6 {
        "6"
    } else if d == 7 {
        "7"
    } else if d == 8 {
        "8"
    } else {
        "9"
    };
    assert(s@ =~= seq![spec_digit(d as nat)]);
    s
}

/// Writes a natural number as a decimal numeral.
pub fn decimal(n: u128) -> (s: String)
    ensures
        s@ == spec_decimal(n as nat),
    decreases n,
{
    if n < 10 {
        String::from_str(digit_str(n))
    } else {
        let mut s = decimal(n / 10);
        s.append(digit_str(n % 10));
        assert(s@ =~= spec_decimal(n as nat));
        s
    }
}

/// Writes an integer as a decimal numeral.
pub fn decimal_int(n: i128) -> (s: String)
    requires
        n > i128::MIN,
    ensures
        s@ == spec_decimal_int(n as int),
{
    if n < 0 {
        proof {
            reveal_strlit("-");
        }
        let mut s = String::from_str("-");
        let digits = decimal((-n) as u128);
        s.append(digits.as_str());
        assert(s@ =~= spec_decimal_int(n as int));
        s
    } else {
        decimal(n as u128)
    }
}

/// The value of a decimal digit, if the character is one.
pub open spec fn spec_digit_value(c: char) -> Option<nat> {
    if '0' <= c <= '9' {
        Some((c as nat - '0' as nat) as nat)
    } else {
        None
    }
}

/// Every character is a decimal digit.
pub open spec fn spec_all_digits(s: Seq<char>) -> bool {
    forall|i: int| 0 <= i < s.len() ==> spec_digit_value(#[trigger] s[i]) is Some
}

/// The number that a sequence of decimal digits writes.
pub open spec fn spec_numeral_value(s: Seq<char>) -> nat
    decreases s.len(),
{
    if s.len() == 0 {
        0
    } else {
        spec_numeral_value(s.drop_last()) * 10 + match spec_digit_value(s.last()) {
            Some(d) => d,
            None => 0,
        }
    }
}

/// The integer that a text writes: an optional sign, `+` or `-`, and then
/// at least one decimal digit and nothing else.
pub open spec fn spec_parse_int(s: Seq<char>) -> Option<int> {
    if s.len() == 0 {
        None
    } else if s[0] == '-' || s[0] == '+' {
        let digits = s.subrange(1, s.len() as int);
        if digits.len() > 0 && spec_all_digits(digits) {
            if s[0] == '-' {
                Some(-(spec_numeral_value(digits) as int))
            } else {
                Some(spec_numeral_value(digits) as int)
            }
        } else {
            None
        }
    } else if spec_all_digits(s) {
        Some(spec_numeral_value(s) as int)
    } else {
        None
    }
}

/// The natural number that a text writes: an optional `+` and then at
/// least one decimal digit and nothing else.
pub open spec fn spec_parse_nat(s: Seq<char>) -> Option<int> {
    if s.len() > 0 && s[0] == '-' {
        None
    } else {
        spec_parse_int(s)
    }
}

/// The integer that a text writes, if it lies in `lo..=hi`.
pub open spec fn spec_parse_in_range(s: Seq<char>, lo: int, hi: int) -> Option<int> {
    match spec_parse_int(s) {
        Some(v) => if lo <= v <= hi {
            Some(v)
        } else {
            None
        },
        None => None,
    }
}

/// The greatest magnitude that [`parse_int`] distinguishes.
pub const PARSE_LIMIT: i128 = 0x1_0000_0000_0000_0000_0000;

/// A longer numeral with the same leading digits writes no smaller number.
proof fn lemma_numeral_grows(s: Seq<char>, i: int)
    requires
        0 <= i <= s.len(),
    ensures
        spec_numeral_value(s.subrange(0, i)) <= spec_numeral_value(s),
    decreases s.len() - i,
{
    if i < s.len() {
        lemma_numeral_grows(s, i + 1);
        assert(s.subrange(0, i + 1).drop_last() =~= s.subrange(0, i));
    } else {
        assert(s.subrange(0, i) =~= s);
    }
}

/// Reads an integer in `lo..=hi`: an optional sign and decimal digits.
/// Returns `None` for any other text and for a number outside the range.
pub fn parse_int(s: &str, lo: i128, hi: i128) -> (r: Option<i128>)
    requires
        -PARSE_LIMIT <= lo,
        hi <= PARSE_LIMIT,
    ensures
        r matches Some(v) ==> spec_parse_in_range(s@, lo as int, hi as int) == Some(v as int),
        r is None ==> spec_parse_in_range(s@, lo as int, hi as int) is None,
{
    let n = s.unicode_len();
    if n == 0 {
        return None;
    }
    let first = s.get_char(0);
    let negative = first == '-';
    let start: usize = if first == '-' || first == '+' {
        1
    } else {
        0
    };
    if start == n {
        return None;
    }
    let ghost digits = s@.subrange(start as int, n as int);
    let mut acc: i128 = 0;
    let mut big = false;
    let mut i: usize = start;
    while i < n
        invariant
            n == s@.len(),
            n > 0,
            start <= i <= n,
            start == 0 || start == 1,
            start == 1 <==> (s@[0] == '-' || s@[0] == '+'),
            negative == (s@[0] == '-'),
            digits == s@.subrange(start as int, n as int),
            spec_all_digits(digits.subrange(0, i - start)),
            !big ==> acc == spec_numeral_value(digits.subrange(0, i - start)) && 0 <= acc
                <= PARSE_LIMIT,
            big ==> spec_numeral_value(digits.subrange(0, i - start)) > PARSE_LIMIT,
        decreases n - i,
    {
        let c = s.get_char(i);
        assert(digits[i - start] == c);
        if !('0' <= c && c <= '9') {
            proof {
                assert(spec_digit_value(digits[i - start]) is None);
                if start == 1 {
                    assert(!spec_all_digits(digits));
                } else {
                    assert(digits =~= s@);
                    assert(!spec_all_digits(s@));
                }
            }
            return None;
        }
        let d: i128 = (c as u32 - '0' as u32) as i128;
        proof {
            let upto = digits.subrange(0, i - start + 1);
            assert(upto.drop_last() =~= digits.subrange(0, i - start));
            assert(upto.last() == c);
            assert(spec_digit_value(c) == Some(d as nat));
            assert forall|t: int| 0 <= t < upto.len() implies spec_digit_value(
                #[trigger] upto[t],
            ) is Some by {
                if t < i - start {
                    assert(digits.subrange(0, i - start)[t] == upto[t]);
                }
            }
        }
        if !big {
            acc = acc * 10 + d;
            if acc > PARSE_LIMIT {
                big = true;
            }
        }
        i += 1;
    }
    proof {
        assert(digits.subrange(0, n - start) =~= digits);
        if start == 0 {
            assert(digits =~= s@);
        }
    }
    if big {
        return None;
    }
    let value = if negative {
        -acc
    } else {
        acc
    };
    if lo <= value && value <= hi {
        Some(value)
    } else {
        None
    }
}

/// Reads a natural number up to `hi`: an optional `+` and decimal digits.
pub fn parse_nat(s: &str, hi: u64) -> (r: Option<u64>)
    ensures
        r matches Some(v) ==> spec_parse_nat(s@) == Some(v as int) && v <= hi,
        r is None ==> match spec_parse_nat(s@) {
            Some(v) => v > hi,
            None => true,
        },
{
    if s.unicode_len() > 0 && s.get_char(0) == '-' {
        return None;
    }
    match parse_int(s, 0, hi as i128) {
        Some(v) => Some(v as u64),
        None => {
            proof {
                if spec_parse_int(s@) is Some {
                    assert(spec_parse_int(s@)->Some_0 >= 0);
                }
            }
            None
        },
    }
}

/// Whether a character is white space: a blank, a control character from
/// tab to carriage return, or one of the space characters beyond ASCII.
pub open spec fn spec_is_space(c: char) -> bool {
    let u = c as u32;
    ||| 0x09 <= u <= 0x0D
    ||| u == 0x20
    ||| u == 0x85
    ||| u == 0xA0
    ||| u == 0x1680
    ||| 0x2000 <= u <= 0x200A
    ||| u == 0x2028
    ||| u == 0x2029
    ||| u == 0x202F
    ||| u == 0x205F
    ||| u == 0x3000
}

/// Whether a character is white space.
pub fn is_space(c: char) -> (r: bool)
    ensures
        r == spec_is_space(c),
{
    let u = c as u32;
    (0x09 <= u && u <= 0x0D) || u == 0x20 || u == 0x85 || u == 0xA0 || u == 0x1680 || (0x2000 <= u
        && u <= 0x200A) || u == 0x2028 || u == 0x2029 || u == 0x202F || u == 0x205F || u == 0x3000
}

/// The end of the word that starts at `i`: the first white space at or
/// after `i`, or the end of the text.
pub open spec fn spec_word_end(s: Seq<char>, i: int) -> int
    decreases s.len() - i,
{
    if i < 0 || i >= s.len() || spec_is_space(s[i]) {
        i
    } else {
        spec_word_end(s, i + 1)
    }
}

/// The words of the text from position `i` on: the maximal runs of
/// characters that are not white space.
pub open spec fn spec_words_from(s: Seq<char>, i: int) -> Seq<Seq<char>>
    decreases s.len() - i,
{
    if i < 0 || i >= s.len() {
        Seq::empty()
    } else if spec_is_space(s[i]) {
        spec_words_from(s, i + 1)
    } else {
        let end = spec_word_end(s, i + 1);
        seq![s.subrange(i, end)] + if i < end <= s.len() {
            spec_words_from(s, end)
        } else {
            Seq::empty()
        }
    }
}

/// The words of a text.
pub open spec fn spec_words(s: Seq<char>) -> Seq<Seq<char>> {
    spec_words_from(s, 0)
}

/// A word ends after it starts and within the text.
pub proof fn lemma_word_end_bounds(s: Seq<char>, i: int)
    requires
        0 <= i <= s.len(),
    ensures
        i <= spec_word_end(s, i) <= s.len(),
    decreases s.len() - i,
{
    if i < s.len() && !spec_is_space(s[i]) {
        lemma_word_end_bounds(s, i + 1);
    }
}

/// The views of a vector of strings.
pub open spec fn spec_texts(v: Seq<String>) -> Seq<Seq<char>> {
    Seq::new(v.len(), |i: int| v[i]@)
}

/// Splits a text into its words.
pub fn split_whitespace(s: &str) -> (words: Vec<String>)
    ensures
        spec_texts(words@) == spec_words(s@),
{
    let n = s.unicode_len();
    let mut words: Vec<String> = Vec::new();
    let mut i: usize = 0;
    while i < n
        invariant
            n == s@.len(),
            i <= n,
            spec_texts(words@) + spec_words_from(s@, i as int) == spec_words(s@),
        decreases n - i,
    {
        if is_space(s.get_char(i)) {
            i += 1;
        } else {
            let mut end: usize = i + 1;
            while end < n && !is_space(s.get_char(end))
                invariant
                    n == s@.len(),
                    i < end <= n,
                    spec_word_end(s@, end as int) == spec_word_end(s@, i + 1),
                decreases n - end,
            {
                end += 1;
            }
            let ghost before = spec_texts(words@);
            let word = String::from_str(s.substring_char(i, end));
            words.push(word);
            proof {
                let w = s@.subrange(i as int, end as int);
                assert(spec_word_end(s@, i + 1) == end);
                assert(spec_texts(words@) =~= before.push(w));
                assert(before.push(w) + spec_words_from(s@, end as int) =~= before + (seq![w]
                    + spec_words_from(s@, end as int)));
            }
            i = end;
        }
    }
    assert(spec_texts(words@) + Seq::<Seq<char>>::empty() =~= spec_texts(words@));
    words
}

/// The texts from `from` on, with `sep` between each two.
pub open spec fn spec_join(parts: Seq<Seq<char>>, from: int, sep: Seq<char>) -> Seq<char>
    decreases parts.len() - from,
{
    if from < 0 || from >= parts.len() {
        Seq::empty()
    } else if from == parts.len() - 1 {
        parts[from]
    } else {
        parts[from] + sep + spec_join(parts, from + 1, sep)
    }
}

/// Joins the texts from `from` on, with `sep` between each two.
pub fn join_from(parts: &Vec<String>, from: usize, sep: &str) -> (r: String)
    ensures
        r@ == spec_join(spec_texts(parts@), from as int, sep@),
    decreases parts@.len() - from,
{
    if from >= parts.len() {
        String::new()
    } else if from == parts.len() - 1 {
        parts[from].clone()
    } else {
        let mut r = parts[from].clone();
        r.append(sep);
        let rest = join_from(parts, from + 1, sep);
        r.append(rest.as_str());
        r
    }
}

/// The characters of a text.
pub fn chars_of(s: &str) -> (r: Vec<char>)
    ensures
        r@ == s@,
{
    let n = s.unicode_len();
    let mut r: Vec<char> = Vec::with_capacity(n);
    let mut i: usize = 0;
    while i < n
        invariant
            n == s@.len(),
            i <= n,
            r@ == s@.subrange(0, i as int),
        decreases n - i,
    {
        r.push(s.get_char(i));
        assert(r@ =~= s@.subrange(0, i + 1));
        i += 1;
    }
    assert(r@ =~= s@);
    r
}

/// Whether `needle` stands somewhere in `text`, character for character.
pub open spec fn spec_contains_text(text: Seq<char>, needle: Seq<char>) -> bool {
    exists|i: int|
        0 <= i <= text.len() - needle.len() && #[trigger] text.subrange(i, i + needle.len())
            == needle
}

/// Whether `needle` stands at position `i` of `text`.
fn stands_at(text: &Vec<char>, needle: &Vec<char>, i: usize) -> (r: bool)
    requires
        i + needle@.len() <= text@.len(),
    ensures
        r == (text@.subrange(i as int, i + needle@.len()) == needle@),
{
    let m = needle.len();
    let n = text.len();
    let mut j: usize = 0;
    while j < m
        invariant
            m == needle@.len(),
            n == text@.len(),
            i + m <= n,
            j <= m,
            forall|q: int| 0 <= q < j ==> text@[i + q] == needle@[q],
        decreases m - j,
    {
        if text[i + j] != needle[j] {
            assert(text@.subrange(i as int, i + m)[j as int] != needle@[j as int]);
            return false;
        }
        j += 1;
    }
    assert(text@.subrange(i as int, i + m) =~= needle@);
    true
}

/// Whether `needle` stands somewhere in `text`: see
/// [`spec_contains_text`].
pub fn contains_text(text: &Vec<char>, needle: &Vec<char>) -> (r: bool)
    ensures
        r == spec_contains_text(text@, needle@),
{
    let n = text.len();
    let m = needle.len();
    if m > n {
        return false;
    }
    let last = n - m;
    let mut i: usize = 0;
    loop
        invariant
            n == text@.len(),
            m == needle@.len(),
            last == n - m,
            i <= last,
            forall|q: int| 0 <= q < i ==> #[trigger] text@.subrange(q, q + m) != needle@,
        decreases last - i,
    {
        if stands_at(text, needle, i) {
            return true;
        }
        if i == last {
            return false;
        }
        i += 1;
    }
}

} // verus!
