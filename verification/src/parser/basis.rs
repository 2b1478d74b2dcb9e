//! Character classes, digit runs and keyword matching.

use vstd::prelude::*;

verus! {

/// The ten decimal digits.
pub open spec fn is_digit(c: char) -> bool {
    '0' <= c <= '9'
}

/// The letters of the basic Latin alphabet.
pub open spec fn is_letter(c: char) -> bool {
    ('a' <= c <= 'z') || ('A' <= c <= 'Z')
}

/// A character that may continue an identifier or a keyword.
pub open spec fn is_word_char(c: char) -> bool {
    is_letter(c) || is_digit(c) || c == '_'
}

/// Blank, tab, line feed and carriage return.
pub open spec fn is_space(c: char) -> bool {
    c == ' ' || c == '\t' || c == '\n' || c == '\r'
}

/// The value of a decimal digit.
pub open spec fn digit_value(c: char) -> nat
    recommends
        is_digit(c),
{
    (c as nat - '0' as nat) as nat
}

/// The number that a sequence of decimal digits denotes.
pub open spec fn digits_value(digits: Seq<char>) -> nat
    decreases digits.len(),
{
    if digits.len() == 0 {
        0
    } else {
        digits_value(digits.drop_last()) * 10 + digit_value(digits.last())
    }
}

/// True when every character of `digits` is a decimal digit.
pub open spec fn all_digits(digits: Seq<char>) -> bool {
    forall|i: int| 0 <= i < digits.len() ==> is_digit(#[trigger] digits[i])
}

/// The end of the longest run of digits that starts at `pos`.
pub open spec fn digits_end(s: Seq<char>, pos: int) -> int
    decreases s.len() - pos,
{
    if 0 <= pos < s.len() && is_digit(s[pos]) {
        digits_end(s, pos + 1)
    } else {
        pos
    }
}

/// The end of the longest run of identifier characters that starts at `pos`.
pub open spec fn word_end(s: Seq<char>, pos: int) -> int
    decreases s.len() - pos,
{
    if 0 <= pos < s.len() && is_word_char(s[pos]) {
        word_end(s, pos + 1)
    } else {
        pos
    }
}

/// True when `word` stands in `s` at `pos`.
pub open spec fn starts_with(s: Seq<char>, pos: int, word: Seq<char>) -> bool {
    &&& 0 <= pos
    &&& pos + word.len() <= s.len()
    &&& s.subrange(pos, pos + word.len()) == word
}

/// True when `word` stands in `s` at `pos` and is not the beginning of a
/// longer word.
pub open spec fn keyword_at(s: Seq<char>, pos: int, word: Seq<char>) -> bool {
    &&& starts_with(s, pos, word)
    &&& !(pos + word.len() < s.len() && is_word_char(s[pos + word.len()]))
}

/// A run of digits lies within the text and holds digits only.
pub proof fn lemma_digits_end(s: Seq<char>, pos: int)
    requires
        0 <= pos <= s.len(),
    ensures
        pos <= digits_end(s, pos) <= s.len(),
        all_digits(s.subrange(pos, digits_end(s, pos))),
        digits_end(s, pos) < s.len() ==> !is_digit(s[digits_end(s, pos)]),
    decreases s.len() - pos,
{
    if pos < s.len() && is_digit(s[pos]) {
        lemma_digits_end(s, pos + 1);
        let e = digits_end(s, pos);
        assert forall|i: int| 0 <= i < e - pos implies is_digit(
            #[trigger] s.subrange(pos, e)[i],
        ) by {
            if i > 0 {
                assert(s.subrange(pos, e)[i] == s.subrange(pos + 1, e)[i - 1]);
            }
        }
    }
}

/// A run of identifier characters lies within the text.
pub proof fn lemma_word_end(s: Seq<char>, pos: int)
    requires
        0 <= pos <= s.len(),
    ensures
        pos <= word_end(s, pos) <= s.len(),
        forall|i: int| pos <= i < word_end(s, pos) ==> is_word_char(#[trigger] s[i]),
        word_end(s, pos) < s.len() ==> !is_word_char(s[word_end(s, pos)]),
    decreases s.len() - pos,
{
    if pos < s.len() && is_word_char(s[pos]) {
        lemma_word_end(s, pos + 1);
    }
}

/// Appending digits never makes the number smaller.
pub proof fn lemma_digits_value_prefix(digits: Seq<char>, n: int)
    requires
        0 <= n <= digits.len(),
    ensures
        digits_value(digits.take(n)) <= digits_value(digits),
    decreases digits.len() - n,
{
    if n < digits.len() {
        lemma_digits_value_prefix(digits, n + 1);
        assert(digits.take(n + 1).drop_last() == digits.take(n));
    } else {
        assert(digits.take(n) == digits);
    }
}

/// The characters of `s`, in order.
pub fn chars_of(s: &str) -> (v: Vec<char>)
    ensures
        v@ == s@,
{
    let mut v: Vec<char> = Vec::new();
    for c in it: s.chars()
        invariant
            v@ == it.seq().take(it.index()),
            it.seq() == s@,
    {
        v.push(c);
    }
    v
}

/// Tells whether `c` is a decimal digit.
pub fn digit(c: char) -> (b: bool)
    ensures
        b == is_digit(c),
{
    '0' <= c && c <= '9'
}

/// Tells whether `c` is a letter.
pub fn letter(c: char) -> (b: bool)
    ensures
        b == is_letter(c),
{
    ('a' <= c && c <= 'z') || ('A' <= c && c <= 'Z')
}

/// Tells whether `c` may continue an identifier or a keyword.
pub fn word_char(c: char) -> (b: bool)
    ensures
        b == is_word_char(c),
{
    letter(c) || digit(c) || c == '_'
}

/// Tells whether `c` is blank space.
pub fn space(c: char) -> (b: bool)
    ensures
        b == is_space(c),
{
    c == ' ' || c == '\t' || c == '\n' || c == '\r'
}

/// Scans the run of digits that starts at `pos`.
pub fn scan_digits(text: &[char], pos: usize) -> (end: usize)
    requires
        pos <= text.len(),
    ensures
        end == digits_end(text@, pos as int),
        pos <= end <= text.len(),
{
    let mut end: usize = pos;
    while end < text.len() && digit(text[end])
        invariant
            pos <= end <= text.len(),
            digits_end(text@, pos as int) == digits_end(text@, end as int),
        decreases text.len() - end,
    {
        end += 1;
    }
    end
}

/// Scans the run of identifier characters that starts at `pos`.
pub fn scan_word(text: &[char], pos: usize) -> (end: usize)
    requires
        pos <= text.len(),
    ensures
        end == word_end(text@, pos as int),
        pos <= end <= text.len(),
{
    let mut end: usize = pos;
    while end < text.len() && word_char(text[end])
        invariant
            pos <= end <= text.len(),
            word_end(text@, pos as int) == word_end(text@, end as int),
        decreases text.len() - end,
    {
        end += 1;
    }
    end
}

/// The number that the digits in `text[from..to]` denote, if it fits.
pub fn digits_to_u64(text: &[char], from: usize, to: usize) -> (r: Option<u64>)
    requires
        from <= to <= text.len(),
        all_digits(text@.subrange(from as int, to as int)),
    ensures
        r is Some <==> digits_value(text@.subrange(from as int, to as int)) <= u64::MAX,
        r is Some ==> r->0 == digits_value(text@.subrange(from as int, to as int)),
{
    let ghost digits = text@.subrange(from as int, to as int);
    let mut acc: u64 = 0;
    let mut i: usize = from;
    while i < to
        invariant
            from <= i <= to <= text.len(),
            digits == text@.subrange(from as int, to as int),
            all_digits(digits),
            acc == digits_value(digits.take(i - from)),
        decreases to - i,
    {
        let c = text[i];
        assert(c == digits[i - from]);
        let d: u64 = (c as u32 - '0' as u32) as u64;
        proof {
            assert(digits.take(i - from + 1).drop_last() == digits.take(i - from));
            assert(digits.take(i - from + 1).last() == c);
            lemma_digits_value_prefix(digits, i - from + 1);
        }
        if acc > (u64::MAX - d) / 10 {
            assert(digits_value(digits.take(i - from + 1)) > u64::MAX);
            return None;
        }
        acc = acc * 10 + d;
        i += 1;
    }
    assert(digits.take(to - from) == digits);
    Some(acc)
}

/// Tells whether every character of `text` is a decimal digit.
pub fn only_digits(text: &[char]) -> (b: bool)
    ensures
        b == all_digits(text@),
{
    let mut i: usize = 0;
    while i < text.len()
        invariant
            i <= text.len(),
            forall|k: int| 0 <= k < i ==> is_digit(#[trigger] text@[k]),
        decreases text.len() - i,
    {
        if !digit(text[i]) {
            return false;
        }
        i += 1;
    }
    true
}

/// Tells whether `word` stands in `text` at `pos`.
pub fn has_prefix(text: &[char], pos: usize, word: &str) -> (b: bool)
    requires
        pos <= text.len(),
    ensures
        b == starts_with(text@, pos as int, word@),
{
    let n = word.unicode_len();
    if n > text.len() - pos {
        return false;
    }
    let mut i: usize = 0;
    while i < n
        invariant
            0 <= i <= n,
            n == word@.len(),
            pos + n <= text.len(),
            text@.subrange(pos as int, pos + i) == word@.take(i as int),
        decreases n - i,
    {
        if text[pos + i] != word.get_char(i) {
            assert(text@.subrange(pos as int, pos + n)[i as int] != word@[i as int]);
            return false;
        }
        assert(text@.subrange(pos as int, pos + i + 1) =~= text@.subrange(
            pos as int,
            pos + i,
        ).push(text@[pos + i]));
        assert(word@.take(i + 1) =~= word@.take(i as int).push(word@[i as int]));
        i += 1;
    }
    assert(word@.take(n as int) == word@);
    true
}

/// Tells whether `word` stands in `text` at `pos` as a whole word.
pub fn has_keyword(text: &[char], pos: usize, word: &str) -> (b: bool)
    requires
        pos <= text.len(),
    ensures
        b == keyword_at(text@, pos as int, word@),
{
    if !has_prefix(text, pos, word) {
        return false;
    }
    let after = pos + word.unicode_len();
    !(after < text.len() && word_char(text[after]))
}

} // verus!
