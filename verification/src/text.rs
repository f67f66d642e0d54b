//! Reading the raw text: white space, decimal numbers, and which of the
//! encodings a text is written in.

use vstd::prelude::*;
use vstd::string::StrSliceExecFns;

verus! {

/// Whether `c` is white space: a character with the Unicode property
/// `White_Space`, which is what `str::trim` removes.
pub open spec fn is_space(c: char) -> bool {
    let n = c as u32;
    ||| 0x09 <= n <= 0x0D
    ||| n == 0x20
    ||| n == 0x85
    ||| n == 0xA0
    ||| n == 0x1680
    ||| 0x2000 <= n <= 0x200A
    ||| n == 0x2028
    ||| n == 0x2029
    ||| n == 0x202F
    ||| n == 0x205F
    ||| n == 0x3000
}

/// Whether `c` is white space.
pub fn is_whitespace(c: char) -> (r: bool)
    ensures
        r == is_space(c),
{
    let n: u32 = c as u32;
    (0x09 <= n && n <= 0x0D) || n == 0x20 || n == 0x85 || n == 0xA0 || n == 0x1680 || (0x2000 <= n
        && n <= 0x200A) || n == 0x2028 || n == 0x2029 || n == 0x202F || n == 0x205F || n == 0x3000
}

/// `s` without the white space at its start.
pub open spec fn trim_start(s: Seq<char>) -> Seq<char>
    decreases s.len(),
{
    if s.len() > 0 && is_space(s.first()) {
        trim_start(s.drop_first())
    } else {
        s
    }
}

/// `s` without the white space at its end.
pub open spec fn trim_end(s: Seq<char>) -> Seq<char>
    decreases s.len(),
{
    if s.len() > 0 && is_space(s.last()) {
        trim_end(s.drop_last())
    } else {
        s
    }
}

/// `s` without the white space at both ends.
pub open spec fn trimmed(s: Seq<char>) -> Seq<char> {
    trim_end(trim_start(s))
}

/// Cutting `from` leading characters off `s`, all of them white space, does
/// not change what `trim_start` gives.
proof fn lemma_trim_start_skips(s: Seq<char>, from: int)
    requires
        0 <= from <= s.len(),
        forall|k: int| 0 <= k < from ==> is_space(#[trigger] s[k]),
    ensures
        trim_start(s) == trim_start(s.subrange(from, s.len() as int)),
    decreases from,
{
    if from == 0 {
        assert(s.subrange(0, s.len() as int) =~= s);
    } else {
        let rest = s.drop_first();
        assert(is_space(s[0]));
        assert forall|k: int| 0 <= k < from - 1 implies is_space(#[trigger] rest[k]) by {
            assert(rest[k] == s[k + 1]);
        }
        lemma_trim_start_skips(rest, from - 1);
        assert(rest.subrange(from - 1, rest.len() as int) =~= s.subrange(from, s.len() as int));
    }
}

/// Cutting the characters from `to` on off `s`, all of them white space, does
/// not change what `trim_end` gives.
proof fn lemma_trim_end_skips(s: Seq<char>, to: int)
    requires
        0 <= to <= s.len(),
        forall|k: int| to <= k < s.len() ==> is_space(#[trigger] s[k]),
    ensures
        trim_end(s) == trim_end(s.subrange(0, to)),
    decreases s.len() - to,
{
    if to == s.len() {
        assert(s.subrange(0, to) =~= s);
    } else {
        let rest = s.drop_last();
        assert(is_space(s[s.len() - 1]));
        lemma_trim_end_skips(rest, to);
        assert(rest.subrange(0, to) =~= s.subrange(0, to));
    }
}

/// What `trim_start` gives is the text from its first character that is no
/// white space on.
pub proof fn lemma_trim_start_is_a_suffix(s: Seq<char>) -> (from: int)
    ensures
        0 <= from <= s.len(),
        trim_start(s) == s.subrange(from, s.len() as int),
        forall|k: int| 0 <= k < from ==> is_space(#[trigger] s[k]),
        from < s.len() ==> !is_space(s[from]),
    decreases s.len(),
{
    if s.len() > 0 && is_space(s.first()) {
        let rest = s.drop_first();
        let inner = lemma_trim_start_is_a_suffix(rest);
        assert(rest.subrange(inner, rest.len() as int) =~= s.subrange(inner + 1, s.len() as int));
        assert forall|k: int| 0 <= k < inner + 1 implies is_space(#[trigger] s[k]) by {
            if k > 0 {
                assert(s[k] == rest[k - 1]);
            }
        }
        if inner < rest.len() {
            assert(s[inner + 1] == rest[inner]);
        }
        inner + 1
    } else {
        assert(s.subrange(0, s.len() as int) =~= s);
        0
    }
}

/// What `trim_end` gives is the text up to its last character that is no
/// white space.
pub proof fn lemma_trim_end_is_a_prefix(s: Seq<char>) -> (to: int)
    ensures
        0 <= to <= s.len(),
        trim_end(s) == s.subrange(0, to),
        forall|k: int| to <= k < s.len() ==> is_space(#[trigger] s[k]),
        0 < to ==> !is_space(s[to - 1]),
    decreases s.len(),
{
    if s.len() > 0 && is_space(s.last()) {
        let rest = s.drop_last();
        let inner = lemma_trim_end_is_a_prefix(rest);
        assert(rest.subrange(0, inner) =~= s.subrange(0, inner));
        assert forall|k: int| inner <= k < s.len() implies is_space(#[trigger] s[k]) by {
            if k < s.len() - 1 {
                assert(s[k] == rest[k]);
            }
        }
        if 0 < inner {
            assert(s[inner - 1] == rest[inner - 1]);
        }
        inner
    } else {
        assert(s.subrange(0, s.len() as int) =~= s);
        s.len() as int
    }
}

/// Trimming cuts white space off both ends and nothing else: what is left
/// is one stretch of the text, all that was cut is white space, and the
/// stretch neither starts nor ends with white space.
pub proof fn lemma_trimmed_is_the_core(s: Seq<char>) -> (ends: (int, int))
    ensures
        0 <= ends.0 <= ends.1 <= s.len(),
        trimmed(s) == s.subrange(ends.0, ends.1),
        forall|k: int| 0 <= k < ends.0 || ends.1 <= k < s.len() ==> is_space(#[trigger] s[k]),
        ends.0 < ends.1 ==> !is_space(s[ends.0]) && !is_space(s[ends.1 - 1]),
{
    let from = lemma_trim_start_is_a_suffix(s);
    let tail = s.subrange(from, s.len() as int);
    let to = lemma_trim_end_is_a_prefix(tail);
    assert(tail.subrange(0, to) =~= s.subrange(from, from + to));
    assert forall|k: int| from + to <= k < s.len() implies is_space(#[trigger] s[k]) by {
        assert(s[k] == tail[k - from]);
    }
    if to > 0 {
        assert(tail[to - 1] == s[from + to - 1]);
        assert(tail[0] == s[from]);
    }
    (from, from + to)
}

/// A text of white space only is trimmed to nothing.
pub proof fn lemma_trimmed_blank(s: Seq<char>)
    requires
        forall|k: int| 0 <= k < s.len() ==> is_space(#[trigger] s[k]),
    ensures
        trimmed(s) == Seq::<char>::empty(),
{
    lemma_trim_start_skips(s, s.len() as int);
    assert(s.subrange(s.len() as int, s.len() as int) =~= Seq::<char>::empty());
}

/// `input` without the white space at both ends.
pub fn trim(input: &str) -> (r: &str)
    ensures
        r@ == trimmed(input@),
{
    let len = input.unicode_len();
    let mut start: usize = 0;
    while start < len && is_whitespace(input.get_char(start))
        invariant
            start <= len,
            len == input@.len(),
            forall|k: int| 0 <= k < start ==> is_space(#[trigger] input@[k]),
        decreases len - start,
    {
        start += 1;
    }
    let mut end: usize = len;
    while end > start && is_whitespace(input.get_char(end - 1))
        invariant
            start <= end <= len,
            len == input@.len(),
            forall|k: int| end <= k < len ==> is_space(#[trigger] input@[k]),
        decreases end,
    {
        end -= 1;
    }
    proof {
        let s = input@;
        let front = s.subrange(start as int, len as int);
        lemma_trim_start_skips(s, start as int);
        assert(trim_start(s) == front) by {
            if front.len() > 0 {
                assert(front.first() == s[start as int]);
            }
        }
        let cut = end - start;
        assert forall|k: int| cut <= k < front.len() implies is_space(#[trigger] front[k]) by {
            assert(front[k] == s[k + start]);
        }
        lemma_trim_end_skips(front, cut);
        let core = front.subrange(0, cut);
        assert(core =~= s.subrange(start as int, end as int));
        assert(trim_end(core) == core) by {
            if core.len() > 0 {
                assert(core.last() == s[end - 1]);
            }
        }
    }
    input.substring_char(start, end)
}

/// `c` in upper case, where it is an ASCII letter.
pub open spec fn upper(c: char) -> char {
    if 'a' <= c <= 'z' {
        ((c as u32 - 32) as u32) as char
    } else {
        c
    }
}

/// `s` with its ASCII letters in upper case.
pub open spec fn upper_text(s: Seq<char>) -> Seq<char> {
    Seq::new(s.len(), |i: int| upper(s[i]))
}

/// The value of a decimal digit.
pub open spec fn digit_of(c: char) -> Option<nat> {
    let n = c as u32;
    if 0x30 <= n <= 0x39 {
        Some((n - 0x30) as nat)
    } else {
        None
    }
}

/// The number that a run of decimal digits writes; `None` if a character of
/// `s` is no digit. The empty run writes 0.
pub open spec fn digits_value(s: Seq<char>) -> Option<nat>
    decreases s.len(),
{
    if s.len() == 0 {
        Some(0)
    } else {
        match (digits_value(s.drop_last()), digit_of(s.last())) {
            (Some(v), Some(d)) => Some(v * 10 + d),
            _ => None,
        }
    }
}

/// The `u32` that `s` writes in decimal: one `+` may come first, then at least
/// one digit and nothing else, and the number has to fit. This is what
/// `str::parse::<u32>` accepts.
pub open spec fn parse_u32(s: Seq<char>) -> Option<u32> {
    let digits = if s.len() > 0 && s[0] == '+' {
        s.drop_first()
    } else {
        s
    };
    if digits.len() == 0 {
        None
    } else {
        match digits_value(digits) {
            Some(v) => if v <= u32::MAX {
                Some(v as u32)
            } else {
                None
            },
            None => None,
        }
    }
}

/// Where a run of digits writes a number, each of its prefixes writes one
/// that is not larger.
pub proof fn lemma_digits_prefix(s: Seq<char>, k: int)
    requires
        0 <= k <= s.len(),
        digits_value(s) is Some,
    ensures
        digits_value(s.take(k)) is Some,
        digits_value(s.take(k))->0 <= digits_value(s)->0,
    decreases s.len(),
{
    if k == s.len() {
        assert(s.take(k) =~= s);
    } else {
        let shorter = s.drop_last();
        lemma_digits_prefix(shorter, k);
        assert(shorter.take(k) =~= s.take(k));
    }
}

/// The `u32` that `text` writes in decimal, if it writes one.
pub fn parse_decimal(text: &str) -> (r: Option<u32>)
    ensures
        r == parse_u32(text@),
{
    let len = text.unicode_len();
    if len == 0 {
        return None;
    }
    let start: usize = if text.get_char(0) == '+' {
        1
    } else {
        0
    };
    if start == len {
        return None;
    }
    let ghost digits = text@.subrange(start as int, len as int);
    assert(digits =~= if text@.len() > 0 && text@[0] == '+' {
        text@.drop_first()
    } else {
        text@
    });
    let mut acc: u32 = 0;
    let mut i: usize = start;
    assert(digits.take(0) =~= Seq::<char>::empty());
    while i < len
        invariant
            start <= i <= len,
            len == text@.len(),
            digits == text@.subrange(start as int, len as int),
            digits_value(digits.take(i - start)) == Some(acc as nat),
            parse_u32(text@) == match digits_value(digits) {
                Some(v) => if v <= u32::MAX {
                    Some(v as u32)
                } else {
                    None
                },
                None => None,
            },
        decreases len - i,
    {
        let c = text.get_char(i);
        let n: u32 = c as u32;
        let ghost upto = digits.take(i - start + 1);
        proof {
            assert(upto.drop_last() =~= digits.take(i - start));
            assert(upto.last() == c);
            if digits_value(digits) is Some {
                lemma_digits_prefix(digits, i - start + 1);
            }
        }
        if n < 0x30 || n > 0x39 {
            return None;
        }
        let d: u32 = n - 0x30;
        if acc > (u32::MAX - d) / 10 {
            return None;
        }
        acc = acc * 10 + d;
        i += 1;
    }
    assert(digits.take(len - start) =~= digits);
    Some(acc)
}

/// The character that writes the digit `d`.
pub open spec fn digit_char(d: nat) -> char {
    if d == 0 {
        '0'
    } else if d == 1 {
        '1'
    } else if d == 2 {
        '2'
    } else if d == 3 {
        '3'
    } else if d == 4 {
        '4'
    } else if d == 5 {
        '5'
    } else if d == 6 {
        '6'
    } else if d == 7 {
        '7'
    } else if d == 8 {
        '8'
    } else {
        '9'
    }
}

/// `n` written in decimal, without a sign and without leading zeros.
pub open spec fn decimal_text(n: nat) -> Seq<char>
    decreases n,
{
    if n < 10 {
        seq![digit_char(n)]
    } else {
        decimal_text(n / 10).push(digit_char(n % 10))
    }
}

/// The encodings that a trimmed text can be written in.
#[derive(Clone, Copy, Debug, PartialEq, Eq, Structural)]
pub enum Encoding {
    /// Nothing is written: no mods.
    Empty,
    /// The text starts with `[` or `{`: the JSON form.
    Json,
    /// The text is a decimal number: a legacy bit mask.
    Bits(u32),
    /// Any other text: a string of acronyms.
    Acronyms,
}

/// The encoding of a trimmed text.
pub open spec fn encoding_of(text: Seq<char>) -> Encoding {
    if text.len() == 0 {
        Encoding::Empty
    } else if text[0] == '[' || text[0] == '{' {
        Encoding::Json
    } else {
        match parse_u32(text) {
            Some(bits) => Encoding::Bits(bits),
            None => Encoding::Acronyms,
        }
    }
}

/// Tells which encoding a trimmed text is written in.
pub fn detect(text: &str) -> (r: Encoding)
    ensures
        r == encoding_of(text@),
{
    if text.unicode_len() == 0 {
        return Encoding::Empty;
    }
    let first = text.get_char(0);
    if first == '[' || first == '{' {
        return Encoding::Json;
    }
    match parse_decimal(text) {
        Some(bits) => Encoding::Bits(bits),
        None => Encoding::Acronyms,
    }
}

/// A number written in decimal consists of digits and reads back as itself.
pub proof fn lemma_decimal_text_digits(n: nat)
    ensures
        decimal_text(n).len() > 0,
        forall|k: int| 0 <= k < decimal_text(n).len() ==> digit_of(#[trigger] decimal_text(n)[k]) is Some,
        digits_value(decimal_text(n)) == Some(n),
    decreases n,
{
    let text = decimal_text(n);
    if n < 10 {
        assert(text.drop_last() =~= Seq::<char>::empty());
        assert(digits_value(Seq::<char>::empty()) == Some(0nat));
        assert(text.last() == digit_char(n));
        assert(digit_of(digit_char(n)) == Some(n));
    } else {
        lemma_decimal_text_digits(n / 10);
        let d = n % 10;
        assert(text.drop_last() =~= decimal_text(n / 10));
        assert(text.last() == digit_char(d));
        assert(digit_of(digit_char(d)) == Some(d));
        assert forall|k: int| 0 <= k < text.len() implies digit_of(#[trigger] text[k]) is Some by {
            if k < text.len() - 1 {
                assert(text[k] == decimal_text(n / 10)[k]);
            }
        }
    }
}

/// Trimming removes nothing from a text that starts and ends with other
/// characters than white space.
pub proof fn lemma_trimmed_is_whole(s: Seq<char>)
    requires
        s.len() > 0,
        !is_space(s.first()),
        !is_space(s.last()),
    ensures
        trimmed(s) == s,
{
}

/// Every `u32`, written in decimal, is detected as the bit mask of that value,
/// with or without white space around it.
pub proof fn lemma_decimal_detected(bits: u32)
    ensures
        trimmed(decimal_text(bits as nat)) == decimal_text(bits as nat),
        encoding_of(decimal_text(bits as nat)) == Encoding::Bits(bits),
{
    let text = decimal_text(bits as nat);
    lemma_decimal_text_digits(bits as nat);
    assert(digit_of(text[0]) is Some);
    assert(digit_of(text[text.len() - 1]) is Some);
    lemma_trimmed_is_whole(text);
}

} // verus!
