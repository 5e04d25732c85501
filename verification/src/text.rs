//! Text building blocks: characters of a string, and the decimal and
//! hexadecimal renderings of integers.

use vstd::prelude::*;
use vstd::string::{StrSliceExecFns, StringExecFns};

verus! {

/// `String::push` appends one character at the end of the string.
pub assume_specification[ String::push ](s: &mut String, ch: char)
    ensures
        final(s)@ == old(s)@.push(ch),
;

/// The character that shows the digit `d` in bases up to sixteen, lower case.
pub open spec fn digit_char(d: nat) -> char
    recommends
        d < 16,
{
    if d < 10 {
        (48 + d) as u8 as char
    } else {
        (87 + d) as u8 as char
    }
}

/// The decimal digits of `n`, most significant first; one digit for zero.
pub open spec fn decimal_digits(n: nat) -> Seq<char>
    decreases n,
{
    if n < 10 {
        seq![digit_char(n)]
    } else {
        decimal_digits(n / 10).push(digit_char(n % 10))
    }
}

/// The hexadecimal digits of `n`, most significant first, lower case; one
/// digit for zero.
pub open spec fn hex_digits(n: nat) -> Seq<char>
    decreases n,
{
    if n < 16 {
        seq![digit_char(n)]
    } else {
        hex_digits(n / 16).push(digit_char(n % 16))
    }
}

/// Decimal rendering of a signed integer: a minus sign for negative values,
/// then the digits of the magnitude.
pub open spec fn decimal(i: int) -> Seq<char> {
    if i < 0 {
        seq!['-'] + decimal_digits((-i) as nat)
    } else {
        decimal_digits(i as nat)
    }
}

/// Hexadecimal rendering with the `0x` prefix and lower-case digits.
pub open spec fn hex(n: nat) -> Seq<char> {
    seq!['0', 'x'] + hex_digits(n)
}

/// The number that a digit character stands for.
pub open spec fn digit_value(c: char) -> nat {
    let u = c as u32;
    if 48 <= u <= 57 {
        (u - 48) as nat
    } else if 97 <= u <= 102 {
        (u - 87) as nat
    } else {
        0
    }
}

/// The number that a row of digits stands for in `base`.
pub open spec fn denoted(digits: Seq<char>, base: nat) -> nat
    decreases digits.len(),
{
    if digits.len() == 0 {
        0
    } else {
        denoted(digits.drop_last(), base) * base + digit_value(digits.last())
    }
}

/// The decimal digits of a number stand for that number.
pub proof fn decimal_digits_denote(n: nat)
    ensures
        denoted(decimal_digits(n), 10) == n,
    decreases n,
{
    if n < 10 {
        assert(seq![digit_char(n)].drop_last() =~= Seq::<char>::empty());
        assert(denoted(seq![digit_char(n)].drop_last(), 10) == 0);
    } else {
        decimal_digits_denote(n / 10);
        assert(decimal_digits(n / 10).push(digit_char(n % 10)).drop_last() =~= decimal_digits(
            n / 10,
        ));
    }
}

/// The hexadecimal digits of a number stand for that number.
pub proof fn hex_digits_denote(n: nat)
    ensures
        denoted(hex_digits(n), 16) == n,
    decreases n,
{
    if n < 16 {
        assert(seq![digit_char(n)].drop_last() =~= Seq::<char>::empty());
        assert(denoted(seq![digit_char(n)].drop_last(), 16) == 0);
    } else {
        hex_digits_denote(n / 16);
        assert(hex_digits(n / 16).push(digit_char(n % 16)).drop_last() =~= hex_digits(n / 16));
    }
}

fn digit(d: u64) -> (c: char)
    requires
        d < 16,
    ensures
        c == digit_char(d as nat),
{
    if d < 10 {
        (48u8 + d as u8) as char
    } else {
        (87u8 + d as u8) as char
    }
}

fn push_decimal_digits(out: &mut String, n: u64)
    ensures
        final(out)@ == old(out)@ + decimal_digits(n as nat),
    decreases n,
{
    if n >= 10 {
        push_decimal_digits(out, n / 10);
    }
    out.push(digit(n % 10));
}

fn push_hex_digits(out: &mut String, n: u64)
    ensures
        final(out)@ == old(out)@ + hex_digits(n as nat),
    decreases n,
{
    if n >= 16 {
        push_hex_digits(out, n / 16);
    }
    out.push(digit(n % 16));
}

/// Appends the decimal rendering of `i` to `out`.
pub fn push_decimal(out: &mut String, i: i64)
    ensures
        final(out)@ == old(out)@ + decimal(i as int),
{
    if i < 0 {
        out.push('-');
        let magnitude: u64 = if i == i64::MIN {
            9223372036854775808u64
        } else {
            (-i) as u64
        };
        push_decimal_digits(out, magnitude);
    } else {
        push_decimal_digits(out, i as u64);
    }
}

/// Appends the decimal rendering of the unsigned `n` to `out`.
pub fn push_unsigned(out: &mut String, n: u64)
    ensures
        final(out)@ == old(out)@ + decimal(n as int),
{
    push_decimal_digits(out, n);
}

/// Appends the hexadecimal rendering of `n`, with its `0x` prefix, to `out`.
pub fn push_hex(out: &mut String, n: u64)
    ensures
        final(out)@ == old(out)@ + hex(n as nat),
{
    out.push('0');
    out.push('x');
    push_hex_digits(out, n);
}

/// White space, as Unicode defines it.
pub open spec fn is_space(c: char) -> bool {
    let u = c as u32;
    ||| 0x09 <= u <= 0x0d
    ||| u == 0x20
    ||| u == 0x85
    ||| u == 0xa0
    ||| u == 0x1680
    ||| 0x2000 <= u <= 0x200a
    ||| u == 0x2028
    ||| u == 0x2029
    ||| u == 0x202f
    ||| u == 0x205f
    ||| u == 0x3000
}

/// Whether `c` is white space.
pub fn space(c: char) -> (b: bool)
    ensures
        b == is_space(c),
{
    let u: u32 = c as u32;
    (0x09 <= u && u <= 0x0d) || u == 0x20 || u == 0x85 || u == 0xa0 || u == 0x1680 || (0x2000 <= u
        && u <= 0x200a) || u == 0x2028 || u == 0x2029 || u == 0x202f || u == 0x205f || u == 0x3000
}

/// A word that is being read counts once it holds a character.
pub open spec fn closed_word(current: Seq<char>) -> Seq<Seq<char>> {
    if current.len() == 0 {
        Seq::empty()
    } else {
        seq![current]
    }
}

/// The words of `s`, read from left to right, where `current` holds the
/// characters of the word that the reading is in: white space ends a word,
/// any other character goes into it.
pub open spec fn words_after(s: Seq<char>, current: Seq<char>) -> Seq<Seq<char>>
    decreases s.len(),
{
    if s.len() == 0 {
        closed_word(current)
    } else if is_space(s[0]) {
        closed_word(current) + words_after(s.drop_first(), Seq::empty())
    } else {
        words_after(s.drop_first(), current.push(s[0]))
    }
}

/// The words of `s`: its longest runs of characters that are not white
/// space, in their order.
pub open spec fn words(s: Seq<char>) -> Seq<Seq<char>> {
    words_after(s, Seq::empty())
}

/// A word: at least one character, and none that is white space.
pub open spec fn is_word(w: Seq<char>) -> bool {
    w.len() > 0 && forall|i: int| 0 <= i < w.len() ==> !is_space(#[trigger] w[i])
}

/// Every character is white space.
pub open spec fn is_blank(s: Seq<char>) -> bool {
    forall|i: int| 0 <= i < s.len() ==> is_space(#[trigger] s[i])
}

proof fn words_after_are_words(s: Seq<char>, current: Seq<char>)
    requires
        forall|i: int| 0 <= i < current.len() ==> !is_space(#[trigger] current[i]),
    ensures
        forall|k: int|
            0 <= k < words_after(s, current).len() ==> is_word(#[trigger] words_after(s, current)[k]),
        words_after(s, current).len() == 0 <==> current.len() == 0 && is_blank(s),
    decreases s.len(),
{
    if s.len() > 0 {
        let rest = s.drop_first();
        if is_space(s[0]) {
            words_after_are_words(rest, Seq::empty());
            assert(is_blank(rest) ==> is_blank(s)) by {
                if is_blank(rest) {
                    assert forall|i: int| 0 <= i < s.len() implies is_space(#[trigger] s[i]) by {
                        if i > 0 {
                            assert(s[i] == rest[i - 1]);
                        }
                    }
                }
            }
            assert(is_blank(s) ==> is_blank(rest)) by {
                if is_blank(s) {
                    assert forall|i: int| 0 <= i < rest.len() implies is_space(
                        #[trigger] rest[i],
                    ) by {
                        assert(rest[i] == s[i + 1]);
                    }
                }
            }
        } else {
            words_after_are_words(rest, current.push(s[0]));
            assert(!is_blank(s)) by {
                if is_blank(s) {
                    assert(is_space(s[0]));
                }
            }
        }
    }
}

/// Each of the words of a text holds at least one character and no white
/// space.
pub proof fn words_are_words(s: Seq<char>)
    ensures
        forall|k: int| 0 <= k < words(s).len() ==> is_word(#[trigger] words(s)[k]),
{
    words_after_are_words(s, Seq::empty());
}

/// A text has no words if and only if it holds nothing but white space.
pub proof fn blank_text_has_no_words(s: Seq<char>)
    ensures
        words(s).len() == 0 <==> is_blank(s),
{
    words_after_are_words(s, Seq::empty());
}

/// Splits a line into its words.
pub fn split_words(line: &str) -> (tokens: Vec<String>)
    ensures
        tokens.deep_view() == words(line@),
{
    let chars = chars_of(line);
    let mut tokens: Vec<String> = Vec::new();
    let mut current = String::new();
    let mut i: usize = 0;
    assert(chars@.skip(0) =~= chars@);
    assert(tokens.deep_view() =~= Seq::<Seq<char>>::empty());
    while i < chars.len()
        invariant
            i <= chars@.len(),
            chars@ == line@,
            words(line@) == tokens.deep_view() + words_after(chars@.skip(i as int), current@),
        decreases chars@.len() - i,
    {
        let ghost rest = chars@.skip(i as int);
        let ghost before = tokens.deep_view();
        let ghost word = current@;
        let c = chars[i];
        assert(rest[0] == c);
        assert(rest.drop_first() =~= chars@.skip(i + 1));
        if space(c) {
            if current.as_str().unicode_len() > 0 {
                tokens.push(current);
                current = String::new();
                assert(tokens.deep_view() =~= before + seq![word]);
            } else {
                assert(before + closed_word(word) =~= before);
            }
            assert(words_after(rest, word) == closed_word(word) + words_after(
                rest.drop_first(),
                Seq::empty(),
            ));
            assert(before + (closed_word(word) + words_after(rest.drop_first(), Seq::empty()))
                =~= (before + closed_word(word)) + words_after(rest.drop_first(), Seq::empty()));
            assert(current@ =~= Seq::<char>::empty());
            assert(tokens.deep_view() == before + closed_word(word));
        } else {
            current.push(c);
            assert(words_after(rest, word) == words_after(rest.drop_first(), word.push(c)));
        }
        i += 1;
    }
    let ghost before = tokens.deep_view();
    let ghost word = current@;
    assert(chars@.skip(i as int).len() == 0);
    if current.as_str().unicode_len() > 0 {
        tokens.push(current);
        assert(tokens.deep_view() =~= before + seq![word]);
    } else {
        assert(before + Seq::<Seq<char>>::empty() =~= before);
    }
    tokens
}

/// The pieces of `s` between the occurrences of `sep`: one more than there
/// are occurrences, and empty where two of them meet or one stands at an end.
pub open spec fn pieces(s: Seq<char>, sep: char) -> Seq<Seq<char>>
    decreases s.len(),
{
    if s.len() == 0 {
        seq![Seq::empty()]
    } else {
        let front = pieces(s.drop_last(), sep);
        if s.last() == sep {
            front.push(Seq::empty())
        } else {
            front.drop_last().push(front.last().push(s.last()))
        }
    }
}

/// The pieces, one after the other, with `sep` between each two of them.
pub open spec fn joined(parts: Seq<Seq<char>>, sep: char) -> Seq<char>
    decreases parts.len(),
{
    if parts.len() == 0 {
        Seq::empty()
    } else if parts.len() == 1 {
        parts[0]
    } else {
        joined(parts.drop_last(), sep).push(sep) + parts.last()
    }
}

/// There is always a piece, and the pieces put together again, with the
/// separator between them, are the text that was split.
pub proof fn pieces_join_back(s: Seq<char>, sep: char)
    ensures
        pieces(s, sep).len() >= 1,
        joined(pieces(s, sep), sep) == s,
    decreases s.len(),
{
    if s.len() == 0 {
        assert(joined(pieces(s, sep), sep) =~= s);
    } else {
        let front = pieces(s.drop_last(), sep);
        pieces_join_back(s.drop_last(), sep);
        if s.last() == sep {
            let all = front.push(Seq::empty());
            assert(all.drop_last() =~= front);
            assert(joined(all, sep) =~= s.drop_last().push(sep));
            assert(s.drop_last().push(s.last()) =~= s);
        } else {
            let grown = front.last().push(s.last());
            let all = front.drop_last().push(grown);
            if front.len() == 1 {
                assert(joined(all, sep) =~= front[0].push(s.last()));
            } else {
                assert(all.drop_last() =~= front.drop_last());
                assert(joined(all, sep) =~= (joined(front.drop_last(), sep).push(sep)
                    + front.last()).push(s.last()));
            }
            assert(s.drop_last().push(s.last()) =~= s);
        }
    }
}

/// Splits `s` at each occurrence of `sep`.
pub fn split_at_each(s: &str, sep: char) -> (parts: Vec<String>)
    ensures
        parts.deep_view() == pieces(s@, sep),
        parts@.len() >= 1,
{
    let chars = chars_of(s);
    let mut parts: Vec<String> = Vec::new();
    let mut current = String::new();
    let mut i: usize = 0;
    assert(chars@.take(0) =~= Seq::<char>::empty());
    assert(parts.deep_view().push(current@) =~= pieces(chars@.take(0), sep));
    while i < chars.len()
        invariant
            i <= chars@.len(),
            chars@ == s@,
            pieces(chars@.take(i as int), sep) == parts.deep_view().push(current@),
        decreases chars@.len() - i,
    {
        let ghost before = parts.deep_view();
        let ghost piece = current@;
        let c = chars[i];
        assert(chars@.take(i + 1).drop_last() =~= chars@.take(i as int));
        assert(chars@.take(i + 1).last() == c);
        assert(before.push(piece).drop_last() =~= before);
        if c == sep {
            parts.push(current);
            current = String::new();
            assert(parts.deep_view() =~= before.push(piece));
            assert(current@ =~= Seq::<char>::empty());
        } else {
            current.push(c);
            assert(parts.deep_view() == before);
        }
        i += 1;
    }
    assert(chars@.take(i as int) =~= chars@);
    let ghost before = parts.deep_view();
    parts.push(current);
    assert(parts.deep_view() =~= before.push(current@));
    parts
}

/// `s` without the white space at its start.
pub open spec fn trim_start(s: Seq<char>) -> Seq<char>
    decreases s.len(),
{
    if s.len() > 0 && is_space(s[0]) {
        trim_start(s.drop_first())
    } else {
        s
    }
}

/// `s` without the white space at its end.
pub open spec fn trim_end(s: Seq<char>) -> Seq<char>
    decreases s.len(),
{
    if s.len() > 0 && is_space(s.last()) {
        trim_end(s.drop_last())
    } else {
        s
    }
}

/// `s` without the white space at its start and at its end.
pub open spec fn trimmed(s: Seq<char>) -> Seq<char> {
    trim_end(trim_start(s))
}

/// The text without the white space at its start and at its end.
pub fn trim(s: &str) -> (t: String)
    ensures
        t@ == trimmed(s@),
{
    let chars = chars_of(s);
    let mut start: usize = 0;
    assert(chars@.subrange(0, chars@.len() as int) =~= chars@);
    while start < chars.len() && space(chars[start])
        invariant
            start <= chars@.len(),
            trim_start(chars@) == trim_start(chars@.subrange(start as int, chars@.len() as int)),
        decreases chars@.len() - start,
    {
        assert(chars@.subrange(start as int, chars@.len() as int).drop_first() =~= chars@.subrange(
            start + 1,
            chars@.len() as int,
        ));
        start += 1;
    }
    let mut end: usize = chars.len();
    while end > start && space(chars[end - 1])
        invariant
            start <= end <= chars@.len(),
            trim_start(chars@) == chars@.subrange(start as int, chars@.len() as int),
            trimmed(chars@) == trim_end(chars@.subrange(start as int, end as int)),
        decreases end,
    {
        assert(chars@.subrange(start as int, end as int).drop_last() =~= chars@.subrange(
            start as int,
            end - 1,
        ));
        end -= 1;
    }
    string_of(&chars, start, end)
}

/// The first character of `s` that is not white space.
pub open spec fn first_letter(s: Seq<char>) -> Option<char>
    decreases s.len(),
{
    if s.len() == 0 {
        None
    } else if is_space(s[0]) {
        first_letter(s.drop_first())
    } else {
        Some(s[0])
    }
}

/// Whether two string slices hold the same text.
pub fn same_text(a: &str, b: &str) -> (same: bool)
    ensures
        same == (a@ == b@),
{
    let x = String::from_str(a);
    let y = String::from_str(b);
    x == y
}

/// The characters of a string slice, in order.
pub fn chars_of(s: &str) -> (v: Vec<char>)
    ensures
        v@ == s@,
{
    let mut v: Vec<char> = Vec::new();
    for c in it: s.chars()
        invariant
            v@ == it.seq().take(it.index() as int),
    {
        v.push(c);
    }
    v
}

/// The string made of the characters `chars[from..to]`.
pub fn string_of(chars: &Vec<char>, from: usize, to: usize) -> (s: String)
    requires
        from <= to <= chars.len(),
    ensures
        s@ == chars@.subrange(from as int, to as int),
{
    let mut s = String::new();
    let mut i: usize = from;
    while i < to
        invariant
            from <= i <= to <= chars.len(),
            s@ == chars@.subrange(from as int, i as int),
        decreases to - i,
    {
        s.push(chars[i]);
        i += 1;
    }
    s
}

} // verus!
