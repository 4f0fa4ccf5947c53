//! What holds of texts and numbers, said of their characters.

use crate::number;
use crate::text;
use vstd::prelude::*;

verus! {

/// A text is parted at the first of a character: put together again around it, the two parts are
/// the text, and the first part does not hold the character. It is parted only if it holds it.
pub proof fn law_split_once(s: Seq<char>, c: char)
    ensures
        text::split_once(s, c) matches Some((before, after)) ==> s == before.push(c) + after
            && !before.contains(c),
        text::split_once(s, c) is None <==> !s.contains(c),
{
    s.index_of_first_ensures(c);
    if let Some((before, after)) = text::split_once(s, c) {
        let at = s.index_of_first(c)->0;
        assert(s =~= before.push(c) + after);
        if before.contains(c) {
            let j = before.index_of(c);
            assert(s[j] == c);
        }
    }
}

/// What stands before and behind the first of a character are the parts.
pub proof fn law_split_once_parts(a: Seq<char>, c: char, b: Seq<char>)
    requires
        !a.contains(c),
    ensures
        text::split_once(a.push(c) + b, c) == Some((a, b)),
{
    let s = a.push(c) + b;
    law_split_once(s, c);
    assert(s[a.len() as int] == c);
    assert(s.contains(c));
    let (before, after) = text::split_once(s, c)->0;
    let again = before.push(c) + after;
    if before.len() < a.len() {
        assert(again[before.len() as int] == c);
        assert(a[before.len() as int] == c);
    }
    if before.len() > a.len() {
        assert(again[a.len() as int] == before[a.len() as int]);
    }
    assert forall|i: int| 0 <= i < a.len() implies before[i] == a[i] by {
        assert(again[i] == s[i]);
    }
    assert(before =~= a);
    assert forall|i: int| 0 <= i < b.len() implies after[i] == b[i] by {
        assert(again[a.len() + 1 + i] == s[a.len() + 1 + i]);
    }
    assert(after =~= b);
}

/// A text that starts with another is that one and what is left behind it.
pub proof fn law_strip_prefix(s: Seq<char>, prefix: Seq<char>, rest: Seq<char>)
    ensures
        text::strip_prefix(s, prefix) == Some(rest) <==> s == prefix + rest,
{
    if s == prefix + rest {
        assert(s.subrange(0, prefix.len() as int) =~= prefix);
        assert(s.skip(prefix.len() as int) =~= rest);
    }
    if text::strip_prefix(s, prefix) == Some(rest) {
        assert(s =~= prefix + rest);
    }
}

proof fn lemma_last_piece(s: Seq<char>)
    ensures
        ({
            let pieces = text::split_where(s, |c: char| text::is_white_space(c));
            &&& pieces.len() > 0
            &&& pieces.last().len() == 0 <==> s.len() == 0 || text::is_white_space(s.last())
        }),
    decreases s.len(),
{
    let is_separator = |c: char| text::is_white_space(c);
    if s.len() > 0 {
        lemma_last_piece(s.drop_last());
        let before = text::split_where(s.drop_last(), is_separator);
        let pieces = text::split_where(s, is_separator);
        if is_separator(s.last()) {
            assert(pieces.last() =~= Seq::empty());
        } else {
            assert(pieces.last() == before.last().push(s.last()));
        }
    }
}

/// The words of a text, character by character: white space ends a word, any other character
/// begins one at the start or after white space and else goes on with the last one.
pub proof fn law_words_by_character(s: Seq<char>, c: char)
    ensures
        text::words(Seq::empty()).len() == 0,
        text::is_white_space(c) ==> text::words(s.push(c)) == text::words(s),
        !text::is_white_space(c) && (s.len() == 0 || text::is_white_space(s.last()))
            ==> text::words(s.push(c)) == text::words(s).push(seq![c]),
        !text::is_white_space(c) && s.len() > 0 && !text::is_white_space(s.last())
            ==> text::words(s).len() > 0 && text::words(s.push(c)) == text::words(
            s,
        ).drop_last().push(text::words(s).last().push(c)),
{
    let is_separator = |c: char| text::is_white_space(c);
    reveal_with_fuel(text::non_empty, 2);
    lemma_last_piece(s);
    lemma_last_piece(s.push(c));
    let before = text::split_where(s, is_separator);
    let pieces = text::split_where(s.push(c), is_separator);
    assert(s.push(c).drop_last() =~= s);
    let nothing = text::split_where(Seq::<char>::empty(), is_separator);
    assert(nothing =~= seq![Seq::<char>::empty()]);
    assert(nothing.drop_last().len() == 0);
    if text::is_white_space(c) {
        assert(pieces.drop_last() =~= before);
    } else {
        assert(pieces.drop_last() =~= before.drop_last());
        if s.len() == 0 || text::is_white_space(s.last()) {
            assert(before.last().push(c) =~= seq![c]);
        } else {
            assert(text::words(s).drop_last() =~= text::non_empty(before.drop_last()));
        }
    }
}

/// The ASCII characters that are white space: tab, line feed, vertical tab, form feed, carriage
/// return and space.
pub proof fn law_ascii_white_space(c: char)
    requires
        (c as int) < 128,
    ensures
        text::is_white_space(c) <==> 9 <= c as int <= 13 || c as int == 32,
{
}

/// A text of characters that are no white space is one word.
pub proof fn law_one_word(s: Seq<char>)
    requires
        s.len() > 0,
        forall|i: int| 0 <= i < s.len() ==> !text::is_white_space(#[trigger] s[i]),
    ensures
        text::words(s) == seq![s],
    decreases s.len(),
{
    let shorter = s.drop_last();
    assert(s == shorter.push(s.last()));
    assert(!text::is_white_space(s[s.len() - 1]));
    law_words_by_character(shorter, s.last());
    if shorter.len() > 0 {
        assert forall|i: int| 0 <= i < shorter.len() implies !text::is_white_space(
            #[trigger] shorter[i],
        ) by {
            assert(shorter[i] == s[i]);
        }
        law_one_word(shorter);
        assert(!text::is_white_space(s[s.len() - 2]));
        assert(text::words(s) =~= seq![s]);
    } else {
        assert(text::words(shorter) =~= Seq::empty());
        assert(s =~= seq![s.last()]);
        assert(text::words(s) =~= seq![s]);
    }
}

/// A word that follows white space is a word of its own.
pub proof fn law_words_part_at_white_space(s: Seq<char>, gap: char, word: Seq<char>)
    requires
        text::is_white_space(gap),
        word.len() > 0,
        forall|i: int| 0 <= i < word.len() ==> !text::is_white_space(#[trigger] word[i]),
    ensures
        text::words(s.push(gap) + word) == text::words(s).push(word),
    decreases word.len(),
{
    let shorter = word.drop_last();
    let front = s.push(gap);
    assert(front + word =~= (front + shorter).push(word.last()));
    assert(!text::is_white_space(word[word.len() - 1]));
    law_words_by_character(s, gap);
    law_words_by_character(front + shorter, word.last());
    if shorter.len() > 0 {
        assert forall|i: int| 0 <= i < shorter.len() implies !text::is_white_space(
            #[trigger] shorter[i],
        ) by {
            assert(shorter[i] == word[i]);
        }
        law_words_part_at_white_space(s, gap, shorter);
        assert((front + shorter).last() == word[word.len() - 2]);
        assert(shorter.push(word.last()) =~= word);
        assert(text::words(s).push(shorter).drop_last() =~= text::words(s));
    } else {
        assert(front + shorter =~= front);
        assert(word =~= seq![word.last()]);
    }
}

/// A list of pieces is a list before and a list behind a separator.
pub proof fn law_split_parts_at_separator(a: Seq<char>, separator: char, b: Seq<char>)
    ensures
        text::split_on(a.push(separator) + b, separator) == text::split_on(a, separator)
            + text::split_on(b, separator),
    decreases b.len(),
{
    let front = a.push(separator);
    let test = text::is_char(separator);
    text::lemma_split_has_a_piece(a, test);
    if b.len() == 0 {
        assert(front + b =~= front);
        assert(front.drop_last() =~= a);
        assert(text::split_on(b, separator) =~= seq![Seq::<char>::empty()]);
        assert(text::split_on(front, separator) =~= text::split_on(a, separator)
            + text::split_on(b, separator));
    } else {
        let shorter = b.drop_last();
        law_split_parts_at_separator(a, separator, shorter);
        text::lemma_split_has_a_piece(shorter, test);
        let all = front + b;
        assert(all.drop_last() =~= front + shorter);
        assert(all.last() == b.last());
        let left = text::split_on(a, separator);
        let right = text::split_on(shorter, separator);
        assert((left + right).last() == right.last());
        assert((left + right).drop_last() =~= left + right.drop_last());
        assert(text::split_on(all, separator) =~= left + text::split_on(b, separator));
    }
}

/// A text without the separator is one piece.
pub proof fn law_one_piece(s: Seq<char>, separator: char)
    requires
        !s.contains(separator),
    ensures
        text::split_on(s, separator) == seq![s],
    decreases s.len(),
{
    if s.len() > 0 {
        let shorter = s.drop_last();
        if shorter.contains(separator) {
            let j = shorter.index_of(separator);
            assert(s[j] == separator);
        }
        law_one_piece(shorter, separator);
        assert(s[s.len() - 1] != separator);
        assert(shorter.push(s.last()) =~= s);
        assert(text::split_on(s, separator) =~= seq![s]);
    } else {
        assert(s =~= Seq::empty());
        assert(text::split_on(s, separator) =~= seq![s]);
    }
}

/// Digits are the ASCII digits and, above ten, the letters in either case, each counting for its
/// place in the row.
pub proof fn law_digits(c: char)
    ensures
        number::digit_value(c, 10) == if 48 <= c as int <= 57 {
            Some(c as int - 48)
        } else {
            None
        },
        number::digit_value(c, 16) == if 48 <= c as int <= 57 {
            Some(c as int - 48)
        } else if 97 <= c as int <= 102 {
            Some(c as int - 97 + 10)
        } else if 65 <= c as int <= 70 {
            Some(c as int - 65 + 10)
        } else {
            None
        },
{
}

proof fn lemma_digits_not_negative(s: Seq<char>, radix: int)
    requires
        radix >= 2,
        number::all_digits(s, radix),
    ensures
        number::digits_value(s, radix) >= 0,
{
    number::lemma_digits_value_grows(s, 0, radix);
}

/// One more digit at the end makes a number the radix times as large and the digit larger. A
/// character that is no digit, or a number beyond the largest, makes it no number.
pub proof fn law_number_grows_by_digit(s: Seq<char>, c: char, radix: int, m: int, n: int, max: int)
    requires
        radix == 10 || radix == 16,
        number::parse_unsigned(s, radix, m) == Some(n),
    ensures
        number::parse_unsigned(s.push(c), radix, max) == match number::digit_value(c, radix) {
            Some(d) => if n * radix + d <= max {
                Some(n * radix + d)
            } else {
                None
            },
            None => None,
        },
        0 <= n <= m,
{
    let digits = if s.len() > 0 && s[0] == '+' {
        s.skip(1)
    } else {
        s
    };
    let longer = s.push(c);
    let more = if longer.len() > 0 && longer[0] == '+' {
        longer.skip(1)
    } else {
        longer
    };
    assert(more =~= digits.push(c));
    assert(more.drop_last() =~= digits);
    lemma_digits_not_negative(digits, radix);
    if number::digit_value(c, radix) is Some {
        assert forall|i: int| 0 <= i < more.len() implies number::digit_value(
            #[trigger] more[i],
            radix,
        ) is Some by {
            if i < digits.len() {
                assert(more[i] == digits[i]);
            }
        }
    } else {
        assert(more[digits.len() as int] == c);
    }
}

/// A single digit is the number that it counts for. No text and a lone sign are no numbers, and a
/// plus sign in front changes nothing.
pub proof fn law_shortest_numbers(c: char, s: Seq<char>, radix: int, max: int)
    requires
        radix == 10 || radix == 16,
        max >= 16,
    ensures
        number::parse_unsigned(seq![c], radix, max) == number::digit_value(c, radix),
        number::parse_unsigned(Seq::empty(), radix, max) is None,
        s.len() == 0 || s[0] != '+' ==> number::parse_unsigned(seq!['+'] + s, radix, max)
            == number::parse_unsigned(s, radix, max),
{
    reveal_with_fuel(number::digits_value, 2);
    assert((seq!['+'] + s).skip(1) =~= s);
    assert(seq![c].drop_last() =~= Seq::empty());
    if c == '+' {
        assert(seq![c].skip(1).len() == 0);
    } else if number::digit_value(c, radix) is None {
        assert(number::digit_value(seq![c][0], radix) is None);
    }
}

/// A number is written in ASCII digits, without a zero in front of others, and what is written
/// reads back as the number.
pub proof fn law_decimal_reads_back(n: nat, max: int)
    ensures
        number::parse_unsigned(number::decimal(n), 10, max) == if n <= max {
            Some(n as int)
        } else {
            None
        },
        number::decimal(n).len() > 0,
        number::decimal(n)[0] == '0' ==> n == 0,
        n < 10 <==> number::decimal(n).len() == 1,
        forall|i: int|
            0 <= i < number::decimal(n).len() ==> 48 <= (#[trigger] number::decimal(n)[i]) as int
                <= 57,
    decreases n,
{
    reveal_with_fuel(number::digits_value, 2);
    let s = number::decimal(n);
    if n < 10 {
        assert(s =~= seq![number::digit_char(n as int)]);
        assert(s.drop_last() =~= Seq::empty());
        assert(number::digit_value(s[0], 10) == Some(n as int));
    } else {
        law_decimal_reads_back(n / 10, n as int);
        law_number_grows_by_digit(
            number::decimal(n / 10),
            number::digit_char((n % 10) as int),
            10,
            n as int,
            (n / 10) as int,
            max,
        );
        assert(s.len() == number::decimal(n / 10).len() + 1);
        assert(s[0] == number::decimal(n / 10)[0]);
    }
}

/// Two digits at least: a zero in front of a single digit, and the number itself from ten on.
pub proof fn law_two_digits(n: nat)
    ensures
        n < 10 ==> number::two_digits(n) == seq!['0'] + number::decimal(n),
        n >= 10 ==> number::two_digits(n) == number::decimal(n),
        number::two_digits(n).len() >= 2,
        n < 100 ==> number::two_digits(n).len() == 2,
{
    law_decimal_reads_back(n, n as int);
    if 10 <= n < 100 {
        law_decimal_reads_back(n / 10, n as int);
    }
}

/// A negative number is a minus sign and the number without it; any other has no sign.
pub proof fn law_signed_decimal(n: nat)
    ensures
        number::signed_decimal(n as int) == number::decimal(n),
        n > 0 ==> number::signed_decimal(-n) == seq!['-'] + number::decimal(n),
{
}

/// A number is a plus sign or nothing, and then digits only.
pub proof fn law_number_alphabet(s: Seq<char>, radix: int, max: int)
    requires
        radix == 10 || radix == 16,
        number::parse_unsigned(s, radix, max) is Some,
    ensures
        s.len() > 0,
        forall|i: int|
            0 <= i < s.len() ==> number::digit_value(#[trigger] s[i], radix) is Some || (i == 0
                && s[i] == '+'),
        0 <= number::parse_unsigned(s, radix, max)->0 <= max,
{
    let digits = if s.len() > 0 && s[0] == '+' {
        s.skip(1)
    } else {
        s
    };
    lemma_digits_not_negative(digits, radix);
    assert forall|i: int| 0 <= i < s.len() implies number::digit_value(#[trigger] s[i], radix) is Some
        || (i == 0 && s[i] == '+') by {
        if s[0] == '+' {
            if i > 0 {
                assert(digits[i - 1] == s[i]);
            }
        } else {
            assert(digits[i] == s[i]);
        }
    }
}

/// A decimal number of 32 bits is read as any other.
pub proof fn law_numbers_of_32_bits(s: Seq<char>)
    ensures
        number::as_u32(s) == number::parse_unsigned(s, 10, 4_294_967_295),
{
}

} // verus!
