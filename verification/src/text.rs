//! Characters, pieces and words of texts.
//!
//! Text is modelled as `Seq<char>`, the view that a `String` and a `str` share.

use vstd::prelude::*;

verus! {

/// `String::push` appends one character to the end of the string.
pub assume_specification[ std::string::String::push ](s: &mut std::string::String, ch: char)
    ensures
        final(s)@ == old(s)@.push(ch),
;

/// The characters of a string, one by one.
pub fn chars_of(s: &str) -> (result: Vec<char>)
    ensures
        result@ == s@,
{
    let mut result: Vec<char> = Vec::new();
    for c in it: s.chars()
        invariant
            it.seq() == s@,
            result@ == s@.take(it.index()),
    {
        proof {
            assert(s@.take(it.index() + 1) =~= s@.take(it.index()).push(s@[it.index()]));
        }
        result.push(c);
    }
    assert(s@.take(s@.len() as int) =~= s@);
    result
}

/// The string made of the given characters.
pub fn string_of(chars: &Vec<char>) -> (result: String)
    ensures
        result@ == chars@,
{
    let mut result = String::new();
    let mut i: usize = 0;
    while i < chars.len()
        invariant
            i <= chars.len(),
            result@ == chars@.take(i as int),
        decreases chars.len() - i,
    {
        assert(chars@.take(i + 1) =~= chars@.take(i as int).push(chars@[i as int]));
        result.push(chars[i]);
        i += 1;
    }
    assert(chars@.take(chars@.len() as int) =~= chars@);
    result
}

/// Whether the characters spell exactly `text`.
pub fn spells(chars: &Vec<char>, text: &str) -> (result: bool)
    ensures
        result == (chars@ == text@),
{
    let wanted = chars_of(text);
    if chars.len() != wanted.len() {
        return false;
    }
    let mut i: usize = 0;
    while i < chars.len()
        invariant
            i <= chars.len(),
            chars.len() == wanted.len(),
            wanted@ == text@,
            chars@.take(i as int) =~= text@.take(i as int),
        decreases chars.len() - i,
    {
        if chars[i] != wanted[i] {
            assert(chars@[i as int] != text@[i as int]);
            return false;
        }
        assert(chars@.take(i + 1) =~= chars@.take(i as int).push(chars@[i as int]));
        assert(text@.take(i + 1) =~= text@.take(i as int).push(text@[i as int]));
        i += 1;
    }
    assert(chars@.take(chars@.len() as int) =~= chars@);
    assert(text@.take(text@.len() as int) =~= text@);
    true
}

/// A copy of the characters from position `from` up to, not including, `to`.
pub fn slice_chars(chars: &Vec<char>, from: usize, to: usize) -> (result: Vec<char>)
    requires
        from <= to <= chars.len(),
    ensures
        result@ == chars@.subrange(from as int, to as int),
{
    let mut result: Vec<char> = Vec::new();
    let mut i: usize = from;
    while i < to
        invariant
            from <= i <= to <= chars.len(),
            result@ == chars@.subrange(from as int, i as int),
        decreases to - i,
    {
        assert(chars@.subrange(from as int, i + 1) =~= chars@.subrange(from as int, i as int).push(
            chars@[i as int],
        ));
        result.push(chars[i]);
        i += 1;
    }
    result
}

/// The text before and after the first `c`, if there is one.
pub open spec fn split_once(s: Seq<char>, c: char) -> Option<(Seq<char>, Seq<char>)> {
    match s.index_of_first(c) {
        Some(at) => Some((s.take(at), s.skip(at + 1))),
        None => None,
    }
}

/// Parts the characters at the first `c`.
pub fn split_chars_once(chars: &Vec<char>, c: char) -> (result: Option<(Vec<char>, Vec<char>)>)
    ensures
        match result {
            Some((before, after)) => split_once(chars@, c) == Some((before@, after@)),
            None => split_once(chars@, c) is None,
        },
        result is Some <==> chars@.contains(c),
{
    let mut i: usize = 0;
    while i < chars.len()
        invariant
            i <= chars.len(),
            forall|j: int| 0 <= j < i ==> chars@[j] != c,
        decreases chars.len() - i,
    {
        if chars[i] == c {
            proof {
                chars@.index_of_first_ensures(c);
                assert(chars@.contains(c));
                assert(chars@.index_of_first(c) == Some(i as int));
                assert(chars@.take(i as int) =~= chars@.subrange(0, i as int));
                assert(chars@.skip(i + 1) =~= chars@.subrange(i + 1, chars@.len() as int));
            }
            return Some((slice_chars(chars, 0, i), slice_chars(chars, i + 1, chars.len())));
        }
        i += 1;
    }
    proof {
        chars@.index_of_first_ensures(c);
    }
    None
}

/// What is left of `s` behind `prefix`, if `s` starts with it.
pub open spec fn strip_prefix(s: Seq<char>, prefix: Seq<char>) -> Option<Seq<char>> {
    if prefix.is_prefix_of(s) {
        Some(s.skip(prefix.len() as int))
    } else {
        None
    }
}

/// Takes `prefix` off the front of the characters.
pub fn strip_chars_prefix(chars: &Vec<char>, prefix: &str) -> (result: Option<Vec<char>>)
    ensures
        match result {
            Some(rest) => strip_prefix(chars@, prefix@) == Some(rest@),
            None => strip_prefix(chars@, prefix@) is None,
        },
{
    let wanted = chars_of(prefix);
    if chars.len() < wanted.len() {
        return None;
    }
    let mut i: usize = 0;
    while i < wanted.len()
        invariant
            i <= wanted.len() <= chars.len(),
            wanted@ == prefix@,
            forall|j: int| 0 <= j < i ==> chars@[j] == prefix@[j],
        decreases wanted.len() - i,
    {
        if chars[i] != wanted[i] {
            assert(chars@.subrange(0, prefix@.len() as int)[i as int] != prefix@[i as int]);
            return None;
        }
        i += 1;
    }
    assert(prefix@ =~= chars@.subrange(0, prefix@.len() as int));
    assert(chars@.skip(prefix@.len() as int) =~= chars@.subrange(
        prefix@.len() as int,
        chars@.len() as int,
    ));
    Some(slice_chars(chars, wanted.len(), chars.len()))
}

/// The views of a list of pieces.
pub open spec fn piece_views(pieces: Seq<Vec<char>>) -> Seq<Seq<char>> {
    Seq::new(pieces.len(), |i: int| pieces[i]@)
}

/// The maximal runs of characters between separators, empty runs included. There is one more
/// piece than there are separators.
pub open spec fn split_where(s: Seq<char>, is_separator: spec_fn(char) -> bool) -> Seq<Seq<char>>
    decreases s.len(),
{
    if s.len() == 0 {
        seq![Seq::empty()]
    } else {
        let before = split_where(s.drop_last(), is_separator);
        if is_separator(s.last()) {
            before.push(Seq::empty())
        } else {
            before.drop_last().push(before.last().push(s.last()))
        }
    }
}

/// The test for one particular character.
pub open spec fn is_char(wanted: char) -> spec_fn(char) -> bool {
    |c: char| c == wanted
}

/// The pieces of `s` between occurrences of `separator`.
pub open spec fn split_on(s: Seq<char>, separator: char) -> Seq<Seq<char>> {
    split_where(s, is_char(separator))
}

/// A character with the Unicode property `White_Space`.
pub open spec fn is_white_space(c: char) -> bool {
    ||| '\u{9}' <= c <= '\u{d}'
    ||| c == ' '
    ||| c == '\u{85}'
    ||| c == '\u{a0}'
    ||| c == '\u{1680}'
    ||| '\u{2000}' <= c <= '\u{200a}'
    ||| c == '\u{2028}'
    ||| c == '\u{2029}'
    ||| c == '\u{202f}'
    ||| c == '\u{205f}'
    ||| c == '\u{3000}'
}

/// The non-empty pieces, in order.
pub open spec fn non_empty(pieces: Seq<Seq<char>>) -> Seq<Seq<char>>
    decreases pieces.len(),
{
    if pieces.len() == 0 {
        Seq::empty()
    } else if pieces.last().len() == 0 {
        non_empty(pieces.drop_last())
    } else {
        non_empty(pieces.drop_last()).push(pieces.last())
    }
}

/// The words of `s`: what stands between stretches of white space.
pub open spec fn words(s: Seq<char>) -> Seq<Seq<char>> {
    non_empty(split_where(s, |c: char| is_white_space(c)))
}

/// Whether `c` has the property `White_Space`.
fn white_space(c: char) -> (result: bool)
    ensures
        result == is_white_space(c),
{
    ('\u{9}' <= c && c <= '\u{d}') || c == ' ' || c == '\u{85}' || c == '\u{a0}' || c
        == '\u{1680}' || ('\u{2000}' <= c && c <= '\u{200a}') || c == '\u{2028}' || c == '\u{2029}'
        || c == '\u{202f}' || c == '\u{205f}' || c == '\u{3000}'
}

/// There is always a piece, if only an empty one.
pub proof fn lemma_split_has_a_piece(s: Seq<char>, is_separator: spec_fn(char) -> bool)
    ensures
        split_where(s, is_separator).len() > 0,
    decreases s.len(),
{
    if s.len() > 0 {
        lemma_split_has_a_piece(s.drop_last(), is_separator);
    }
}

/// The pieces with the separator between them again.
pub open spec fn joined(pieces: Seq<Seq<char>>, separator: char) -> Seq<char>
    decreases pieces.len(),
{
    if pieces.len() == 0 {
        Seq::empty()
    } else if pieces.len() == 1 {
        pieces[0]
    } else {
        joined(pieces.drop_last(), separator).push(separator) + pieces.last()
    }
}

/// Splitting loses nothing: joined again, the pieces are the text, and no piece holds the
/// separator.
pub proof fn law_split_joins_again(s: Seq<char>, separator: char)
    ensures
        joined(split_on(s, separator), separator) == s,
        forall|i: int|
            0 <= i < split_on(s, separator).len() ==> !(#[trigger] split_on(
                s,
                separator,
            )[i]).contains(separator),
    decreases s.len(),
{
    let pieces = split_on(s, separator);
    lemma_split_has_a_piece(s, is_char(separator));
    if s.len() == 0 {
        assert(joined(pieces, separator) =~= s);
    } else {
        let before = split_on(s.drop_last(), separator);
        lemma_split_has_a_piece(s.drop_last(), is_char(separator));
        law_split_joins_again(s.drop_last(), separator);
        if s.last() == separator {
            assert(pieces.drop_last() =~= before);
            assert(joined(pieces, separator) =~= s);
        } else {
            let last = before.last();
            assert(pieces.drop_last() =~= before.drop_last());
            assert(pieces.last() == last.push(s.last()));
            if pieces.len() == 1 {
                assert(joined(pieces, separator) =~= s);
            } else {
                assert(joined(pieces, separator) =~= joined(before, separator).push(s.last()));
                assert(joined(pieces, separator) =~= s);
            }
            assert forall|i: int| 0 <= i < pieces.len() implies !(#[trigger] pieces[i]).contains(
                separator,
            ) by {
                if i < pieces.len() - 1 {
                    assert(pieces[i] == before[i]);
                } else {
                    assert(!before[before.len() - 1].contains(separator));
                    if pieces[i].contains(separator) {
                        let j = choose|j: int| 0 <= j < pieces[i].len() && pieces[i][j] == separator;
                        assert(last[j] == separator);
                    }
                }
            }
        }
    }
}

/// Cuts the characters at each `separator`.
pub fn split_chars_on(chars: &Vec<char>, separator: char) -> (result: Vec<Vec<char>>)
    ensures
        piece_views(result@) == split_on(chars@, separator),
        result.len() > 0,
{
    let ghost is_separator = is_char(separator);
    let mut done: Vec<Vec<char>> = Vec::new();
    let mut current: Vec<char> = Vec::new();
    let mut i: usize = 0;
    assert(piece_views(done@).push(current@) =~= split_where(chars@.take(0), is_separator));
    while i < chars.len()
        invariant
            i <= chars.len(),
            is_separator == is_char(separator),
            piece_views(done@).push(current@) == split_where(chars@.take(i as int), is_separator),
        decreases chars.len() - i,
    {
        let ghost done_before = done@;
        let ghost current_before = current@;
        proof {
            let next = chars@.take(i + 1);
            assert(next.drop_last() =~= chars@.take(i as int));
            assert(next.last() == chars@[i as int]);
            assert(piece_views(done@).push(current@).drop_last() =~= piece_views(done@));
        }
        if chars[i] == separator {
            done.push(current);
            current = Vec::new();
            assert(piece_views(done@) =~= piece_views(done_before).push(current_before));
            assert(current@ =~= Seq::empty());
        } else {
            current.push(chars[i]);
        }
        i += 1;
    }
    assert(chars@.take(chars@.len() as int) =~= chars@);
    let ghost done_before = done@;
    let ghost current_before = current@;
    done.push(current);
    assert(piece_views(done@) =~= piece_views(done_before).push(current_before));
    done
}

proof fn lemma_non_empty_pieces(pieces: Seq<Seq<char>>)
    ensures
        forall|i: int|
            0 <= i < non_empty(pieces).len() ==> (#[trigger] non_empty(pieces)[i]).len() > 0
                && pieces.contains(non_empty(pieces)[i]),
    decreases pieces.len(),
{
    if pieces.len() > 0 {
        let shorter = pieces.drop_last();
        lemma_non_empty_pieces(shorter);
        let kept = non_empty(pieces);
        assert forall|i: int| 0 <= i < kept.len() implies (#[trigger] kept[i]).len() > 0
            && pieces.contains(kept[i]) by {
            if i < non_empty(shorter).len() {
                assert(kept[i] == non_empty(shorter)[i]);
                let j = shorter.index_of(kept[i]);
                assert(pieces[j] == kept[i]);
            } else {
                assert(pieces[pieces.len() - 1] == kept[i]);
            }
        }
    }
}

proof fn lemma_pieces_hold_no_separator(s: Seq<char>, is_separator: spec_fn(char) -> bool)
    ensures
        forall|i: int, j: int|
            0 <= i < split_where(s, is_separator).len() && 0 <= j < split_where(
                s,
                is_separator,
            )[i].len() ==> !is_separator(#[trigger] split_where(s, is_separator)[i][j]),
    decreases s.len(),
{
    if s.len() > 0 {
        let before = split_where(s.drop_last(), is_separator);
        let pieces = split_where(s, is_separator);
        lemma_split_has_a_piece(s.drop_last(), is_separator);
        lemma_pieces_hold_no_separator(s.drop_last(), is_separator);
        assert forall|i: int, j: int|
            0 <= i < pieces.len() && 0 <= j < pieces[i].len() implies !is_separator(
            #[trigger] pieces[i][j],
        ) by {
            if i < before.len() - 1 {
                assert(pieces[i] == before[i]);
            } else if i == before.len() - 1 && j < before[i].len() {
                assert(pieces[i][j] == before[i][j]);
            }
        }
    }
}

/// A word is not empty and holds no white space.
pub proof fn law_words(s: Seq<char>, i: int)
    requires
        0 <= i < words(s).len(),
    ensures
        words(s)[i].len() > 0,
        forall|j: int| 0 <= j < words(s)[i].len() ==> !is_white_space(#[trigger] words(s)[i][j]),
{
    let is_separator = |c: char| is_white_space(c);
    let pieces = split_where(s, is_separator);
    lemma_non_empty_pieces(pieces);
    lemma_pieces_hold_no_separator(s, is_separator);
    assert(pieces.contains(words(s)[i]));
    let k = pieces.index_of(words(s)[i]);
    assert forall|j: int| 0 <= j < words(s)[i].len() implies !is_white_space(
        #[trigger] words(s)[i][j],
    ) by {
        assert(!is_separator(pieces[k][j]));
    }
}

/// Cuts the text into its words.
pub fn split_words(text: &str) -> (result: Vec<Vec<char>>)
    ensures
        piece_views(result@) == words(text@),
{
    let chars = chars_of(text);
    let ghost is_separator = |c: char| is_white_space(c);
    let mut done: Vec<Vec<char>> = Vec::new();
    let mut current: Vec<char> = Vec::new();
    let mut i: usize = 0;
    assert(split_where(chars@.take(0), is_separator) =~= seq![Seq::<char>::empty()]);
    assert(seq![Seq::<char>::empty()].drop_last() =~= Seq::<Seq<char>>::empty());
    assert(piece_views(done@) =~= Seq::<Seq<char>>::empty());
    while i < chars.len()
        invariant
            i <= chars.len(),
            is_separator == (|c: char| is_white_space(c)),
            split_where(chars@.take(i as int), is_separator).len() > 0,
            current@ == split_where(chars@.take(i as int), is_separator).last(),
            piece_views(done@) == non_empty(
                split_where(chars@.take(i as int), is_separator).drop_last(),
            ),
        decreases chars.len() - i,
    {
        let ghost so_far = split_where(chars@.take(i as int), is_separator);
        let ghost next = split_where(chars@.take(i + 1), is_separator);
        let ghost done_before = done@;
        let ghost current_before = current@;
        proof {
            assert(chars@.take(i + 1).drop_last() =~= chars@.take(i as int));
            assert(chars@.take(i + 1).last() == chars@[i as int]);
        }
        if white_space(chars[i]) {
            assert(next.drop_last() =~= so_far);
            if current.len() > 0 {
                done.push(current);
                assert(piece_views(done@) =~= piece_views(done_before).push(current_before));
            }
            current = Vec::new();
            assert(current@ =~= Seq::empty());
        } else {
            assert(next.drop_last() =~= so_far.drop_last());
            current.push(chars[i]);
        }
        i += 1;
    }
    assert(chars@.take(chars@.len() as int) =~= chars@);
    let ghost done_before = done@;
    let ghost current_before = current@;
    if current.len() > 0 {
        done.push(current);
        assert(piece_views(done@) =~= piece_views(done_before).push(current_before));
    }
    done
}

} // verus!
