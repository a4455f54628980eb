//! Character sequences: splitting, joining, ASCII case and comparison.

use vstd::prelude::*;

verus! {

/// Appends one character.
pub assume_specification[ String::push ](s: &mut String, ch: char)
    ensures
        final(s)@ == old(s)@.push(ch),
;

/// The lower-case form of a text by the Unicode rules of the standard library.
pub uninterp spec fn unicode_lowercase(s: Seq<char>) -> Seq<char>;

/// `str::to_lowercase`: the lower-case form of the text.
#[verifier::external_body]
pub(crate) fn to_lowercase(s: &str) -> (lower: String)
    ensures
        lower@ == unicode_lowercase(s@),
{
    s.to_lowercase()
}

/// The characters that Unicode calls white space.
pub open spec fn is_white_space(c: char) -> bool {
    ||| '\u{9}' <= c <= '\u{d}'
    ||| c == ' '
    ||| c == '\u{85}'
    ||| c == '\u{a0}'
    ||| c == '\u{1680}'
    ||| '\u{2000}' <= c <= '\u{200a}'
    ||| c == '\u{2028}'
    ||| c == '\u{2029}'
    ||| c == '\u{202f}'
    ||| c == '\u{205f}'
    ||| c == '\u{3000}'
}

/// A text without the white space at its start.
pub open spec fn without_leading_space(s: Seq<char>) -> Seq<char>
    decreases s.len(),
{
    if s.len() > 0 && is_white_space(s[0]) {
        without_leading_space(s.skip(1))
    } else {
        s
    }
}

/// A text without the white space at its end.
pub open spec fn without_trailing_space(s: Seq<char>) -> Seq<char>
    decreases s.len(),
{
    if s.len() > 0 && is_white_space(s.last()) {
        without_trailing_space(s.drop_last())
    } else {
        s
    }
}

/// A text without the white space at its ends.
pub open spec fn unicode_trim(s: Seq<char>) -> Seq<char> {
    without_trailing_space(without_leading_space(s))
}

fn is_space(c: char) -> (yes: bool)
    ensures
        yes == is_white_space(c),
{
    ('\u{9}' <= c && c <= '\u{d}') || c == ' ' || c == '\u{85}' || c == '\u{a0}' || c == '\u{1680}'
        || ('\u{2000}' <= c && c <= '\u{200a}') || c == '\u{2028}' || c == '\u{2029}' || c
        == '\u{202f}' || c == '\u{205f}' || c == '\u{3000}'
}

/// The text without leading and trailing white space.
pub(crate) fn trim(s: &str) -> (trimmed: String)
    ensures
        trimmed@ == unicode_trim(s@),
{
    let chars = to_chars(s);
    let mut start: usize = 0;
    assert(s@.skip(0) =~= s@);
    while start < chars.len() && is_space(chars[start])
        invariant
            start <= chars.len(),
            chars@ == s@,
            without_leading_space(s@) == without_leading_space(s@.skip(start as int)),
        decreases chars.len() - start,
    {
        assert(s@.skip(start as int).skip(1) =~= s@.skip(start + 1));
        start += 1;
    }
    let ghost rest = s@.skip(start as int);
    assert(without_leading_space(s@) == rest);
    let mut end: usize = chars.len();
    assert(s@.subrange(start as int, end as int) =~= rest);
    while start < end && is_space(chars[end - 1])
        invariant
            start <= end <= chars.len(),
            chars@ == s@,
            without_trailing_space(rest) == without_trailing_space(
                s@.subrange(start as int, end as int),
            ),
        decreases end,
    {
        assert(s@.subrange(start as int, end as int).drop_last() =~= s@.subrange(
            start as int,
            end - 1,
        ));
        end -= 1;
    }
    let kept = vstd::slice::slice_subrange(chars.as_slice(), start, end);
    assert(kept@ =~= s@.subrange(start as int, end as int));
    from_chars(kept)
}

/// The pieces of `s` between occurrences of `separator`; always at least one piece.
pub open spec fn split(s: Seq<char>, separator: char) -> Seq<Seq<char>>
    decreases s.len(),
{
    if s.len() == 0 {
        seq![Seq::<char>::empty()]
    } else {
        let pieces = split(s.drop_last(), separator);
        if s.last() == separator {
            pieces.push(Seq::<char>::empty())
        } else {
            pieces.drop_last().push(pieces.last().push(s.last()))
        }
    }
}

/// The pieces one after another with `separator` between them.
pub open spec fn join(pieces: Seq<Seq<char>>, separator: char) -> Seq<char>
    decreases pieces.len(),
{
    if pieces.len() == 0 {
        Seq::<char>::empty()
    } else if pieces.len() == 1 {
        pieces[0]
    } else {
        join(pieces.drop_last(), separator).push(separator) + pieces.last()
    }
}

pub open spec fn ascii_upper(c: char) -> char {
    if 'a' <= c <= 'z' {
        (c as u32 - 32) as char
    } else {
        c
    }
}

pub open spec fn ascii_uppercase(s: Seq<char>) -> Seq<char> {
    Seq::new(s.len(), |i: int| ascii_upper(s[i]))
}

/// Where `c` first occurs in `s`, or the length of `s` where it does not.
pub open spec fn first_index_of(s: Seq<char>, c: char) -> int
    decreases s.len(),
{
    if s.len() == 0 || s[0] == c {
        0
    } else {
        1 + first_index_of(s.skip(1), c)
    }
}

/// What stands before the first `c`.
pub open spec fn before_first(s: Seq<char>, c: char) -> Seq<char> {
    s.take(first_index_of(s, c))
}

/// `s` begins with `prefix`.
pub open spec fn starts_with(s: Seq<char>, prefix: Seq<char>) -> bool {
    s.len() >= prefix.len() && s.take(prefix.len() as int) == prefix
}

/// The texts without the first that is `wanted`.
pub open spec fn without_first(texts: Seq<Seq<char>>, wanted: Seq<char>) -> Seq<Seq<char>>
    decreases texts.len(),
{
    if texts.len() == 0 {
        texts
    } else if texts[0] == wanted {
        texts.skip(1)
    } else {
        seq![texts[0]] + without_first(texts.skip(1), wanted)
    }
}

pub proof fn lemma_without_first(texts: Seq<Seq<char>>, wanted: Seq<char>, index: int)
    requires
        0 <= index <= texts.len(),
        forall|k: int| 0 <= k < index ==> texts[k] != wanted,
        index < texts.len() ==> texts[index] == wanted,
    ensures
        without_first(texts, wanted) == if index < texts.len() {
            texts.remove(index)
        } else {
            texts
        },
    decreases texts.len(),
{
    if texts.len() > 0 {
        if index == 0 {
            assert(texts.skip(1) =~= texts.remove(0));
        } else {
            let rest = texts.skip(1);
            assert forall|k: int| 0 <= k < index - 1 implies rest[k] != wanted by {
                assert(rest[k] == texts[k + 1]);
            }
            lemma_without_first(rest, wanted, index - 1);
            if index < texts.len() {
                assert(seq![texts[0]] + rest.remove(index - 1) =~= texts.remove(index));
            } else {
                assert(seq![texts[0]] + rest =~= texts);
            }
        }
    }
}

/// The characters of a text, where there is one.
pub open spec fn view_of(s: Option<String>) -> Option<Seq<char>> {
    match s {
        Some(text) => Some(text@),
        None => None,
    }
}

/// The views of a vector of strings.
pub open spec fn views(v: Seq<String>) -> Seq<Seq<char>> {
    Seq::new(v.len(), |i: int| v[i]@)
}

pub proof fn lemma_split_nonempty(s: Seq<char>, separator: char)
    ensures
        split(s, separator).len() >= 1,
    decreases s.len(),
{
    if s.len() > 0 {
        lemma_split_nonempty(s.drop_last(), separator);
    }
}

/// Joining what `split` gives restores the text.
pub proof fn law_join_restores_split(s: Seq<char>, separator: char)
    ensures
        join(split(s, separator), separator) == s,
    decreases s.len(),
{
    lemma_split_nonempty(s, separator);
    if s.len() > 0 {
        let shorter = s.drop_last();
        let pieces = split(shorter, separator);
        lemma_split_nonempty(shorter, separator);
        law_join_restores_split(shorter, separator);
        if s.last() == separator {
            let longer = pieces.push(Seq::<char>::empty());
            assert(longer.drop_last() =~= pieces);
            assert(join(longer, separator) =~= s);
        } else {
            let longer = pieces.drop_last().push(pieces.last().push(s.last()));
            assert(longer.drop_last() =~= pieces.drop_last());
            assert(join(longer, separator) =~= join(pieces, separator).push(s.last()));
            assert(join(longer, separator) =~= s);
        }
    } else {
        assert(join(split(s, separator), separator) =~= s);
    }
}

/// No piece holds the separator.
pub proof fn law_split_pieces_lack_separator(s: Seq<char>, separator: char)
    ensures
        forall|i: int|
            0 <= i < split(s, separator).len() ==> !(#[trigger] split(s, separator)[i]).contains(
                separator,
            ),
    decreases s.len(),
{
    if s.len() > 0 {
        let shorter = s.drop_last();
        let pieces = split(shorter, separator);
        lemma_split_nonempty(shorter, separator);
        law_split_pieces_lack_separator(shorter, separator);
        assert forall|i: int| 0 <= i < split(s, separator).len() implies !(#[trigger] split(
            s,
            separator,
        )[i]).contains(separator) by {
            let all = split(s, separator);
            if s.last() != separator && i == all.len() - 1 {
                let before = pieces.last();
                assert(!pieces[pieces.len() - 1].contains(separator));
                assert(all[i] == before.push(s.last()));
                assert forall|j: int| 0 <= j < all[i].len() implies all[i][j] != separator by {
                    if j < before.len() {
                        assert(before.contains(before[j]));
                    }
                }
            }
        }
    }
}

/// A piece holds only characters of the whole.
pub proof fn lemma_split_keeps_characters(s: Seq<char>, separator: char, i: int)
    requires
        0 <= i < split(s, separator).len(),
    ensures
        forall|c: char| #[trigger] split(s, separator)[i].contains(c) ==> s.contains(c),
    decreases s.len(),
{
    if s.len() > 0 {
        let shorter = s.drop_last();
        let pieces = split(shorter, separator);
        let all = split(s, separator);
        lemma_split_nonempty(shorter, separator);
        assert forall|c: char| #[trigger] all[i].contains(c) implies s.contains(c) by {
            let j = choose|j: int| 0 <= j < all[i].len() && all[i][j] == c;
            if s.last() != separator && i == all.len() - 1 && j == all[i].len() - 1 {
                assert(s[s.len() - 1] == c);
            } else {
                assert(i < pieces.len());
                assert(pieces[i][j] == c);
                assert(pieces[i].contains(c));
                lemma_split_keeps_characters(shorter, separator, i);
                let k = choose|k: int| 0 <= k < shorter.len() && shorter[k] == c;
                assert(s[k] == c);
            }
        }
    }
}

proof fn lemma_split_extends_last(s: Seq<char>, tail: Seq<char>, separator: char)
    requires
        !tail.contains(separator),
    ensures
        split(s + tail, separator) == split(s, separator).drop_last().push(
            split(s, separator).last() + tail,
        ),
    decreases tail.len(),
{
    lemma_split_nonempty(s, separator);
    if tail.len() == 0 {
        assert(s + tail =~= s);
        assert(split(s, separator).last() + tail =~= split(s, separator).last());
        assert(split(s, separator) =~= split(s, separator).drop_last().push(
            split(s, separator).last(),
        ));
    } else {
        let shorter = tail.drop_last();
        assert forall|i: int| 0 <= i < shorter.len() implies shorter[i] != separator by {
            assert(tail.contains(tail[i]));
        }
        lemma_split_extends_last(s, shorter, separator);
        assert(tail.contains(tail[tail.len() - 1]));
        assert((s + tail).drop_last() =~= s + shorter);
        let pieces = split(s + shorter, separator);
        assert(pieces.last().push(tail.last()) =~= split(s, separator).last() + tail);
        assert(pieces.drop_last() =~= split(s, separator).drop_last());
    }
}

/// Splitting what `join` gives restores the pieces, where there are any and
/// none of them holds the separator.
pub proof fn law_split_restores_join(pieces: Seq<Seq<char>>, separator: char)
    requires
        pieces.len() > 0,
        forall|i: int| 0 <= i < pieces.len() ==> !(#[trigger] pieces[i]).contains(separator),
    ensures
        split(join(pieces, separator), separator) == pieces,
    decreases pieces.len(),
{
    assert(!pieces[pieces.len() - 1].contains(separator));
    if pieces.len() == 1 {
        let nothing = Seq::<char>::empty();
        lemma_split_extends_last(nothing, pieces[0], separator);
        assert(nothing + pieces[0] =~= pieces[0]);
        assert(split(nothing, separator) =~= seq![nothing]);
        assert(split(pieces[0], separator) =~= pieces);
    } else {
        let shorter = pieces.drop_last();
        assert forall|i: int| 0 <= i < shorter.len() implies !(#[trigger] shorter[i]).contains(
            separator,
        ) by {
            assert(shorter[i] == pieces[i]);
        }
        law_split_restores_join(shorter, separator);
        let head = join(shorter, separator).push(separator);
        assert(head.drop_last() =~= join(shorter, separator));
        assert(split(head, separator) == shorter.push(Seq::<char>::empty()));
        lemma_split_extends_last(head, pieces.last(), separator);
        assert(Seq::<char>::empty() + pieces.last() =~= pieces.last());
        assert(split(join(pieces, separator), separator) =~= pieces);
    }
}

/// What stands on either side of a separator is split on its own.
pub proof fn law_split_of_two_parts(a: Seq<char>, b: Seq<char>, separator: char)
    ensures
        split(a.push(separator) + b, separator) == split(a, separator) + split(b, separator),
    decreases b.len(),
{
    if b.len() == 0 {
        assert(a.push(separator) + b =~= a.push(separator));
        assert(a.push(separator).drop_last() =~= a);
        assert(split(a.push(separator), separator) =~= split(a, separator) + split(b, separator));
    } else {
        let shorter = b.drop_last();
        law_split_of_two_parts(a, shorter, separator);
        lemma_split_nonempty(shorter, separator);
        let whole = a.push(separator) + b;
        assert(whole.drop_last() =~= a.push(separator) + shorter);
        assert(split(whole, separator) =~= split(a, separator) + split(b, separator));
    }
}

/// A text without the separator is a piece of its own.
pub proof fn lemma_split_of_one(s: Seq<char>, separator: char)
    requires
        !s.contains(separator),
    ensures
        split(s, separator) == seq![s],
{
    let pieces = seq![s];
    assert(join(pieces, separator) == s);
    law_split_restores_join(pieces, separator);
}

pub proof fn lemma_join_of_two_parts(x: Seq<Seq<char>>, y: Seq<Seq<char>>, separator: char)
    requires
        x.len() > 0,
        y.len() > 0,
    ensures
        join(x + y, separator) == join(x, separator).push(separator) + join(y, separator),
    decreases y.len(),
{
    let whole = x + y;
    assert(whole.last() == y.last());
    assert(whole.drop_last() =~= x + y.drop_last());
    if y.len() == 1 {
        assert(whole.drop_last() =~= x);
    } else {
        lemma_join_of_two_parts(x, y.drop_last(), separator);
        assert(join(whole, separator) =~= join(x, separator).push(separator) + join(y, separator));
    }
}

/// The characters of a text.
pub fn to_chars(s: &str) -> (chars: Vec<char>)
    ensures
        chars@ == s@,
{
    let mut chars: Vec<char> = Vec::new();
    for c in it: s.chars()
        invariant
            chars@ == s@.take(it.index() as int),
            it.seq() == s@,
    {
        chars.push(c);
    }
    assert(s@.take(s@.len() as int) =~= s@);
    chars
}

/// The text made of some characters.
pub fn from_chars(chars: &[char]) -> (s: String)
    ensures
        s@ == chars@,
{
    let mut s = String::new();
    let mut i: usize = 0;
    while i < chars.len()
        invariant
            i <= chars.len(),
            s@ == chars@.take(i as int),
        decreases chars.len() - i,
    {
        s.push(chars[i]);
        i += 1;
        assert(chars@.take(i as int) =~= chars@.take(i - 1).push(chars@[i - 1]));
    }
    assert(chars@.take(i as int) =~= chars@);
    s
}

/// The pieces of `chars` between occurrences of `separator`.
pub fn split_chars(chars: &[char], separator: char) -> (pieces: Vec<Vec<char>>)
    ensures
        pieces.len() == split(chars@, separator).len(),
        forall|i: int|
            0 <= i < pieces.len() ==> (#[trigger] pieces[i])@ == split(chars@, separator)[i],
{
    let mut pieces: Vec<Vec<char>> = Vec::new();
    let mut current: Vec<char> = Vec::new();
    let mut i: usize = 0;
    assert(chars@.take(0) =~= Seq::<char>::empty());
    while i < chars.len()
        invariant
            i <= chars.len(),
            pieces.len() + 1 == split(chars@.take(i as int), separator).len(),
            current@ == split(chars@.take(i as int), separator).last(),
            forall|k: int|
                0 <= k < pieces.len() ==> (#[trigger] pieces[k])@ == split(
                    chars@.take(i as int),
                    separator,
                )[k],
        decreases chars.len() - i,
    {
        let c = chars[i];
        assert(chars@.take(i + 1).drop_last() =~= chars@.take(i as int));
        if c == separator {
            pieces.push(current);
            current = Vec::new();
        } else {
            current.push(c);
        }
        i += 1;
    }
    assert(chars@.take(i as int) =~= chars@);
    pieces.push(current);
    pieces
}

pub fn contains_char(chars: &[char], c: char) -> (found: bool)
    ensures
        found == chars@.contains(c),
{
    let mut i: usize = 0;
    while i < chars.len()
        invariant
            i <= chars.len(),
            forall|k: int| 0 <= k < i ==> chars@[k] != c,
        decreases chars.len() - i,
    {
        if chars[i] == c {
            assert(chars@.contains(chars@[i as int]));
            return true;
        }
        i += 1;
    }
    false
}

pub fn find_char(chars: &[char], c: char) -> (index: usize)
    ensures
        index == first_index_of(chars@, c),
        index <= chars.len(),
{
    let mut i: usize = 0;
    assert(chars@.skip(0) =~= chars@);
    while i < chars.len()
        invariant
            i <= chars.len(),
            first_index_of(chars@, c) == i + first_index_of(chars@.skip(i as int), c),
        decreases chars.len() - i,
    {
        if chars[i] == c {
            return i;
        }
        assert(chars@.skip(i as int).skip(1) =~= chars@.skip(i + 1));
        i += 1;
    }
    i
}

/// Whether two runs of characters are the same.
pub fn same_chars(a: &[char], b: &[char]) -> (same: bool)
    ensures
        same == (a@ == b@),
{
    if a.len() != b.len() {
        return false;
    }
    let mut i: usize = 0;
    while i < a.len()
        invariant
            i <= a.len(),
            a.len() == b.len(),
            forall|k: int| 0 <= k < i ==> a@[k] == b@[k],
        decreases a.len() - i,
    {
        if a[i] != b[i] {
            return false;
        }
        i += 1;
    }
    assert(a@ =~= b@);
    true
}

pub open spec fn decimal_digit(value: int) -> char {
    (48 + value) as char
}

/// A number in decimal, without leading zeros.
pub open spec fn decimal(value: nat) -> Seq<char>
    decreases value,
{
    if value < 10 {
        seq![decimal_digit(value as int)]
    } else {
        decimal(value / 10).push(decimal_digit((value % 10) as int))
    }
}

/// A number in decimal.
pub fn to_decimal(value: u64) -> (text: String)
    ensures
        text@ == decimal(value as nat),
    decreases value,
{
    let digit = (48 + (value % 10) as u8) as char;
    if value < 10 {
        let mut text = String::new();
        text.push(digit);
        assert(text@ =~= seq![digit]);
        text
    } else {
        let mut text = to_decimal(value / 10);
        text.push(digit);
        text
    }
}

/// `part` occurs in `whole`.
pub open spec fn contains_text(whole: Seq<char>, part: Seq<char>) -> bool {
    exists|i: int|
        0 <= i <= whole.len() - part.len() && #[trigger] whole.subrange(i, i + part.len()) == part
}

/// Whether `part` occurs in `whole`.
pub fn has_text(whole: &str, part: &str) -> (found: bool)
    ensures
        found == contains_text(whole@, part@),
{
    let chars = to_chars(whole);
    let wanted = to_chars(part);
    if wanted.len() > chars.len() {
        return false;
    }
    let mut i: usize = 0;
    while i < chars.len() - wanted.len()
        invariant
            chars@ == whole@,
            wanted@ == part@,
            wanted.len() <= chars.len(),
            i <= chars.len() - wanted.len(),
            forall|k: int| 0 <= k < i ==> #[trigger] whole@.subrange(k, k + part@.len()) != part@,
        decreases chars.len() - wanted.len() - i,
    {
        let piece = vstd::slice::slice_subrange(chars.as_slice(), i, i + wanted.len());
        if same_chars(piece, &wanted) {
            assert(whole@.subrange(i as int, i + part@.len()) == part@);
            return true;
        }
        i += 1;
    }
    let piece = vstd::slice::slice_subrange(chars.as_slice(), i, chars.len());
    assert(whole@.subrange(i as int, i + part@.len()) == piece@);
    same_chars(piece, &wanted)
}

/// Whether two texts are the same.
pub fn is_text(a: &str, b: &str) -> (same: bool)
    ensures
        same == (a@ == b@),
{
    same_chars(&to_chars(a), &to_chars(b))
}

/// Whether two runs of bytes are the same.
pub fn same_bytes(a: &[u8], b: &[u8]) -> (same: bool)
    ensures
        same == (a@ == b@),
{
    if a.len() != b.len() {
        return false;
    }
    let mut i: usize = 0;
    while i < a.len()
        invariant
            i <= a.len(),
            a.len() == b.len(),
            forall|k: int| 0 <= k < i ==> a@[k] == b@[k],
        decreases a.len() - i,
    {
        if a[i] != b[i] {
            return false;
        }
        i += 1;
    }
    assert(a@ =~= b@);
    true
}

pub fn has_prefix(chars: &[char], prefix: &[char]) -> (yes: bool)
    ensures
        yes == starts_with(chars@, prefix@),
{
    if chars.len() < prefix.len() {
        return false;
    }
    let mut i: usize = 0;
    while i < prefix.len()
        invariant
            i <= prefix.len() <= chars.len(),
            forall|k: int| 0 <= k < i ==> chars@[k] == prefix@[k],
        decreases prefix.len() - i,
    {
        if chars[i] != prefix[i] {
            assert(chars@.take(prefix@.len() as int)[i as int] != prefix@[i as int]);
            return false;
        }
        i += 1;
    }
    assert(chars@.take(prefix@.len() as int) =~= prefix@);
    true
}

pub fn upper_chars(chars: &[char]) -> (upper: Vec<char>)
    ensures
        upper@ == ascii_uppercase(chars@),
{
    let mut upper: Vec<char> = Vec::new();
    let mut i: usize = 0;
    while i < chars.len()
        invariant
            i <= chars.len(),
            upper.len() == i,
            forall|k: int| 0 <= k < i ==> upper@[k] == ascii_upper(chars@[k]),
        decreases chars.len() - i,
    {
        upper.push(to_ascii_upper(chars[i]));
        i += 1;
    }
    assert(upper@ =~= ascii_uppercase(chars@));
    upper
}

pub fn to_ascii_upper(c: char) -> (u: char)
    ensures
        u == ascii_upper(c),
{
    if 'a' <= c && c <= 'z' {
        ((c as u8) - 32) as char
    } else {
        c
    }
}

/// The first place of a character holds it, no place before does, and a character that
/// is nowhere has its place at the end.
pub proof fn law_first_index_is_the_first(s: Seq<char>, c: char)
    ensures
        0 <= first_index_of(s, c) <= s.len(),
        first_index_of(s, c) < s.len() ==> s[first_index_of(s, c)] == c,
        first_index_of(s, c) == s.len() <==> !s.contains(c),
        forall|k: int| 0 <= k < first_index_of(s, c) ==> s[k] != c,
    decreases s.len(),
{
    let end = first_index_of(s, c);
    if s.len() > 0 && s[0] != c {
        let rest = s.skip(1);
        law_first_index_is_the_first(rest, c);
        assert forall|k: int| 0 <= k < end implies s[k] != c by {
            if k > 0 {
                assert(rest[k - 1] == s[k]);
            }
        }
        if rest.contains(c) {
            let k = choose|k: int| 0 <= k < rest.len() && rest[k] == c;
            assert(s[k + 1] == c);
        }
        if s.contains(c) {
            let k = choose|k: int| 0 <= k < s.len() && s[k] == c;
            assert(rest[k - 1] == c);
        }
    }
    if s.len() > 0 && s[0] == c {
        assert(s.contains(c));
    }
}

proof fn lemma_leading_space(s: Seq<char>) -> (i: int)
    ensures
        0 <= i <= s.len(),
        without_leading_space(s) == s.skip(i),
        forall|k: int| 0 <= k < i ==> is_white_space(#[trigger] s[k]),
        i < s.len() ==> !is_white_space(s[i]),
    decreases s.len(),
{
    if s.len() > 0 && is_white_space(s[0]) {
        let rest = s.skip(1);
        let j = lemma_leading_space(rest);
        assert(rest.skip(j) =~= s.skip(j + 1));
        assert forall|k: int| 0 <= k < j + 1 implies is_white_space(#[trigger] s[k]) by {
            if k > 0 {
                assert(rest[k - 1] == s[k]);
            }
        }
        j + 1
    } else {
        assert(s.skip(0) =~= s);
        0
    }
}

proof fn lemma_trailing_space(s: Seq<char>) -> (j: int)
    ensures
        0 <= j <= s.len(),
        without_trailing_space(s) == s.take(j),
        forall|k: int| j <= k < s.len() ==> is_white_space(#[trigger] s[k]),
        j > 0 ==> !is_white_space(s[j - 1]),
    decreases s.len(),
{
    if s.len() > 0 && is_white_space(s.last()) {
        let rest = s.drop_last();
        let j = lemma_trailing_space(rest);
        assert(rest.take(j) =~= s.take(j));
        assert forall|k: int| j <= k < s.len() implies is_white_space(#[trigger] s[k]) by {
            if k < rest.len() {
                assert(rest[k] == s[k]);
            }
        }
        j
    } else {
        assert(s.take(s.len() as int) =~= s);
        s.len() as int
    }
}

/// Trimming takes white space from both ends and nothing else: what is left stands in
/// the text as it was, with only white space around it, and neither begins nor ends
/// with any.
pub proof fn law_trim_removes_space_around(s: Seq<char>)
    ensures
        exists|i: int, j: int|
            0 <= i <= j <= s.len() && unicode_trim(s) == #[trigger] s.subrange(i, j) && (forall|k: int|
                (0 <= k < i || j <= k < s.len()) ==> is_white_space(#[trigger] s[k])),
        unicode_trim(s).len() > 0 ==> !is_white_space(unicode_trim(s)[0]) && !is_white_space(
            unicode_trim(s).last(),
        ),
{
    let i = lemma_leading_space(s);
    let rest = s.skip(i);
    let n = lemma_trailing_space(rest);
    let j = i + n;
    assert(rest.take(n) =~= s.subrange(i, j));
    assert forall|k: int| (0 <= k < i || j <= k < s.len()) implies is_white_space(
        #[trigger] s[k],
    ) by {
        if k >= j {
            assert(rest[k - i] == s[k]);
        }
    }
    if n > 0 {
        assert(s.subrange(i, j)[0] == s[i]);
        assert(s.subrange(i, j).last() == rest[n - 1]);
    }
}

/// Blanks, tabs and the ends of lines are white space; no visible character of ASCII is.
pub proof fn law_visible_characters_are_no_space(c: char)
    ensures
        c == ' ' || c == '\t' || c == '\n' || c == '\r' ==> is_white_space(c),
        33 <= c as u32 <= 126 ==> !is_white_space(c),
{
}

/// Raising to upper case changes the twenty-six small letters and nothing else, and
/// leaves none of them.
pub proof fn law_uppercase_changes_small_letters(s: Seq<char>)
    ensures
        ascii_uppercase(s).len() == s.len(),
        forall|i: int|
            0 <= i < s.len() ==> {
                let c = #[trigger] ascii_uppercase(s)[i];
                if 97 <= s[i] as u32 <= 122 {
                    c as u32 + 32 == s[i] as u32
                } else {
                    c == s[i]
                }
            },
{
}

/// Taking out a text removes the first of its kind and keeps the others in order; a
/// text that is not there removes nothing.
pub proof fn law_without_first_removes_one(texts: Seq<Seq<char>>, wanted: Seq<char>)
    ensures
        !texts.contains(wanted) ==> without_first(texts, wanted) == texts,
        texts.contains(wanted) ==> exists|k: int|
            0 <= k < texts.len() && #[trigger] texts[k] == wanted && !texts.take(k).contains(wanted)
                && without_first(texts, wanted) == texts.take(k) + texts.skip(k + 1),
    decreases texts.len(),
{
    if texts.len() > 0 {
        let rest = texts.skip(1);
        if texts[0] == wanted {
            assert(texts.take(0) + texts.skip(1) =~= texts.skip(1));
            assert(texts.contains(wanted));
        } else {
            law_without_first_removes_one(rest, wanted);
            if texts.contains(wanted) {
                let m = choose|m: int| 0 <= m < texts.len() && texts[m] == wanted;
                assert(rest[m - 1] == wanted);
                assert(rest.contains(wanted));
                let k = choose|k: int|
                    0 <= k < rest.len() && #[trigger] rest[k] == wanted && !rest.take(k).contains(
                        wanted,
                    ) && without_first(rest, wanted) == rest.take(k) + rest.skip(k + 1);
                assert(texts[k + 1] == wanted);
                let earlier = texts.take(k + 1);
                if earlier.contains(wanted) {
                    let n = choose|n: int| 0 <= n < earlier.len() && earlier[n] == wanted;
                    assert(rest.take(k)[n - 1] == wanted);
                }
                assert(seq![texts[0]] + (rest.take(k) + rest.skip(k + 1)) =~= texts.take(k + 1)
                    + texts.skip(k + 2));
            } else {
                if rest.contains(wanted) {
                    let k = choose|k: int| 0 <= k < rest.len() && rest[k] == wanted;
                    assert(texts[k + 1] == wanted);
                }
                assert(seq![texts[0]] + rest =~= texts);
            }
        }
    }
}

/// The number that some digits write.
pub open spec fn number_of(digits: Seq<char>) -> int
    decreases digits.len(),
{
    if digits.len() == 0 {
        0
    } else {
        10 * number_of(digits.drop_last()) + (digits.last() as u32 - 48)
    }
}

/// A number in decimal consists of digits, reads back as itself, and begins with a zero
/// only if it is zero.
pub proof fn law_decimal_reads_back(value: nat)
    ensures
        number_of(decimal(value)) == value,
        decimal(value).len() > 0,
        forall|i: int|
            0 <= i < decimal(value).len() ==> 48 <= (#[trigger] decimal(value)[i]) as u32 <= 57,
        decimal(value)[0] == '0' <==> value == 0,
    decreases value,
{
    if value < 10 {
        let digits = seq![decimal_digit(value as int)];
        assert(digits.drop_last() =~= Seq::<char>::empty());
        assert(number_of(digits.drop_last()) == 0);
        assert(decimal_digit(value as int) as u32 == 48 + value);
    } else {
        let digit = (value % 10) as int;
        law_decimal_reads_back(value / 10);
        let earlier = decimal(value / 10);
        assert(decimal(value).drop_last() =~= earlier);
        assert(decimal_digit(digit) as u32 == 48 + digit);
        assert(decimal(value).last() == decimal_digit(digit));
        assert(decimal(value)[0] == earlier[0]);
        assert forall|i: int| 0 <= i < decimal(value).len() implies 48 <= (#[trigger] decimal(
            value,
        )[i]) as u32 <= 57 by {
            if i < earlier.len() {
                assert(decimal(value)[i] == earlier[i]);
            }
        }
    }
}

/// A text contains another exactly if it is made of something, the other, and
/// something.
pub proof fn law_containing_is_having_inside(whole: Seq<char>, part: Seq<char>)
    ensures
        contains_text(whole, part) <==> exists|before: Seq<char>, after: Seq<char>|
            whole == #[trigger] (before + part + after),
{
    if contains_text(whole, part) {
        let i = choose|i: int|
            0 <= i <= whole.len() - part.len() && #[trigger] whole.subrange(i, i + part.len())
                == part;
        let before = whole.take(i);
        let after = whole.skip(i + part.len());
        assert(before + part + after =~= whole) by {
            assert forall|k: int| 0 <= k < whole.len() implies (before + part + after)[k]
                == whole[k] by {
                if i <= k < i + part.len() {
                    assert(whole.subrange(i, i + part.len())[k - i] == whole[k]);
                }
            }
        }
    }
    if exists|before: Seq<char>, after: Seq<char>| whole == #[trigger] (before + part + after) {
        let (before, after) = choose|before: Seq<char>, after: Seq<char>|
            whole == #[trigger] (before + part + after);
        let i = before.len() as int;
        assert(whole.subrange(i, i + part.len()) =~= part);
    }
}

} // verus!
