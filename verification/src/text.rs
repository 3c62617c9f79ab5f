//! Text as sequences of characters: white space, lines, words, comparison.
use crate::ssh_config::{all_white, ends_word, has_white, is_word};
use vstd::prelude::*;
use vstd::utf8::is_ascii_chars;

verus! {

// ── what text is made of ────────────────────────────────────────────────────
/// The characters that have the Unicode property `White_Space`.
pub open spec fn is_white(c: char) -> bool {
    ||| '\u{9}' <= c <= '\u{d}'
    ||| c == ' '
    ||| c == '\u{85}'
    ||| c == '\u{a0}'
    ||| c == '\u{1680}'
    ||| '\u{2000}' <= c <= '\u{200a}'
    ||| c == '\u{2028}'
    ||| c == '\u{2029}'
    ||| c == '\u{202f}'
    ||| c == '\u{205f}'
    ||| c == '\u{3000}'
}

/// `s` without the white space at its start.
pub open spec fn trimmed_start(s: Seq<char>) -> Seq<char>
    decreases s.len(),
{
    if s.len() > 0 && is_white(s[0]) {
        trimmed_start(s.skip(1))
    } else {
        s
    }
}

/// `s` without the white space at its end.
pub open spec fn trimmed_end(s: Seq<char>) -> Seq<char>
    decreases s.len(),
{
    if s.len() > 0 && is_white(s.last()) {
        trimmed_end(s.drop_last())
    } else {
        s
    }
}

/// `s` without the white space at either end.
pub open spec fn trimmed(s: Seq<char>) -> Seq<char> {
    trimmed_end(trimmed_start(s))
}

/// The lines of `s`: what stands before, between and after its line feeds.
pub open spec fn lines_of(s: Seq<char>) -> Seq<Seq<char>>
    decreases s.len(),
{
    if s.len() == 0 {
        seq![s]
    } else {
        let lines = lines_of(s.drop_last());
        if s.last() == '\n' {
            lines.push(Seq::empty())
        } else {
            lines.drop_last().push(lines.last().push(s.last()))
        }
    }
}

/// The words of `s`: its longest runs of characters other than white space.
pub open spec fn words_of(s: Seq<char>) -> Seq<Seq<char>>
    decreases s.len(),
{
    if s.len() == 0 {
        Seq::empty()
    } else {
        let words = words_of(s.drop_last());
        if is_white(s.last()) {
            words
        } else if s.len() == 1 || is_white(s[s.len() - 2]) {
            words.push(seq![s.last()])
        } else {
            words.drop_last().push(words.last().push(s.last()))
        }
    }
}

/// How many characters stand before the first white space of `s`.
pub open spec fn first_word_len(s: Seq<char>) -> nat
    decreases s.len(),
{
    if s.len() == 0 || is_white(s[0]) {
        0
    } else {
        1 + first_word_len(s.skip(1))
    }
}

/// The first `n` characters of `s`, or all of them where there are fewer.
pub open spec fn clipped(s: Seq<char>, n: int) -> Seq<char> {
    if s.len() <= n {
        s
    } else {
        s.take(n)
    }
}

/// `s` with spaces before it, so that it has at least `width` characters.
pub open spec fn right_aligned(s: Seq<char>, width: int) -> Seq<char> {
    if s.len() >= width {
        s
    } else {
        Seq::new((width - s.len()) as nat, |i: int| ' ') + s
    }
}

/// The parts one after another, with `separator` between any two of them.
pub open spec fn joined(parts: Seq<Seq<char>>, separator: Seq<char>) -> Seq<char>
    decreases parts.len(),
{
    if parts.len() == 0 {
        Seq::empty()
    } else if parts.len() == 1 {
        parts[0]
    } else {
        joined(parts.drop_last(), separator) + separator + parts.last()
    }
}

/// The views of a sequence of strings.
pub open spec fn texts(v: Seq<String>) -> Seq<Seq<char>> {
    v.map_values(|s: String| s@)
}

/// The view of a string that may be absent.
pub open spec fn optional_text(s: Option<String>) -> Option<Seq<char>> {
    match s {
        Some(s) => Some(s@),
        None => None,
    }
}

// ── letter case ─────────────────────────────────────────────────────────────
/// The lowercase letter of an ASCII capital; any other character itself.
pub open spec fn ascii_lowercase(c: char) -> char {
    if 'A' <= c <= 'Z' {
        ((c as u32) + 32) as char
    } else {
        c
    }
}

/// What `str::to_lowercase` returns.
pub uninterp spec fn unicode_lowercase(s: Seq<char>) -> Seq<char>;

/// `s` in lower case. On ASCII this is a matter of its letters alone; elsewhere
/// it is the Unicode mapping of whole strings.
pub open spec fn lowercase(s: Seq<char>) -> Seq<char> {
    if is_ascii_chars(s) {
        s.map_values(|c: char| ascii_lowercase(c))
    } else {
        unicode_lowercase(s)
    }
}

// ── functions of the standard library ───────────────────────────────────────
/// `String::push` appends one character.
pub assume_specification[ String::push ](s: &mut String, c: char)
    ensures
        final(s)@ == old(s)@.push(c),
;

/// `char::is_whitespace` tells whether a character has the Unicode property
/// `White_Space`; `is_white` lists the characters that do.
pub assume_specification[ char::is_whitespace ](c: char) -> (white: bool)
    ensures
        white == is_white(c),
;

/// `str::to_lowercase` maps a string to lower case by the rules of Unicode: the
/// result depends on the string alone, and on ASCII the capital letters become
/// the small ones while every other character stays as it is.
pub assume_specification[ str::to_lowercase ](s: &str) -> (lower: String)
    ensures
        lower@ == unicode_lowercase(s@),
        is_ascii_chars(s@) ==> lower@ == s@.map_values(|c: char| ascii_lowercase(c)),
;

// ── functions on text ───────────────────────────────────────────────────────
/// Whether two strings hold the same characters.
pub fn same(a: &str, b: &str) -> (equal: bool)
    ensures
        equal == (a@ == b@),
{
    a.to_string() == b.to_string()
}

/// The characters of a string.
pub fn chars_of(s: &str) -> (chars: Vec<char>)
    ensures
        chars@ == s@,
{
    let mut chars: Vec<char> = Vec::new();
    for c in it: s.chars()
        invariant
            it.seq() == s@,
            chars@ == it.seq().take(it.index() as int),
    {
        chars.push(c);
    }
    chars
}

/// The string that holds the characters from `start` up to `end`.
pub fn string_of(chars: &Vec<char>, start: usize, end: usize) -> (s: String)
    requires
        start <= end <= chars@.len(),
    ensures
        s@ == chars@.subrange(start as int, end as int),
{
    let mut s = String::new();
    for i in start..end
        invariant
            start <= end <= chars@.len(),
            s@ == chars@.subrange(start as int, i as int),
    {
        s.push(chars[i]);
        assert(chars@.subrange(start as int, i + 1) == chars@.subrange(start as int, i as int).push(
            chars@[i as int],
        ));
    }
    s
}

/// A string in lower case.
pub fn to_lower(s: &str) -> (lower: String)
    ensures
        lower@ == lowercase(s@),
{
    s.to_lowercase()
}

/// The part of `chars` from `start` up to `end` without white space at its ends,
/// as a pair of indices.
fn trim_range(chars: &Vec<char>, start: usize, end: usize) -> (range: (usize, usize))
    requires
        start <= end <= chars@.len(),
    ensures
        start <= range.0 <= range.1 <= end,
        chars@.subrange(range.0 as int, range.1 as int) == trimmed(
            chars@.subrange(start as int, end as int),
        ),
{
    let ghost whole = chars@.subrange(start as int, end as int);
    let mut a = start;
    while a < end && chars[a].is_whitespace()
        invariant
            start <= a <= end <= chars@.len(),
            trimmed_start(whole) == trimmed_start(chars@.subrange(a as int, end as int)),
        decreases end - a,
    {
        assert(chars@.subrange(a as int, end as int).skip(1) == chars@.subrange(
            a + 1,
            end as int,
        ));
        a = a + 1;
    }
    assert(trimmed_start(whole) == chars@.subrange(a as int, end as int));
    let mut b = end;
    while a < b && chars[b - 1].is_whitespace()
        invariant
            start <= a <= b <= end <= chars@.len(),
            trimmed_end(trimmed_start(whole)) == trimmed_end(chars@.subrange(a as int, b as int)),
        decreases b - a,
    {
        assert(chars@.subrange(a as int, b as int).drop_last() == chars@.subrange(
            a as int,
            b - 1,
        ));
        b = b - 1;
    }
    (a, b)
}

/// A string without the white space at its ends.
pub fn trim(s: &str) -> (r: String)
    ensures
        r@ == trimmed(s@),
{
    let chars = chars_of(s);
    let (a, b) = trim_range(&chars, 0, chars.len());
    assert(chars@.subrange(0, chars@.len() as int) == s@);
    string_of(&chars, a, b)
}

/// The lines of a string.
pub fn lines(s: &str) -> (r: Vec<String>)
    ensures
        texts(r@) == lines_of(s@),
{
    let chars = chars_of(s);
    let mut r: Vec<String> = Vec::new();
    let mut line = String::new();
    assert(chars@.take(0) == Seq::<char>::empty());
    assert(texts(r@).push(line@) == seq![Seq::<char>::empty()]);
    for i in 0..chars.len()
        invariant
            texts(r@).push(line@) == lines_of(chars@.take(i as int)),
    {
        assert(chars@.take(i + 1).drop_last() == chars@.take(i as int));
        let ghost before = texts(r@);
        if chars[i] == '\n' {
            r.push(line);
            line = String::new();
            assert(texts(r@) == lines_of(chars@.take(i as int)));
        } else {
            line.push(chars[i]);
            assert(lines_of(chars@.take(i as int)).drop_last() == before);
        }
    }
    assert(chars@.take(chars@.len() as int) == s@);
    let ghost before = texts(r@);
    r.push(line);
    assert(texts(r@) == before.push(line@));
    r
}

/// The words of a string.
pub fn words(s: &str) -> (r: Vec<String>)
    ensures
        texts(r@) == words_of(s@),
{
    let chars = chars_of(s);
    let mut r: Vec<String> = Vec::new();
    let mut word = String::new();
    assert(chars@.take(0) == Seq::<char>::empty());
    assert(texts(r@) == Seq::<Seq<char>>::empty());
    for i in 0..chars.len()
        invariant
            word@.len() == 0 <==> (i == 0 || is_white(chars@[i - 1])),
            word@.len() == 0 ==> texts(r@) == words_of(chars@.take(i as int)),
            word@.len() > 0 ==> texts(r@).push(word@) == words_of(chars@.take(i as int)),
    {
        assert(chars@.take(i + 1).drop_last() == chars@.take(i as int));
        let ghost before = texts(r@);
        if chars[i].is_whitespace() {
            if !word.as_str().is_empty() {
                r.push(word);
                word = String::new();
                assert(texts(r@) == words_of(chars@.take(i as int)));
            }
        } else {
            let ghost old_word = word@;
            word.push(chars[i]);
            proof {
                if old_word.len() > 0 {
                    assert(words_of(chars@.take(i as int)).drop_last() == before);
                } else {
                    assert(word@ == seq![chars@[i as int]]);
                }
            }
        }
    }
    assert(chars@.take(chars@.len() as int) == s@);
    if !word.as_str().is_empty() {
        let ghost before = texts(r@);
        r.push(word);
        assert(texts(r@) == before.push(word@));
    }
    r
}

/// How many characters stand before the first white space.
pub fn first_word(s: &Vec<char>) -> (n: usize)
    ensures
        n == first_word_len(s@),
        n <= s@.len(),
{
    let mut n: usize = 0;
    assert(s@.skip(0) == s@);
    while n < s.len() && !s[n].is_whitespace()
        invariant
            n <= s@.len(),
            first_word_len(s@) == n + first_word_len(s@.skip(n as int)),
        decreases s@.len() - n,
    {
        assert(s@.skip(n as int).skip(1) == s@.skip(n + 1));
        n = n + 1;
    }
    n
}

/// The first `n` characters of a string, or all of them.
pub fn clip(s: &str, n: usize) -> (r: String)
    ensures
        r@ == clipped(s@, n as int),
{
    let chars = chars_of(s);
    let end = if chars.len() < n {
        chars.len()
    } else {
        n
    };
    assert(chars@.subrange(0, end as int) == clipped(s@, n as int));
    string_of(&chars, 0, end)
}

/// A string with spaces before it, up to `width` characters.
pub fn align_right(s: &str, width: usize) -> (r: String)
    ensures
        r@ == right_aligned(s@, width as int),
{
    let chars = chars_of(s);
    let mut r = String::new();
    let missing: usize = if chars.len() < width {
        width - chars.len()
    } else {
        0
    };
    for i in 0..missing
        invariant
            r@ == Seq::new(i as nat, |j: int| ' '),
    {
        r.push(' ');
    }
    r.append(s);
    r
}

/// The parts one after another, with `separator` between them.
pub fn join(parts: &Vec<String>, separator: &str) -> (r: String)
    ensures
        r@ == joined(texts(parts@), separator@),
{
    let mut r = String::new();
    for i in 0..parts.len()
        invariant
            r@ == joined(texts(parts@).take(i as int), separator@),
    {
        assert(texts(parts@).take(i + 1).drop_last() == texts(parts@).take(i as int));
        if i > 0 {
            r.append(separator);
        }
        r.append(parts[i].as_str());
    }
    assert(texts(parts@).take(parts@.len() as int) == texts(parts@));
    r
}

// ── what holds of every text ────────────────────────────────────────────────
/// Every text has a line, be it an empty one.
pub proof fn every_text_has_a_line(s: Seq<char>)
    ensures
        lines_of(s).len() > 0,
    decreases s.len(),
{
    if s.len() > 0 {
        every_text_has_a_line(s.drop_last());
    }
}

/// Trimming takes white space at the ends and nothing else, and all of it that
/// stands there.
pub proof fn trimming_takes_the_white_space_at_the_ends(s: Seq<char>)
    ensures
        exists|before: Seq<char>, behind: Seq<char>|
            all_white(before) && all_white(behind) && s == #[trigger] (before + trimmed(s) + behind),
        trimmed(s).len() > 0 ==> !is_white(trimmed(s)[0]) && !is_white(trimmed(s).last()),
{
    let before = lemma_white_start(s);
    let behind = lemma_white_end(trimmed_start(s));
    assert(s == before + trimmed(s) + behind);
}

proof fn lemma_white_start(s: Seq<char>) -> (before: Seq<char>)
    ensures
        all_white(before),
        s == before + trimmed_start(s),
        trimmed_start(s).len() > 0 ==> !is_white(trimmed_start(s)[0]),
    decreases s.len(),
{
    if s.len() > 0 && is_white(s[0]) {
        let rest = lemma_white_start(s.skip(1));
        let before = seq![s[0]] + rest;
        assert(s == seq![s[0]] + s.skip(1));
        assert(before + trimmed_start(s) == seq![s[0]] + (rest + trimmed_start(s)));
        before
    } else {
        assert(Seq::<char>::empty() + s == s);
        Seq::empty()
    }
}

proof fn lemma_white_end(s: Seq<char>) -> (behind: Seq<char>)
    ensures
        all_white(behind),
        s == trimmed_end(s) + behind,
        trimmed_end(s).len() > 0 ==> trimmed_end(s)[0] == s[0] && !is_white(trimmed_end(s).last()),
    decreases s.len(),
{
    if s.len() > 0 && is_white(s.last()) {
        let rest = lemma_white_end(s.drop_last());
        let behind = rest.push(s.last());
        assert(s == s.drop_last().push(s.last()));
        assert(trimmed_end(s) + behind == (trimmed_end(s) + rest).push(s.last()));
        behind
    } else {
        assert(s + Seq::<char>::empty() == s);
        Seq::empty()
    }
}

pub proof fn lemma_white_start_is_skipped(indent: Seq<char>, line: Seq<char>)
    requires
        all_white(indent),
    ensures
        trimmed_start(indent + line) == trimmed_start(line),
    decreases indent.len(),
{
    if indent.len() == 0 {
        assert(indent + line == line);
    } else {
        assert(is_white(indent[0]));
        assert forall|i: int| 0 <= i < indent.skip(1).len() implies is_white(
            #[trigger] indent.skip(1)[i],
        ) by {
            assert(indent.skip(1)[i] == indent[i + 1]);
        }
        lemma_white_start_is_skipped(indent.skip(1), line);
        assert((indent + line).skip(1) == indent.skip(1) + line);
    }
}

pub proof fn lemma_trimmed_start_of_joined(s: Seq<char>, c: char, rest: Seq<char>)
    requires
        !all_white(s),
    ensures
        trimmed_start(s.push(c) + rest) == trimmed_start(s).push(c) + rest,
{
    let before = lemma_white_start(s);
    let start = trimmed_start(s);
    if start.len() == 0 {
        assert(s == before);
    }
    assert(s.push(c) + rest == before + (start.push(c) + rest));
    lemma_white_start_is_skipped(before, start.push(c) + rest);
    assert((start.push(c) + rest)[0] == start[0]);
}

pub proof fn lemma_trimmed_end_drops(s: Seq<char>, behind: Seq<char>)
    requires
        all_white(behind),
    ensures
        trimmed_end(s + behind) == trimmed_end(s),
    decreases behind.len(),
{
    if behind.len() == 0 {
        assert(s + behind == s);
    } else {
        assert(is_white(behind.last()));
        assert forall|i: int| 0 <= i < behind.drop_last().len() implies is_white(
            #[trigger] behind.drop_last()[i],
        ) by {
            assert(behind.drop_last()[i] == behind[i]);
        }
        lemma_trimmed_end_drops(s, behind.drop_last());
        assert((s + behind).drop_last() == s + behind.drop_last());
    }
}

/// The lines of two texts with a line feed between them are those of the one and
/// then those of the other.
pub proof fn lines_of_joined_texts(a: Seq<char>, b: Seq<char>)
    ensures
        lines_of(a.push('\n') + b) == lines_of(a) + lines_of(b),
    decreases b.len(),
{
    let whole = a.push('\n') + b;
    if b.len() == 0 {
        assert(whole == a.push('\n'));
        assert(whole.drop_last() == a);
        assert(b == Seq::<char>::empty());
        assert(lines_of(b) == seq![b]);
    } else {
        lines_of_joined_texts(a, b.drop_last());
        assert(whole.drop_last() == a.push('\n') + b.drop_last());
        every_text_has_a_line(b.drop_last());
    }
}

/// A text without line feeds is its only line.
pub proof fn a_text_without_line_feeds_is_one_line(s: Seq<char>)
    requires
        !s.contains('\n'),
    ensures
        lines_of(s) == seq![s],
    decreases s.len(),
{
    if s.len() > 0 {
        assert forall|i: int| 0 <= i < s.len() implies s[i] != '\n' by {
            if s[i] == '\n' {
                assert(s.contains(s[i]));
            }
        }
        a_text_without_line_feeds_is_one_line(s.drop_last());
        assert(s.drop_last().push(s.last()) == s);
    }
}

/// Words hold at least one character, and no white space.
pub proof fn words_hold_no_white_space(s: Seq<char>)
    ensures
        forall|i: int| 0 <= i < words_of(s).len() ==> is_word(#[trigger] words_of(s)[i]),
        s.len() > 0 && !is_white(s.last()) ==> words_of(s).len() > 0,
    decreases s.len(),
{
    if s.len() > 0 {
        let rest = s.drop_last();
        words_hold_no_white_space(rest);
        let words = words_of(rest);
        if !is_white(s.last()) {
            if s.len() == 1 || is_white(s[s.len() - 2]) {
                assert(is_word(seq![s.last()]));
            } else {
                assert(rest.last() == s[s.len() - 2]);
                let word = words.last().push(s.last());
                assert(is_word(words.last()));
                assert forall|i: int| 0 <= i < word.len() implies !is_white(#[trigger] word[i]) by {
                    if i < words.last().len() {
                        assert(word[i] == words.last()[i]);
                    }
                }
            }
        }
    }
}

/// White space parts words: the words of two texts with white space between them
/// are those of the one and then those of the other.
pub proof fn white_space_parts_words(a: Seq<char>, blank: char, b: Seq<char>)
    requires
        is_white(blank),
    ensures
        words_of(a.push(blank) + b) == words_of(a) + words_of(b),
    decreases b.len(),
{
    let whole = a.push(blank) + b;
    if b.len() == 0 {
        assert(whole == a.push(blank));
        assert(whole.drop_last() == a);
        assert(words_of(a) + words_of(b) == words_of(a));
    } else {
        white_space_parts_words(a, blank, b.drop_last());
        assert(whole.drop_last() == a.push(blank) + b.drop_last());
        assert(whole.last() == b.last());
        words_hold_no_white_space(b.drop_last());
        if b.len() > 1 {
            assert(whole[whole.len() - 2] == b[b.len() - 2]);
            assert(b.drop_last().last() == b[b.len() - 2]);
        } else {
            assert(whole[whole.len() - 2] == blank);
        }
        if !is_white(b.last()) {
            assert(words_of(whole) == words_of(a) + words_of(b));
        }
    }
}

/// A text without white space is its only word, and white space alone holds none.
pub proof fn a_word_is_its_only_word(s: Seq<char>)
    ensures
        is_word(s) ==> words_of(s) == seq![s],
        all_white(s) ==> words_of(s).len() == 0,
    decreases s.len(),
{
    if s.len() > 0 {
        let rest = s.drop_last();
        assert(forall|i: int| 0 <= i < rest.len() ==> rest[i] == s[i]);
        assert(s.last() == s[s.len() - 1]);
        a_word_is_its_only_word(rest);
        if is_word(s) {
            assert(!is_white(s[s.len() - 1]));
            if s.len() == 1 {
                assert(s == seq![s.last()]);
            } else {
                assert(!is_white(s[s.len() - 2]));
                assert(rest.push(s.last()) == s);
            }
        }
        if all_white(s) {
            assert(is_white(s[s.len() - 1]));
        }
    }
}

/// The first word of a text holds no white space, and ends at white space or at
/// the end.
pub proof fn the_first_word_ends_at_white_space(s: Seq<char>)
    ensures
        first_word_len(s) <= s.len(),
        !has_white(s.take(first_word_len(s) as int)),
        ends_word(s.skip(first_word_len(s) as int)),
    decreases s.len(),
{
    let n = first_word_len(s) as int;
    if s.len() > 0 && !is_white(s[0]) {
        the_first_word_ends_at_white_space(s.skip(1));
        assert forall|i: int| 0 <= i < n implies !is_white(#[trigger] s.take(n)[i]) by {
            if i > 0 {
                assert(s.take(n)[i] == s.skip(1).take(n - 1)[i - 1]);
            }
        }
        assert(s.skip(n) == s.skip(1).skip(n - 1));
    }
}

/// What is clipped is the start of the text: all of it where it is short enough,
/// and otherwise as many characters as there may be.
pub proof fn clipping_keeps_the_start(s: Seq<char>, n: int)
    requires
        n >= 0,
    ensures
        clipped(s, n).is_prefix_of(s),
        s.len() <= n ==> clipped(s, n).len() == s.len(),
        s.len() > n ==> clipped(s, n).len() == n,
{
}

/// Aligning puts spaces before the text, as many as are missing.
pub proof fn aligning_puts_spaces_before(s: Seq<char>, width: int)
    ensures
        s.is_suffix_of(right_aligned(s, width)),
        s.len() >= width ==> right_aligned(s, width) == s,
        s.len() < width ==> right_aligned(s, width).len() == width,
        forall|i: int|
            0 <= i < right_aligned(s, width).len() - s.len() ==> #[trigger] right_aligned(
                s,
                width,
            )[i] == ' ',
{
}

/// One part is joined as it is; every further one follows behind the separator.
pub proof fn joining_puts_the_separator_between(
    parts: Seq<Seq<char>>,
    separator: Seq<char>,
    part: Seq<char>,
)
    ensures
        joined(Seq::empty(), separator).len() == 0,
        joined(seq![part], separator) == part,
        parts.len() > 0 ==> joined(parts.push(part), separator) == joined(parts, separator)
            + separator + part,
{
    assert(parts.push(part).drop_last() == parts);
}

/// Lower case changes the capital letters of ASCII text into the small ones, and
/// no other character.
pub proof fn lower_case_changes_capitals_only(s: Seq<char>, i: int)
    requires
        is_ascii_chars(s),
        0 <= i < s.len(),
    ensures
        lowercase(s).len() == s.len(),
        'A' <= s[i] <= 'Z' ==> 'a' <= lowercase(s)[i] <= 'z' && (lowercase(s)[i] as int) - ('a' as int)
            == (s[i] as int) - ('A' as int),
        !('A' <= s[i] <= 'Z') ==> lowercase(s)[i] == s[i],
{
}

/// The views of strings are those of each of them, in their order.
pub proof fn every_string_has_its_view(v: Seq<String>, i: int, s: Option<String>)
    ensures
        texts(v).len() == v.len(),
        0 <= i < v.len() ==> texts(v)[i] == v[i]@,
        s is None ==> optional_text(s) is None,
        s is Some ==> optional_text(s) == Some(s->0@),
{
}

} // verus!
