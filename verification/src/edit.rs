//! Text that is addressed by the byte offsets of its UTF-8 encoding.
use vstd::prelude::*;
use vstd::utf8::{
    decode_utf8, decode_utf8_encode_utf8, decode_utf8_split, encode_scalar, encode_utf8,
    encode_utf8_decode_utf8, encode_utf8_first_scalar, encode_utf8_valid_utf8, is_ascii_chars,
    is_ascii_chars_encode_utf8, is_char_boundary, length_of_first_scalar, pop_first_scalar,
    valid_utf8_split,
};

verus! {

/// How many bytes the encoding of `s` has.
pub open spec fn byte_len(s: Seq<char>) -> nat {
    encode_utf8(s).len()
}

/// Whether a character of `s` starts at byte `at`, or `s` ends there.
pub open spec fn on_boundary(s: Seq<char>, at: int) -> bool {
    is_char_boundary(encode_utf8(s), at)
}

/// The characters before byte `at`.
pub open spec fn before(s: Seq<char>, at: int) -> Seq<char> {
    decode_utf8(encode_utf8(s).take(at))
}

/// The characters from byte `at` on.
pub open spec fn after(s: Seq<char>, at: int) -> Seq<char> {
    decode_utf8(encode_utf8(s).skip(at))
}

/// The characters from byte `start` up to byte `end`.
pub open spec fn between(s: Seq<char>, start: int, end: int) -> Seq<char> {
    decode_utf8(encode_utf8(s).subrange(start, end))
}

/// `s` with `c` at byte `at`.
pub open spec fn with_char(s: Seq<char>, at: int, c: char) -> Seq<char> {
    before(s, at).push(c) + after(s, at)
}

/// `s` without the character at byte `at`.
pub open spec fn without_char(s: Seq<char>, at: int) -> Seq<char> {
    before(s, at) + after(s, at).skip(1)
}

// ── functions of the standard library ───────────────────────────────────────
/// `String::insert` puts a character at a byte offset, which has to be a
/// character boundary.
pub assume_specification[ String::insert ](s: &mut String, at: usize, c: char)
    requires
        on_boundary(old(s)@, at as int),
    ensures
        final(s)@ == with_char(old(s)@, at as int, c),
;

/// `String::remove` takes out the character at a byte offset, which has to be a
/// character boundary before the end, and returns it.
pub assume_specification[ String::remove ](s: &mut String, at: usize) -> (c: char)
    requires
        on_boundary(old(s)@, at as int),
        at < byte_len(old(s)@),
    ensures
        final(s)@ == without_char(old(s)@, at as int),
        c == after(old(s)@, at as int)[0],
;

/// How many bytes the encoding of a string has.
pub fn length(s: &str) -> (n: usize)
    ensures
        n == byte_len(s@),
{
    s.as_bytes().len()
}

/// The part of a string from byte `start` up to byte `end`.
pub fn slice(s: &str, start: usize, end: usize) -> (r: &str)
    requires
        start <= end <= byte_len(s@),
        on_boundary(s@, start as int),
        on_boundary(s@, end as int),
    ensures
        r@ == between(s@, start as int, end as int),
{
    proof {
        lemma_split(s@, start as int);
        let p = before(s@, start as int);
        let q = after(s@, start as int);
        lemma_encode_joined(p, q);
        encode_utf8_valid_utf8(q);
        lemma_boundary_behind(p, encode_utf8(q), end - start);
    }
    let (_, rest) = s.split_at(start);
    proof {
        assert(encode_utf8(rest@) == encode_utf8(s@).skip(start as int));
    }
    let (part, _) = rest.split_at(end - start);
    proof {
        assert(encode_utf8(part@) == encode_utf8(s@).subrange(start as int, end as int));
        encode_utf8_decode_utf8(part@);
    }
    part
}

// ── encodings ───────────────────────────────────────────────────────────────
proof fn lemma_encode_joined(p: Seq<char>, q: Seq<char>)
    ensures
        encode_utf8(p + q) == encode_utf8(p) + encode_utf8(q),
    decreases p.len(),
{
    if p.len() == 0 {
        assert(p + q == q);
        assert(encode_utf8(p) + encode_utf8(q) == encode_utf8(q));
    } else {
        lemma_encode_joined(p.drop_first(), q);
        assert((p + q).drop_first() == p.drop_first() + q);
    }
}

/// The boundaries of a text behind its first part are those of the rest.
proof fn lemma_boundary_behind(p: Seq<char>, rest: Seq<u8>, at: int)
    requires
        vstd::utf8::valid_utf8(rest),
        0 <= at <= rest.len(),
    ensures
        vstd::utf8::valid_utf8(encode_utf8(p) + rest),
        is_char_boundary(encode_utf8(p) + rest, encode_utf8(p).len() + at) == is_char_boundary(
            rest,
            at,
        ),
    decreases p.len(),
{
    let bytes = encode_utf8(p) + rest;
    encode_utf8_valid_utf8(p);
    vstd::utf8::valid_utf8_concat(encode_utf8(p), rest);
    if p.len() == 0 {
        assert(bytes == rest);
    } else {
        let tail = p.drop_first();
        lemma_boundary_behind(tail, rest, at);
        encode_utf8_first_scalar(p);
        let n = encode_scalar(p[0] as u32).len();
        assert(encode_utf8(p) == encode_scalar(p[0] as u32) + encode_utf8(tail));
        assert(length_of_first_scalar(bytes) == length_of_first_scalar(encode_utf8(p)));
        assert(pop_first_scalar(bytes) == encode_utf8(tail) + rest);
    }
}

/// A text falls at each of its boundaries into two parts.
pub proof fn lemma_split(s: Seq<char>, at: int)
    requires
        on_boundary(s, at),
        0 <= at <= byte_len(s),
    ensures
        before(s, at) + after(s, at) == s,
        byte_len(before(s, at)) == at,
        byte_len(after(s, at)) == byte_len(s) - at,
        encode_utf8(before(s, at)) == encode_utf8(s).take(at),
        encode_utf8(after(s, at)) == encode_utf8(s).skip(at),
{
    let bytes = encode_utf8(s);
    encode_utf8_valid_utf8(s);
    encode_utf8_decode_utf8(s);
    valid_utf8_split(bytes, at);
    decode_utf8_split(bytes, at);
    assert(bytes.take(at) == bytes.subrange(0, at));
    assert(bytes.skip(at) == bytes.subrange(at, bytes.len() as int));
    decode_utf8_encode_utf8(bytes.take(at));
    decode_utf8_encode_utf8(bytes.skip(at));
}

/// Where two parts meet is a boundary, and there the text falls into them.
pub proof fn lemma_meet(p: Seq<char>, q: Seq<char>)
    ensures
        on_boundary(p + q, byte_len(p) as int),
        before(p + q, byte_len(p) as int) == p,
        after(p + q, byte_len(p) as int) == q,
        byte_len(p + q) == byte_len(p) + byte_len(q),
{
    lemma_encode_joined(p, q);
    encode_utf8_valid_utf8(q);
    lemma_boundary_behind(p, encode_utf8(q), 0);
    encode_utf8_decode_utf8(p);
    encode_utf8_decode_utf8(q);
    assert((encode_utf8(p) + encode_utf8(q)).take(byte_len(p) as int) == encode_utf8(p));
    assert((encode_utf8(p) + encode_utf8(q)).skip(byte_len(p) as int) == encode_utf8(q));
}

/// A character has at least one byte, and an ASCII character has one.
pub proof fn lemma_char_len(c: char)
    ensures
        byte_len(seq![c]) >= 1,
        c <= '\u{7f}' ==> byte_len(seq![c]) == 1,
{
    reveal_with_fuel(encode_utf8, 2);
    assert(seq![c].drop_first() == Seq::<char>::empty());
    assert(seq![c][0] == c);
    if c <= '\u{7f}' {
        is_ascii_chars_encode_utf8(seq![c]);
    }
}

/// The ends of a text are boundaries.
pub proof fn lemma_ends(s: Seq<char>)
    ensures
        on_boundary(s, 0),
        on_boundary(s, byte_len(s) as int),
{
    encode_utf8_valid_utf8(s);
    vstd::utf8::is_char_boundary_start_end_of_seq(encode_utf8(s));
}

/// What insertion and removal do to the number of bytes.
pub proof fn lemma_lengths(s: Seq<char>, at: int, c: char)
    requires
        on_boundary(s, at),
        0 <= at <= byte_len(s),
    ensures
        byte_len(with_char(s, at, c)) == byte_len(s) + byte_len(seq![c]),
        at < byte_len(s) ==> after(s, at).len() > 0,
        at < byte_len(s) ==> at <= byte_len(without_char(s, at)) < byte_len(s),
        on_boundary(with_char(s, at, c), at),
        at < byte_len(s) ==> on_boundary(without_char(s, at), at),
{
    lemma_split(s, at);
    let p = before(s, at);
    let q = after(s, at);
    assert(with_char(s, at, c) == p + (seq![c] + q));
    lemma_meet(p, seq![c] + q);
    lemma_meet(seq![c], q);
    if at < byte_len(s) {
        if q.len() == 0 {
            assert(encode_utf8(q) == Seq::<u8>::empty());
        }
        assert(q == seq![q[0]] + q.skip(1));
        lemma_meet(seq![q[0]], q.skip(1));
        lemma_char_len(q[0]);
        lemma_meet(p, q.skip(1));
    }
}

// ── what holds of every text ────────────────────────────────────────────────
/// To take out the character that was put in gives the text back.
pub proof fn removal_undoes_insertion(s: Seq<char>, at: int, c: char)
    requires
        on_boundary(s, at),
        0 <= at <= byte_len(s),
    ensures
        on_boundary(with_char(s, at, c), at),
        without_char(with_char(s, at, c), at) == s,
{
    lemma_split(s, at);
    let p = before(s, at);
    let q = after(s, at);
    assert(with_char(s, at, c) == p + (seq![c] + q));
    lemma_meet(p, seq![c] + q);
    assert((seq![c] + q).skip(1) == q);
}

/// In ASCII text a byte offset is the number of a character: every offset is a
/// boundary, insertion and removal act on that character.
pub proof fn in_ascii_bytes_are_characters(s: Seq<char>, at: int, c: char)
    requires
        is_ascii_chars(s),
        0 <= at <= s.len(),
    ensures
        byte_len(s) == s.len(),
        on_boundary(s, at),
        with_char(s, at, c) == s.insert(at, c),
        at < s.len() ==> without_char(s, at) == s.remove(at),
{
    is_ascii_chars_encode_utf8(s);
    let p = s.take(at);
    let q = s.skip(at);
    assert(is_ascii_chars(p)) by {
        assert forall|i: int| 0 <= i < p.len() implies '\0' <= #[trigger] p[i] <= '\u{7f}' by {
            assert(p[i] == s[i]);
        }
    }
    is_ascii_chars_encode_utf8(p);
    assert(s == p + q);
    lemma_meet(p, q);
    assert(with_char(s, at, c) == s.insert(at, c));
    if at < s.len() {
        assert(without_char(s, at) == s.remove(at));
    }
}

/// The part of a text between two boundaries is what stands there, whatever
/// stands before and behind it.
pub proof fn a_slice_is_what_stands_there(p: Seq<char>, q: Seq<char>, r: Seq<char>)
    ensures
        between(p + q + r, byte_len(p) as int, (byte_len(p) + byte_len(q)) as int) == q,
        on_boundary(p + q + r, byte_len(p) as int),
        on_boundary(p + q + r, (byte_len(p) + byte_len(q)) as int),
{
    lemma_encode_joined(p + q, r);
    lemma_encode_joined(p, q);
    lemma_meet(p + q, r);
    lemma_meet(p, q + r);
    assert(p + (q + r) == p + q + r);
    encode_utf8_decode_utf8(q);
    assert(encode_utf8(p + q + r).subrange(
        byte_len(p) as int,
        (byte_len(p) + byte_len(q)) as int,
    ) == encode_utf8(q));
}

/// In ASCII text the part between two offsets holds the characters from the one up
/// to the other.
pub proof fn in_ascii_a_slice_counts_characters(s: Seq<char>, start: int, end: int)
    requires
        is_ascii_chars(s),
        0 <= start <= end <= s.len(),
    ensures
        between(s, start, end) == s.subrange(start, end),
{
    let p = s.take(start);
    let q = s.subrange(start, end);
    let r = s.skip(end);
    assert(s == p + q + r);
    assert forall|i: int| 0 <= i < p.len() implies '\0' <= #[trigger] p[i] <= '\u{7f}' by {
        assert(p[i] == s[i]);
    }
    assert forall|i: int| 0 <= i < q.len() implies '\0' <= #[trigger] q[i] <= '\u{7f}' by {
        assert(q[i] == s[start + i]);
    }
    is_ascii_chars_encode_utf8(p);
    is_ascii_chars_encode_utf8(q);
    a_slice_is_what_stands_there(p, q, r);
}

/// A character is put in between what stands before an offset and what stands
/// behind it.
pub proof fn insertion_keeps_both_sides(p: Seq<char>, q: Seq<char>, c: char)
    ensures
        with_char(p + q, byte_len(p) as int, c) == p.push(c) + q,
        without_char(p + seq![c] + q, byte_len(p) as int) == p + q,
{
    lemma_meet(p, q);
    lemma_meet(p, seq![c] + q);
    assert(p + (seq![c] + q) == p + seq![c] + q);
    assert((seq![c] + q).skip(1) == q);
}

} // verus!
