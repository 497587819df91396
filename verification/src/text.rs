//! Conversions between strings and sequences of characters.

use vstd::prelude::*;
use vstd::utf8::{
    char_u32_cast, encode_scalar, encode_utf8, has_width_1_encoding, has_width_2_encoding,
    has_width_3_encoding, last_continuation_byte, leading_byte_width_1, leading_byte_width_2,
    leading_byte_width_3, leading_byte_width_4, second_last_continuation_byte,
    third_last_continuation_byte,
};

verus! {

/// `String::push` appends one character to the end of the string.
pub assume_specification[ String::push ](s: &mut String, ch: char)
    ensures
        final(s)@ == old(s)@.push(ch),
;

/// The characters of `s`, in order.
pub fn chars_of(s: &str) -> (out: Vec<char>)
    ensures
        out@ == s@,
{
    let mut out: Vec<char> = Vec::new();
    for c in it: s.chars()
        invariant
            out@ == it.seq().take(it.index()),
    {
        out.push(c);
    }
    out
}

/// The string made of `chars`, in order.
pub fn string_of(chars: &[char]) -> (out: String)
    ensures
        out@ == chars@,
{
    let mut out = String::new();
    let mut i: usize = 0;
    while i < chars.len()
        invariant
            i <= chars.len(),
            out@ == chars@.take(i as int),
        decreases chars.len() - i,
    {
        out.push(chars[i]);
        i += 1;
    }
    out
}

/// Whether `s` begins with `prefix`.
pub open spec fn has_prefix(s: Seq<char>, prefix: Seq<char>) -> bool {
    prefix.len() <= s.len() && s.take(prefix.len() as int) == prefix
}

/// Whether `needle` occurs in `s` at `at`.
pub open spec fn occurs_at(s: Seq<char>, needle: Seq<char>, at: int) -> bool {
    0 <= at && at + needle.len() <= s.len() && s.subrange(at, at + needle.len()) == needle
}

/// Whether `needle` occurs somewhere in `s`.
pub open spec fn contains_text(s: Seq<char>, needle: Seq<char>) -> bool {
    exists|at: int| occurs_at(s, needle, at)
}

/// Whether `s` begins with `prefix`.
pub fn starts_with(s: &[char], prefix: &[char]) -> (yes: bool)
    ensures
        yes == has_prefix(s@, prefix@),
{
    if prefix.len() > s.len() {
        return false;
    }
    let mut i: usize = 0;
    while i < prefix.len()
        invariant
            i <= prefix.len() <= s.len(),
            s@.take(i as int) == prefix@.take(i as int),
        decreases prefix.len() - i,
    {
        if s[i] != prefix[i] {
            proof {
                let head = s@.take(prefix.len() as int);
                assert(head[i as int] == s@[i as int]);
                assert(head != prefix@);
            }
            return false;
        }
        proof {
            assert(s@.take(i as int + 1) == s@.take(i as int).push(s@[i as int]));
            assert(prefix@.take(i as int + 1) == prefix@.take(i as int).push(prefix@[i as int]));
        }
        i += 1;
    }
    proof {
        assert(prefix@.take(prefix.len() as int) == prefix@);
    }
    true
}

/// Whether `s` is the text `word`.
pub fn is_word(s: &[char], word: &str) -> (yes: bool)
    ensures
        yes == (s@ == word@),
{
    let w = chars_of(word);
    let same_start = starts_with(s, w.as_slice());
    proof {
        if s@.len() == w@.len() {
            assert(s@.take(s@.len() as int) == s@);
        }
    }
    same_start && s.len() == w.len()
}

/// Whether `needle` occurs somewhere in `s`.
pub fn contains(s: &[char], needle: &str) -> (yes: bool)
    ensures
        yes == contains_text(s@, needle@),
{
    let n = chars_of(needle);
    if n.len() > s.len() {
        assert(forall|at: int| !occurs_at(s@, needle@, at));
        return false;
    }
    if n.len() == 0 {
        assert(s@.subrange(0, 0) == needle@);
        assert(occurs_at(s@, needle@, 0));
        return true;
    }
    let last: usize = s.len() - n.len();
    let mut at: usize = 0;
    while at <= last
        invariant
            n@ == needle@,
            n.len() > 0,
            last == s.len() - n.len(),
            at <= last + 1,
            forall|k: int| 0 <= k < at ==> !occurs_at(s@, needle@, k),
        decreases last + 1 - at,
    {
        let tail = vstd::slice::slice_subrange(s, at, s.len());
        proof {
            assert(tail@.take(n@.len() as int) == s@.subrange(at as int, at + n@.len()));
        }
        if starts_with(tail, n.as_slice()) {
            assert(occurs_at(s@, needle@, at as int));
            return true;
        }
        at += 1;
    }
    assert(forall|k: int| !occurs_at(s@, needle@, k));
    false
}

/// The characters of an optional owned string.
pub open spec fn text_of(s: Option<String>) -> Option<Seq<char>> {
    match s {
        Some(s) => Some(s@),
        None => None,
    }
}

/// The views of a list of strings.
pub open spec fn texts(items: Seq<String>) -> Seq<Seq<char>> {
    items.map_values(|s: String| s@)
}

proof fn lemma_scalar_bytes(c: u32, b: u8)
    by (bit_vector)
    requires
        b < 0x80,
    ensures
        has_width_1_encoding(c) && leading_byte_width_1(c) == b ==> c == b as u32,
        leading_byte_width_2(c) != b,
        leading_byte_width_3(c) != b,
        leading_byte_width_4(c) != b,
        last_continuation_byte(c) != b,
        second_last_continuation_byte(c) != b,
        third_last_continuation_byte(c) != b,
{
}

/// An ASCII character that does not stand in a text does not stand among
/// the bytes of the text either: in UTF-8 every byte of a longer character
/// is above the ASCII range.
pub proof fn lemma_encoded_without(chars: Seq<char>, b: u8)
    requires
        b < 0x80,
        forall|i: int| 0 <= i < chars.len() ==> #[trigger] chars[i] != (b as char),
    ensures
        forall|i: int| 0 <= i < encode_utf8(chars).len() ==> encode_utf8(chars)[i] != b,
    decreases chars.len(),
{
    if chars.len() > 0 {
        let c = chars[0] as u32;
        let first = encode_scalar(c);
        let rest = chars.drop_first();
        assert forall|i: int| 0 <= i < rest.len() implies #[trigger] rest[i] != (b as char) by {
            assert(rest[i] == chars[i + 1]);
        }
        lemma_encoded_without(rest, b);
        lemma_scalar_bytes(c, b);
        assert(c != b as u32) by {
            assert(chars[0] != (b as char));
            char_u32_cast(chars[0], c);
        }
        assert forall|i: int| 0 <= i < first.len() implies first[i] != b by {
            if has_width_1_encoding(c) {
                assert(first == seq![leading_byte_width_1(c)]);
            } else if has_width_2_encoding(c) {
                assert(first == seq![leading_byte_width_2(c), last_continuation_byte(c)]);
            } else if has_width_3_encoding(c) {
                assert(first == seq![
                    leading_byte_width_3(c),
                    second_last_continuation_byte(c),
                    last_continuation_byte(c),
                ]);
            } else {
                assert(first == seq![
                    leading_byte_width_4(c),
                    third_last_continuation_byte(c),
                    second_last_continuation_byte(c),
                    last_continuation_byte(c),
                ]);
            }
        }
        let all = encode_utf8(chars);
        assert(all == first + encode_utf8(rest));
        assert forall|i: int| 0 <= i < all.len() implies all[i] != b by {
            if i < first.len() {
                assert(all[i] == first[i]);
            } else {
                assert(all[i] == encode_utf8(rest)[i - first.len()]);
            }
        }
    }
}

} // verus!
