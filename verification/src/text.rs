//! What counts as text: a run of allowed one-byte characters and of
//! multi-byte characters, each a leading byte followed by as many
//! continuation bytes as it announces.

use crate::classify::{allowed_ascii, continuation, continuation_count};
use vstd::prelude::*;
use vstd::utf8::{
    codepoint_width_2, codepoint_width_3, codepoint_width_4, decode_utf8, length_of_first_scalar,
    not_overlong_encoding, not_surrogate, valid_first_scalar, valid_utf8,
};

verus! {

/// Every byte of `s` from index `from` up to, not including, `to` is a
/// continuation byte.
pub open spec fn all_continuation(s: Seq<u8>, from: int, to: int) -> bool {
    forall|j: int| from <= j < to ==> continuation(#[trigger] s[j])
}

/// The length in bytes of the character at the front of `s`, or 0 where `s`
/// does not begin with a complete character.
pub open spec fn front_char_len(s: Seq<u8>) -> nat {
    if s.len() == 0 {
        0
    } else if allowed_ascii(s[0]) {
        1
    } else {
        match continuation_count(s[0]) {
            Some(n) => if s.len() > n && all_continuation(s, 1, n + 1) {
                (n + 1) as nat
            } else {
                0
            },
            None => 0,
        }
    }
}

/// `s` is exactly one character.
pub open spec fn single_char(s: Seq<u8>) -> bool {
    s.len() > 0 && front_char_len(s) == s.len()
}

/// The number of characters in `s` where `s` is text from its first byte
/// to its last, and `None` where it is not.
pub open spec fn text_chars(s: Seq<u8>) -> Option<nat>
    decreases s.len(),
{
    if s.len() == 0 {
        Some(0)
    } else {
        let n = front_char_len(s);
        if n == 0 {
            None
        } else {
            match text_chars(s.skip(n as int)) {
                Some(k) => Some(k + 1),
                None => None,
            }
        }
    }
}

/// `s` is text of exactly `chars` characters.
pub open spec fn is_text(s: Seq<u8>, chars: nat) -> bool {
    text_chars(s) == Some(chars)
}

/// The character at the front of a sequence spans at most four bytes, none
/// of them null, and is found again at the front of every extension.
pub proof fn lemma_front_char(s: Seq<u8>, t: Seq<u8>)
    requires
        front_char_len(s) > 0,
    ensures
        1 <= front_char_len(s) <= 4,
        front_char_len(s) <= s.len(),
        forall|i: int| 0 <= i < front_char_len(s) ==> s[i] != 0,
        front_char_len(s + t) == front_char_len(s),
{
}

/// Text followed by one more character is text with one more character.
pub proof fn lemma_text_push_char(s: Seq<u8>, t: Seq<u8>)
    requires
        text_chars(s) is Some,
        single_char(t),
    ensures
        text_chars(s + t) == Some(text_chars(s)->0 + 1),
    decreases s.len(),
{
    if s.len() == 0 {
        assert(t.skip(t.len() as int) =~= Seq::<u8>::empty());
        assert(text_chars(Seq::<u8>::empty()) == Some(0nat));
    } else {
        let n = front_char_len(s);
        lemma_front_char(s, t);
        lemma_text_push_char(s.skip(n as int), t);
        assert((s + t).skip(n as int) =~= s.skip(n as int) + t);
    }
}

/// Text has at least one byte and at most four bytes for each character,
/// and holds no null byte.
pub proof fn lemma_text_shape(s: Seq<u8>)
    requires
        text_chars(s) is Some,
    ensures
        text_chars(s)->0 <= s.len() <= 4 * text_chars(s)->0,
        forall|i: int| 0 <= i < s.len() ==> s[i] != 0,
    decreases s.len(),
{
    if s.len() > 0 {
        let n = front_char_len(s);
        lemma_front_char(s, Seq::empty());
        let rest = s.skip(n as int);
        lemma_text_shape(rest);
        assert forall|i: int| 0 <= i < s.len() implies s[i] != 0 by {
            if i >= n {
                assert(s[i] == rest[i - n]);
            }
        }
    }
}

/// A leading byte and the byte after it that have the shape of the start of
/// a multi-byte character but begin no encoding of a Unicode scalar value:
/// the encoding would be longer than its value needs, or of a surrogate, or
/// of a value beyond `U+10FFFF`.
pub open spec fn ill_formed_pair(lead: u8, next: u8) -> bool {
    ||| lead == 0xE0 && next < 0xA0
    ||| lead == 0xED && next > 0x9F
    ||| lead == 0xF0 && next < 0x90
    ||| lead == 0xF4 && next > 0x8F
}

/// There is such a pair at index `i` of `s`.
pub open spec fn ill_formed_at(s: Seq<u8>, i: int) -> bool {
    0 <= i && i + 1 < s.len() && ill_formed_pair(s[i], s[i + 1])
}

/// There is such a pair somewhere in `s`.
pub open spec fn has_ill_formed_pair(s: Seq<u8>) -> bool {
    exists|i: int| ill_formed_at(s, i)
}

proof fn lemma_two_byte_scalar(b0: u8, b1: u8)
    by (bit_vector)
    requires
        0xC2 <= b0 <= 0xDF,
        0x80 <= b1 <= 0xBF,
    ensures
        not_overlong_encoding(codepoint_width_2(b0, b1), 2),
        not_surrogate(codepoint_width_2(b0, b1)),
{
}

proof fn lemma_three_byte_scalar(b0: u8, b1: u8, b2: u8)
    by (bit_vector)
    requires
        0xE0 <= b0 <= 0xEF,
        0x80 <= b1 <= 0xBF,
        0x80 <= b2 <= 0xBF,
    ensures
        not_overlong_encoding(codepoint_width_3(b0, b1, b2), 3) && not_surrogate(
            codepoint_width_3(b0, b1, b2),
        ) <==> !ill_formed_pair(b0, b1),
{
}

proof fn lemma_four_byte_scalar(b0: u8, b1: u8, b2: u8, b3: u8)
    by (bit_vector)
    requires
        0xF0 <= b0 <= 0xF4,
        0x80 <= b1 <= 0xBF,
        0x80 <= b2 <= 0xBF,
        0x80 <= b3 <= 0xBF,
    ensures
        not_overlong_encoding(codepoint_width_4(b0, b1, b2, b3), 4) && not_surrogate(
            codepoint_width_4(b0, b1, b2, b3),
        ) <==> !ill_formed_pair(b0, b1),
{
}

/// The character at the front of a sequence is the encoding of a Unicode
/// scalar value unless its first two bytes are an ill-formed pair.
pub proof fn lemma_front_char_scalar(s: Seq<u8>)
    requires
        front_char_len(s) > 0,
    ensures
        valid_first_scalar(s) <==> !ill_formed_at(s, 0),
        valid_first_scalar(s) ==> length_of_first_scalar(s) == front_char_len(s),
{
    let n = front_char_len(s);
    if !allowed_ascii(s[0]) {
        if n == 2 {
            lemma_two_byte_scalar(s[0], s[1]);
        } else if n == 3 {
            lemma_three_byte_scalar(s[0], s[1], s[2]);
        } else {
            lemma_four_byte_scalar(s[0], s[1], s[2], s[3]);
        }
    }
}

/// Text is valid UTF-8 exactly where it holds no ill-formed pair, and then
/// it encodes as many characters as were counted in it.
pub proof fn lemma_text_valid_utf8(s: Seq<u8>)
    requires
        text_chars(s) is Some,
    ensures
        valid_utf8(s) <==> !has_ill_formed_pair(s),
        valid_utf8(s) ==> decode_utf8(s).len() == text_chars(s)->0,
    decreases s.len(),
{
    if s.len() > 0 {
        let n = front_char_len(s) as int;
        let rest = s.skip(n);
        lemma_front_char(s, Seq::empty());
        lemma_front_char_scalar(s);
        lemma_text_valid_utf8(rest);
        if has_ill_formed_pair(s) {
            let i = choose|i: int| ill_formed_at(s, i);
            if i >= n {
                assert(ill_formed_at(rest, i - n));
            }
        }
        if has_ill_formed_pair(rest) {
            let k = choose|k: int| ill_formed_at(rest, k);
            assert(ill_formed_at(s, k + n));
        }
    }
}

} // verus!
