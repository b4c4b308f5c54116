//! Text as bytes: the offsets that a search reports count bytes of the UTF-8
//! encoding, so the rules that cut a text at such offsets are stated over
//! `encode_utf8` of its characters.

use vstd::prelude::*;
use vstd::string::*;
use vstd::utf8::*;

verus! {

/// Encoding distributes over concatenation.
pub proof fn lemma_encode_concat(a: Seq<char>, b: Seq<char>)
    ensures
        encode_utf8(a + b) == encode_utf8(a) + encode_utf8(b),
    decreases a.len(),
{
    if a.len() == 0 {
        assert(a + b =~= b);
        assert(encode_utf8(a) + encode_utf8(b) =~= encode_utf8(b));
    } else {
        assert((a + b).drop_first() =~= a.drop_first() + b);
        lemma_encode_concat(a.drop_first(), b);
        assert(encode_utf8(a + b) =~= encode_utf8(a) + encode_utf8(b));
    }
}

/// Two texts with the same encoding are the same text.
pub proof fn lemma_encode_injective(a: Seq<char>, b: Seq<char>)
    requires
        encode_utf8(a) == encode_utf8(b),
    ensures
        a == b,
{
    encode_utf8_decode_utf8(a);
    encode_utf8_decode_utf8(b);
}

/// A character boundary of a text is one of each prefix that reaches it.
pub proof fn lemma_boundary_in_prefix(bytes: Seq<u8>, from: int, to: int)
    requires
        valid_utf8(bytes),
        0 <= from <= to <= bytes.len(),
        is_char_boundary(bytes, from),
        is_char_boundary(bytes, to),
    ensures
        valid_utf8(bytes.subrange(0, to)),
        is_char_boundary(bytes.subrange(0, to), from),
{
    let head = bytes.subrange(0, to);
    valid_utf8_split(bytes, to);
    if from == to {
        is_char_boundary_start_end_of_seq(head);
    } else {
        is_char_boundary_iff_not_is_continuation_byte(bytes, from);
        is_char_boundary_iff_not_is_continuation_byte(head, from);
    }
}

/// The part of `text` from byte `from` up to byte `to`.
pub fn slice<'a>(text: &'a str, from: usize, to: usize) -> (part: &'a str)
    requires
        from <= to <= encode_utf8(text@).len(),
        is_char_boundary(encode_utf8(text@), from as int),
        is_char_boundary(encode_utf8(text@), to as int),
    ensures
        encode_utf8(part@) == encode_utf8(text@).subrange(from as int, to as int),
{
    let (head, _) = text.split_at(to);
    proof {
        encode_utf8_valid_utf8(text@);
        lemma_boundary_in_prefix(encode_utf8(text@), from as int, to as int);
    }
    let (_, part) = head.split_at(from);
    assert(encode_utf8(part@) =~= encode_utf8(text@).subrange(from as int, to as int));
    part
}

} // verus!
