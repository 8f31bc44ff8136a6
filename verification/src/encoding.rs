//! Facts about the UTF-8 encoding of text that relate the characters of an index to the bytes
//! of its file.

use vstd::prelude::*;
use vstd::utf8::*;

verus! {

/// The encoding of two texts, one after the other, is the encoding of the first followed by
/// the encoding of the second.
pub proof fn lemma_encode_concat(a: Seq<char>, b: Seq<char>)
    ensures
        encode_utf8(a + b) == encode_utf8(a) + encode_utf8(b),
    decreases a.len(),
{
    if a.len() == 0 {
        assert(a + b =~= b);
        assert(encode_utf8(a) + encode_utf8(b) =~= encode_utf8(b));
    } else {
        assert((a + b).drop_first() =~= a.drop_first() + b);
        lemma_encode_concat(a.drop_first(), b);
        assert(encode_utf8(a + b) =~= encode_utf8(a) + encode_utf8(b));
    }
}

/// The encoding of one character is the encoding of its scalar value.
pub proof fn lemma_encode_one(c: char)
    ensures
        encode_utf8(seq![c]) == encode_scalar(c as u32),
{
    let s = seq![c];
    assert(s.drop_first() =~= Seq::<char>::empty());
    assert(encode_utf8(s.drop_first()) =~= Seq::<u8>::empty());
    assert(encode_utf8(s) =~= encode_scalar(c as u32));
}

/// An ASCII byte stands in the encoding of a character only where it is that character.
pub proof fn lemma_scalar_lacks_byte(c: char, b: u8)
    requires
        b < 0x80,
        c as u32 != b as u32,
    ensures
        encode_scalar(c as u32).len() > 0,
        forall|j: int|
            0 <= j < encode_scalar(c as u32).len() ==> #[trigger] encode_scalar(c as u32)[j] != b,
{
    let v = c as u32;
    if has_width_1_encoding(v) {
        assert((v & 0x7F) as u8 != b) by (bit_vector)
            requires
                v <= 0x7F,
                b < 0x80,
                v != b as u32,
        ;
    } else if has_width_2_encoding(v) {
        assert(0xC0 | ((v >> 6) & 0x1F) as u8 >= 0x80) by (bit_vector);
        assert(0x80 | (v & 0x3F) as u8 >= 0x80) by (bit_vector);
    } else if has_width_3_encoding(v) {
        assert(0xE0 | ((v >> 12) & 0x0F) as u8 >= 0x80) by (bit_vector);
        assert(0x80 | ((v >> 6) & 0x3F) as u8 >= 0x80) by (bit_vector);
        assert(0x80 | (v & 0x3F) as u8 >= 0x80) by (bit_vector);
    } else {
        assert(0xF0 | ((v >> 18) & 0x7) as u8 >= 0x80) by (bit_vector);
        assert(0x80 | ((v >> 12) & 0x3F) as u8 >= 0x80) by (bit_vector);
        assert(0x80 | ((v >> 6) & 0x3F) as u8 >= 0x80) by (bit_vector);
        assert(0x80 | (v & 0x3F) as u8 >= 0x80) by (bit_vector);
    }
}

/// An ASCII byte stands in the encoding of a text only where the text holds that character.
pub proof fn lemma_encode_lacks_byte(s: Seq<char>, b: u8)
    requires
        b < 0x80,
        forall|i: int| 0 <= i < s.len() ==> s[i] as u32 != b as u32,
    ensures
        forall|j: int| 0 <= j < encode_utf8(s).len() ==> encode_utf8(s)[j] != b,
    decreases s.len(),
{
    if s.len() > 0 {
        let first = encode_scalar(s[0] as u32);
        let rest = encode_utf8(s.drop_first());
        lemma_scalar_lacks_byte(s[0], b);
        lemma_encode_lacks_byte(s.drop_first(), b);
        assert forall|j: int| 0 <= j < encode_utf8(s).len() implies encode_utf8(s)[j] != b by {
            if j < first.len() {
                assert(encode_utf8(s)[j] == first[j]);
            } else {
                assert(encode_utf8(s)[j] == rest[j - first.len()]);
            }
        }
    }
}

/// The encoding of a text ends with an ASCII byte only where the text ends with that
/// character.
pub proof fn lemma_encode_last_byte(s: Seq<char>, b: u8)
    requires
        s.len() > 0,
        b < 0x80,
        s.last() as u32 != b as u32,
    ensures
        encode_utf8(s).len() > 0,
        encode_utf8(s).last() != b,
{
    let last = encode_scalar(s.last() as u32);
    assert(s =~= s.drop_last() + seq![s.last()]);
    lemma_encode_concat(s.drop_last(), seq![s.last()]);
    lemma_encode_one(s.last());
    lemma_scalar_lacks_byte(s.last(), b);
    assert(encode_utf8(s).last() == last[last.len() - 1]);
}

} // verus!
