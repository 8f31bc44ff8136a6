//! The bytes of an index file back as its lines of text.

use vstd::prelude::*;
use vstd::slice::{slice_subrange, slice_to_vec};
use vstd::utf8::{decode_utf8, valid_utf8};

use crate::text::{head_len, lemma_head_len_is};

verus! {

/// The byte that ends a line.
pub const LINE_FEED: u8 = 0x0a;

/// The byte that may stand before the line feed and is then no part of the line.
pub const CARRIAGE_RETURN: u8 = 0x0d;

/// A line without the carriage return at its end, where it has one.
pub open spec fn without_return(line: Seq<u8>) -> Seq<u8> {
    if line.len() > 0 && line.last() == CARRIAGE_RETURN {
        line.drop_last()
    } else {
        line
    }
}

/// What a line of bytes adds to the lines of text: its characters where it is valid UTF-8,
/// nothing where it is not.
pub open spec fn decoded(line: Seq<u8>) -> Seq<Seq<char>> {
    if valid_utf8(line) {
        seq![decode_utf8(line)]
    } else {
        Seq::empty()
    }
}

/// The lines of text that `content` holds, in order. A line ends at a line feed; the line feed
/// and a carriage return just before it are no part of the line. Bytes after the last line feed
/// are a line too. A line that is not valid UTF-8 is left out.
pub open spec fn text_lines(content: Seq<u8>) -> Seq<Seq<char>>
    decreases content.len(),
{
    if content.len() == 0 {
        Seq::empty()
    } else {
        let n = head_len(content, LINE_FEED);
        if n >= content.len() {
            decoded(content)
        } else {
            decoded(without_return(content.take(n as int))) + text_lines(
                content.skip(n as int + 1),
            )
        }
    }
}

/// `String::from_utf8` of std: the text that `bytes` encode, exactly where they are valid
/// UTF-8. The contract takes vstd's `valid_utf8` and `decode_utf8` as the meaning of UTF-8.
#[verifier::external_body]
fn decode(bytes: Vec<u8>) -> (text: Option<String>)
    ensures
        text is Some <==> valid_utf8(bytes@),
        text matches Some(s) ==> s@ == decode_utf8(bytes@),
{
    match String::from_utf8(bytes) {
        Ok(text) => Some(text),
        Err(_) => None,
    }
}

/// The position of the first `delimiter` at or after `from`, or the length where there is none.
pub(crate) fn find_byte(s: &[u8], delimiter: u8, from: usize) -> (at: usize)
    requires
        from <= s@.len(),
    ensures
        at == from + head_len(s@.skip(from as int), delimiter),
        from <= at <= s@.len(),
{
    let mut at: usize = from;
    while at < s.len() && s[at] != delimiter
        invariant
            from <= at <= s@.len(),
            forall|k: int| from <= k < at ==> s@[k] != delimiter,
        decreases s@.len() - at,
    {
        at += 1;
    }
    proof {
        lemma_head_len_is(s@.skip(from as int), delimiter, at - from);
    }
    at
}

/// Reads the lines of an index from the bytes of its file, in file order.
pub fn read_lines(content: &[u8]) -> (lines: Vec<String>)
    ensures
        lines.deep_view() == text_lines(content@),
{
    let len = content.len();
    let mut lines: Vec<String> = Vec::new();
    let mut start: usize = 0;
    proof {
        assert(content@.skip(0) =~= content@);
        assert(lines.deep_view() =~= Seq::<Seq<char>>::empty());
    }
    while start < len
        invariant
            start <= len,
            len == content@.len(),
            lines.deep_view() + text_lines(content@.skip(start as int)) == text_lines(content@),
        decreases len - start,
    {
        let ghost rest = content@.skip(start as int);
        let ghost before = lines.deep_view();
        let end = find_byte(content, LINE_FEED, start);
        let terminated = end < len;
        let stop = if terminated && end > start && content[end - 1] == CARRIAGE_RETURN {
            end - 1
        } else {
            end
        };
        let raw = slice_to_vec(slice_subrange(content, start, stop));
        proof {
            if terminated {
                let line = rest.take(end - start);
                assert(line =~= content@.subrange(start as int, end as int));
                assert(raw@ =~= without_return(line));
                assert(rest.skip(end - start + 1) =~= content@.skip(end + 1));
            } else {
                assert(raw@ =~= rest);
                assert(text_lines(content@.skip(end as int)) =~= Seq::<Seq<char>>::empty());
            }
        }
        match decode(raw) {
            Some(line) => {
                lines.push(line);
                proof {
                    assert(lines.deep_view() =~= before.push(line@));
                }
            },
            None => {},
        }
        start = if terminated {
            end + 1
        } else {
            end
        };
        proof {
            let after = text_lines(content@.skip(start as int));
            assert(lines.deep_view() =~= before + decoded(raw@));
            assert(before + text_lines(rest) =~= (before + decoded(raw@)) + after);
        }
    }
    proof {
        assert(text_lines(content@.skip(start as int)) =~= Seq::<Seq<char>>::empty());
        assert(lines.deep_view() + Seq::<Seq<char>>::empty() =~= lines.deep_view());
    }
    lines
}

} // verus!
