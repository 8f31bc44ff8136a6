//! Sequences of symbols: where one occurs inside another, and how one is cut at a delimiter.

use vstd::prelude::*;

verus! {

/// `needle` stands in `haystack`, symbol for symbol, starting at position `at`.
pub open spec fn occurs_at<T>(haystack: Seq<T>, needle: Seq<T>, at: int) -> bool {
    &&& 0 <= at
    &&& at + needle.len() <= haystack.len()
    &&& haystack.subrange(at, at + needle.len()) =~= needle
}

/// `needle` is a contiguous part of `haystack`. The empty sequence is part of every sequence.
pub open spec fn occurs_in<T>(needle: Seq<T>, haystack: Seq<T>) -> bool {
    exists|at: int| occurs_at(haystack, needle, at)
}

/// How many symbols of `s` stand before its first `delimiter`; all of them where it has none.
pub open spec fn head_len<T>(s: Seq<T>, delimiter: T) -> nat
    decreases s.len(),
{
    if s.len() == 0 || s[0] == delimiter {
        0
    } else {
        1 + head_len(s.drop_first(), delimiter)
    }
}

/// The fields of `s`: the runs of symbols between its delimiters, in order. A delimiter ends a
/// field, so nothing follows a final delimiter, and the empty sequence has no field at all.
pub open spec fn fields<T>(s: Seq<T>, delimiter: T) -> Seq<Seq<T>>
    decreases s.len(),
{
    if s.len() == 0 {
        Seq::empty()
    } else {
        let n = head_len(s, delimiter);
        if n >= s.len() {
            seq![s]
        } else {
            seq![s.take(n as int)] + fields(s.skip(n as int + 1), delimiter)
        }
    }
}

/// `out` holds, in order, the values that `f` gives on `input`, and `picks` names in rising
/// order the positions of `input` on which it gives one: nothing is moved, nothing is left
/// out, nothing is taken twice.
pub open spec fn picks_all<A, B>(
    picks: Seq<int>,
    out: Seq<B>,
    input: Seq<A>,
    f: spec_fn(A) -> Option<B>,
) -> bool {
    &&& picks.len() == out.len()
    &&& forall|k: int| 0 <= k < picks.len() ==> 0 <= #[trigger] picks[k] < input.len()
    &&& forall|j: int, k: int| 0 <= j < k < picks.len() ==> picks[j] < picks[k]
    &&& forall|k: int| 0 <= k < picks.len() ==> f(input[#[trigger] picks[k]]) == Some(out[k])
    &&& forall|i: int| 0 <= i < input.len() && f(#[trigger] input[i]) is Some ==> picks.contains(i)
}

/// `f` followed by `g`, where `f` gives a value.
pub open spec fn and_then<A, B, C>(f: spec_fn(A) -> Option<B>, g: spec_fn(B) -> Option<C>)
    -> spec_fn(A) -> Option<C> {
    |a: A|
        match f(a) {
            Some(b) => g(b),
            None => None,
        }
}

/// `head_len` is the position of the first delimiter: no delimiter stands before it, and one
/// stands at it unless the sequence ends there.
pub proof fn lemma_head_len<T>(s: Seq<T>, delimiter: T)
    ensures
        head_len(s, delimiter) <= s.len(),
        forall|k: int| 0 <= k < head_len(s, delimiter) ==> s[k] != delimiter,
        head_len(s, delimiter) < s.len() ==> s[head_len(s, delimiter) as int] == delimiter,
    decreases s.len(),
{
    if s.len() == 0 || s[0] == delimiter {
    } else {
        let rest = s.drop_first();
        lemma_head_len(rest, delimiter);
        assert forall|k: int| 0 <= k < head_len(s, delimiter) implies s[k] != delimiter by {
            if k > 0 {
                assert(s[k] == rest[k - 1]);
            }
        }
        if head_len(s, delimiter) < s.len() {
            assert(s[head_len(s, delimiter) as int] == rest[head_len(rest, delimiter) as int]);
        }
    }
}

/// A position with no delimiter before it, and with a delimiter or the end at it, is `head_len`.
pub proof fn lemma_head_len_is<T>(s: Seq<T>, delimiter: T, n: int)
    requires
        0 <= n <= s.len(),
        forall|k: int| 0 <= k < n ==> s[k] != delimiter,
        n < s.len() ==> s[n] == delimiter,
    ensures
        head_len(s, delimiter) == n,
{
    lemma_head_len(s, delimiter);
    let h = head_len(s, delimiter) as int;
    if h < n {
        assert(s[h] == delimiter);
    } else if n < h {
        assert(s[n] == delimiter);
    }
}

/// No field holds the delimiter.
pub proof fn lemma_fields_lack_delimiter<T>(s: Seq<T>, delimiter: T)
    ensures
        forall|i: int, k: int|
            0 <= i < fields(s, delimiter).len() && 0 <= k < fields(s, delimiter)[i].len()
                ==> fields(s, delimiter)[i][k] != delimiter,
    decreases s.len(),
{
    if s.len() > 0 {
        lemma_head_len(s, delimiter);
        let n = head_len(s, delimiter) as int;
        if n < s.len() {
            let rest = fields(s.skip(n + 1), delimiter);
            lemma_fields_lack_delimiter(s.skip(n + 1), delimiter);
            assert forall|i: int, k: int|
                0 <= i < fields(s, delimiter).len() && 0 <= k < fields(s, delimiter)[i].len()
                implies fields(s, delimiter)[i][k] != delimiter by {
                if i > 0 {
                    assert(fields(s, delimiter)[i] == rest[i - 1]);
                }
            }
        }
    }
}

/// What occurs in a part of a sequence occurs in the sequence.
pub proof fn lemma_occurs_in_part<T>(needle: Seq<T>, part: Seq<T>, whole: Seq<T>, at: int)
    requires
        occurs_in(needle, part),
        occurs_at(whole, part, at),
    ensures
        occurs_in(needle, whole),
{
    let k = choose|k: int| occurs_at(part, needle, k);
    assert(whole.subrange(at + k, at + k + needle.len()) =~= part.subrange(k, k + needle.len()));
    assert(occurs_at(whole, needle, at + k));
}

/// Filtering keeps the order: the values that `filter_map` gives stand in the order of the
/// positions that they come from.
pub proof fn lemma_filter_map_keeps_order<A, B>(
    input: Seq<A>,
    f: spec_fn(A) -> Option<B>,
) -> (picks: Seq<int>)
    ensures
        picks_all(picks, input.filter_map(f), input, f),
    decreases input.len(),
{
    if input.len() == 0 {
        Seq::empty()
    } else {
        let rest = input.drop_last();
        let earlier = lemma_filter_map_keeps_order(rest, f);
        let last = input.len() - 1;
        assert forall|k: int| 0 <= k < earlier.len() implies input[#[trigger] earlier[k]]
            == rest[earlier[k]] by {}
        match f(input.last()) {
            Some(value) => {
                let picks = earlier.push(last);
                let out = input.filter_map(f);
                assert(out =~= rest.filter_map(f).push(value));
                assert forall|i: int| 0 <= i < input.len() && f(#[trigger] input[i]) is Some
                    implies picks.contains(i) by {
                    if i < last {
                        assert(f(rest[i]) is Some);
                        let k = choose|k: int| 0 <= k < earlier.len() && earlier[k] == i;
                        assert(picks[k] == i);
                    } else {
                        assert(picks[earlier.len() as int] == i);
                    }
                }
                picks
            },
            None => {
                assert forall|i: int| 0 <= i < input.len() && f(#[trigger] input[i]) is Some
                    implies earlier.contains(i) by {
                    assert(f(rest[i]) is Some);
                }
                earlier
            },
        }
    }
}

/// Filtering what was filtered is filtering once by both.
pub proof fn lemma_filter_map_twice<A, B, C>(
    input: Seq<A>,
    f: spec_fn(A) -> Option<B>,
    g: spec_fn(B) -> Option<C>,
)
    ensures
        input.filter_map(f).filter_map(g) == input.filter_map(and_then(f, g)),
    decreases input.len(),
{
    if input.len() > 0 {
        let rest = input.drop_last();
        lemma_filter_map_twice(rest, f, g);
        match f(input.last()) {
            Some(value) => {
                let once = rest.filter_map(f) + seq![value];
                assert(once.drop_last() =~= rest.filter_map(f));
                assert(once.last() == value);
            },
            None => {},
        }
    }
}

/// A value that `f` gives on a symbol of `input` is among the values that `filter_map` gives.
pub proof fn lemma_filter_map_holds<A, B>(input: Seq<A>, f: spec_fn(A) -> Option<B>, i: int)
    requires
        0 <= i < input.len(),
        f(input[i]) is Some,
    ensures
        input.filter_map(f).contains(f(input[i])->0),
    decreases input.len(),
{
    let rest = input.drop_last();
    let out = input.filter_map(f);
    if i == input.len() - 1 {
        assert(out[out.len() - 1] == f(input[i])->0);
    } else {
        lemma_filter_map_holds(rest, f, i);
        let k = choose|k: int| 0 <= k < rest.filter_map(f).len() && rest.filter_map(f)[k] == f(
            rest[i],
        )->0;
        assert(out[k] == f(input[i])->0);
    }
}

/// The characters of `s`, in order.
pub fn to_chars(s: &str) -> (chars: Vec<char>)
    ensures
        chars@ == s@,
{
    let mut chars: Vec<char> = Vec::new();
    for c in it: s.chars()
        invariant
            chars@ == it.seq().take(it.index()),
            it.seq() == s@,
    {
        chars.push(c);
    }
    chars
}

/// Tells whether `needle` stands in `haystack` at position `at`.
pub fn chars_occur_at(haystack: &[char], needle: &[char], at: usize) -> (found: bool)
    ensures
        found == occurs_at(haystack@, needle@, at as int),
{
    let width: usize = needle.len();
    if at > haystack.len() || width > haystack.len() - at {
        return false;
    }
    let mut k: usize = 0;
    while k < width
        invariant
            k <= width,
            width == needle@.len(),
            at + width <= haystack.len(),
            forall|j: int| 0 <= j < k ==> haystack@[at + j] == needle@[j],
        decreases width - k,
    {
        if haystack[at + k] != needle[k] {
            proof {
                let part = haystack@.subrange(at as int, at + needle@.len());
                assert(part[k as int] == haystack@[at + k]);
            }
            return false;
        }
        k += 1;
    }
    proof {
        let part = haystack@.subrange(at as int, at + needle@.len());
        assert forall|j: int| 0 <= j < needle@.len() implies part[j] == needle@[j] by {
            assert(part[j] == haystack@[at + j]);
        }
    }
    true
}

/// Tells whether `needle` is a contiguous part of `haystack`, comparing character by character.
pub fn chars_occur(needle: &[char], haystack: &[char]) -> (found: bool)
    ensures
        found == occurs_in(needle@, haystack@),
{
    if needle.len() > haystack.len() {
        return false;
    }
    let last: usize = haystack.len() - needle.len();
    let mut at: usize = 0;
    loop
        invariant
            at <= last,
            last == haystack@.len() - needle@.len(),
            forall|j: int| 0 <= j < at ==> !occurs_at(haystack@, needle@, j),
        decreases last - at,
    {
        if chars_occur_at(haystack, needle, at) {
            return true;
        }
        if at == last {
            return false;
        }
        at += 1;
    }
}

/// Tells whether `needle` is a literal, case-sensitive substring of `haystack`.
pub fn contains(haystack: &str, needle: &str) -> (found: bool)
    ensures
        found == occurs_in(needle@, haystack@),
{
    let h = to_chars(haystack);
    let n = to_chars(needle);
    chars_occur(n.as_slice(), h.as_slice())
}

/// The position of the first `delimiter` at or after `from`, or the length where there is none.
pub(crate) fn find_char(s: &[char], delimiter: char, from: usize) -> (at: usize)
    requires
        from <= s@.len(),
    ensures
        at == from + head_len(s@.skip(from as int), delimiter),
        from <= at <= s@.len(),
{
    let mut at: usize = from;
    while at < s.len() && s[at] != delimiter
        invariant
            from <= at <= s@.len(),
            forall|k: int| from <= k < at ==> s@[k] != delimiter,
        decreases s@.len() - at,
    {
        at += 1;
    }
    proof {
        lemma_head_len_is(s@.skip(from as int), delimiter, at - from);
    }
    at
}

} // verus!
