//! Byte strings: searching them, and taking them apart at line ends.
use vstd::prelude::*;

use crate::seqs;
use crate::text;

verus! {

/// The byte that ends a line.
pub const NEWLINE: u8 = 10;

/// Where `needle` first stands in `hay`, looking from position `i` on.
pub open spec fn found_from(hay: Seq<u8>, needle: Seq<u8>, i: int) -> Option<int>
    decreases hay.len() - i + 1,
{
    if i + needle.len() > hay.len() {
        None
    } else if text::occurs_at(hay, needle, i) {
        Some(i)
    } else {
        found_from(hay, needle, i + 1)
    }
}

/// Where `needle` first stands in `hay`.
pub open spec fn found(hay: Seq<u8>, needle: Seq<u8>) -> Option<int> {
    found_from(hay, needle, 0)
}

/// A search finds the first place, and no place where there is none.
pub proof fn lemma_found_from(hay: Seq<u8>, needle: Seq<u8>, i: int)
    requires
        0 <= i,
    ensures
        match found_from(hay, needle, i) {
            Some(k) => {
                &&& i <= k
                &&& text::occurs_at(hay, needle, k)
                &&& forall|j: int| i <= j < k ==> !#[trigger] text::occurs_at(hay, needle, j)
            },
            None => forall|j: int| i <= j ==> !#[trigger] text::occurs_at(hay, needle, j),
        },
    decreases hay.len() - i + 1,
{
    if i + needle.len() <= hay.len() && !text::occurs_at(hay, needle, i) {
        lemma_found_from(hay, needle, i + 1);
    }
}

/// Whether `needle` stands in `hay` at position `i`.
fn matches_at(hay: &[u8], needle: &[u8], i: usize) -> (r: bool)
    requires
        i + needle@.len() <= hay@.len(),
    ensures
        r == text::occurs_at(hay@, needle@, i as int),
{
    let mut k: usize = 0;
    let count: usize = hay.len();
    while k < needle.len()
        invariant
            k <= needle@.len(),
            count == hay@.len(),
            i + needle@.len() <= count,
            forall|j: int| 0 <= j < k ==> hay@[i + j] == needle@[j],
        decreases needle@.len() - k,
    {
        if hay[i + k] != needle[k] {
            assert(hay@.subrange(i as int, i + needle@.len())[k as int] == hay@[i + k]);
            return false;
        }
        k += 1;
    }
    assert(hay@.subrange(i as int, i + needle@.len()) == needle@);
    true
}

/// Where `needle` first stands in `hay`.
pub fn find_bytes(hay: &[u8], needle: &[u8]) -> (r: Option<usize>)
    ensures
        (match r {
            Some(i) => Some(i as int),
            None => None,
        }) == found(hay@, needle@),
        r matches Some(i) ==> i + needle@.len() <= hay@.len(),
{
    let count: usize = hay.len();
    if needle.len() > count {
        return None;
    }
    let last: usize = count - needle.len();
    let mut i: usize = 0;
    loop
        invariant
            count == hay@.len(),
            last + needle@.len() == count,
            i <= last,
            found(hay@, needle@) == found_from(hay@, needle@, i as int),
        decreases last - i,
    {
        if matches_at(hay, needle, i) {
            return Some(i);
        }
        if i == last {
            assert(found_from(hay@, needle@, i + 1) is None);
            return None;
        }
        i += 1;
    }
}

/// Whether `needle` stands somewhere in `hay`.
pub fn contains_bytes(hay: &[u8], needle: &[u8]) -> (r: bool)
    ensures
        r == text::occurs(hay@, needle@),
{
    proof {
        lemma_found_from(hay@, needle@, 0);
    }
    find_bytes(hay, needle).is_some()
}

/// The same bytes in a vector of their own.
pub fn copied(content: &[u8]) -> (r: Vec<u8>)
    ensures
        r@ == content@,
{
    let mut r: Vec<u8> = Vec::new();
    let mut i: usize = 0;
    while i < content.len()
        invariant
            i <= content@.len(),
            r@ == content@.take(i as int),
        decreases content@.len() - i,
    {
        r.push(content[i]);
        i += 1;
        assert(r@ == content@.take(i as int));
    }
    assert(content@.take(i as int) == content@);
    r
}

/// The byte ends a line.
pub open spec fn ends_line() -> spec_fn(u8) -> bool {
    |b: u8| b == NEWLINE
}

/// Where the first line of `content` ends.
pub open spec fn newline_in(content: Seq<u8>) -> Option<int> {
    seqs::first_index(content, ends_line())
}

/// The lines of `content`, each with the newline at its end.
pub open spec fn lines(content: Seq<u8>) -> Seq<Seq<u8>>
    decreases content.len(),
{
    match newline_in(content) {
        Some(k) => if 0 <= k < content.len() {
            seq![content.take(k + 1)] + lines(content.skip(k + 1))
        } else {
            Seq::empty()
        },
        None => Seq::empty(),
    }
}

/// What follows the last line of `content`: the beginning of a line that has not ended yet.
pub open spec fn unfinished(content: Seq<u8>) -> Seq<u8>
    decreases content.len(),
{
    match newline_in(content) {
        Some(k) => if 0 <= k < content.len() {
            unfinished(content.skip(k + 1))
        } else {
            content
        },
        None => content,
    }
}

/// The lines that were written by `first` and `second` together are those of `first`, then those
/// of `second` behind the line that `first` had left unfinished.
pub proof fn law_lines_of_two_writes(first: Seq<u8>, second: Seq<u8>)
    ensures
        lines(first + second) == lines(first) + lines(unfinished(first) + second),
    decreases first.len(),
{
    seqs::lemma_first_index(first, ends_line());
    match newline_in(first) {
        Some(k) => {
            let both = first + second;
            assert forall|j: int| 0 <= j < k implies !ends_line()(#[trigger] both[j]) by {
                assert(both[j] == first[j]);
            }
            assert(both[k] == first[k]);
            assert(seqs::is_first(both, ends_line(), k));
            seqs::lemma_first(both, ends_line(), k);
            assert(both.take(k + 1) =~= first.take(k + 1));
            assert(both.skip(k + 1) =~= first.skip(k + 1) + second);
            law_lines_of_two_writes(first.skip(k + 1), second);
            assert(lines(both) =~= lines(first) + lines(unfinished(first) + second));
        },
        None => {
            assert(lines(first) =~= Seq::empty());
        },
    }
}

/// Where the first line of `content` ends.
pub fn line_length(content: &[u8], start: usize) -> (r: Option<usize>)
    requires
        start <= content@.len(),
    ensures
        match r {
            Some(n) => newline_in(content@.skip(start as int)) == Some(n - 1) && 1 <= n && start + n
                <= content@.len(),
            None => newline_in(content@.skip(start as int)) is None,
        },
{
    let ghost rest = content@.skip(start as int);
    let count: usize = content.len();
    let mut i: usize = start;
    while i < count
        invariant
            start <= i <= count,
            count == content@.len(),
            rest == content@.skip(start as int),
            forall|j: int| 0 <= j < i - start ==> !ends_line()(#[trigger] rest[j]),
        decreases count - i,
    {
        assert(rest[i - start] == content@[i as int]);
        if content[i] == NEWLINE {
            proof {
                assert(seqs::is_first(rest, ends_line(), i - start));
                seqs::lemma_first(rest, ends_line(), i - start);
            }
            return Some(i - start + 1);
        }
        i += 1;
    }
    proof {
        seqs::lemma_no_first(rest, ends_line());
    }
    None
}

} // verus!
