//! Text primitives: trimming, ASCII case folding, searching, ordering and decimal numbers.
//!
//! Every function is stated over the characters of a string, `s@`, except the ordering, which
//! compares UTF-8 bytes.
use vstd::prelude::*;
use vstd::utf8::*;

verus! {

/// The characters with the Unicode `White_Space` property.
pub open spec fn is_space(c: char) -> bool {
    ||| 0x09 <= c as u32 <= 0x0d
    ||| c as u32 == 0x20
    ||| c as u32 == 0x85
    ||| c as u32 == 0xa0
    ||| c as u32 == 0x1680
    ||| 0x2000 <= c as u32 <= 0x200a
    ||| 0x2028 <= c as u32 <= 0x2029
    ||| c as u32 == 0x202f
    ||| c as u32 == 0x205f
    ||| c as u32 == 0x3000
}

/// `s` without its leading white space.
pub open spec fn trimmed_start(s: Seq<char>) -> Seq<char>
    decreases s.len(),
{
    if s.len() > 0 && is_space(s[0]) {
        trimmed_start(s.drop_first())
    } else {
        s
    }
}

/// `s` without its trailing white space.
pub open spec fn trimmed_end(s: Seq<char>) -> Seq<char>
    decreases s.len(),
{
    if s.len() > 0 && is_space(s.last()) {
        trimmed_end(s.drop_last())
    } else {
        s
    }
}

/// `s` without leading and trailing white space.
pub open spec fn trimmed(s: Seq<char>) -> Seq<char> {
    trimmed_end(trimmed_start(s))
}

/// An ASCII capital becomes its small letter; every other character stays.
pub open spec fn lowered_char(c: char) -> char {
    if 'A' <= c <= 'Z' {
        (c as u8 + 32) as char
    } else {
        c
    }
}

/// `s` with every ASCII capital turned into its small letter.
pub open spec fn lowered(s: Seq<char>) -> Seq<char> {
    s.map_values(|c: char| lowered_char(c))
}

/// `needle` stands in `hay` from position `i` on.
pub open spec fn occurs_at<T>(hay: Seq<T>, needle: Seq<T>, i: int) -> bool {
    0 <= i <= hay.len() - needle.len() && hay.subrange(i, i + needle.len()) == needle
}

/// `needle` stands somewhere in `hay`.
pub open spec fn occurs<T>(hay: Seq<T>, needle: Seq<T>) -> bool {
    exists|i: int| occurs_at(hay, needle, i)
}

/// `s` ends in `tail`.
pub open spec fn ends_in<T>(s: Seq<T>, tail: Seq<T>) -> bool {
    occurs_at(s, tail, s.len() - tail.len())
}

/// Lexicographic order of byte strings.
pub open spec fn bytes_less(a: Seq<u8>, b: Seq<u8>) -> bool
    decreases a.len(),
{
    if b.len() == 0 {
        false
    } else if a.len() == 0 {
        true
    } else if a[0] != b[0] {
        a[0] < b[0]
    } else {
        bytes_less(a.drop_first(), b.drop_first())
    }
}

/// The order of strings: lexicographic by their UTF-8 bytes.
pub open spec fn text_less(a: Seq<char>, b: Seq<char>) -> bool {
    bytes_less(encode_utf8(a), encode_utf8(b))
}

/// The decimal digit `d` as a character.
pub open spec fn digit_char(d: int) -> char {
    (d + '0' as int) as char
}

/// `n` in decimal, without leading zeros.
pub open spec fn decimal(n: nat) -> Seq<char>
    decreases n,
{
    if n < 10 {
        seq![digit_char(n as int)]
    } else {
        decimal(n / 10).push(digit_char((n % 10) as int))
    }
}

/// The hexadecimal digit `d` as a character.
pub open spec fn hex_char(d: int) -> char {
    if d < 10 {
        (d + '0' as int) as char
    } else {
        (d - 10 + 'a' as int) as char
    }
}

/// `c` is a hexadecimal digit, in either case.
pub open spec fn is_hex_digit(c: char) -> bool {
    '0' <= c <= '9' || 'a' <= c <= 'f' || 'A' <= c <= 'F'
}

/// The value of the hexadecimal digit `c`.
pub open spec fn hex_value(c: char) -> int {
    if '0' <= c <= '9' {
        c as int - '0' as int
    } else if 'a' <= c <= 'f' {
        c as int - 'a' as int + 10
    } else {
        c as int - 'A' as int + 10
    }
}

/// `s` is nothing but white space.
pub open spec fn is_blank(s: Seq<char>) -> bool {
    forall|i: int| 0 <= i < s.len() ==> is_space(#[trigger] s[i])
}

/// Leading white space does not matter.
proof fn lemma_blank_start(blank: Seq<char>, s: Seq<char>)
    requires
        is_blank(blank),
    ensures
        trimmed_start(blank + s) == trimmed_start(s),
    decreases blank.len(),
{
    if blank.len() > 0 {
        assert(is_space(blank[0]));
        assert forall|i: int| 0 <= i < blank.drop_first().len() implies is_space(
            #[trigger] blank.drop_first()[i],
        ) by {
            assert(is_space(blank[i + 1]));
        }
        lemma_blank_start(blank.drop_first(), s);
        assert((blank + s).drop_first() =~= blank.drop_first() + s);
    } else {
        assert(blank + s =~= s);
    }
}

/// Trailing white space does not matter.
proof fn lemma_blank_end(s: Seq<char>, blank: Seq<char>)
    requires
        is_blank(blank),
    ensures
        trimmed_end(s + blank) == trimmed_end(s),
    decreases blank.len(),
{
    if blank.len() > 0 {
        assert(is_space(blank[blank.len() - 1]));
        assert forall|i: int| 0 <= i < blank.drop_last().len() implies is_space(
            #[trigger] blank.drop_last()[i],
        ) by {
            assert(is_space(blank[i]));
        }
        lemma_blank_end(s, blank.drop_last());
        assert((s + blank).drop_last() =~= s + blank.drop_last());
    } else {
        assert(s + blank =~= s);
    }
}

/// What stands between white space, and does not begin or end in it, is what trimming leaves.
pub proof fn lemma_trimmed(before: Seq<char>, core: Seq<char>, after: Seq<char>)
    requires
        is_blank(before),
        is_blank(after),
        core.len() > 0,
        !is_space(core[0]),
        !is_space(core.last()),
    ensures
        trimmed(before + core + after) == core,
{
    assert(before + core + after =~= before + (core + after));
    lemma_blank_start(before, core + after);
    assert((core + after)[0] == core[0]);
    lemma_blank_end(core, after);
}

/// How much white space stands at the beginning.
pub open spec fn blank_start(s: Seq<char>) -> int {
    s.len() - trimmed_start(s).len()
}

/// What trimming at the beginning takes off is white space, and no more is left.
pub proof fn lemma_trimmed_start(s: Seq<char>)
    ensures
        0 <= blank_start(s) <= s.len(),
        is_blank(s.take(blank_start(s))),
        trimmed_start(s) == s.skip(blank_start(s)),
        trimmed_start(s).len() > 0 ==> !is_space(trimmed_start(s)[0]),
    decreases s.len(),
{
    if s.len() > 0 && is_space(s[0]) {
        let rest = s.drop_first();
        lemma_trimmed_start(rest);
        assert(blank_start(s) == blank_start(rest) + 1);
        assert forall|i: int| 0 <= i < blank_start(s) implies is_space(
            #[trigger] s.take(blank_start(s))[i],
        ) by {
            if i > 0 {
                assert(is_space(rest.take(blank_start(rest))[i - 1]));
            }
        }
        assert(rest.skip(blank_start(rest)) =~= s.skip(blank_start(s)));
    } else {
        assert(s.skip(0) =~= s);
    }
}

/// What trimming at the end takes off is white space, and no more is left.
pub proof fn lemma_trimmed_end(s: Seq<char>)
    ensures
        trimmed_end(s).len() <= s.len(),
        trimmed_end(s) == s.take(trimmed_end(s).len() as int),
        is_blank(s.skip(trimmed_end(s).len() as int)),
        trimmed_end(s).len() > 0 ==> !is_space(trimmed_end(s).last()),
    decreases s.len(),
{
    if s.len() > 0 && is_space(s.last()) {
        let rest = s.drop_last();
        lemma_trimmed_end(rest);
        let n = trimmed_end(rest).len() as int;
        assert forall|i: int| 0 <= i < s.skip(n).len() implies is_space(#[trigger] s.skip(n)[i]) by {
            if n + i < rest.len() {
                assert(is_space(rest.skip(n)[i]));
            }
        }
        assert(rest.take(n) =~= s.take(n));
    } else {
        assert(s.take(s.len() as int) =~= s);
    }
}

/// `core` stands in `s` from `at` on, and nothing but white space stands around it.
pub open spec fn stands_alone(s: Seq<char>, core: Seq<char>, at: int) -> bool {
    &&& 0 <= at
    &&& at + core.len() <= s.len()
    &&& core == s.subrange(at, at + core.len())
    &&& forall|i: int|
        0 <= i < s.len() && (i < at || i >= at + core.len()) ==> is_space(#[trigger] s[i])
}

/// Trimming takes white space off both ends, all of it and nothing else.
pub proof fn law_trimming_takes_off_white_space(s: Seq<char>)
    ensures
        exists|at: int| #[trigger] stands_alone(s, trimmed(s), at),
        trimmed(s).len() > 0 ==> !is_space(trimmed(s)[0]) && !is_space(trimmed(s).last()),
{
    let at = blank_start(s);
    let rest = trimmed_start(s);
    let core = trimmed(s);
    lemma_trimmed_start(s);
    lemma_trimmed_end(rest);
    assert(core =~= s.subrange(at, at + core.len()));
    assert forall|i: int| 0 <= i < s.len() && (i < at || i >= at + core.len()) implies is_space(
        #[trigger] s[i],
    ) by {
        if i < at {
            assert(is_space(s.take(at)[i]));
        } else {
            assert(is_space(rest.skip(core.len() as int)[i - at - core.len()]));
        }
    }
    assert(stands_alone(s, core, at));
    if core.len() > 0 {
        assert(core[0] == rest[0]);
    }
}

/// Blanks, tabs and line ends are white space, and no visible ASCII character is.
pub proof fn law_visible_characters_are_no_white_space(c: char)
    ensures
        c == ' ' || c == '\t' || c == '\n' || c == '\r' ==> is_space(c),
        '!' <= c <= '~' ==> !is_space(c),
{
}

/// The twenty-five characters that are white space, by their numbers.
pub proof fn law_white_space(c: char)
    ensures
        ({
            let code = c as int;
            is_space(c) <==> 9 <= code <= 13 || code == 32 || code == 133 || code == 160 || code
                == 5760 || 8192 <= code <= 8202 || code == 8232 || code == 8233 || code == 8239
                || code == 8287 || code == 12288
        }),
{
}

/// Turning a text into small letters changes ASCII capitals alone, each into its small letter.
pub proof fn law_small_letters(s: Seq<char>, i: int)
    requires
        0 <= i < s.len(),
    ensures
        lowered(s).len() == s.len(),
        'A' <= s[i] <= 'Z' ==> lowered(s)[i] as int == s[i] as int + 32,
        !('A' <= s[i] <= 'Z') ==> lowered(s)[i] == s[i],
{
}

/// The end that is kept of a text is its longest end within the limit.
pub proof fn law_longest_end_is_kept(s: Seq<char>, max: nat)
    ensures
        ({
            let kept = longest_end(s, max);
            let cut = s.len() - kept.len();
            &&& 0 <= cut
            &&& kept == s.skip(cut)
            &&& encode_utf8(kept).len() <= max
            &&& forall|j: int| 0 <= j < cut ==> encode_utf8(#[trigger] s.skip(j)).len() > max
        }),
    decreases s.len(),
{
    if encode_utf8(s).len() <= max || s.len() == 0 {
        assert(s.skip(0) =~= s);
        if s.len() == 0 {
            assert(encode_utf8(s).len() == 0) by {
                reveal_with_fuel(encode_utf8, 1);
            }
        }
    } else {
        let rest = s.drop_first();
        law_longest_end_is_kept(rest, max);
        let kept = longest_end(rest, max);
        let cut = s.len() - kept.len();
        assert(rest.skip(cut - 1) =~= s.skip(cut));
        assert forall|j: int| 0 <= j < cut implies encode_utf8(#[trigger] s.skip(j)).len() > max by {
            if j == 0 {
                assert(s.skip(0) =~= s);
            } else {
                assert(rest.skip(j - 1) =~= s.skip(j));
            }
        }
    }
}

/// Whether `c` is white space.
pub fn is_space_char(c: char) -> (r: bool)
    ensures
        r == is_space(c),
{
    let v: u32 = c as u32;
    (0x09 <= v && v <= 0x0d) || v == 0x20 || v == 0x85 || v == 0xa0 || v == 0x1680 || (0x2000 <= v
        && v <= 0x200a) || (0x2028 <= v && v <= 0x2029) || v == 0x202f || v == 0x205f || v == 0x3000
}

/// The characters of `s`.
pub fn chars_of(s: &str) -> (r: Vec<char>)
    ensures
        r@ == s@,
{
    let mut r: Vec<char> = Vec::new();
    for c in it: s.chars()
        invariant
            r@ == it.seq().take(it.index()),
            it.seq() == s@,
    {
        r.push(c);
    }
    r
}

/// `s` without leading and trailing white space.
pub fn trim(s: &str) -> (r: &str)
    ensures
        r@ == trimmed(s@),
{
    let chars: Vec<char> = chars_of(s);
    let len: usize = chars.len();
    let mut start: usize = 0;
    assert(s@.skip(0) == s@);
    while start < len && is_space_char(chars[start])
        invariant
            len == s@.len(),
            chars@ == s@,
            start <= len,
            trimmed_start(s@) == trimmed_start(s@.skip(start as int)),
        decreases len - start,
    {
        assert(s@.skip(start as int).drop_first() == s@.skip(start + 1));
        start += 1;
    }
    let mut end: usize = len;
    assert(s@.subrange(start as int, len as int) == s@.skip(start as int));
    assert(trimmed_start(s@) == s@.skip(start as int));
    while start < end && is_space_char(chars[end - 1])
        invariant
            len == s@.len(),
            chars@ == s@,
            start <= end <= len,
            trimmed(s@) == trimmed_end(s@.subrange(start as int, end as int)),
        decreases end - start,
    {
        assert(s@.subrange(start as int, end as int).drop_last() == s@.subrange(
            start as int,
            end - 1,
        ));
        end -= 1;
    }
    s.substring_char(start, end)
}

/// `s` with every ASCII capital turned into its small letter, as characters.
pub fn lower_chars(s: &str) -> (r: Vec<char>)
    ensures
        r@ == lowered(s@),
{
    let mut r: Vec<char> = Vec::new();
    for c in it: s.chars()
        invariant
            r@ == lowered(it.seq().take(it.index())),
            it.seq() == s@,
    {
        let small: char = if 'A' <= c && c <= 'Z' {
            ((c as u8) + 32) as char
        } else {
            c
        };
        r.push(small);
    }
    assert(s@.take(s@.len() as int) == s@);
    r
}

/// Two strings with the same bytes have the same characters.
pub proof fn lemma_same_bytes_same_text(a: Seq<char>, b: Seq<char>)
    requires
        encode_utf8(a) == encode_utf8(b),
    ensures
        a == b,
{
    broadcast use {encode_utf8_decode_utf8, encode_utf8_valid_utf8};
    assert(decode_utf8(encode_utf8(a)) == a);
    assert(decode_utf8(encode_utf8(b)) == b);
}

/// Whether the two strings are equal.
pub fn same_text(a: &str, b: &str) -> (r: bool)
    ensures
        r == (a@ == b@),
{
    let x: &[u8] = a.as_bytes();
    let y: &[u8] = b.as_bytes();
    if x.len() != y.len() {
        return false;
    }
    let mut i: usize = 0;
    while i < x.len()
        invariant
            x@ == encode_utf8(a@),
            y@ == encode_utf8(b@),
            x@.len() == y@.len(),
            i <= x@.len(),
            forall|k: int| 0 <= k < i ==> x@[k] == y@[k],
        decreases x@.len() - i,
    {
        if x[i] != y[i] {
            return false;
        }
        i += 1;
    }
    proof {
        assert(x@ == y@);
        lemma_same_bytes_same_text(a@, b@);
    }
    true
}

/// Whether `needle` stands in `hay` from position `i` on.
fn chars_match_at(hay: &[char], needle: &[char], i: usize) -> (r: bool)
    ensures
        r == occurs_at(hay@, needle@, i as int),
{
    let len: usize = hay.len();
    if needle.len() > len || i > len - needle.len() {
        return false;
    }
    let mut k: usize = 0;
    while k < needle.len()
        invariant
            k <= needle@.len(),
            len == hay@.len(),
            i + needle@.len() <= len,
            forall|j: int| 0 <= j < k ==> hay@[i + j] == needle@[j],
        decreases needle@.len() - k,
    {
        if hay[i + k] != needle[k] {
            assert(hay@.subrange(i as int, i + needle@.len())[k as int] == hay@[i + k]);
            return false;
        }
        k += 1;
    }
    assert(hay@.subrange(i as int, i + needle@.len()) == needle@);
    true
}

/// Whether `phrase` stands somewhere in `hay`.
pub fn contains_phrase(hay: &[char], phrase: &str) -> (r: bool)
    ensures
        r == occurs(hay@, phrase@),
{
    let needle: Vec<char> = chars_of(phrase);
    let mut i: usize = 0;
    while i < hay.len()
        invariant
            i <= hay@.len(),
            needle@ == phrase@,
            forall|j: int| 0 <= j < i ==> !occurs_at(hay@, needle@, j),
        decreases hay@.len() - i,
    {
        if chars_match_at(hay, needle.as_slice(), i) {
            return true;
        }
        i += 1;
    }
    chars_match_at(hay, needle.as_slice(), hay.len())
}

/// Whether `hay` ends in `tail`.
pub fn ends_with_text(hay: &[char], tail: &str) -> (r: bool)
    ensures
        r == ends_in(hay@, tail@),
{
    let needle: Vec<char> = chars_of(tail);
    if needle.len() > hay.len() {
        return false;
    }
    chars_match_at(hay, needle.as_slice(), hay.len() - needle.len())
}

/// Whether the characters `hay` are those of `text`.
pub fn chars_are(hay: &[char], text: &str) -> (r: bool)
    ensures
        r == (hay@ == text@),
{
    let needle: Vec<char> = chars_of(text);
    if needle.len() != hay.len() {
        return false;
    }
    let r: bool = chars_match_at(hay, needle.as_slice(), 0);
    assert(hay@.subrange(0, hay@.len() as int) == hay@);
    r
}

/// Whether `a` comes before `b` in the order of strings.
pub fn comes_before(a: &str, b: &str) -> (r: bool)
    ensures
        r == text_less(a@, b@),
{
    let x: &[u8] = a.as_bytes();
    let y: &[u8] = b.as_bytes();
    let mut i: usize = 0;
    assert(x@.skip(0) == x@ && y@.skip(0) == y@);
    while i < x.len() && i < y.len() && x[i] == y[i]
        invariant
            i <= x@.len(),
            i <= y@.len(),
            bytes_less(x@, y@) == bytes_less(x@.skip(i as int), y@.skip(i as int)),
        decreases x@.len() - i,
    {
        assert(x@.skip(i as int).drop_first() == x@.skip(i + 1));
        assert(y@.skip(i as int).drop_first() == y@.skip(i + 1));
        i += 1;
    }
    if i >= y.len() {
        false
    } else if i >= x.len() {
        true
    } else {
        x[i] < y[i]
    }
}

/// The order of byte strings is a strict total order.
pub proof fn lemma_bytes_less_total(a: Seq<u8>, b: Seq<u8>)
    ensures
        !(bytes_less(a, b) && bytes_less(b, a)),
        bytes_less(a, b) || bytes_less(b, a) || a == b,
        a == b ==> !bytes_less(a, b),
    decreases a.len(),
{
    if a.len() > 0 && b.len() > 0 && a[0] == b[0] {
        lemma_bytes_less_total(a.drop_first(), b.drop_first());
        if a.drop_first() == b.drop_first() {
            assert(a == seq![a[0]] + a.drop_first());
            assert(b == seq![b[0]] + b.drop_first());
        }
    } else if a.len() == 0 && b.len() == 0 {
        assert(a == b);
    }
}

/// The first byte in which two byte strings differ decides their order, and what is only a beginning
/// comes first.
pub proof fn law_first_difference_decides(
    same: Seq<u8>,
    x: u8,
    a: Seq<u8>,
    y: u8,
    b: Seq<u8>,
)
    ensures
        x != y ==> (bytes_less(same + seq![x] + a, same + seq![y] + b) <==> x < y),
        bytes_less(same, same + seq![y] + b),
        !bytes_less(same + seq![y] + b, same),
    decreases same.len(),
{
    let left = same + seq![x] + a;
    let right = same + seq![y] + b;
    if same.len() > 0 {
        let rest = same.drop_first();
        law_first_difference_decides(rest, x, a, y, b);
        assert(left.drop_first() =~= rest + seq![x] + a);
        assert(right.drop_first() =~= rest + seq![y] + b);
    } else {
        assert(left[0] == x && right[0] == y);
    }
}

/// The order of byte strings is transitive.
pub proof fn lemma_bytes_less_transitive(a: Seq<u8>, b: Seq<u8>, c: Seq<u8>)
    requires
        bytes_less(a, b),
        bytes_less(b, c),
    ensures
        bytes_less(a, c),
    decreases a.len(),
{
    if a.len() > 0 && a[0] == b[0] && b[0] == c[0] {
        lemma_bytes_less_transitive(a.drop_first(), b.drop_first(), c.drop_first());
    }
}

/// The order of strings is a strict total order: of two different strings exactly one comes first.
pub proof fn law_text_order_is_total(a: Seq<char>, b: Seq<char>)
    ensures
        !(text_less(a, b) && text_less(b, a)),
        text_less(a, b) || text_less(b, a) || a == b,
        !text_less(a, a),
{
    lemma_bytes_less_total(encode_utf8(a), encode_utf8(b));
    lemma_bytes_less_total(encode_utf8(a), encode_utf8(a));
    if encode_utf8(a) == encode_utf8(b) {
        lemma_same_bytes_same_text(a, b);
    }
}

/// One decimal digit as a string.
fn digit_text(d: u64) -> (r: &'static str)
    requires
        d < 10,
    ensures
        r@ == seq![digit_char(d as int)],
{
    proof {
        reveal_strlit("0");
        reveal_strlit("1");
        reveal_strlit("2");
        reveal_strlit("3");
        reveal_strlit("4");
        reveal_strlit("5");
        reveal_strlit("6");
        reveal_strlit("7");
        reveal_strlit("8");
        reveal_strlit("9");
    }
    match d {
        0 => "0",
        1 => "1",
        2 => "2",
        3 => "3",
        4 => "4",
        5 => "5",
        6 => "6",
        7 => "7",
        8 => "8",
        _ => "9",
    }
}

/// One hexadecimal digit as a string.
fn hex_digit_text(d: u8) -> (r: &'static str)
    requires
        d < 16,
    ensures
        r@ == seq![hex_char(d as int)],
{
    proof {
        reveal_strlit("a");
        reveal_strlit("b");
        reveal_strlit("c");
        reveal_strlit("d");
        reveal_strlit("e");
        reveal_strlit("f");
    }
    match d {
        10 => "a",
        11 => "b",
        12 => "c",
        13 => "d",
        14 => "e",
        15 => "f",
        _ => digit_text(d as u64),
    }
}

/// Appends `byte` as two hexadecimal digits.
pub fn append_hex_byte(text: &mut String, byte: u8)
    ensures
        final(text)@ == old(text)@ + seq![
            hex_char((byte / 16) as int),
            hex_char((byte % 16) as int),
        ],
{
    text.append(hex_digit_text(byte / 16));
    text.append(hex_digit_text(byte % 16));
}

/// The value of the hexadecimal digit `c`.
pub fn hex_digit_value(c: char) -> (r: Option<u8>)
    ensures
        r == (if is_hex_digit(c) {
            Some(hex_value(c) as u8)
        } else {
            None
        }),
        is_hex_digit(c) ==> 0 <= hex_value(c) < 16,
{
    if '0' <= c && c <= '9' {
        Some((c as u8) - 0x30)
    } else if 'a' <= c && c <= 'f' {
        Some((c as u8) - 0x61 + 10)
    } else if 'A' <= c && c <= 'F' {
        Some((c as u8) - 0x41 + 10)
    } else {
        None
    }
}

/// `n` in decimal.
pub fn decimal_text(n: u64) -> (r: String)
    ensures
        r@ == decimal(n as nat),
    decreases n,
{
    if n < 10 {
        digit_text(n).to_owned()
    } else {
        let mut r: String = decimal_text(n / 10);
        r.append(digit_text(n % 10));
        r
    }
}

/// The longest end of `s` that takes at most `max` bytes.
pub open spec fn longest_end(s: Seq<char>, max: nat) -> Seq<char>
    decreases s.len(),
{
    if encode_utf8(s).len() <= max || s.len() == 0 {
        s
    } else {
        longest_end(s.drop_first(), max)
    }
}

/// How many bytes `c` takes.
fn byte_width(c: char) -> (r: usize)
    ensures
        r == encode_scalar(c as u32).len(),
        1 <= r <= 4,
{
    let v: u32 = c as u32;
    if v <= 0x7f {
        1
    } else if v <= 0x7ff {
        2
    } else if v <= 0xffff {
        3
    } else {
        4
    }
}

/// The longest end of `s` that takes at most `max` bytes.
pub fn end_within(s: &str, max: usize) -> (r: String)
    ensures
        r@ == longest_end(s@, max as nat),
        encode_utf8(r@).len() <= max,
{
    let chars: Vec<char> = chars_of(s);
    let count: usize = chars.len();
    let mut left: usize = s.as_bytes().len();
    let mut start: usize = 0;
    assert(s@.skip(0) == s@);
    while start < count && left > max
        invariant
            chars@ == s@,
            count == s@.len(),
            start <= count,
            left == encode_utf8(s@.skip(start as int)).len(),
            longest_end(s@, max as nat) == longest_end(s@.skip(start as int), max as nat),
        decreases count - start,
    {
        assert(s@.skip(start as int).drop_first() == s@.skip(start + 1));
        left -= byte_width(chars[start]);
        start += 1;
    }
    proof {
        if start == count {
            assert(s@.skip(start as int) == Seq::<char>::empty());
            assert(encode_utf8(Seq::<char>::empty()).len() == 0);
        }
        assert(s@.subrange(start as int, count as int) == s@.skip(start as int));
    }
    s.substring_char(start, count).to_owned()
}

/// A number in decimal begins with a digit, and has two digits or more from ten on.
pub proof fn lemma_decimal(n: nat)
    ensures
        decimal(n).len() >= 1,
        n < 10 <==> decimal(n).len() == 1,
        '0' <= decimal(n)[0] <= '9',
    decreases n,
{
    if n >= 10 {
        lemma_decimal(n / 10);
    }
}

/// Different numbers look different in decimal.
pub proof fn lemma_decimal_tells_apart(a: nat, b: nat)
    requires
        decimal(a) == decimal(b),
    ensures
        a == b,
    decreases a,
{
    lemma_decimal(a);
    lemma_decimal(b);
    assert(decimal(a).last() == digit_char((a % 10) as int));
    assert(decimal(b).last() == digit_char((b % 10) as int));
    assert(a % 10 == b % 10);
    if a >= 10 {
        assert(decimal(a).drop_last() =~= decimal(a / 10));
        assert(decimal(b).drop_last() =~= decimal(b / 10));
        lemma_decimal_tells_apart(a / 10, b / 10);
    }
}

} // verus!
