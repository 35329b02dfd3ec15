//! UTF-8 text by its bytes: lengths, searching, trimming.

use vstd::prelude::*;
use vstd::string::*;
use vstd::utf8::*;

verus! {

/// The number of bytes that `text` takes up in UTF-8.
pub open spec fn utf8_len(text: Seq<char>) -> int {
    encode_utf8(text).len() as int
}

/// Encoding text piece by piece gives the bytes of the pieces, one after the other.
pub proof fn lemma_utf8_concat(a: Seq<char>, b: Seq<char>)
    ensures
        encode_utf8(a + b) == encode_utf8(a) + encode_utf8(b),
        utf8_len(a + b) == utf8_len(a) + utf8_len(b),
    decreases a.len(),
{
    if a.len() == 0 {
        assert(a + b =~= b);
        assert(encode_utf8(a) + encode_utf8(b) =~= encode_utf8(b));
    } else {
        assert((a + b).drop_first() =~= a.drop_first() + b);
        lemma_utf8_concat(a.drop_first(), b);
        assert(encode_utf8(a + b) =~= encode_utf8(a) + encode_utf8(b));
    }
}

/// Of text made of three pieces, the bytes of the middle piece stand behind the bytes of
/// the first.
pub proof fn lemma_utf8_middle(before: Seq<char>, middle: Seq<char>, after: Seq<char>)
    ensures
        utf8_len(before + middle + after) == utf8_len(before) + utf8_len(middle) + utf8_len(
            after,
        ),
        encode_utf8(before + middle + after).subrange(
            utf8_len(before),
            utf8_len(before) + utf8_len(middle),
        ) == encode_utf8(middle),
        encode_utf8(before + middle + after).subrange(0, utf8_len(before)) == encode_utf8(
            before,
        ),
{
    lemma_utf8_concat(before, middle);
    lemma_utf8_concat(before + middle, after);
    let whole = encode_utf8(before + middle + after);
    assert(whole.subrange(utf8_len(before), utf8_len(before) + utf8_len(middle))
        =~= encode_utf8(middle));
    assert(whole.subrange(0, utf8_len(before)) =~= encode_utf8(before));
}

/// ASCII text takes one byte per character.
pub proof fn lemma_utf8_len_ascii(text: Seq<char>)
    requires
        is_ascii_chars(text),
    ensures
        utf8_len(text) == text.len(),
{
    is_ascii_chars_encode_utf8(text);
}

/// Whether the bytes of `text` from `start` up to `end` are whole characters, so that
/// they can be cut out of it.
pub open spec fn on_char_boundaries(text: Seq<char>, start: int, end: int) -> bool {
    &&& 0 <= start <= end <= utf8_len(text)
    &&& is_char_boundary(encode_utf8(text), start)
    &&& is_char_boundary(encode_utf8(text), end)
}

/// Where the first `k` bytes of well-formed bytes are well formed too, a character ends
/// there.
proof fn lemma_valid_prefix_ends_on_boundary(bytes: Seq<u8>, k: int)
    requires
        valid_utf8(bytes),
        0 <= k <= bytes.len(),
        valid_utf8(bytes.subrange(0, k)),
    ensures
        is_char_boundary(bytes, k),
    decreases bytes.len(),
{
    if k > 0 {
        let prefix = bytes.subrange(0, k);
        let first = length_of_first_scalar(bytes);
        assert(prefix[0] == bytes[0]);
        assert(valid_first_scalar(prefix));
        assert(length_of_first_scalar(prefix) == first);
        assert(first <= k);
        assert(pop_first_scalar(prefix) =~= pop_first_scalar(bytes).subrange(0, k - first));
        lemma_valid_prefix_ends_on_boundary(pop_first_scalar(bytes), k - first);
    }
}

/// A character ends where a piece of text ends.
pub proof fn lemma_pieces_meet_on_boundary(before: Seq<char>, after: Seq<char>)
    ensures
        is_char_boundary(encode_utf8(before + after), utf8_len(before)),
        0 <= utf8_len(before) <= utf8_len(before + after),
{
    lemma_utf8_concat(before, after);
    encode_utf8_valid_utf8(before);
    encode_utf8_valid_utf8(before + after);
    let whole = encode_utf8(before + after);
    assert(whole.subrange(0, utf8_len(before)) =~= encode_utf8(before));
    lemma_valid_prefix_ends_on_boundary(whole, utf8_len(before));
}

/// A piece of text is made of whole characters.
pub proof fn lemma_piece_on_boundaries(before: Seq<char>, piece: Seq<char>, after: Seq<char>)
    ensures
        on_char_boundaries(
            before + piece + after,
            utf8_len(before),
            utf8_len(before) + utf8_len(piece),
        ),
{
    lemma_utf8_middle(before, piece, after);
    lemma_utf8_concat(before, piece);
    lemma_pieces_meet_on_boundary(before + piece, after);
    lemma_pieces_meet_on_boundary(before, piece + after);
    assert(before + (piece + after) =~= before + piece + after);
}

/// A byte that is a character by itself starts a character.
pub proof fn lemma_ascii_byte_on_boundary(text: Seq<char>, at: int)
    requires
        0 <= at < utf8_len(text),
        encode_utf8(text)[at] < 0x80,
    ensures
        is_char_boundary(encode_utf8(text), at),
{
    encode_utf8_valid_utf8(text);
    is_char_boundary_iff_not_is_continuation_byte(encode_utf8(text), at);
}

/// The first place where a text stands in another is made of whole characters.
pub proof fn lemma_first_occurrence_on_boundaries(text: Seq<char>, pattern: Seq<char>, at: int)
    requires
        is_first_occurrence(encode_utf8(text), encode_utf8(pattern), at),
    ensures
        on_char_boundaries(text, at, at + utf8_len(pattern)),
{
    let hay = encode_utf8(text);
    let needle = encode_utf8(pattern);
    encode_utf8_valid_utf8(text);
    encode_utf8_valid_utf8(pattern);
    is_char_boundary_start_end_of_seq(hay);
    if needle.len() == 0 {
        assert(occurs_at(hay, needle, 0)) by {
            assert(hay.subrange(0, 0) =~= needle);
        }
    } else {
        let found = hay.subrange(at, at + needle.len());
        assert(found[0] == hay[at]);
        is_char_boundary_start_end_of_seq(needle);
        is_char_boundary_iff_not_is_continuation_byte(needle, 0);
        is_char_boundary_iff_not_is_continuation_byte(hay, at);
        valid_utf8_split(hay, at);
        let rest = hay.subrange(at, hay.len() as int);
        assert(rest.subrange(0, needle.len() as int) =~= needle);
        lemma_valid_prefix_ends_on_boundary(rest, needle.len() as int);
        let end = at + needle.len();
        if end < hay.len() {
            assert(rest[needle.len() as int] == hay[end]);
            is_char_boundary_iff_not_is_continuation_byte(rest, needle.len() as int);
            is_char_boundary_iff_not_is_continuation_byte(hay, end);
        }
    }
}

/// Whether the bytes of `needle` stand in `hay` from offset `at` on.
pub open spec fn occurs_at(hay: Seq<u8>, needle: Seq<u8>, at: int) -> bool {
    &&& 0 <= at
    &&& at + needle.len() <= hay.len()
    &&& hay.subrange(at, at + needle.len()) == needle
}

/// Whether `at` is the first offset at which `needle` occurs in `hay`.
pub open spec fn is_first_occurrence(hay: Seq<u8>, needle: Seq<u8>, at: int) -> bool {
    &&& occurs_at(hay, needle, at)
    &&& forall|earlier: int| 0 <= earlier < at ==> !occurs_at(hay, needle, earlier)
}

/// The first offset at which `needle` occurs in `hay`, if it occurs at all.
pub open spec fn first_occurrence(hay: Seq<u8>, needle: Seq<u8>) -> Option<int> {
    if exists|at: int| occurs_at(hay, needle, at) {
        Some(choose|at: int| is_first_occurrence(hay, needle, at))
    } else {
        None
    }
}

/// An offset that is a first occurrence is the first occurrence.
pub proof fn lemma_first_occurrence_is(hay: Seq<u8>, needle: Seq<u8>, at: int)
    requires
        is_first_occurrence(hay, needle, at),
    ensures
        first_occurrence(hay, needle) == Some(at),
{
    let chosen = choose|at: int| is_first_occurrence(hay, needle, at);
    assert(is_first_occurrence(hay, needle, chosen));
    if chosen < at {
        assert(!occurs_at(hay, needle, chosen));
    }
    if at < chosen {
        assert(!occurs_at(hay, needle, at));
    }
}

/// What `first_occurrence` returns is an offset of an occurrence with none before it.
pub proof fn lemma_first_occurrence_found(hay: Seq<u8>, needle: Seq<u8>)
    ensures
        match first_occurrence(hay, needle) {
            Some(at) => is_first_occurrence(hay, needle, at),
            None => forall|at: int| !occurs_at(hay, needle, at),
        },
{
    if exists|at: int| occurs_at(hay, needle, at) {
        let some = choose|at: int| occurs_at(hay, needle, at);
        lemma_least_occurrence(hay, needle, some);
    }
}

/// Where `needle` occurs in `hay`, it occurs somewhere first.
proof fn lemma_least_occurrence(hay: Seq<u8>, needle: Seq<u8>, at: int)
    requires
        occurs_at(hay, needle, at),
    ensures
        exists|least: int| is_first_occurrence(hay, needle, least),
    decreases at,
{
    if exists|earlier: int| 0 <= earlier < at && occurs_at(hay, needle, earlier) {
        let earlier = choose|earlier: int| 0 <= earlier < at && occurs_at(hay, needle, earlier);
        lemma_least_occurrence(hay, needle, earlier);
    } else {
        assert(is_first_occurrence(hay, needle, at));
    }
}

/// Whether the bytes `needle` stand in `hay` from offset `at` on.
fn matches_at(hay: &[u8], needle: &[u8], at: usize) -> (found: bool)
    requires
        at + needle@.len() <= hay@.len(),
    ensures
        found == occurs_at(hay@, needle@, at as int),
{
    let n = hay.len();
    let mut k: usize = 0;
    while k < needle.len()
        invariant
            k <= needle@.len(),
            at + needle@.len() <= hay@.len(),
            n == hay@.len(),
            forall|j: int| 0 <= j < k ==> hay@[at + j] == needle@[j],
        decreases needle@.len() - k,
    {
        if hay[at + k] != needle[k] {
            assert(hay@.subrange(at as int, at + needle@.len())[k as int] == hay@[at + k]);
            return false;
        }
        k += 1;
    }
    assert(hay@.subrange(at as int, at + needle@.len()) =~= needle@);
    true
}

/// The first offset at which the bytes `needle` occur in `hay`.
pub fn find_bytes(hay: &[u8], needle: &[u8]) -> (found: Option<usize>)
    ensures
        match found {
            Some(at) => first_occurrence(hay@, needle@) == Some(at as int),
            None => first_occurrence(hay@, needle@) is None,
        },
{
    let n = hay.len();
    let m = needle.len();
    if m > n {
        return None;
    }
    let last = n - m;
    let mut at: usize = 0;
    loop
        invariant
            n == hay@.len(),
            m == needle@.len(),
            last == n - m,
            at <= last,
            forall|earlier: int| 0 <= earlier < at ==> !occurs_at(hay@, needle@, earlier),
        decreases last - at,
    {
        if matches_at(hay, needle, at) {
            proof {
                lemma_first_occurrence_is(hay@, needle@, at as int);
            }
            return Some(at);
        }
        if at == last {
            return None;
        }
        at += 1;
    }
}

/// The first byte offset at which `pattern` occurs in `text`.
pub fn find(text: &str, pattern: &str) -> (found: Option<usize>)
    ensures
        match found {
            Some(at) => first_occurrence(encode_utf8(text@), encode_utf8(pattern@)) == Some(
                at as int,
            ),
            None => first_occurrence(encode_utf8(text@), encode_utf8(pattern@)) is None,
        },
{
    find_bytes(text.as_bytes(), pattern.as_bytes())
}

/// The last offset at which `byte` stands in `hay`.
pub fn rfind_byte(hay: &[u8], byte: u8) -> (found: Option<usize>)
    ensures
        match found {
            Some(at) => hay@.index_of_last(byte) == Some(at as int),
            None => hay@.index_of_last(byte) is None,
        },
{
    let mut at: usize = hay.len();
    while at > 0
        invariant
            at <= hay@.len(),
            forall|later: int| at <= later < hay@.len() ==> hay@[later] != byte,
        decreases at,
    {
        at -= 1;
        if hay[at] == byte {
            proof {
                hay@.index_of_last_ensures(byte);
            }
            return Some(at);
        }
    }
    proof {
        hay@.index_of_last_ensures(byte);
    }
    None
}

/// Whether `c` is white space to Unicode.
pub uninterp spec fn is_unicode_whitespace(c: char) -> bool;

/// `char::is_whitespace` of std: whether the character has Unicode's property
/// `White_Space`. The property is a fixed set of characters; it is named here, not
/// listed.
pub assume_specification[ char::is_whitespace ](c: char) -> (white: bool)
    ensures
        white == is_unicode_whitespace(c),
;

/// `text` without the white space at its two ends.
pub open spec fn trimmed(text: Seq<char>) -> Seq<char>
    decreases text.len(),
{
    if text.len() == 0 {
        text
    } else if is_unicode_whitespace(text.first()) {
        trimmed(text.drop_first())
    } else if is_unicode_whitespace(text.last()) {
        trimmed(text.drop_last())
    } else {
        text
    }
}

/// The part of `text` between a run of white space at its start and one at its end, each
/// as long as it can be, is `trimmed(text)`.
pub proof fn lemma_trimmed_is(text: Seq<char>, start: int, end: int)
    requires
        0 <= start <= end <= text.len(),
        forall|k: int| 0 <= k < start ==> is_unicode_whitespace(#[trigger] text[k]),
        forall|k: int| end <= k < text.len() ==> is_unicode_whitespace(#[trigger] text[k]),
        start < end ==> !is_unicode_whitespace(text[start]) && !is_unicode_whitespace(
            text[end - 1],
        ),
    ensures
        trimmed(text) == text.subrange(start, end),
    decreases text.len(),
{
    if text.len() == 0 {
        assert(text.subrange(start, end) =~= text);
    } else if is_unicode_whitespace(text.first()) {
        let rest = text.drop_first();
        if start == 0 {
            assert(end == 0);
            lemma_trimmed_is(rest, 0, 0);
            assert(rest.subrange(0, 0) =~= text.subrange(0, 0));
        } else {
            lemma_trimmed_is(rest, start - 1, end - 1);
            assert(rest.subrange(start - 1, end - 1) =~= text.subrange(start, end));
        }
    } else if is_unicode_whitespace(text.last()) {
        let rest = text.drop_last();
        assert(end < text.len()) by {
            if end == text.len() {
                if start == end {
                    assert(is_unicode_whitespace(text[0]));
                }
            }
        }
        lemma_trimmed_is(rest, start, end);
        assert(rest.subrange(start, end) =~= text.subrange(start, end));
    } else {
        assert(start == 0) by {
            if start > 0 {
                assert(is_unicode_whitespace(text[0]));
            }
        }
        assert(end == text.len()) by {
            if end < text.len() {
                assert(is_unicode_whitespace(text[text.len() - 1]));
            }
        }
        assert(text.subrange(start, end) =~= text);
    }
}

/// `text` without the white space at its two ends.
pub fn trim(text: &str) -> (inner: &str)
    ensures
        inner@ == trimmed(text@),
{
    let n = text.unicode_len();
    let mut start: usize = n;
    let mut end: usize = n;
    let mut seen = false;
    let mut index: usize = 0;
    for c in it: text.chars()
        invariant
            it.seq() == text@,
            n == text@.len(),
            index == it.index(),
            !seen ==> start == n && end == n,
            !seen ==> forall|k: int| 0 <= k < index ==> is_unicode_whitespace(#[trigger] text@[k]),
            seen ==> start < end <= index,
            seen ==> !is_unicode_whitespace(text@[start as int]) && !is_unicode_whitespace(
                text@[end - 1],
            ),
            seen ==> forall|k: int| 0 <= k < start ==> is_unicode_whitespace(#[trigger] text@[k]),
            seen ==> forall|k: int| end <= k < index ==> is_unicode_whitespace(#[trigger] text@[k]),
    {
        if !c.is_whitespace() {
            if !seen {
                start = index;
                seen = true;
            }
            end = index + 1;
        }
        index += 1;
    }
    proof {
        lemma_trimmed_is(text@, start as int, end as int);
    }
    text.substring_char(start, end)
}

/// `text` without its first character, where that is `lead`; else `text`.
pub open spec fn without_leading(text: Seq<char>, lead: char) -> Seq<char> {
    if text.len() > 0 && text[0] == lead {
        text.drop_first()
    } else {
        text
    }
}

/// `text` without its first character, where that is `lead`; else `text`.
pub fn strip_leading(text: &str, lead: char) -> (rest: &str)
    ensures
        rest@ == without_leading(text@, lead),
{
    if !text.is_empty() && text.get_char(0) == lead {
        text.substring_char(1, text.unicode_len())
    } else {
        text
    }
}

/// Whether `a` and `b` are the same text.
pub fn same_text(a: &str, b: &str) -> (same: bool)
    ensures
        same == (a@ == b@),
{
    let left = a.as_bytes();
    let right = b.as_bytes();
    proof {
        encode_utf8_decode_utf8(a@);
        encode_utf8_decode_utf8(b@);
    }
    if left.len() != right.len() {
        return false;
    }
    let same = matches_at(left, right, 0);
    assert(left@.subrange(0, left@.len() as int) =~= left@);
    same
}

/// `a`, then `b`, as one string.
pub fn concat2(a: &str, b: &str) -> (joined: String)
    ensures
        joined@ == a@ + b@,
{
    let mut joined = a.to_owned();
    joined.append(b);
    joined
}

/// `a`, then `b`, then `c`, as one string.
pub fn concat3(a: &str, b: &str, c: &str) -> (joined: String)
    ensures
        joined@ == a@ + b@ + c@,
{
    let mut joined = a.to_owned();
    joined.append(b);
    joined.append(c);
    joined
}

/// The number of bytes of `text`.
pub fn byte_len(text: &str) -> (len: usize)
    ensures
        len == utf8_len(text@),
{
    text.as_bytes().len()
}

} // verus!
