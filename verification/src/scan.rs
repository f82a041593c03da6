//! Finding an anchor in a page's text, case-insensitively, and cutting out the window of
//! text that follows it.
use vstd::prelude::*;
use vstd::utf8::{encode_utf8, decode_utf8, is_char_boundary, is_ascii_chars};
use crate::text::ascii_lower_seq;

verus! {

/// What `str::to_lowercase` gives for a text (the Unicode `Lowercase` mapping).
pub uninterp spec fn unicode_lowercase(s: Seq<char>) -> Seq<char>;

/// `str::to_lowercase`: the result is the Unicode lowercase form of `s`; on ASCII text that
/// is each char's ASCII lowercase (the Unicode mapping of the ASCII letters `A`-`Z` is
/// `a`-`z`, and leaves every other ASCII char as it is).
#[verifier::external_body]
pub(crate) fn lowercase(s: &str) -> (r: String)
    ensures
        r@ == unicode_lowercase(s@),
        is_ascii_chars(s@) ==> r@ == ascii_lower_seq(s@),
{
    s.to_lowercase()
}

pub open spec fn bytes_match_at(hay: Seq<u8>, needle: Seq<u8>, i: int) -> bool {
    0 <= i && i + needle.len() <= hay.len() && hay.subrange(i, i + needle.len()) == needle
}

/// The first position at or after `i` where `needle` occurs in `hay`.
pub open spec fn first_match_from(hay: Seq<u8>, needle: Seq<u8>, i: int) -> Option<int>
    decreases hay.len() + 1 - i,
{
    if i < 0 || i + needle.len() > hay.len() {
        None
    } else if bytes_match_at(hay, needle, i) {
        Some(i)
    } else {
        first_match_from(hay, needle, i + 1)
    }
}

/// `str::find` with a text pattern: the byte offset of the first occurrence.
pub open spec fn byte_find(hay: Seq<u8>, needle: Seq<u8>) -> Option<int> {
    first_match_from(hay, needle, 0)
}

fn bytes_equal_at(hay: &[u8], needle: &[u8], i: usize) -> (r: bool)
    requires
        i + needle@.len() <= hay@.len(),
    ensures
        r == bytes_match_at(hay@, needle@, i as int),
{
    let n = needle.len();
    let h = hay.len();
    let mut j: usize = 0;
    while j < n
        invariant
            j <= n == needle@.len(),
            h == hay@.len(),
            i + n <= hay@.len(),
            forall|k: int| 0 <= k < j ==> hay@[i + k] == needle@[k],
        decreases n - j,
    {
        if hay[i + j] != needle[j] {
            assert(hay@.subrange(i as int, i + n)[j as int] != needle@[j as int]);
            return false;
        }
        j = j + 1;
    }
    assert(hay@.subrange(i as int, i + n) =~= needle@);
    true
}

pub fn find_bytes(hay: &[u8], needle: &[u8]) -> (r: Option<usize>)
    ensures
        r matches Some(i) ==> byte_find(hay@, needle@) == Some(i as int),
        r is None ==> byte_find(hay@, needle@) is None,
{
    let h = hay.len();
    let n = needle.len();
    if n > h {
        return None;
    }
    if n == 0 {
        assert(hay@.subrange(0, 0) =~= needle@);
        return Some(0);
    }
    let mut i: usize = 0;
    while i <= h - n
        invariant
            h == hay@.len(),
            n == needle@.len(),
            1 <= n <= h,
            i <= h - n + 1,
            byte_find(hay@, needle@) == first_match_from(hay@, needle@, i as int),
        decreases h - i,
    {
        if bytes_equal_at(hay, needle, i) {
            return Some(i);
        }
        i = i + 1;
    }
    None
}

/// Where the window after the first case-insensitive occurrence of `anchor` in `text`
/// begins and ends, in bytes of `text`: it begins `skip` bytes after the occurrence (in
/// the lowercased text) and holds at most `width` bytes.
pub open spec fn anchor_window(text: Seq<char>, anchor: Seq<char>, skip_lowered: bool, width: int) -> Option<(int, int)> {
    let lowered_anchor = encode_utf8(unicode_lowercase(anchor));
    match byte_find(encode_utf8(unicode_lowercase(text)), lowered_anchor) {
        None => None,
        Some(st) => {
            let skip = if skip_lowered { lowered_anchor.len() as int } else { encode_utf8(anchor).len() as int };
            let a = st + skip;
            let n = encode_utf8(text).len() as int;
            Some((a, if n < a + width { n } else { a + width }))
        },
    }
}

/// The window can be cut out of `text`: its bounds fit in `usize`, are in order, and fall on
/// char boundaries (slicing a `str` otherwise panics).
pub open spec fn window_ok(text: Seq<char>, anchor: Seq<char>, skip_lowered: bool, width: int) -> bool {
    match anchor_window(text, anchor, skip_lowered, width) {
        None => true,
        Some(w) => {
            &&& w.0 + width <= usize::MAX
            &&& w.0 <= w.1
            &&& is_char_boundary(encode_utf8(text), w.0)
            &&& is_char_boundary(encode_utf8(text), w.1)
        },
    }
}

/// The chars of the window after the anchor, when the anchor occurs.
pub open spec fn window_text(text: Seq<char>, anchor: Seq<char>, skip_lowered: bool, width: int) -> Option<Seq<char>> {
    match anchor_window(text, anchor, skip_lowered, width) {
        None => None,
        Some(w) => Some(decode_utf8(encode_utf8(text).subrange(w.0, w.1))),
    }
}

proof fn lemma_boundary_in_prefix(bytes: Seq<u8>, a: int, b: int)
    requires
        vstd::utf8::valid_utf8(bytes),
        0 <= a <= b <= bytes.len(),
        is_char_boundary(bytes, a),
        is_char_boundary(bytes, b),
    ensures
        vstd::utf8::valid_utf8(bytes.subrange(0, b)),
        is_char_boundary(bytes.subrange(0, b), a),
{
    let p = bytes.subrange(0, b);
    vstd::utf8::valid_utf8_split(bytes, b);
    vstd::utf8::is_char_boundary_start_end_of_seq(p);
    if a == b {
        assert(p.len() == b);
    } else if a > 0 {
        vstd::utf8::is_char_boundary_iff_not_is_continuation_byte(bytes, a);
        vstd::utf8::is_char_boundary_iff_not_is_continuation_byte(p, a);
        assert(p[a] == bytes[a]);
    }
}

/// The ASCII lowercase of an ASCII text is ASCII text of the same length.
proof fn lemma_ascii_lower_is_ascii(s: Seq<char>)
    requires
        is_ascii_chars(s),
    ensures
        is_ascii_chars(ascii_lower_seq(s)),
        ascii_lower_seq(s).len() == s.len(),
{
    assert forall|i: int| 0 <= i < ascii_lower_seq(s).len() implies '\0' <= #[trigger] ascii_lower_seq(s)[i] <= '\u{7f}' by {
        assert(s[i] <= '\u{7f}');
    }
}

/// Every position of the encoding of an ASCII text, its end included, starts a char.
proof fn lemma_ascii_boundary(s: Seq<char>, i: int)
    requires
        is_ascii_chars(s),
        0 <= i <= s.len(),
    ensures
        encode_utf8(s).len() == s.len(),
        is_char_boundary(encode_utf8(s), i),
{
    let bytes = encode_utf8(s);
    vstd::utf8::is_ascii_chars_encode_utf8(s);
    vstd::utf8::encode_utf8_valid_utf8(s);
    vstd::utf8::is_char_boundary_start_end_of_seq(bytes);
    if 0 < i < bytes.len() {
        vstd::utf8::is_char_boundary_iff_not_is_continuation_byte(bytes, i);
        assert(s[i] as u8 == bytes[i]);
        assert(s[i] <= '\u{7f}');
    }
}

/// A match found from `i` on is a match, at or after `i`.
proof fn lemma_first_match_sound(hay: Seq<u8>, needle: Seq<u8>, i: int)
    ensures
        first_match_from(hay, needle, i) matches Some(j) ==> i <= j && bytes_match_at(hay, needle, j),
    decreases hay.len() + 1 - i,
{
    if !(i < 0 || i + needle.len() > hay.len()) && !bytes_match_at(hay, needle, i) {
        lemma_first_match_sound(hay, needle, i + 1);
    }
}

/// In an ASCII text that the lowercasing maps char by char, the window after an ASCII anchor
/// can always be cut out, its end fitting in `usize`.
proof fn lemma_ascii_window_ok(text: Seq<char>, anchor: Seq<char>, skip_lowered: bool, width: int)
    requires
        is_ascii_chars(text),
        is_ascii_chars(anchor),
        0 <= width,
        text.len() + width <= usize::MAX,
        unicode_lowercase(text) == ascii_lower_seq(text),
        unicode_lowercase(anchor) == ascii_lower_seq(anchor),
    ensures
        window_ok(text, anchor, skip_lowered, width),
{
    let lt = ascii_lower_seq(text);
    let la = ascii_lower_seq(anchor);
    lemma_ascii_lower_is_ascii(text);
    lemma_ascii_lower_is_ascii(anchor);
    lemma_ascii_boundary(lt, 0);
    lemma_ascii_boundary(la, 0);
    lemma_ascii_boundary(anchor, 0);
    lemma_ascii_boundary(text, 0);
    let hay = encode_utf8(lt);
    let nd = encode_utf8(la);
    lemma_first_match_sound(hay, nd, 0);
    match byte_find(hay, nd) {
        None => {},
        Some(st) => {
            let a = st + anchor.len();
            let n = text.len() as int;
            let b = if n < a + width { n } else { a + width };
            assert(anchor_window(text, anchor, skip_lowered, width) == Some((a, b)));
            lemma_ascii_boundary(text, a);
            lemma_ascii_boundary(text, b);
        },
    }
}

/// Cuts out the window after `anchor` in `text`. The outer `None` says the window cannot be
/// cut (where slicing would panic); the inner `None` says the anchor does not occur.
pub fn anchored_window<'a>(text: &'a str, anchor: &str, skip_lowered: bool, width: usize) -> (r:
    Option<Option<&'a str>>)
    ensures
        r is Some <==> window_ok(text@, anchor@, skip_lowered, width as int),
        r matches Some(w) ==> (match w {
            Some(t) => window_text(text@, anchor@, skip_lowered, width as int) == Some(t@),
            None => window_text(text@, anchor@, skip_lowered, width as int) is None,
        }),
        is_ascii_chars(text@) && is_ascii_chars(anchor@) && text@.len() + width <= usize::MAX
            ==> r is Some,
{
    broadcast use vstd::utf8::encode_utf8_valid_utf8;
    let lower = lowercase(text);
    let lowered_anchor = lowercase(anchor);
    proof {
        if is_ascii_chars(text@) && is_ascii_chars(anchor@) && text@.len() + width <= usize::MAX {
            lemma_ascii_window_ok(text@, anchor@, skip_lowered, width as int);
        }
    }
    let hay = lower.as_str().as_bytes();
    let nd = lowered_anchor.as_str().as_bytes();
    match find_bytes(hay, nd) {
        None => Some(None),
        Some(st) => {
            let skip = if skip_lowered { nd.len() } else { anchor.as_bytes().len() };
            proof {
                assert(hay@ == encode_utf8(unicode_lowercase(text@)));
                assert(nd@ == encode_utf8(unicode_lowercase(anchor@)));
                let w = anchor_window(text@, anchor@, skip_lowered, width as int);
                assert(w == Some((st + skip, if encode_utf8(text@).len() < st + skip + width { encode_utf8(text@).len() as int } else { st + skip + width })));
            }
            if st > usize::MAX - skip {
                assert(anchor_window(text@, anchor@, skip_lowered, width as int).unwrap().0 + width > usize::MAX);
                assert(!window_ok(text@, anchor@, skip_lowered, width as int));
                return None;
            }
            let a = st + skip;
            if a > usize::MAX - width {
                return None;
            }
            let n = text.as_bytes().len();
            let b = if n < a + width { n } else { a + width };
            if a > b {
                return None;
            }
            if !text.is_char_boundary(a) || !text.is_char_boundary(b) {
                return None;
            }
            proof {
                lemma_boundary_in_prefix(encode_utf8(text@), a as int, b as int);
            }
            let (pre, _) = text.split_at(b);
            let (_, w) = pre.split_at(a);
            proof {
                assert(encode_utf8(w@) =~= encode_utf8(text@).subrange(a as int, b as int));
                vstd::utf8::encode_utf8_decode_utf8(w@);
            }
            Some(Some(w))
        },
    }
}

} // verus!
