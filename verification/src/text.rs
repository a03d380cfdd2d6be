//! Shortening of long texts for list pages.

use vstd::prelude::*;
use vstd::string::*;
use vstd::utf8::*;

verus! {

/// The most bytes of a text that are shown before the marker.
pub const SHOWN_BYTES: usize = 80;

/// The marker appended to a text that was cut.
pub open spec fn ellipsis() -> Seq<char> {
    seq!['.', '.', '.']
}

/// Length in bytes of the UTF-8 encoding of `s`.
pub open spec fn byte_len(s: Seq<char>) -> nat {
    encode_utf8(s).len()
}

/// The first `k` characters of `s` take at most `SHOWN_BYTES` bytes.
pub open spec fn fits(s: Seq<char>, k: int) -> bool {
    0 <= k <= s.len() && byte_len(s.take(k)) <= SHOWN_BYTES
}

/// The first character index at or after `i` whose character no longer
/// fits, or `s.len()` if every character from `i` on fits.
pub open spec fn cut_from(s: Seq<char>, i: int) -> int
    decreases s.len() - i,
{
    if i < 0 || i >= s.len() {
        s.len() as int
    } else if !fits(s, i + 1) {
        i
    } else {
        cut_from(s, i + 1)
    }
}

/// Number of leading characters of `s` that are shown: the greatest number
/// of them that fits.
pub open spec fn cut_point(s: Seq<char>) -> int {
    cut_from(s, 0)
}

/// What is shown of `s`: all of it where it has at most `SHOWN_BYTES`
/// bytes, else the longest prefix of whole characters that fits, and the
/// marker.
pub open spec fn shortened(s: Seq<char>) -> Seq<char> {
    if byte_len(s) <= SHOWN_BYTES {
        s
    } else {
        s.take(cut_point(s)) + ellipsis()
    }
}

/// Appending a character adds the length of its encoding.
pub proof fn lemma_byte_len_push(s: Seq<char>, c: char)
    ensures
        byte_len(s.push(c)) == byte_len(s) + encode_scalar(c as u32).len(),
        1 <= encode_scalar(c as u32).len() <= 4,
    decreases s.len(),
{
    if s.len() == 0 {
        assert(s.push(c).drop_first() =~= s);
        assert(encode_utf8(s) =~= seq![]);
    } else {
        assert(s.push(c).drop_first() =~= s.drop_first().push(c));
        lemma_byte_len_push(s.drop_first(), c);
    }
}

/// Byte offsets grow by at least one with every character.
pub proof fn lemma_byte_len_take(s: Seq<char>, i: int, j: int)
    requires
        0 <= i <= j <= s.len(),
    ensures
        byte_len(s.take(i)) + (j - i) <= byte_len(s.take(j)),
    decreases j - i,
{
    if i < j {
        lemma_byte_len_take(s, i, j - 1);
        assert(s.take(j) =~= s.take(j - 1).push(s[j - 1]));
        lemma_byte_len_push(s.take(j - 1), s[j - 1]);
    }
}

/// From an index that fits, the cut is at the first character that does
/// not fit, and everything up to it fits.
pub proof fn lemma_cut_from(s: Seq<char>, i: int)
    requires
        fits(s, i),
    ensures
        i <= cut_from(s, i) <= s.len(),
        fits(s, cut_from(s, i)),
        cut_from(s, i) < s.len() ==> !fits(s, cut_from(s, i) + 1),
    decreases s.len() - i,
{
    if i < s.len() && fits(s, i + 1) {
        lemma_cut_from(s, i + 1);
    }
}

/// The cut point is the greatest number of leading characters that fits,
/// and it is the whole text exactly where the whole text fits.
pub proof fn lemma_cut_point_greatest(s: Seq<char>)
    ensures
        fits(s, cut_point(s)),
        forall|j: int| fits(s, j) ==> j <= cut_point(s),
        cut_point(s) < s.len() ==> !fits(s, cut_point(s) + 1),
        cut_point(s) == s.len() <==> byte_len(s) <= SHOWN_BYTES,
{
    assert(encode_utf8(s.take(0)) =~= seq![]);
    lemma_cut_from(s, 0);
    let k = cut_point(s);
    assert(s.take(s.len() as int) =~= s);
    assert forall|j: int| fits(s, j) implies j <= k by {
        if j > k {
            lemma_byte_len_take(s, k + 1, j);
        }
    }
    if k < s.len() {
        lemma_byte_len_take(s, k + 1, s.len() as int);
    }
}

/// A text of at most `SHOWN_BYTES` bytes is shown whole.
pub proof fn lemma_short_text_unchanged(s: Seq<char>)
    requires
        byte_len(s) <= SHOWN_BYTES,
    ensures
        shortened(s) == s,
{
}

/// A longer text keeps a prefix of whole characters, the longest of at
/// most `SHOWN_BYTES` bytes, followed by the marker: what is shown has at
/// most `SHOWN_BYTES + 3` bytes.
pub proof fn lemma_cut_on_boundary(s: Seq<char>)
    requires
        byte_len(s) > SHOWN_BYTES,
    ensures
        0 <= cut_point(s) < s.len(),
        shortened(s) == s.take(cut_point(s)) + ellipsis(),
        SHOWN_BYTES - 3 <= byte_len(s.take(cut_point(s))) <= SHOWN_BYTES,
        byte_len(s.take(cut_point(s) + 1)) > SHOWN_BYTES,
        is_char_boundary(encode_utf8(s), byte_len(s.take(cut_point(s))) as int),
        byte_len(shortened(s)) == byte_len(s.take(cut_point(s))) + 3,
        byte_len(shortened(s)) <= SHOWN_BYTES + 3,
{
    lemma_cut_point_greatest(s);
    let k = cut_point(s);
    assert(s.take(k + 1) =~= s.take(k).push(s[k]));
    lemma_byte_len_push(s.take(k), s[k]);
    lemma_take_is_boundary(s, k);
    let kept = s.take(k);
    assert(kept + ellipsis() =~= kept.push('.').push('.').push('.'));
    lemma_byte_len_push(kept, '.');
    lemma_byte_len_push(kept.push('.'), '.');
    lemma_byte_len_push(kept.push('.').push('.'), '.');
}

/// The encoding of a prefix of characters ends on a character boundary of
/// the encoding of the whole.
pub proof fn lemma_take_is_boundary(s: Seq<char>, k: int)
    requires
        0 <= k <= s.len(),
    ensures
        is_char_boundary(encode_utf8(s), byte_len(s.take(k)) as int),
    decreases k,
{
    broadcast use encode_utf8_valid_utf8;
    if k == 0 {
        assert(encode_utf8(s.take(0)) =~= seq![]);
    } else {
        let bytes = encode_utf8(s);
        encode_utf8_first_scalar(s);
        assert(pop_first_scalar(bytes) =~= encode_utf8(s.drop_first()));
        assert(s.take(k).drop_first() =~= s.drop_first().take(k - 1));
        lemma_take_is_boundary(s.drop_first(), k - 1);
        lemma_byte_len_take(s, k, s.len() as int);
        assert(s.take(s.len() as int) =~= s);
    }
}

/// A text of one-byte characters longer than `SHOWN_BYTES` is cut to its
/// first `SHOWN_BYTES` characters and the marker.
pub proof fn lemma_ascii_cut(s: Seq<char>)
    requires
        is_ascii_chars(s),
        s.len() > SHOWN_BYTES,
    ensures
        shortened(s) == s.take(SHOWN_BYTES as int) + ellipsis(),
{
    assert forall|j: int| 0 <= j <= s.len() implies byte_len(#[trigger] s.take(j)) == j by {
        is_ascii_chars_encode_utf8(s.take(j));
    }
    assert(s.take(s.len() as int) =~= s);
    lemma_cut_point_greatest(s);
    let k = cut_point(s);
    assert(byte_len(s.take(k)) == k);
    assert(fits(s, SHOWN_BYTES as int));
    if k < s.len() {
        assert(byte_len(s.take(k + 1)) == k + 1);
    }
}

/// A text of at most `SHOWN_BYTES` one-byte characters is shown whole.
pub proof fn lemma_ascii_short_unchanged(s: Seq<char>)
    requires
        is_ascii_chars(s),
        s.len() <= SHOWN_BYTES,
    ensures
        shortened(s) == s,
{
    is_ascii_chars_encode_utf8(s);
    lemma_short_text_unchanged(s);
}

/// Length in bytes of the UTF-8 encoding of one character.
pub fn char_width(c: char) -> (w: usize)
    ensures
        w == encode_scalar(c as u32).len(),
        1 <= w <= 4,
{
    broadcast use char_is_scalar;
    let v: u32 = c as u32;
    if v < 0x80 {
        1
    } else if v < 0x800 {
        2
    } else if v < 0x10000 {
        3
    } else {
        4
    }
}

/// Leaves a text of at most `SHOWN_BYTES` bytes as it is. Cuts a longer
/// one to its longest prefix of whole characters that has at most
/// `SHOWN_BYTES` bytes, and appends the marker.
pub fn shorten_string(s: &mut String)
    ensures
        final(s)@ == shortened(old(s)@),
        byte_len(old(s)@) <= SHOWN_BYTES ==> final(s)@ == old(s)@,
        byte_len(old(s)@) > SHOWN_BYTES ==> {
            let k = cut_point(old(s)@);
            &&& 0 <= k < old(s)@.len()
            &&& final(s)@ == old(s)@.take(k) + ellipsis()
            &&& byte_len(old(s)@.take(k)) <= SHOWN_BYTES < byte_len(old(s)@.take(k + 1))
            &&& is_char_boundary(encode_utf8(old(s)@), byte_len(old(s)@.take(k)) as int)
            &&& byte_len(final(s)@) <= SHOWN_BYTES + 3
        },
{
    let n: usize = s.as_str().unicode_len();
    let mut i: usize = 0;
    let mut bytes: usize = 0;
    let mut full: bool = false;
    proof {
        assert(encode_utf8(s@.take(0)) =~= seq![]);
    }
    while i < n && !full
        invariant
            i <= n,
            n == s@.len(),
            s@ == old(s)@,
            bytes == byte_len(s@.take(i as int)),
            bytes <= SHOWN_BYTES,
            cut_point(s@) == cut_from(s@, i as int),
            full ==> i < n && !fits(s@, i + 1),
        decreases n - i + (if full { 0int } else { 1int }),
    {
        let c: char = s.as_str().get_char(i);
        let width: usize = char_width(c);
        proof {
            assert(s@.take(i + 1) =~= s@.take(i as int).push(c));
            lemma_byte_len_push(s@.take(i as int), c);
        }
        if bytes + width > SHOWN_BYTES {
            full = true;
        } else {
            bytes = bytes + width;
            i = i + 1;
        }
    }
    proof {
        lemma_cut_point_greatest(s@);
        if byte_len(s@) > SHOWN_BYTES {
            lemma_cut_on_boundary(s@);
        }
    }
    if full {
        let mut cut = String::from_str(s.as_str().substring_char(0, i));
        proof {
            reveal_strlit("...");
            assert("..."@ =~= ellipsis());
            assert(s@.subrange(0, i as int) =~= s@.take(i as int));
        }
        cut.append("...");
        *s = cut;
    }
}

} // verus!
