//! Byte offsets into a text, and the characters they stand between.

use vstd::prelude::*;
use vstd::utf8::*;

use crate::text::byte_len;

verus! {

/// Whether `b` bytes into `s` a character starts, or the text ends.
#[verifier::opaque]
pub open spec fn boundary(s: Seq<char>, b: int) -> bool {
    is_char_boundary(encode_utf8(s), b)
}

/// The number of characters in the first `b` bytes of `s`.
#[verifier::opaque]
pub open spec fn chars_before(s: Seq<char>, b: int) -> int {
    decode_utf8(encode_utf8(s).subrange(0, b)).len() as int
}

/// The number of bytes in the first `k` characters of `s`.
pub open spec fn bytes_before(s: Seq<char>, k: int) -> int {
    encode_utf8(s.take(k)).len() as int
}

/// A text is encoded piece by piece.
pub proof fn lemma_encode_concat(a: Seq<char>, b: Seq<char>)
    ensures
        encode_utf8(a + b) == encode_utf8(a) + encode_utf8(b),
    decreases a.len(),
{
    if a.len() == 0 {
        assert(a + b =~= b);
        assert(encode_utf8(a) + encode_utf8(b) =~= encode_utf8(b));
    } else {
        assert((a + b).drop_first() =~= a.drop_first() + b);
        lemma_encode_concat(a.drop_first(), b);
        assert(encode_utf8(a + b) =~= encode_utf8(a) + encode_utf8(b));
    }
}

/// A boundary has a whole number of characters before it, and they take up the bytes before it.
pub proof fn lemma_boundary(s: Seq<char>, b: int)
    requires
        boundary(s, b),
    ensures
        0 <= b <= encode_utf8(s).len(),
        0 <= chars_before(s, b) <= s.len(),
        bytes_before(s, chars_before(s, b)) == b,
        s.take(chars_before(s, b)) == decode_utf8(encode_utf8(s).subrange(0, b)),
        s.skip(chars_before(s, b)) == decode_utf8(
            encode_utf8(s).subrange(b, encode_utf8(s).len() as int),
        ),
{
    reveal(boundary);
    reveal(chars_before);
    let bytes = encode_utf8(s);
    encode_utf8_valid_utf8(s);
    lemma_boundary_in_range(bytes, b);
    valid_utf8_split(bytes, b);
    decode_utf8_split(bytes, b);
    encode_utf8_decode_utf8(s);
    let head = decode_utf8(bytes.subrange(0, b));
    let tail = decode_utf8(bytes.subrange(b, bytes.len() as int));
    assert(s == head + tail);
    assert(s.take(head.len() as int) =~= head);
    assert(s.skip(head.len() as int) =~= tail);
    decode_utf8_encode_utf8(bytes.subrange(0, b));
}

proof fn lemma_boundary_in_range(bytes: Seq<u8>, b: int)
    requires
        valid_utf8(bytes),
        is_char_boundary(bytes, b),
    ensures
        0 <= b <= bytes.len(),
{
}

/// The bytes of any number of whole characters end at a boundary.
pub proof fn lemma_bytes_before(s: Seq<char>, k: int)
    requires
        0 <= k <= s.len(),
    ensures
        boundary(s, bytes_before(s, k)),
        chars_before(s, bytes_before(s, k)) == k,
        0 <= bytes_before(s, k) <= encode_utf8(s).len(),
        encode_utf8(s).subrange(0, bytes_before(s, k)) == encode_utf8(s.take(k)),
        encode_utf8(s).subrange(bytes_before(s, k), encode_utf8(s).len() as int) == encode_utf8(
            s.skip(k),
        ),
{
    reveal(boundary);
    reveal(chars_before);
    let head = s.take(k);
    let tail = s.skip(k);
    assert(s =~= head + tail);
    lemma_encode_concat(head, tail);
    let b = bytes_before(s, k);
    assert(encode_utf8(s).subrange(0, b) =~= encode_utf8(head));
    assert(encode_utf8(s).subrange(b, encode_utf8(s).len() as int) =~= encode_utf8(tail));
    encode_utf8_decode_utf8(head);
    lemma_prefix_boundary(head, tail);
}

proof fn lemma_prefix_boundary(head: Seq<char>, tail: Seq<char>)
    ensures
        is_char_boundary(encode_utf8(head + tail), encode_utf8(head).len() as int),
    decreases head.len(),
{
    encode_utf8_valid_utf8(head + tail);
    if head.len() > 0 {
        let s = head + tail;
        let rest = head.drop_first() + tail;
        assert(s.drop_first() =~= rest);
        encode_utf8_first_scalar(s);
        let bytes = encode_utf8(s);
        let w = encode_scalar(s[0] as u32).len();
        assert(pop_first_scalar(bytes) =~= encode_utf8(rest));
        lemma_prefix_boundary(head.drop_first(), tail);
        lemma_encode_concat(head, tail);
        assert(encode_utf8(head).len() == w + encode_utf8(head.drop_first()).len());
    }
}

/// Further characters take further bytes.
pub proof fn lemma_bytes_before_grows(s: Seq<char>, j: int, k: int)
    requires
        0 <= j < k <= s.len(),
    ensures
        bytes_before(s, j) < bytes_before(s, k),
{
    let mid = s.subrange(j, k);
    assert(s.take(k) =~= s.take(j) + mid);
    lemma_encode_concat(s.take(j), mid);
    lemma_encode_nonempty(mid);
}

proof fn lemma_encode_nonempty(s: Seq<char>)
    requires
        s.len() > 0,
    ensures
        encode_utf8(s).len() > 0,
{
}

/// The start and the end of a text are boundaries, with none and all of its characters before.
pub proof fn lemma_ends(s: Seq<char>)
    ensures
        boundary(s, 0),
        boundary(s, encode_utf8(s).len() as int),
        chars_before(s, 0) == 0,
        chars_before(s, encode_utf8(s).len() as int) == s.len(),
{
    lemma_bytes_before(s, 0);
    lemma_bytes_before(s, s.len() as int);
    assert(s.take(s.len() as int) =~= s);
    assert(s.take(0) =~= Seq::empty());
}

/// A boundary has no character before it only at the start, and all of them only at the end.
pub proof fn lemma_at_ends(s: Seq<char>, b: int)
    requires
        boundary(s, b),
    ensures
        0 <= b <= encode_utf8(s).len(),
        b == 0 <==> chars_before(s, b) == 0,
        b == encode_utf8(s).len() <==> chars_before(s, b) == s.len(),
{
    lemma_ends(s);
    lemma_boundary(s, b);
    assert(s.take(0) =~= Seq::empty());
    assert(s.take(s.len() as int) =~= s);
}

/// The last boundary before byte `i`, and 0 where there is none.
pub open spec fn is_prev_boundary(s: Seq<char>, i: int, r: int) -> bool {
    &&& boundary(s, r)
    &&& i > 0 ==> r < i
    &&& i <= 0 ==> r == 0
    &&& forall|j: int| r < j < i ==> !#[trigger] boundary(s, j)
}

/// The last character boundary before byte `i` of `s`.
pub fn prev_boundary(s: &str, i: usize) -> (r: usize)
    ensures
        is_prev_boundary(s@, i as int, r as int),
        boundary(s@, i as int) && i > 0 ==> chars_before(
            s@,
            r as int,
        ) == chars_before(s@, i as int) - 1,
{
    proof {
        lemma_ends(s@);
    }
    let mut j = i;
    while j > 0
        invariant
            j <= i,
            forall|k: int| j <= k < i ==> !#[trigger] boundary(s@, k),
            boundary(s@, 0),
        decreases j,
    {
        proof {
            reveal(boundary);
        }
        j -= 1;
        if s.is_char_boundary(j) {
            proof {
                if boundary(s@, i as int) {
                    lemma_step(s@, j as int, i as int);
                }
            }
            return j;
        }
    }
    0
}

/// The first boundary after byte `i`, and the end of the text where there is none.
pub open spec fn is_next_boundary(s: Seq<char>, i: int, r: int) -> bool {
    &&& boundary(s, r)
    &&& i < encode_utf8(s).len() ==> i < r
    &&& i >= encode_utf8(s).len() ==> r == encode_utf8(s).len()
    &&& forall|j: int| i < j < r ==> !#[trigger] boundary(s, j)
}

/// The first character boundary after byte `i` of `s`.
pub fn next_boundary(s: &str, i: usize) -> (r: usize)
    ensures
        is_next_boundary(s@, i as int, r as int),
        i < encode_utf8(s@).len() && boundary(s@, i as int) ==> chars_before(s@, r as int)
            == chars_before(s@, i as int) + 1,
{
    proof {
        lemma_ends(s@);
    }
    let n = byte_len(s);
    let mut j = i;
    while j < n
        invariant
            i <= j,
            n == encode_utf8(s@).len(),
            j <= n || j == i,
            forall|k: int| i < k <= j && k <= n ==> !#[trigger] boundary(s@, k),
            boundary(s@, n as int),
        decreases n - j,
    {
        proof {
            reveal(boundary);
        }
        j += 1;
        if s.is_char_boundary(j) {
            proof {
                if boundary(s@, i as int) {
                    lemma_step(s@, i as int, j as int);
                }
            }
            return j;
        }
    }
    n
}

/// Two boundaries with none between them are one character apart.
proof fn lemma_step(s: Seq<char>, a: int, b: int)
    requires
        boundary(s, a),
        boundary(s, b),
        a < b,
        forall|j: int| a < j < b ==> !#[trigger] boundary(s, j),
    ensures
        chars_before(s, b) == chars_before(s, a) + 1,
{
    lemma_boundary(s, a);
    lemma_boundary(s, b);
    let m = chars_before(s, a);
    let n = chars_before(s, b);
    if n <= m {
        if n < m {
            lemma_bytes_before_grows(s, n, m);
        }
    } else if n > m + 1 {
        lemma_bytes_before_grows(s, m, m + 1);
        lemma_bytes_before_grows(s, m + 1, n);
        lemma_bytes_before(s, m + 1);
        assert(boundary(s, bytes_before(s, m + 1)));
    }
}

/// The text cut at byte `b`: what stands before and after.
pub fn cut_at(s: &str, b: usize) -> (r: (String, String))
    requires
        boundary(s@, b as int),
    ensures
        r.0@ == s@.take(chars_before(s@, b as int)),
        r.1@ == s@.skip(chars_before(s@, b as int)),
{
    proof {
        reveal(boundary);
    }
    let (head, tail) = s.split_at(b);
    proof {
        lemma_boundary(s@, b as int);
        encode_utf8_decode_utf8(head@);
        encode_utf8_decode_utf8(tail@);
    }
    (head.to_owned(), tail.to_owned())
}

} // verus!
