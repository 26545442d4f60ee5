//! The line codec: a stateful transform between a raw byte stream and
//! newline-delimited text frames. Decoding scans the accumulated buffer for
//! the first line-feed byte and extracts the line up to and including it;
//! encoding appends a line's raw bytes followed by exactly one line-feed.

use vstd::prelude::*;
use crate::buffer::{
    bytes_mut_slice, bytes_mut_split_to, bytes_mut_reserve, bytes_mut_put_slice,
    bytes_mut_put_u8, bytes_mut_view,
};
use vstd::utf8::{valid_utf8, encode_utf8, decode_utf8, encode_scalar};

verus! {

/// The frame terminator: a single line-feed byte.
pub const LINE_FEED: u8 = 10;

/// Errors the decoder can report. A complete line whose bytes are not valid
/// UTF-8 is fatal for the read path: the decoder has no resynchronization
/// strategy.
#[derive(Clone, Copy, Debug, PartialEq, Eq, Structural)]
pub enum DecodeError {
    InvalidEncoding,
}

/// The index of the first line-feed byte in `b`, or `b.len()` when there is
/// none.
pub open spec fn first_lf(b: Seq<u8>) -> int
    decreases b.len(),
{
    if b.len() == 0 {
        0
    } else if b[0] == LINE_FEED {
        0
    } else {
        1 + first_lf(b.drop_first())
    }
}

/// True when `b` holds at least one line-feed byte, so that a complete frame
/// can be extracted from it.
pub open spec fn has_lf(b: Seq<u8>) -> bool {
    first_lf(b) < b.len()
}

/// `first_lf` points at a line-feed when one exists, and everything before
/// it is not a line-feed.
pub proof fn lemma_first_lf_bounds(b: Seq<u8>)
    ensures
        0 <= first_lf(b) <= b.len(),
        first_lf(b) < b.len() ==> b[first_lf(b)] == LINE_FEED,
        forall|j: int| 0 <= j < first_lf(b) ==> b[j] != LINE_FEED,
    decreases b.len(),
{
    if b.len() == 0 {
    } else if b[0] == LINE_FEED {
    } else {
        lemma_first_lf_bounds(b.drop_first());
        assert forall|j: int| 0 <= j < first_lf(b) implies b[j] != LINE_FEED by {
            if j > 0 {
                assert(b[j] == b.drop_first()[j - 1]);
            }
        }
    }
}

/// An index that holds a line-feed, with none before it, is `first_lf`.
pub proof fn lemma_first_lf_at(b: Seq<u8>, n: int)
    requires
        0 <= n < b.len(),
        b[n] == LINE_FEED,
        forall|j: int| 0 <= j < n ==> b[j] != LINE_FEED,
    ensures
        first_lf(b) == n,
{
    lemma_first_lf_bounds(b);
    if first_lf(b) < n {
        assert(b[first_lf(b)] == LINE_FEED);
        assert(false);
    }
    if first_lf(b) > n {
        assert(b[n] != LINE_FEED);
        assert(false);
    }
}

/// When no byte of `b` is a line-feed, `first_lf` is `b.len()`.
pub proof fn lemma_first_lf_absent(b: Seq<u8>)
    requires
        forall|j: int| 0 <= j < b.len() ==> b[j] != LINE_FEED,
    ensures
        first_lf(b) == b.len(),
{
    lemma_first_lf_bounds(b);
    if first_lf(b) < b.len() {
        assert(b[first_lf(b)] == LINE_FEED);
        assert(false);
    }
}

/// Prepending line-feed-free bytes shifts `first_lf` by their length.
pub proof fn lemma_first_lf_concat(a: Seq<u8>, b: Seq<u8>)
    requires
        forall|j: int| 0 <= j < a.len() ==> a[j] != LINE_FEED,
    ensures
        first_lf(a + b) == a.len() + first_lf(b),
{
    lemma_first_lf_bounds(b);
    if first_lf(b) == b.len() {
        assert forall|j: int| 0 <= j < (a + b).len() implies (a + b)[j] != LINE_FEED by {
            if j >= a.len() {
                assert((a + b)[j] == b[j - a.len()]);
            }
        }
        lemma_first_lf_absent(a + b);
    } else {
        assert((a + b)[a.len() + first_lf(b)] == b[first_lf(b)]);
        assert forall|j: int| 0 <= j < a.len() + first_lf(b) implies (a + b)[j] != LINE_FEED by {
            if j >= a.len() {
                assert((a + b)[j] == b[j - a.len()]);
            }
        }
        lemma_first_lf_at(a + b, a.len() + first_lf(b));
    }
}

/// Returns the index of the first line-feed byte in `buf`, if any.
fn find_line_feed(buf: &[u8]) -> (r: Option<usize>)
    ensures
        r matches Some(n) ==> n < buf@.len() && n == first_lf(buf@),
        r is None ==> first_lf(buf@) == buf@.len(),
{
    let mut i: usize = 0;
    while i < buf.len()
        invariant
            0 <= i <= buf@.len(),
            forall|j: int| 0 <= j < i ==> buf@[j] != LINE_FEED,
        decreases buf@.len() - i,
    {
        if buf[i] == LINE_FEED {
            proof {
                lemma_first_lf_at(buf@, i as int);
            }
            return Some(i);
        }
        i = i + 1;
    }
    proof {
        lemma_first_lf_absent(buf@);
    }
    None
}

/// Relies on `core::str::from_utf8`: returns `Ok` exactly when the bytes are
/// valid UTF-8, and the returned slice consists of those same bytes (so its
/// characters are their decoding).
#[verifier::external_body]
fn str_from_utf8(v: &[u8]) -> (r: Option<&str>)
    ensures
        r matches Some(s) ==> valid_utf8(v@) && s@ == decode_utf8(v@),
        r is None ==> !valid_utf8(v@),
{
    core::str::from_utf8(v).ok()
}

/// The bidirectional transform between raw bytes and newline-terminated
/// text frames.
pub struct LineCodec;

impl LineCodec {
    /// Extracts the next frame from `src`. When a line-feed is present, the
    /// bytes up to and including it leave the buffer, and they either form a
    /// frame (valid UTF-8) or the decode fails with `InvalidEncoding`. When
    /// no line-feed is present, nothing is consumed and no frame is ready.
    pub fn decode(&mut self, src: &mut bytes::BytesMut) -> (r: Result<Option<String>, DecodeError>)
        ensures
            ({
                let b0 = bytes_mut_view(*old(src));
                let n = first_lf(b0);
                let line = b0.take(n + 1);
                &&& !has_lf(b0) ==> r == Ok::<Option<String>, DecodeError>(None)
                    && bytes_mut_view(*final(src)) == b0
                &&& has_lf(b0) ==> bytes_mut_view(*final(src)) == b0.skip(n + 1)
                &&& has_lf(b0) && valid_utf8(line) ==> (r matches Ok(f) && f matches Some(s)
                    && s@ == decode_utf8(line))
                &&& has_lf(b0) && !valid_utf8(line) ==> r == Err::<Option<String>, DecodeError>(
                    DecodeError::InvalidEncoding,
                )
            }),
    {
        let s = bytes_mut_slice(src);
        let total = s.len();
        let found = find_line_feed(s);
        match found {
            None => Ok(None),
            Some(n) => {
                proof {
                    assert(n < total);
                }
                let line_buf = bytes_mut_split_to(src, n + 1);
                match str_from_utf8(bytes_mut_slice(&line_buf)) {
                    Some(s) => Ok(Some(s.to_owned())),
                    None => Err(DecodeError::InvalidEncoding),
                }
            },
        }
    }

    /// Appends `item`'s raw bytes to `dst`, followed by exactly one
    /// line-feed terminator. No validation of content or length is
    /// performed.
    pub fn encode(&mut self, item: &str, dst: &mut bytes::BytesMut)
        requires
            bytes_mut_view(*old(dst)).len() + encode_utf8(item@).len() + 1 <= usize::MAX,
        ensures
            bytes_mut_view(*final(dst)) == bytes_mut_view(*old(dst)) + encode_utf8(item@)
                + seq![LINE_FEED],
    {
        let b = item.as_bytes();
        bytes_mut_reserve(dst, b.len() + 1);
        bytes_mut_put_slice(dst, b);
        bytes_mut_put_u8(dst, LINE_FEED);
        proof {
            assert((bytes_mut_view(*old(dst)) + encode_utf8(item@)).push(LINE_FEED)
                =~= bytes_mut_view(*old(dst)) + encode_utf8(item@) + seq![LINE_FEED]);
        }
    }
}

/// No byte of the UTF-8 encoding of a text without `'\n'` is a line-feed:
/// multi-byte encodings use only bytes at or above `0x80`, and the one-byte
/// encoding of a character other than `'\n'` is not `10`.
pub proof fn lemma_encode_utf8_no_lf(s: Seq<char>)
    requires
        !s.contains('\n'),
    ensures
        forall|j: int| 0 <= j < encode_utf8(s).len() ==> encode_utf8(s)[j] != LINE_FEED,
    decreases s.len(),
{
    if s.len() > 0 {
        let c = s[0];
        let u = c as u32;
        assert(c != '\n') by {
            assert(s[0] == c);
        }
        vstd::utf8::char_is_scalar(c);
        assert(u != 10) by {
            if u == 10 {
                vstd::utf8::char_u32_cast(c, u);
                assert(c == (10u32 as char));
                assert(c == '\n');
            }
        }
        assert forall|j: int| 0 <= j < encode_scalar(u).len() implies encode_scalar(u)[j]
            != LINE_FEED by {
            lemma_encode_scalar_no_lf(u);
        }
        assert(!s.drop_first().contains('\n')) by {
            if s.drop_first().contains('\n') {
                let k = choose|k: int| 0 <= k < s.drop_first().len() && s.drop_first()[k] == '\n';
                assert(s[k + 1] == '\n');
                assert(s.contains('\n'));
            }
        }
        lemma_encode_utf8_no_lf(s.drop_first());
        assert forall|j: int| 0 <= j < encode_utf8(s).len() implies encode_utf8(s)[j]
            != LINE_FEED by {
            if j < encode_scalar(u).len() {
                assert(encode_utf8(s)[j] == encode_scalar(u)[j]);
            } else {
                assert(encode_utf8(s)[j] == encode_utf8(s.drop_first())[j - encode_scalar(
                    u,
                ).len()]);
            }
        }
    }
}

/// The UTF-8 encoding of a scalar other than `10` holds no line-feed byte.
proof fn lemma_encode_scalar_no_lf(u: u32)
    requires
        vstd::utf8::is_scalar(u),
        u != 10,
    ensures
        forall|j: int| 0 <= j < encode_scalar(u).len() ==> encode_scalar(u)[j] != LINE_FEED,
{
    if vstd::utf8::has_width_1_encoding(u) {
        assert((u & 0x7F) as u8 != 10) by (bit_vector)
            requires u <= 0x7F && u != 10;
    } else {
        assert(0xC0u8 | ((u >> 6) & 0x1F) as u8 >= 0x80) by (bit_vector);
        assert(0xE0u8 | ((u >> 12) & 0x0F) as u8 >= 0x80) by (bit_vector);
        assert(0xF0u8 | ((u >> 18) & 0x7) as u8 >= 0x80) by (bit_vector);
        assert(0x80u8 | (u & 0x3F) as u8 >= 0x80) by (bit_vector);
        assert(0x80u8 | ((u >> 6) & 0x3F) as u8 >= 0x80) by (bit_vector);
        assert(0x80u8 | ((u >> 12) & 0x3F) as u8 >= 0x80) by (bit_vector);
    }
}

/// UTF-8 encoding distributes over concatenation of texts.
pub proof fn lemma_encode_utf8_concat(a: Seq<char>, b: Seq<char>)
    ensures
        encode_utf8(a + b) == encode_utf8(a) + encode_utf8(b),
    decreases a.len(),
{
    if a.len() == 0 {
        assert(a + b =~= b);
        assert(encode_utf8(a) + encode_utf8(b) =~= encode_utf8(b));
    } else {
        assert((a + b).drop_first() =~= a.drop_first() + b);
        lemma_encode_utf8_concat(a.drop_first(), b);
        assert(encode_utf8(a + b) =~= encode_utf8(a) + encode_utf8(b));
    }
}

/// Law: for any text `s` holding no line-feed, the bytes `encode` produces
/// (the encoding of `s` plus one line-feed) decode back to exactly one
/// frame, `s` followed by a single line-feed, and consume the whole buffer.
pub proof fn lemma_encode_decode_round_trip(s: Seq<char>)
    requires
        !s.contains('\n'),
    ensures
        ({
            let bytes = encode_utf8(s) + seq![LINE_FEED];
            &&& has_lf(bytes)
            &&& first_lf(bytes) == encode_utf8(s).len()
            &&& bytes.take(first_lf(bytes) + 1) == bytes
            &&& bytes.skip(first_lf(bytes) + 1) == Seq::<u8>::empty()
            &&& valid_utf8(bytes)
            &&& decode_utf8(bytes) == s.push('\n')
        }),
{
    let bytes = encode_utf8(s) + seq![LINE_FEED];
    lemma_encode_utf8_no_lf(s);
    assert(first_lf(seq![LINE_FEED]) == 0);
    lemma_first_lf_concat(encode_utf8(s), seq![LINE_FEED]);
    assert(bytes.take(first_lf(bytes) + 1) =~= bytes);
    assert(bytes.skip(first_lf(bytes) + 1) =~= Seq::<u8>::empty());
    assert(encode_scalar('\n' as u32) =~= seq![LINE_FEED]) by {
        assert(('\n' as u32) == 10);
        assert((10u32 & 0x7F) as u8 == 10u8) by (bit_vector);
    }
    assert(encode_utf8(seq!['\n']) =~= seq![LINE_FEED]) by {
        let one = seq!['\n'];
        assert(one.len() == 1 && one[0] == '\n');
        assert(one.drop_first() =~= Seq::<char>::empty());
        assert(encode_utf8(one.drop_first()) =~= Seq::<u8>::empty());
        assert(encode_utf8(one) =~= encode_scalar('\n' as u32) + encode_utf8(one.drop_first()));
    }
    lemma_encode_utf8_concat(s, seq!['\n']);
    assert(s + seq!['\n'] =~= s.push('\n'));
    assert(bytes == encode_utf8(s.push('\n')));
    vstd::utf8::encode_utf8_valid_utf8(s.push('\n'));
    vstd::utf8::encode_utf8_decode_utf8(s.push('\n'));
}

/// Law: when the buffer holds two encoded lines, neither holding a
/// line-feed, decoding extracts the first line's frame and leaves exactly
/// the second line's bytes as the remainder, so a second decode yields the
/// second frame: frames come out in order.
pub proof fn lemma_decode_frames_in_order(a: Seq<char>, b: Seq<char>)
    requires
        !a.contains('\n'),
        !b.contains('\n'),
    ensures
        ({
            let first = encode_utf8(a) + seq![LINE_FEED];
            let second = encode_utf8(b) + seq![LINE_FEED];
            let bytes = first + second;
            &&& has_lf(bytes)
            &&& bytes.take(first_lf(bytes) + 1) == first
            &&& bytes.skip(first_lf(bytes) + 1) == second
            &&& valid_utf8(first)
            &&& decode_utf8(first) == a.push('\n')
        }),
{
    let first = encode_utf8(a) + seq![LINE_FEED];
    let second = encode_utf8(b) + seq![LINE_FEED];
    let bytes = first + second;
    lemma_encode_utf8_no_lf(a);
    assert(first_lf(seq![LINE_FEED] + second) == 0);
    assert(encode_utf8(a) + (seq![LINE_FEED] + second) =~= bytes);
    lemma_first_lf_concat(encode_utf8(a), seq![LINE_FEED] + second);
    assert(first_lf(bytes) == encode_utf8(a).len());
    assert(bytes.take(first_lf(bytes) + 1) =~= first);
    assert(bytes.skip(first_lf(bytes) + 1) =~= second);
    lemma_encode_decode_round_trip(a);
}

} // verus!
