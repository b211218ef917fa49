//! Standard base64 text encoding of byte buffers, used to make waveform
//! summaries transportable as text.
//!
//! The encoding is pinned down exactly by [`base64_of`]: RFC 4648 standard
//! alphabet, `=`-padded, four output characters for every (possibly partial)
//! group of three input bytes.

use vstd::prelude::*;

use base64::Engine as _;

verus! {

/// The 64 digits of the standard base64 alphabet, in value order.
pub open spec fn base64_alphabet() -> Seq<char> {
    "ABCDEFGHIJKLMNOPQRSTUVWXYZabcdefghijklmnopqrstuvwxyz0123456789+/"@
}

/// The digit character for a 6-bit value.
pub open spec fn b64_digit(v: int) -> char
    recommends
        0 <= v < 64,
{
    base64_alphabet()[v]
}

/// The four output characters for one group of one, two or three input bytes.
/// A partial group is padded with `=`.
pub open spec fn base64_group(b: Seq<u8>) -> Seq<char>
    recommends
        1 <= b.len() <= 3,
{
    if b.len() >= 3 {
        seq![
            b64_digit(b[0] as int / 4),
            b64_digit((b[0] as int % 4) * 16 + b[1] as int / 16),
            b64_digit((b[1] as int % 16) * 4 + b[2] as int / 64),
            b64_digit(b[2] as int % 64),
        ]
    } else if b.len() == 2 {
        seq![
            b64_digit(b[0] as int / 4),
            b64_digit((b[0] as int % 4) * 16 + b[1] as int / 16),
            b64_digit((b[1] as int % 16) * 4),
            '=',
        ]
    } else {
        seq![b64_digit(b[0] as int / 4), b64_digit((b[0] as int % 4) * 16), '=', '=']
    }
}

/// Standard base64 of a byte sequence: the input is consumed in groups of
/// three bytes from the front, each group yielding four characters.
pub open spec fn base64_of(b: Seq<u8>) -> Seq<char>
    decreases b.len(),
{
    if b.len() == 0 {
        Seq::empty()
    } else if b.len() <= 3 {
        base64_group(b)
    } else {
        base64_group(b.take(3)) + base64_of(b.skip(3))
    }
}

/// The encoded text has four characters for each started group of three bytes.
pub proof fn lemma_base64_of_len(b: Seq<u8>)
    ensures
        base64_of(b).len() == 4 * ((b.len() + 2) / 3),
    decreases b.len(),
{
    if b.len() == 0 {
    } else if b.len() <= 3 {
    } else {
        lemma_base64_of_len(b.skip(3));
    }
}

/// A digit character is never the padding character.
pub proof fn lemma_digit_is_not_padding(v: int)
    requires
        0 <= v < 64,
    ensures
        b64_digit(v) != '=',
{
    reveal_strlit("ABCDEFGHIJKLMNOPQRSTUVWXYZabcdefghijklmnopqrstuvwxyz0123456789+/");
}

/// Distinct 6-bit values have distinct digit characters.
pub proof fn lemma_digit_injective(v1: int, v2: int)
    requires
        0 <= v1 < 64,
        0 <= v2 < 64,
        b64_digit(v1) == b64_digit(v2),
    ensures
        v1 == v2,
{
    reveal_strlit("ABCDEFGHIJKLMNOPQRSTUVWXYZabcdefghijklmnopqrstuvwxyz0123456789+/");
}

/// How many `=` padding characters end an encoded text. Only the final two
/// positions can hold padding.
pub open spec fn padding_len(s: Seq<char>) -> int
    recommends
        s.len() % 4 == 0,
{
    if s.len() < 2 {
        0
    } else if s[s.len() - 1] == '=' && s[s.len() - 2] == '=' {
        2
    } else if s[s.len() - 1] == '=' {
        1
    } else {
        0
    }
}

/// Law: the encoded text determines the original buffer's length, so a
/// standard decoder recovers a buffer of exactly that length: the text's
/// length is a multiple of four, and three bytes per four characters minus
/// the padding gives the byte count back.
pub proof fn lemma_base64_decoded_len(b: Seq<u8>)
    ensures
        base64_of(b).len() % 4 == 0,
        3 * (base64_of(b).len() as int / 4) - padding_len(base64_of(b)) == b.len(),
    decreases b.len(),
{
    lemma_base64_of_len(b);
    if b.len() == 0 {
    } else if b.len() == 1 {
    } else if b.len() == 2 {
        lemma_digit_is_not_padding((b[1] as int % 16) * 4);
    } else if b.len() == 3 {
        lemma_digit_is_not_padding(b[2] as int % 64);
    } else {
        let rest = b.skip(3);
        lemma_base64_decoded_len(rest);
        lemma_base64_of_len(rest);
        let s = base64_of(b);
        let r = base64_of(rest);
        assert(s == base64_group(b.take(3)) + r);
        assert(r.len() >= 4);
        assert(s[s.len() - 1] == r[r.len() - 1]);
        assert(s[s.len() - 2] == r[r.len() - 2]);
        assert(padding_len(s) == padding_len(r));
    }
}

/// One group's four characters determine its bytes.
proof fn lemma_group_injective(x: Seq<u8>, y: Seq<u8>)
    requires
        1 <= x.len() <= 3,
        x.len() == y.len(),
        base64_group(x) == base64_group(y),
    ensures
        x =~= y,
{
    let gx = base64_group(x);
    let gy = base64_group(y);
    assert(gx[0] == gy[0] && gx[1] == gy[1] && gx[2] == gy[2] && gx[3] == gy[3]);
    lemma_digit_injective(x[0] as int / 4, y[0] as int / 4);
    if x.len() == 1 {
        lemma_digit_injective((x[0] as int % 4) * 16, (y[0] as int % 4) * 16);
        assert(x[0] == y[0]);
    } else if x.len() == 2 {
        lemma_digit_injective(
            (x[0] as int % 4) * 16 + x[1] as int / 16,
            (y[0] as int % 4) * 16 + y[1] as int / 16,
        );
        lemma_digit_injective((x[1] as int % 16) * 4, (y[1] as int % 16) * 4);
        assert(x[0] == y[0]);
        assert(x[1] == y[1]);
    } else {
        lemma_digit_injective(
            (x[0] as int % 4) * 16 + x[1] as int / 16,
            (y[0] as int % 4) * 16 + y[1] as int / 16,
        );
        lemma_digit_injective(
            (x[1] as int % 16) * 4 + x[2] as int / 64,
            (y[1] as int % 16) * 4 + y[2] as int / 64,
        );
        lemma_digit_injective(x[2] as int % 64, y[2] as int % 64);
        assert(x[0] == y[0]);
        assert(x[1] == y[1]);
        assert(x[2] == y[2]);
    }
}

/// Law: the encoding is injective — equal texts come only from equal byte
/// buffers — so a standard decoder recovers from the waveform text exactly
/// the amplitude bytes that were encoded.
pub proof fn lemma_base64_injective(a: Seq<u8>, b: Seq<u8>)
    requires
        base64_of(a) == base64_of(b),
    ensures
        a =~= b,
    decreases a.len(),
{
    lemma_base64_decoded_len(a);
    lemma_base64_decoded_len(b);
    assert(a.len() == b.len());
    if a.len() == 0 {
    } else if a.len() <= 3 {
        lemma_group_injective(a, b);
    } else {
        let s = base64_of(a);
        let ga = base64_group(a.take(3));
        let gb = base64_group(b.take(3));
        let ta = base64_of(a.skip(3));
        let tb = base64_of(b.skip(3));
        assert(s == ga + ta && s == gb + tb);
        assert(ga.len() == 4 && gb.len() == 4);
        assert forall|j: int| 0 <= j < 4 implies ga[j] == gb[j] by {
            assert(ga[j] == (ga + ta)[j]);
            assert(gb[j] == (gb + tb)[j]);
        }
        assert(ga =~= gb);
        assert(ta.len() == tb.len());
        assert forall|j: int| 0 <= j < ta.len() implies ta[j] == tb[j] by {
            assert(ta[j] == (ga + ta)[4 + j]);
            assert(tb[j] == (gb + tb)[4 + j]);
        }
        assert(ta =~= tb);
        lemma_group_injective(a.take(3), b.take(3));
        lemma_base64_injective(a.skip(3), b.skip(3));
        assert forall|k: int| 0 <= k < a.len() implies a[k] == b[k] by {
            if k < 3 {
                assert(a[k] == a.take(3)[k] && b[k] == b.take(3)[k]);
            } else {
                assert(a[k] == a.skip(3)[k - 3] && b[k] == b.skip(3)[k - 3]);
            }
        }
    }
}

/// Relies on base64's `STANDARD` engine: RFC 4648 standard alphabet with
/// `=` padding, which is exactly the text that [`base64_of`] describes.
#[verifier::external_body]
pub(crate) fn to_base64(bytes: &Vec<u8>) -> (r: String)
    ensures
        r@ == base64_of(bytes@),
{
    base64::engine::general_purpose::STANDARD.encode(bytes.as_slice())
}

} // verus!
