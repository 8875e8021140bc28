//! Standard base64 (RFC 4648, alphabet `A-Z a-z 0-9 + /`), as a model and as
//! calls into `data_encoding`.
use vstd::prelude::*;
use vstd::string::StringSliceAdditionalSpecFns;

verus! {

/// The base64 symbol for a six-bit value.
pub open spec fn b64_symbol(v: u8) -> char {
    if v < 26 {
        (65 + v) as char
    } else if v < 52 {
        (97 + (v - 26)) as char
    } else if v < 62 {
        (48 + (v - 52)) as char
    } else if v == 62 {
        '+'
    } else {
        '/'
    }
}

/// The four symbols of one full group of three bytes.
pub open spec fn group_text(a: u8, b: u8, c: u8) -> Seq<char> {
    seq![
        b64_symbol(a >> 2),
        b64_symbol(((a & 3) << 4) | (b >> 4)),
        b64_symbol(((b & 15) << 2) | (c >> 6)),
        b64_symbol(c & 63),
    ]
}

/// The base64 text of `b`; with `pad`, a final partial group is filled up
/// with `=` to four characters.
pub open spec fn base64_text(b: Seq<u8>, pad: bool) -> Seq<char>
    decreases b.len(),
{
    if b.len() == 0 {
        seq![]
    } else if b.len() == 1 {
        seq![b64_symbol(b[0] >> 2), b64_symbol((b[0] & 3) << 4)] + if pad {
            seq!['=', '=']
        } else {
            seq![]
        }
    } else if b.len() == 2 {
        seq![
            b64_symbol(b[0] >> 2),
            b64_symbol(((b[0] & 3) << 4) | (b[1] >> 4)),
            b64_symbol((b[1] & 15) << 2),
        ] + if pad {
            seq!['=']
        } else {
            seq![]
        }
    } else {
        group_text(b[0], b[1], b[2]) + base64_text(b.subrange(3, b.len() as int), pad)
    }
}

/// Every symbol is an ASCII character other than the padding character.
pub proof fn lemma_symbol_plain(v: u8)
    requires
        v < 64,
    ensures
        b64_symbol(v) != '=',
        '\0' <= b64_symbol(v) <= '\u{7f}',
{
}

/// Distinct six-bit values have distinct symbols.
pub proof fn lemma_symbol_injective(v: u8, w: u8)
    requires
        v < 64,
        w < 64,
        b64_symbol(v) == b64_symbol(w),
    ensures
        v == w,
{
}

proof fn lemma_six_bits(a: u8, b: u8, c: u8)
    ensures
        a >> 2 < 64,
        ((a & 3) << 4) | (b >> 4) < 64,
        ((b & 15) << 2) | (c >> 6) < 64,
        c & 63 < 64,
        (a & 3) << 4 < 64,
        (b & 15) << 2 < 64,
{
    assert(a >> 2 < 64) by (bit_vector);
    assert(((a & 3) << 4) | (b >> 4) < 64) by (bit_vector);
    assert(((b & 15) << 2) | (c >> 6) < 64) by (bit_vector);
    assert(c & 63 < 64) by (bit_vector);
    assert((a & 3) << 4 < 64) by (bit_vector);
    assert((b & 15) << 2 < 64) by (bit_vector);
}

/// The length of the base64 text of `n` bytes.
pub open spec fn base64_len(n: nat, pad: bool) -> nat {
    if n % 3 == 0 {
        4 * (n / 3)
    } else if pad {
        4 * (n / 3) + 4
    } else {
        4 * (n / 3) + n % 3 + 1
    }
}

pub proof fn lemma_base64_len(b: Seq<u8>, pad: bool)
    ensures
        base64_text(b, pad).len() == base64_len(b.len(), pad),
    decreases b.len(),
{
    if b.len() >= 3 {
        lemma_base64_len(b.subrange(3, b.len() as int), pad);
    }
}

/// A position holds `=` exactly when padding is on and the position comes
/// after the symbols of a final partial group; every character is ASCII.
pub proof fn lemma_base64_symbols(b: Seq<u8>, pad: bool)
    ensures
        forall|i: int|
            0 <= i < base64_text(b, pad).len() ==> (#[trigger] base64_text(b, pad)[i] == '='
                <==> (pad && b.len() % 3 != 0 && i >= 4 * (b.len() / 3) + b.len() % 3 + 1)),
        forall|i: int|
            0 <= i < base64_text(b, pad).len() ==> '\0' <= #[trigger] base64_text(b, pad)[i]
                <= '\u{7f}',
    decreases b.len(),
{
    lemma_base64_len(b, pad);
    if b.len() == 0 {
    } else if b.len() == 1 {
        lemma_six_bits(b[0], 0, 0);
        lemma_symbol_plain(b[0] >> 2);
        lemma_symbol_plain((b[0] & 3) << 4);
    } else if b.len() == 2 {
        lemma_six_bits(b[0], b[1], 0);
        lemma_symbol_plain(b[0] >> 2);
        lemma_symbol_plain(((b[0] & 3) << 4) | (b[1] >> 4));
        lemma_symbol_plain((b[1] & 15) << 2);
    } else {
        let rest = b.subrange(3, b.len() as int);
        lemma_base64_symbols(rest, pad);
        lemma_base64_len(rest, pad);
        lemma_six_bits(b[0], b[1], b[2]);
        lemma_symbol_plain(b[0] >> 2);
        lemma_symbol_plain(((b[0] & 3) << 4) | (b[1] >> 4));
        lemma_symbol_plain(((b[1] & 15) << 2) | (b[2] >> 6));
        lemma_symbol_plain(b[2] & 63);
        let t = base64_text(b, pad);
        assert forall|i: int| 0 <= i < t.len() implies (t[i] == '=' <==> (pad && b.len() % 3 != 0
            && i >= 4 * (b.len() / 3) + b.len() % 3 + 1)) && '\0' <= t[i] <= '\u{7f}' by {
            if i >= 4 {
                assert(t[i] == base64_text(rest, pad)[i - 4]);
            }
        }
    }
}

proof fn lemma_group_injective(a: u8, b: u8, c: u8, x: u8, y: u8, z: u8)
    requires
        group_text(a, b, c) == group_text(x, y, z),
    ensures
        a == x && b == y && c == z,
{
    lemma_six_bits(a, b, c);
    lemma_six_bits(x, y, z);
    let (g, h) = (group_text(a, b, c), group_text(x, y, z));
    assert(g[0] == h[0] && g[1] == h[1] && g[2] == h[2] && g[3] == h[3]);
    lemma_symbol_injective(a >> 2, x >> 2);
    lemma_symbol_injective(((a & 3) << 4) | (b >> 4), ((x & 3) << 4) | (y >> 4));
    lemma_symbol_injective(((b & 15) << 2) | (c >> 6), ((y & 15) << 2) | (z >> 6));
    lemma_symbol_injective(c & 63, z & 63);
    assert(a == x && b == y && c == z) by (bit_vector)
        requires
            a >> 2 == x >> 2,
            ((a & 3) << 4) | (b >> 4) == ((x & 3) << 4) | (y >> 4),
            ((b & 15) << 2) | (c >> 6) == ((y & 15) << 2) | (z >> 6),
            c & 63 == z & 63,
    ;
}

/// Unpadded base64 text determines the bytes it encodes.
pub proof fn lemma_base64_injective(b: Seq<u8>, d: Seq<u8>)
    requires
        base64_text(b, false) == base64_text(d, false),
    ensures
        b == d,
    decreases b.len(),
{
    lemma_base64_len(b, false);
    lemma_base64_len(d, false);
    assert(b.len() == d.len());
    let (t, u) = (base64_text(b, false), base64_text(d, false));
    if b.len() == 1 {
        lemma_six_bits(b[0], 0, 0);
        lemma_six_bits(d[0], 0, 0);
        assert(t[0] == u[0] && t[1] == u[1]);
        lemma_symbol_injective(b[0] >> 2, d[0] >> 2);
        lemma_symbol_injective((b[0] & 3) << 4, (d[0] & 3) << 4);
        let (p, q) = (b[0], d[0]);
        assert(p == q) by (bit_vector)
            requires
                p >> 2 == q >> 2,
                (p & 3) << 4 == (q & 3) << 4,
        ;
        assert(b =~= d);
    } else if b.len() == 2 {
        lemma_six_bits(b[0], b[1], 0);
        lemma_six_bits(d[0], d[1], 0);
        assert(t[0] == u[0] && t[1] == u[1] && t[2] == u[2]);
        lemma_symbol_injective(b[0] >> 2, d[0] >> 2);
        lemma_symbol_injective(((b[0] & 3) << 4) | (b[1] >> 4), ((d[0] & 3) << 4) | (d[1] >> 4));
        lemma_symbol_injective((b[1] & 15) << 2, (d[1] & 15) << 2);
        let (p, q, r, s) = (b[0], b[1], d[0], d[1]);
        assert(p == r && q == s) by (bit_vector)
            requires
                p >> 2 == r >> 2,
                ((p & 3) << 4) | (q >> 4) == ((r & 3) << 4) | (s >> 4),
                (q & 15) << 2 == (s & 15) << 2,
        ;
        assert(b =~= d);
    } else if b.len() >= 3 {
        let (rb, rd) = (b.subrange(3, b.len() as int), d.subrange(3, d.len() as int));
        let (gb, gd) = (group_text(b[0], b[1], b[2]), group_text(d[0], d[1], d[2]));
        assert(t == gb + base64_text(rb, false));
        assert(u == gd + base64_text(rd, false));
        assert(gb =~= t.subrange(0, 4));
        assert(gd =~= u.subrange(0, 4));
        assert(base64_text(rb, false) =~= t.subrange(4, t.len() as int));
        assert(base64_text(rd, false) =~= u.subrange(4, u.len() as int));
        lemma_group_injective(b[0], b[1], b[2], d[0], d[1], d[2]);
        lemma_base64_injective(rb, rd);
        assert(b =~= d) by {
            assert forall|i: int| 0 <= i < b.len() implies b[i] == d[i] by {
                if i >= 3 {
                    assert(b[i] == rb[i - 3]);
                }
            }
        }
    } else {
        assert(b =~= d);
    }
}

/// Relies on `data_encoding::BASE64::encode`: RFC 4648 base64 with `=`
/// padding (it asserts that the input is at most `usize::MAX / 512` long).
#[verifier::external_body]
pub(crate) fn encode_padded(b: &[u8]) -> (r: String)
    requires
        b@.len() <= usize::MAX / 512,
    ensures
        r@ == base64_text(b@, true),
{
    data_encoding::BASE64.encode(b)
}

/// Relies on `data_encoding::BASE64_NOPAD::encode`: RFC 4648 base64 without
/// padding (it asserts that the input is at most `usize::MAX / 512` long).
#[verifier::external_body]
pub(crate) fn encode_unpadded(b: &[u8]) -> (r: String)
    requires
        b@.len() <= usize::MAX / 512,
    ensures
        r@ == base64_text(b@, false),
{
    data_encoding::BASE64_NOPAD.encode(b)
}

/// Relies on `data_encoding::BASE64_NOPAD::decode`: the encoding checks
/// trailing bits, so it accepts exactly the texts that `encode` produces and
/// returns the bytes they encode (it asserts that the input is at most
/// `usize::MAX / 8` bytes long).
#[verifier::external_body]
pub(crate) fn decode_unpadded(s: &str) -> (r: Option<Vec<u8>>)
    requires
        s.spec_bytes().len() <= usize::MAX / 8,
    ensures
        r matches Some(v) ==> base64_text(v@, false) == s@,
        (exists|b: Seq<u8>| base64_text(b, false) == s@) ==> r is Some,
{
    data_encoding::BASE64_NOPAD.decode(s.as_bytes()).ok()
}

} // verus!
