//! Encodings of the GPS fields in the sidecar's native form.
//!
//! A double is handled as its IEEE-754 bit pattern (`f64::to_bits`), laid out
//! as eight little-endian bytes; the layout is the whole of the format, so the
//! library never needs the floating-point value itself.
use vstd::prelude::*;
use vstd::string::*;
use crate::base64::{
    base64_text, decode_unpadded, encode_padded, encode_unpadded, lemma_base64_injective,
    lemma_base64_len, lemma_base64_symbols,
};

verus! {

/// The eight bytes of `x`, least significant first.
pub open spec fn le_bytes(x: u64) -> Seq<u8> {
    seq![
        x as u8,
        (x >> 8) as u8,
        (x >> 16) as u8,
        (x >> 24) as u8,
        (x >> 32) as u8,
        (x >> 40) as u8,
        (x >> 48) as u8,
        (x >> 56) as u8,
    ]
}

/// The value whose little-endian bytes start `b` at `at`.
pub open spec fn le_value(b: Seq<u8>, at: int) -> u64 {
    (b[at] as u64) | ((b[at + 1] as u64) << 8) | ((b[at + 2] as u64) << 16) | ((b[at + 3] as u64)
        << 24) | ((b[at + 4] as u64) << 32) | ((b[at + 5] as u64) << 40) | ((b[at + 6] as u64)
        << 48) | ((b[at + 7] as u64) << 56)
}

proof fn lemma_le_value_of_bytes(x: u64)
    ensures
        le_value(le_bytes(x), 0) == x,
{
    let b = le_bytes(x);
    let (b0, b1, b2, b3, b4, b5, b6, b7) = (b[0], b[1], b[2], b[3], b[4], b[5], b[6], b[7]);
    assert(((b0 as u64) | ((b1 as u64) << 8) | ((b2 as u64) << 16) | ((b3 as u64) << 24) | ((
    b4 as u64) << 32) | ((b5 as u64) << 40) | ((b6 as u64) << 48) | ((b7 as u64) << 56)) == x)
        by (bit_vector)
        requires
            b0 == x as u8,
            b1 == (x >> 8) as u8,
            b2 == (x >> 16) as u8,
            b3 == (x >> 24) as u8,
            b4 == (x >> 32) as u8,
            b5 == (x >> 40) as u8,
            b6 == (x >> 48) as u8,
            b7 == (x >> 56) as u8,
    ;
}

proof fn lemma_bytes_of_le_value(b: Seq<u8>, at: int)
    requires
        0 <= at,
        at + 8 <= b.len(),
    ensures
        le_bytes(le_value(b, at)) == b.subrange(at, at + 8),
{
    let (b0, b1, b2, b3, b4, b5, b6, b7) = (
        b[at],
        b[at + 1],
        b[at + 2],
        b[at + 3],
        b[at + 4],
        b[at + 5],
        b[at + 6],
        b[at + 7],
    );
    let x = le_value(b, at);
    assert(x as u8 == b0 && (x >> 8) as u8 == b1 && (x >> 16) as u8 == b2 && (x >> 24) as u8 == b3
        && (x >> 32) as u8 == b4 && (x >> 40) as u8 == b5 && (x >> 48) as u8 == b6 && (x >> 56) as u8
        == b7) by (bit_vector)
        requires
            x == (b0 as u64) | ((b1 as u64) << 8) | ((b2 as u64) << 16) | ((b3 as u64) << 24) | ((
            b4 as u64) << 32) | ((b5 as u64) << 40) | ((b6 as u64) << 48) | ((b7 as u64) << 56),
    ;
    assert(le_bytes(x) =~= b.subrange(at, at + 8));
}

fn push_le_bytes(v: &mut Vec<u8>, x: u64)
    ensures
        final(v)@ == old(v)@ + le_bytes(x),
{
    v.push(x as u8);
    v.push((x >> 8) as u8);
    v.push((x >> 16) as u8);
    v.push((x >> 24) as u8);
    v.push((x >> 32) as u8);
    v.push((x >> 40) as u8);
    v.push((x >> 48) as u8);
    v.push((x >> 56) as u8);
    assert(final(v)@ =~= old(v)@ + le_bytes(x));
}

fn read_le_value(b: &Vec<u8>, at: usize) -> (r: u64)
    requires
        b@.len() == 24,
        at <= 16,
    ensures
        r == le_value(b@, at as int),
{
    (b[at] as u64) | ((b[at + 1] as u64) << 8) | ((b[at + 2] as u64) << 16) | ((b[at + 3] as u64)
        << 24) | ((b[at + 4] as u64) << 32) | ((b[at + 5] as u64) << 40) | ((b[at + 6] as u64)
        << 48) | ((b[at + 7] as u64) << 56)
}

/// Three doubles, each held as its IEEE-754 bit pattern: a position as
/// degrees, minutes and seconds, or a time of day as hours, minutes and
/// seconds.
#[derive(Clone, Copy, Debug, PartialEq, Eq, Structural)]
pub struct DoubleTriple {
    pub first: u64,
    pub second: u64,
    pub third: u64,
}

/// The 24 bytes of a triple: each double in turn, little-endian.
pub open spec fn triple_bytes(t: DoubleTriple) -> Seq<u8> {
    le_bytes(t.first) + le_bytes(t.second) + le_bytes(t.third)
}

/// A triple's field value: its 24 bytes in base64 without padding.
pub open spec fn triple_text(t: DoubleTriple) -> Seq<char> {
    base64_text(triple_bytes(t), false)
}

/// A single double's field value: its 8 bytes in base64 with padding.
pub open spec fn double_text(bits: u64) -> Seq<char> {
    base64_text(le_bytes(bits), true)
}

/// Encodes a latitude, longitude or time stamp.
pub fn encode_triple(t: &DoubleTriple) -> (r: String)
    ensures
        r@ == triple_text(*t),
        r@.len() == 32,
        !r@.contains('='),
{
    let mut raw: Vec<u8> = Vec::new();
    push_le_bytes(&mut raw, t.first);
    push_le_bytes(&mut raw, t.second);
    push_le_bytes(&mut raw, t.third);
    assert(raw@ =~= triple_bytes(*t));
    let r = encode_unpadded(raw.as_slice());
    proof {
        lemma_triple_padding(*t);
    }
    r
}

/// The triple whose field value `s` is, if there is one (there is at most
/// one: see [`lemma_triple_round_trip`]).
pub open spec fn triple_of_text(s: Seq<char>) -> Option<DoubleTriple> {
    if exists|t: DoubleTriple| triple_text(t) == s {
        Some(choose|t: DoubleTriple| triple_text(t) == s)
    } else {
        None
    }
}

/// Decodes a latitude, longitude or time-stamp field value; `None` when the
/// text is not the encoding of any triple.
pub fn decode_triple(s: &str) -> (r: Option<DoubleTriple>)
    ensures
        r == triple_of_text(s@),
{
    let r = decode_triple_checked(s);
    proof {
        if let Some(t) = r {
            let u = choose|u: DoubleTriple| triple_text(u) == s@;
            lemma_triple_text_injective(u, t);
        }
    }
    r
}

fn decode_triple_checked(s: &str) -> (r: Option<DoubleTriple>)
    ensures
        match r {
            Some(t) => s@ == triple_text(t),
            None => forall|t: DoubleTriple| s@ != #[trigger] triple_text(t),
        },
{
    broadcast use vstd::string::is_ascii_spec_bytes;

    if !s.is_ascii() || s.unicode_len() != 32 {
        proof {
            assert forall|t: DoubleTriple| s@ != #[trigger] triple_text(t) by {
                lemma_triple_padding(t);
                lemma_base64_symbols(triple_bytes(t), false);
            }
        }
        return None;
    }
    match decode_unpadded(s) {
        None => None,
        Some(raw) => {
            if raw.len() != 24 {
                proof {
                    assert forall|t: DoubleTriple| s@ != #[trigger] triple_text(t) by {
                        if s@ == triple_text(t) {
                            lemma_base64_injective(raw@, triple_bytes(t));
                        }
                    }
                }
                return None;
            }
            let t = DoubleTriple {
                first: read_le_value(&raw, 0),
                second: read_le_value(&raw, 8),
                third: read_le_value(&raw, 16),
            };
            proof {
                lemma_bytes_of_le_value(raw@, 0);
                lemma_bytes_of_le_value(raw@, 8);
                lemma_bytes_of_le_value(raw@, 16);
                assert(triple_bytes(t) =~= raw@);
            }
            Some(t)
        },
    }
}

/// Encodes an altitude.
pub fn encode_altitude(bits: u64) -> (r: String)
    ensures
        r@ == double_text(bits),
        r@.len() == 12,
        r@[11] == '=',
        forall|i: int| 0 <= i < 11 ==> r@[i] != '=',
{
    let mut raw: Vec<u8> = Vec::new();
    push_le_bytes(&mut raw, bits);
    assert(raw@ =~= le_bytes(bits));
    let r = encode_padded(raw.as_slice());
    proof {
        lemma_altitude_padding(bits);
    }
    r
}

/// A triple's encoding is 32 characters long and holds no padding.
pub proof fn lemma_triple_padding(t: DoubleTriple)
    ensures
        triple_text(t).len() == 32,
        !triple_text(t).contains('='),
{
    lemma_base64_len(triple_bytes(t), false);
    lemma_base64_symbols(triple_bytes(t), false);
}

/// An altitude's encoding is 12 characters long and ends in exactly one
/// padding character.
pub proof fn lemma_altitude_padding(bits: u64)
    ensures
        double_text(bits).len() == 12,
        double_text(bits)[11] == '=',
        forall|i: int| 0 <= i < 11 ==> double_text(bits)[i] != '=',
{
    lemma_base64_len(le_bytes(bits), true);
    lemma_base64_symbols(le_bytes(bits), true);
}

/// Decoding a triple's encoding gives back exactly the same three bit
/// patterns, hence bit-identical doubles.
pub proof fn lemma_triple_round_trip(t: DoubleTriple)
    ensures
        triple_of_text(triple_text(t)) == Some(t),
{
    let u = choose|u: DoubleTriple| triple_text(u) == triple_text(t);
    lemma_triple_text_injective(u, t);
}

/// No two triples share a field value.
pub proof fn lemma_triple_text_injective(u: DoubleTriple, t: DoubleTriple)
    requires
        triple_text(u) == triple_text(t),
    ensures
        u == t,
{
    lemma_base64_injective(triple_bytes(u), triple_bytes(t));
    let (bu, bt) = (triple_bytes(u), triple_bytes(t));
    assert(le_bytes(u.first) =~= bu.subrange(0, 8));
    assert(le_bytes(u.second) =~= bu.subrange(8, 16));
    assert(le_bytes(u.third) =~= bu.subrange(16, 24));
    assert(le_bytes(t.first) =~= bt.subrange(0, 8));
    assert(le_bytes(t.second) =~= bt.subrange(8, 16));
    assert(le_bytes(t.third) =~= bt.subrange(16, 24));
    lemma_le_value_of_bytes(u.first);
    lemma_le_value_of_bytes(u.second);
    lemma_le_value_of_bytes(u.third);
    lemma_le_value_of_bytes(t.first);
    lemma_le_value_of_bytes(t.second);
    lemma_le_value_of_bytes(t.third);
}

/// A GPS reference direction.
#[derive(Clone, Copy, Debug, PartialEq, Eq, Structural)]
pub enum GpsRef {
    North,
    South,
    East,
    West,
}

/// The sidecar's code for a reference direction.
pub open spec fn ref_code(r: GpsRef) -> u8 {
    match r {
        GpsRef::North => 0,
        GpsRef::South => 1,
        GpsRef::East => 2,
        GpsRef::West => 3,
    }
}

/// A reference's field value: its code as four little-endian bytes, in
/// base64 with padding.
pub open spec fn ref_text(r: GpsRef) -> Seq<char> {
    base64_text(seq![ref_code(r), 0u8, 0u8, 0u8], true)
}

/// The latitude reference named by a tag's text: `N` is north, anything
/// else south.
pub open spec fn latitude_ref_of(tag: Seq<char>) -> GpsRef {
    if tag == seq!['N'] {
        GpsRef::North
    } else {
        GpsRef::South
    }
}

/// The longitude reference named by a tag's text: `E` is east, anything
/// else west.
pub open spec fn longitude_ref_of(tag: Seq<char>) -> GpsRef {
    if tag == seq!['E'] {
        GpsRef::East
    } else {
        GpsRef::West
    }
}

fn is_single(tag: &str, c: char) -> (r: bool)
    ensures
        r == (tag@ == seq![c]),
{
    if tag.unicode_len() != 1 {
        return false;
    }
    let r = tag.get_char(0) == c;
    assert(r ==> tag@ =~= seq![c]);
    r
}

pub fn latitude_ref_from(tag: &str) -> (r: GpsRef)
    ensures
        r == latitude_ref_of(tag@),
{
    if is_single(tag, 'N') {
        GpsRef::North
    } else {
        GpsRef::South
    }
}

pub fn longitude_ref_from(tag: &str) -> (r: GpsRef)
    ensures
        r == longitude_ref_of(tag@),
{
    if is_single(tag, 'E') {
        GpsRef::East
    } else {
        GpsRef::West
    }
}

/// Encodes a latitude or longitude reference.
pub fn encode_reference(r: GpsRef) -> (s: String)
    ensures
        s@ == ref_text(r),
        s@.len() == 8,
        s@[6] == '=' && s@[7] == '=',
        forall|i: int| 0 <= i < 6 ==> s@[i] != '=',
{
    let code: u8 = match r {
        GpsRef::North => 0,
        GpsRef::South => 1,
        GpsRef::East => 2,
        GpsRef::West => 3,
    };
    let raw: Vec<u8> = vec![code, 0, 0, 0];
    assert(raw@ =~= seq![ref_code(r), 0u8, 0u8, 0u8]);
    let s = encode_padded(raw.as_slice());
    proof {
        lemma_reference_padding(r);
    }
    s
}

/// A reference's encoding is 8 characters long and ends in exactly two
/// padding characters.
pub proof fn lemma_reference_padding(r: GpsRef)
    ensures
        ref_text(r).len() == 8,
        ref_text(r)[6] == '=' && ref_text(r)[7] == '=',
        forall|i: int| 0 <= i < 6 ==> ref_text(r)[i] != '=',
{
    let b = seq![ref_code(r), 0u8, 0u8, 0u8];
    lemma_base64_len(b, true);
    lemma_base64_symbols(b, true);
}

/// The date stamp as the sidecar stores it: every `-` becomes `:`.
pub open spec fn date_text(s: Seq<char>) -> Seq<char> {
    s.map_values(|c: char| if c == '-' { ':' } else { c })
}

/// Converts a date stamp's display text (`2020-05-14`) to the sidecar's
/// form (`2020:05:14`).
pub fn convert_date_stamp(s: &str) -> (r: String)
    ensures
        r@ == date_text(s@),
{
    let n = s.unicode_len();
    let mut out = String::new();
    let mut start: usize = 0;
    let mut i: usize = 0;
    while i < n
        invariant
            n == s@.len(),
            start <= i <= n,
            out@ == date_text(s@.subrange(0, start as int)),
            forall|k: int| start <= k < i ==> s@[k] != '-',
        decreases n - i,
    {
        let c = s.get_char(i);
        if c == '-' {
            let run = s.substring_char(start, i);
            out.append(run);
            out.append(":");
            proof {
                reveal_strlit(":");
                assert(date_text(s@.subrange(0, i + 1)) =~= date_text(s@.subrange(0, start as int))
                    + s@.subrange(start as int, i as int) + seq![':']);
            }
            start = i + 1;
        }
        i = i + 1;
    }
    let run = s.substring_char(start, n);
    out.append(run);
    assert(s@.subrange(0, n as int) =~= s@);
    assert(date_text(s@) =~= date_text(s@.subrange(0, start as int)) + s@.subrange(
        start as int,
        n as int,
    ));
    out
}

} // verus!
