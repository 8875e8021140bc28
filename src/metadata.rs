//! Reading the GPS tags out of an image's metadata container, held in
//! memory, with the `exif` crate.
use vstd::prelude::*;
use crate::codec::DoubleTriple;
use crate::record::GpsTags;

verus! {

#[verifier::external_type_specification]
#[verifier::external_body]
pub struct ExExif(exif::Exif);

#[verifier::external_type_specification]
#[verifier::external_body]
pub struct ExExifError(exif::Error);

// Numbers of the GPS tags in the GPS attribute directory.
pub const GPS_VERSION_ID: u16 = 0;
pub const GPS_LATITUDE_REF: u16 = 1;
pub const GPS_LATITUDE: u16 = 2;
pub const GPS_LONGITUDE_REF: u16 = 3;
pub const GPS_LONGITUDE: u16 = 4;
pub const GPS_ALTITUDE: u16 = 6;
pub const GPS_TIME_STAMP: u16 = 7;
pub const GPS_DATE_STAMP: u16 = 0x1d;

/// The image bytes parse as a supported container holding Exif data.
pub uninterp spec fn container_parses(data: Seq<u8>) -> bool;

/// The tags of all fields of the parsed container, in every image file
/// directory, each as (is a GPS tag, tag number).
pub uninterp spec fn field_tags_of(data: Seq<u8>) -> Seq<(bool, u16)>;

/// The display text of a GPS tag of the primary image, if present.
pub uninterp spec fn gps_text_of(data: Seq<u8>, number: u16) -> Option<Seq<char>>;

/// The rationals of a GPS tag of the primary image, if present and holding
/// rationals.
pub uninterp spec fn gps_ratios_of(data: Seq<u8>, number: u16) -> Option<Seq<(u32, u32)>>;

/// The bit pattern of the double nearest to `num / denom`, for every ratio
/// but 0/0.
pub uninterp spec fn ratio_double_bits(num: u32, denom: u32) -> u64;

/// `bits` is a NaN: all exponent bits set and a non-zero mantissa.
pub open spec fn is_nan_bits(bits: u64) -> bool {
    (bits >> 52) & 0x7ff == 0x7ff && bits & 0xf_ffff_ffff_ffff != 0
}

/// A parsed image container, together with the bytes it was parsed from.
pub struct ParsedImage {
    exif: exif::Exif,
    source: Ghost<Seq<u8>>,
}

impl ParsedImage {
    /// The bytes this container was parsed from.
    pub closed spec fn source(&self) -> Seq<u8> {
        self.source@
    }
}

/// Relies on `exif::Reader::read_from_container`, here over an in-memory
/// cursor: parses the image container and the Exif data in it; the outcome
/// depends on the bytes alone.
#[verifier::external_body]
fn parse_container(data: &[u8]) -> (r: Result<exif::Exif, exif::Error>)
    ensures
        r is Ok <==> container_parses(data@),
{
    exif::Reader::new().read_from_container(&mut std::io::Cursor::new(data))
}

/// Parses an image container held in memory.
pub fn parse_image(data: &[u8]) -> (r: Option<ParsedImage>)
    ensures
        r is Some <==> container_parses(data@),
        r matches Some(p) ==> p.source() == data@,
{
    match parse_container(data) {
        Ok(exif) => Some(ParsedImage { exif, source: Ghost(data@) }),
        Err(_) => None,
    }
}

/// Relies on `exif::Exif::fields`: every field of every image file
/// directory, taken as (its tag is in the GPS context, its tag number).
#[verifier::external_body]
fn field_tags(p: &ParsedImage) -> (r: Vec<(bool, u16)>)
    ensures
        r@ == field_tags_of(p.source()),
{
    p.exif.fields().map(|f| (matches!(f.tag.0, exif::Context::Gps), f.tag.1)).collect()
}

/// Relies on `exif::Exif::get_field` and `exif::Field::display_value`: the
/// display text of a GPS tag of the primary image, if it is present.
#[verifier::external_body]
fn gps_field_text(p: &ParsedImage, number: u16) -> (r: Option<String>)
    ensures
        match r {
            Some(s) => gps_text_of(p.source(), number) == Some(s@),
            None => gps_text_of(p.source(), number) is None,
        },
{
    p.exif.get_field(exif::Tag(exif::Context::Gps, number), exif::In::PRIMARY).map(
        |f| f.display_value().to_string(),
    )
}

/// Relies on `exif::Exif::get_field`: the rationals of a GPS tag of the
/// primary image, as (numerator, denominator) pairs, if the tag is present
/// and holds rationals.
#[verifier::external_body]
fn gps_field_ratios(p: &ParsedImage, number: u16) -> (r: Option<Vec<(u32, u32)>>)
    ensures
        match r {
            Some(v) => gps_ratios_of(p.source(), number) == Some(v@),
            None => gps_ratios_of(p.source(), number) is None,
        },
{
    match p.exif.get_field(exif::Tag(exif::Context::Gps, number), exif::In::PRIMARY) {
        Some(f) => match &f.value {
            exif::Value::Rational(v) => Some(v.iter().map(|q| (q.num, q.denom)).collect()),
            _ => None,
        },
        None => None,
    }
}

/// Relies on `exif::Rational::to_f64` (`num as f64 / denom as f64`), and
/// takes the result's bit pattern. For 0/0 that is a NaN whose sign the
/// platform chooses.
#[verifier::external_body]
fn ratio_bits(num: u32, denom: u32) -> (r: u64)
    ensures
        !(num == 0 && denom == 0) ==> r == ratio_double_bits(num, denom),
        num == 0 && denom == 0 ==> is_nan_bits(r),
{
    exif::Rational { num, denom }.to_f64().to_bits()
}

/// Why an image's metadata could not be read.
#[derive(Clone, Copy, Debug, PartialEq, Eq, Structural)]
pub enum MetadataError {
    /// The container or the Exif data in it could not be parsed.
    Unreadable,
}

/// `bits` is the double of the rational `q`: for 0/0 any NaN.
pub open spec fn ratio_fits(q: (u32, u32), bits: u64) -> bool {
    if q.0 == 0 && q.1 == 0 {
        is_nan_bits(bits)
    } else {
        bits == ratio_double_bits(q.0, q.1)
    }
}

/// `t` holds the doubles of the first three rationals, where there are three.
pub open spec fn triple_fits(v: Seq<(u32, u32)>, t: Option<DoubleTriple>) -> bool {
    match t {
        Some(t) => v.len() >= 3 && ratio_fits(v[0], t.first) && ratio_fits(v[1], t.second)
            && ratio_fits(v[2], t.third),
        None => v.len() < 3,
    }
}

/// `d` holds the double of the first rational, where there is one.
pub open spec fn double_fits(v: Seq<(u32, u32)>, d: Option<u64>) -> bool {
    match d {
        Some(d) => v.len() >= 1 && ratio_fits(v[0], d),
        None => v.len() < 1,
    }
}

/// The first three rationals as a triple of doubles; `None` with fewer.
pub fn triple_from_ratios(v: &Vec<(u32, u32)>) -> (r: Option<DoubleTriple>)
    ensures
        triple_fits(v@, r),
{
    if v.len() < 3 {
        return None;
    }
    Some(
        DoubleTriple {
            first: ratio_bits(v[0].0, v[0].1),
            second: ratio_bits(v[1].0, v[1].1),
            third: ratio_bits(v[2].0, v[2].1),
        },
    )
}

/// The first rational as a double; `None` where there is none.
pub fn double_from_ratios(v: &Vec<(u32, u32)>) -> (r: Option<u64>)
    ensures
        double_fits(v@, r),
{
    if v.len() < 1 {
        return None;
    }
    Some(ratio_bits(v[0].0, v[0].1))
}

/// A GPS version tag is among the fields, in any image file directory.
pub open spec fn has_gps_version(tags: Seq<(bool, u16)>) -> bool {
    exists|i: int| 0 <= i < tags.len() && tags[i] == (true, GPS_VERSION_ID)
}

/// Whether a GPS version tag is among the fields.
pub fn find_gps_version(tags: &Vec<(bool, u16)>) -> (r: bool)
    ensures
        r == has_gps_version(tags@),
{
    let mut i: usize = 0;
    while i < tags.len()
        invariant
            i <= tags@.len(),
            forall|j: int| 0 <= j < i ==> tags@[j] != (true, GPS_VERSION_ID),
        decreases tags.len() - i,
    {
        let (is_gps, number) = tags[i];
        if is_gps && number == GPS_VERSION_ID {
            return true;
        }
        i = i + 1;
    }
    false
}

/// An optional text equals an optional character sequence.
pub open spec fn text_fits(o: Option<String>, s: Option<Seq<char>>) -> bool {
    match o {
        Some(x) => s == Some(x@),
        None => s is None,
    }
}

/// A triple read from an optional tag.
pub open spec fn opt_triple_fits(v: Option<Seq<(u32, u32)>>, t: Option<DoubleTriple>) -> bool {
    match v {
        Some(v) => triple_fits(v, t),
        None => t is None,
    }
}

/// `t` holds what the container in `data` says of each GPS tag.
pub open spec fn tags_read_from(data: Seq<u8>, t: GpsTags) -> bool {
    &&& t.has_version == has_gps_version(field_tags_of(data))
    &&& text_fits(t.latitude_ref, gps_text_of(data, GPS_LATITUDE_REF))
    &&& opt_triple_fits(gps_ratios_of(data, GPS_LATITUDE), t.latitude)
    &&& text_fits(t.longitude_ref, gps_text_of(data, GPS_LONGITUDE_REF))
    &&& opt_triple_fits(gps_ratios_of(data, GPS_LONGITUDE), t.longitude)
    &&& match gps_ratios_of(data, GPS_ALTITUDE) {
        Some(v) => double_fits(v, t.altitude),
        None => t.altitude is None,
    }
    &&& text_fits(t.date_stamp, gps_text_of(data, GPS_DATE_STAMP))
    &&& opt_triple_fits(gps_ratios_of(data, GPS_TIME_STAMP), t.time_stamp)
}

fn gps_triple(p: &ParsedImage, number: u16) -> (r: Option<DoubleTriple>)
    ensures
        opt_triple_fits(gps_ratios_of(p.source(), number), r),
{
    match gps_field_ratios(p, number) {
        Some(v) => triple_from_ratios(&v),
        None => None,
    }
}

/// Reads the GPS tags from an image file's bytes: an error exactly when the
/// container cannot be parsed; otherwise each tag as the container holds it
/// (`None` where absent or with too few parts), and whether a GPS version
/// tag is present in any image file directory.
pub fn read_gps_tags(data: &[u8]) -> (r: Result<GpsTags, MetadataError>)
    ensures
        r is Ok <==> container_parses(data@),
        r matches Err(e) ==> e == MetadataError::Unreadable,
        r matches Ok(t) ==> tags_read_from(data@, t),
{
    let p = match parse_image(data) {
        Some(p) => p,
        None => return Err(MetadataError::Unreadable),
    };
    let altitude = match gps_field_ratios(&p, GPS_ALTITUDE) {
        Some(v) => double_from_ratios(&v),
        None => None,
    };
    let tags = field_tags(&p);
    Ok(
        GpsTags {
            has_version: find_gps_version(&tags),
            latitude_ref: gps_field_text(&p, GPS_LATITUDE_REF),
            latitude: gps_triple(&p, GPS_LATITUDE),
            longitude_ref: gps_field_text(&p, GPS_LONGITUDE_REF),
            longitude: gps_triple(&p, GPS_LONGITUDE),
            altitude,
            date_stamp: gps_field_text(&p, GPS_DATE_STAMP),
            time_stamp: gps_triple(&p, GPS_TIME_STAMP),
        },
    )
}

} // verus!
