//! The GPS tags read from an image, and the record of their encodings.
use vstd::prelude::*;
use crate::codec::{
    convert_date_stamp, date_text, double_text, encode_altitude, encode_reference, encode_triple,
    latitude_ref_from, latitude_ref_of, longitude_ref_from, longitude_ref_of, ref_text,
    triple_text, DoubleTriple,
};

verus! {

/// The GPS tags of an image's metadata, as plain values: the reference tags
/// and the date stamp by their display text, each double by its bit pattern.
/// `None` is an absent tag.
#[derive(Debug)]
pub struct GpsTags {
    /// The GPS version tag is present: the image carries usable GPS data.
    pub has_version: bool,
    pub latitude_ref: Option<String>,
    pub latitude: Option<DoubleTriple>,
    pub longitude_ref: Option<String>,
    pub longitude: Option<DoubleTriple>,
    pub altitude: Option<u64>,
    pub date_stamp: Option<String>,
    pub time_stamp: Option<DoubleTriple>,
}

/// The encoded GPS fields, each in the sidecar's form; an empty field is one
/// whose tag was absent.
#[derive(Debug)]
pub struct GeoRecord {
    pub latitude_ref: String,
    pub latitude: String,
    pub longitude_ref: String,
    pub longitude: String,
    pub altitude: String,
    pub date_stamp: String,
    pub time_stamp: String,
}

/// The fields of a [`GeoRecord`] as character sequences.
pub struct GeoFields {
    pub latitude_ref: Seq<char>,
    pub latitude: Seq<char>,
    pub longitude_ref: Seq<char>,
    pub longitude: Seq<char>,
    pub altitude: Seq<char>,
    pub date_stamp: Seq<char>,
    pub time_stamp: Seq<char>,
}

impl View for GeoRecord {
    type V = GeoFields;

    open spec fn view(&self) -> GeoFields {
        GeoFields {
            latitude_ref: self.latitude_ref@,
            latitude: self.latitude@,
            longitude_ref: self.longitude_ref@,
            longitude: self.longitude@,
            altitude: self.altitude@,
            date_stamp: self.date_stamp@,
            time_stamp: self.time_stamp@,
        }
    }
}

pub open spec fn triple_field(t: Option<DoubleTriple>) -> Seq<char> {
    match t {
        Some(t) => triple_text(t),
        None => seq![],
    }
}

/// The encoded record of a set of tags: each present tag encoded, each
/// absent one empty.
pub open spec fn record_fields(tags: GpsTags) -> GeoFields {
    GeoFields {
        latitude_ref: match tags.latitude_ref {
            Some(t) => ref_text(latitude_ref_of(t@)),
            None => seq![],
        },
        latitude: triple_field(tags.latitude),
        longitude_ref: match tags.longitude_ref {
            Some(t) => ref_text(longitude_ref_of(t@)),
            None => seq![],
        },
        longitude: triple_field(tags.longitude),
        altitude: match tags.altitude {
            Some(a) => double_text(a),
            None => seq![],
        },
        date_stamp: match tags.date_stamp {
            Some(d) => date_text(d@),
            None => seq![],
        },
        time_stamp: triple_field(tags.time_stamp),
    }
}

fn encode_optional_triple(t: &Option<DoubleTriple>) -> (r: String)
    ensures
        r@ == triple_field(*t),
{
    match t {
        Some(t) => encode_triple(t),
        None => String::new(),
    }
}

/// Encodes every GPS tag that is present.
pub fn decode_geo_record(tags: &GpsTags) -> (r: GeoRecord)
    ensures
        r@ == record_fields(*tags),
{
    let latitude_ref = match &tags.latitude_ref {
        Some(t) => encode_reference(latitude_ref_from(t.as_str())),
        None => String::new(),
    };
    let longitude_ref = match &tags.longitude_ref {
        Some(t) => encode_reference(longitude_ref_from(t.as_str())),
        None => String::new(),
    };
    let altitude = match tags.altitude {
        Some(a) => encode_altitude(a),
        None => String::new(),
    };
    let date_stamp = match &tags.date_stamp {
        Some(d) => convert_date_stamp(d.as_str()),
        None => String::new(),
    };
    GeoRecord {
        latitude_ref,
        latitude: encode_optional_triple(&tags.latitude),
        longitude_ref,
        longitude: encode_optional_triple(&tags.longitude),
        altitude,
        date_stamp,
        time_stamp: encode_optional_triple(&tags.time_stamp),
    }
}

} // verus!
