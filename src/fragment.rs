//! The geolocation fragment inserted into a sidecar: one resource block per
//! field, each declaring the type of its payload.
use vstd::prelude::*;
use vstd::string::*;
use crate::record::{GeoFields, GeoRecord};

verus! {

/// One resource block, as whole lines (each ending in a line break).
pub open spec fn block(name: Seq<char>, value: Seq<char>, ty: Seq<char>) -> Seq<char> {
    "         <ast:"@ + name + " rdf:parseType=\"Resource\">\n            <rdf:value>"@ + value
        + "</rdf:value>\n            <astype:Type>"@ + ty + "</astype:Type>\n         </ast:"@ + name
        + ">\n"@
}

/// The blocks that every fragment holds: the version identifier, both
/// references and coordinates, and the map datum.
pub open spec fn core_blocks(r: GeoFields) -> Seq<char> {
    block("GPSVersionID"@, "AgIAAA=="@, "Binary"@) + block(
        "GPSLatitudeRef"@,
        r.latitude_ref,
        "Long"@,
    ) + block("GPSLatitude"@, r.latitude, "Double"@) + block(
        "GPSLongitudeRef"@,
        r.longitude_ref,
        "Long"@,
    ) + block("GPSLongitude"@, r.longitude, "Double"@) + block(
        "GPSMapDatum"@,
        "WGS-84"@,
        "Ascii"@,
    )
}

/// The altitude reference and altitude blocks, when there is an altitude.
pub open spec fn altitude_blocks(r: GeoFields) -> Seq<char> {
    if r.altitude.len() == 0 {
        seq![]
    } else {
        block("GPSAltitudeRef"@, "AA=="@, "Binary"@) + block("GPSAltitude"@, r.altitude, "Double"@)
    }
}

/// The date-stamp block, when there is a date stamp.
pub open spec fn date_block(r: GeoFields) -> Seq<char> {
    if r.date_stamp.len() == 0 {
        seq![]
    } else {
        block("GPSDateStamp"@, r.date_stamp, "Ascii"@)
    }
}

/// The time-stamp block, when there is a time stamp.
pub open spec fn time_block(r: GeoFields) -> Seq<char> {
    if r.time_stamp.len() == 0 {
        seq![]
    } else {
        block("GPSTimeStamp"@, r.time_stamp, "Double"@)
    }
}

/// The whole fragment for a record.
pub open spec fn fragment_text(r: GeoFields) -> Seq<char> {
    core_blocks(r) + altitude_blocks(r) + date_block(r) + time_block(r)
}

fn push_block(out: &mut String, name: &str, value: &str, ty: &str)
    ensures
        final(out)@ == old(out)@ + block(name@, value@, ty@),
{
    out.append("         <ast:");
    out.append(name);
    out.append(" rdf:parseType=\"Resource\">\n            <rdf:value>");
    out.append(value);
    out.append("</rdf:value>\n            <astype:Type>");
    out.append(ty);
    out.append("</astype:Type>\n         </ast:");
    out.append(name);
    out.append(">\n");
    assert(final(out)@ =~= old(out)@ + block(name@, value@, ty@));
}

/// Builds the fragment for a record.
pub fn build_fragment(rec: &GeoRecord) -> (r: String)
    ensures
        r@ == fragment_text(rec@),
{
    let mut out = String::new();
    push_block(&mut out, "GPSVersionID", "AgIAAA==", "Binary");
    push_block(&mut out, "GPSLatitudeRef", rec.latitude_ref.as_str(), "Long");
    push_block(&mut out, "GPSLatitude", rec.latitude.as_str(), "Double");
    push_block(&mut out, "GPSLongitudeRef", rec.longitude_ref.as_str(), "Long");
    push_block(&mut out, "GPSLongitude", rec.longitude.as_str(), "Double");
    push_block(&mut out, "GPSMapDatum", "WGS-84", "Ascii");
    let ghost core = out@;
    assert(core =~= core_blocks(rec@));
    if !rec.altitude.as_str().is_empty() {
        push_block(&mut out, "GPSAltitudeRef", "AA==", "Binary");
        push_block(&mut out, "GPSAltitude", rec.altitude.as_str(), "Double");
    }
    assert(out@ =~= core + altitude_blocks(rec@));
    let ghost with_altitude = out@;
    if !rec.date_stamp.as_str().is_empty() {
        push_block(&mut out, "GPSDateStamp", rec.date_stamp.as_str(), "Ascii");
    }
    assert(out@ =~= with_altitude + date_block(rec@));
    let ghost with_date = out@;
    if !rec.time_stamp.as_str().is_empty() {
        push_block(&mut out, "GPSTimeStamp", rec.time_stamp.as_str(), "Double");
    }
    assert(out@ =~= with_date + time_block(rec@));
    out
}

/// With no altitude, date or time stamp, the fragment is the core blocks and
/// nothing else; whatever the record, it starts with them.
pub proof fn lemma_optional_fields_omitted(r: GeoFields)
    ensures
        core_blocks(r).is_prefix_of(fragment_text(r)),
        r.altitude.len() == 0 && r.date_stamp.len() == 0 && r.time_stamp.len() == 0
            ==> fragment_text(r) == core_blocks(r),
{
    assert(core_blocks(r) =~= fragment_text(r).subrange(0, core_blocks(r).len() as int));
    if r.altitude.len() == 0 && r.date_stamp.len() == 0 && r.time_stamp.len() == 0 {
        assert(fragment_text(r) =~= core_blocks(r));
    }
}

} // verus!
