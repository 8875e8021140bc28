use nkscgeosync::codec::DoubleTriple;
use nkscgeosync::fragment::build_fragment;
use nkscgeosync::record::{decode_geo_record, GeoRecord, GpsTags};
use nkscgeosync::sidecar::{
    classify, patch_sidecar, plan_sync, sidecar_has_geo_block, sync_sidecar, PatchError,
    SyncOptions, SyncState,
};
use nkscgeosync::store::{backup_path, should_back_up, sidecar_path};

const SIDECAR: &str = "<x:xmpmeta>\n <rdf:RDF>\n  <rdf:Description rdf:about=\"\">\n     <ast:Other>1</ast:Other>\n  </rdf:Description>\n </rdf:RDF>\n</x:xmpmeta>\n";

fn tags() -> GpsTags {
    GpsTags {
        has_version: true,
        latitude_ref: Some("N".to_string()),
        latitude: Some(DoubleTriple {
            first: 40.0f64.to_bits(),
            second: 26.0f64.to_bits(),
            third: 46.56f64.to_bits(),
        }),
        longitude_ref: Some("W".to_string()),
        longitude: Some(DoubleTriple {
            first: 79.0f64.to_bits(),
            second: 58.0f64.to_bits(),
            third: 56.0f64.to_bits(),
        }),
        altitude: Some(123.5f64.to_bits()),
        date_stamp: Some("2020-05-14".to_string()),
        time_stamp: Some(DoubleTriple {
            first: 13.0f64.to_bits(),
            second: 45.0f64.to_bits(),
            third: 7.0f64.to_bits(),
        }),
    }
}

fn bare_tags() -> GpsTags {
    GpsTags { altitude: None, date_stamp: None, time_stamp: None, ..tags() }
}

fn options() -> SyncOptions {
    SyncOptions { write_enabled: true, show_everything: true, backup_original: true }
}

#[test]
fn record_encodes_every_present_tag() {
    let r = decode_geo_record(&tags());
    assert_eq!(r.latitude_ref, "AAAAAA==");
    assert_eq!(r.longitude_ref, "AwAAAA==");
    assert_eq!(r.latitude, "AAAAAAAAREAAAAAAAAA6QEjhehSuR0dA");
    assert_eq!(r.altitude, "AAAAAADgXkA=");
    assert_eq!(r.date_stamp, "2020:05:14");
    assert_eq!(r.time_stamp, "AAAAAAAAKkAAAAAAAIBGQAAAAAAAABxA");
}

#[test]
fn absent_tags_give_empty_fields() {
    let r = decode_geo_record(&bare_tags());
    assert_eq!(r.altitude, "");
    assert_eq!(r.date_stamp, "");
    assert_eq!(r.time_stamp, "");
    assert_eq!(r.latitude_ref, "AAAAAA==");
}

#[test]
fn fragment_without_optional_fields_holds_only_the_core_blocks() {
    let f = build_fragment(&decode_geo_record(&bare_tags()));
    for name in ["GPSVersionID", "GPSLatitudeRef", "GPSLatitude ", "GPSLongitudeRef", "GPSLongitude ", "GPSMapDatum"] {
        assert!(f.contains(name), "{}", name);
    }
    assert!(!f.contains("GPSAltitude"));
    assert!(!f.contains("GPSDateStamp"));
    assert!(!f.contains("GPSTimeStamp"));
    assert!(f.contains("<rdf:value>WGS-84</rdf:value>"));
    assert!(f.contains("<rdf:value>AgIAAA==</rdf:value>\n            <astype:Type>Binary</astype:Type>"));
}

#[test]
fn fragment_with_optional_fields_holds_their_blocks_in_order() {
    let f = build_fragment(&decode_geo_record(&tags()));
    let datum = f.find("GPSMapDatum").unwrap();
    let alt_ref = f.find("GPSAltitudeRef").unwrap();
    let date = f.find("GPSDateStamp").unwrap();
    let time = f.find("GPSTimeStamp").unwrap();
    assert!(datum < alt_ref && alt_ref < date && date < time);
    assert!(f.contains("<rdf:value>AA==</rdf:value>"));
    assert!(f.contains("<rdf:value>2020:05:14</rdf:value>\n            <astype:Type>Ascii</astype:Type>"));
    assert!(f.contains("<rdf:value>AAAAAADgXkA=</rdf:value>\n            <astype:Type>Double</astype:Type>"));
}

#[test]
fn patch_inserts_new_lines_before_the_anchor_line() {
    let rec = decode_geo_record(&bare_tags());
    let out = patch_sidecar(SIDECAR, &rec).unwrap();
    let frag = build_fragment(&rec);
    let expected = SIDECAR.replace(
        "<ast:Other>1</ast:Other>\n  </rdf:Description>",
        &format!("<ast:Other>1</ast:Other>\n{}  </rdf:Description>", frag),
    );
    assert_eq!(out, expected);
    assert!(frag.starts_with("         <ast:GPSVersionID rdf:parseType=\"Resource\">\n"));
    assert!(frag.ends_with("</ast:GPSMapDatum>\n"));
    assert!(out.contains("</ast:Other>\n         <ast:GPSVersionID"));
    assert!(out.contains("</ast:GPSMapDatum>\n  </rdf:Description>"));
}

#[test]
fn patch_without_anchor_fails() {
    let rec = decode_geo_record(&tags());
    assert_eq!(patch_sidecar("<x>no description</x>", &rec).unwrap_err(), PatchError::MissingAnchor);
}

#[test]
fn patch_with_anchor_on_first_line_inserts_before_it() {
    let rec = decode_geo_record(&bare_tags());
    let out = patch_sidecar("</rdf:Description>", &rec).unwrap();
    assert_eq!(out, format!("{}</rdf:Description>", build_fragment(&rec)));
    let out = patch_sidecar("a</rdf:Description>\nb", &rec).unwrap();
    assert_eq!(out, format!("{}a</rdf:Description>\nb", build_fragment(&rec)));
}

#[test]
fn geo_block_is_detected_by_its_marker() {
    assert!(!sidecar_has_geo_block(SIDECAR));
    assert!(sidecar_has_geo_block("<ast:GPSLatitude rdf:parseType=\"Resource\">"));
    assert!(!sidecar_has_geo_block("<ast:GPSLatitudeRef rdf:parseType=\"Resource\">"));
}

#[test]
fn classification_covers_four_states() {
    assert_eq!(classify(false, true), SyncState::NeedsWrite);
    assert_eq!(classify(false, false), SyncState::NoGeoData);
    assert_eq!(classify(true, true), SyncState::InSync);
    assert_eq!(classify(true, false), SyncState::SidecarOnly);
}

#[test]
fn plan_follows_the_modes() {
    let quiet = SyncOptions { write_enabled: false, show_everything: false, backup_original: false };
    let p = plan_sync(SyncState::NeedsWrite, true, &quiet);
    assert!(p.report && p.decode && !p.patch);
    let p = plan_sync(SyncState::NeedsWrite, true, &options());
    assert!(p.report && p.decode && p.patch);
    let p = plan_sync(SyncState::NoGeoData, true, &options());
    assert!(p.report && !p.decode && !p.patch);
    let p = plan_sync(SyncState::NoGeoData, true, &quiet);
    assert!(!p.report && !p.decode && !p.patch);
    let p = plan_sync(SyncState::InSync, true, &quiet);
    assert!(!p.report && !p.decode && !p.patch);
    let p = plan_sync(SyncState::InSync, true, &options());
    assert!(p.report && p.decode && !p.patch);
    let p = plan_sync(SyncState::SidecarOnly, true, &options());
    assert!(p.report && p.decode && !p.patch);
    let p = plan_sync(SyncState::NeedsWrite, false, &options());
    assert!(p.report && p.decode && !p.patch);
}

#[test]
fn second_sync_step_changes_nothing() {
    let first = sync_sidecar(SIDECAR, &tags(), &options()).unwrap();
    assert_eq!(first.plan.state, SyncState::NeedsWrite);
    let once = first.new_text.expect("patched");
    let second = sync_sidecar(&once, &tags(), &options()).unwrap();
    assert_eq!(second.plan.state, SyncState::InSync);
    assert!(second.new_text.is_none());
    assert_eq!(once.matches("GPSVersionID rdf").count(), 1);
}

#[test]
fn list_only_mode_never_writes() {
    let opts = SyncOptions { write_enabled: false, ..options() };
    let out = sync_sidecar(SIDECAR, &tags(), &opts).unwrap();
    assert!(out.new_text.is_none());
    assert!(out.record.is_some());
}

#[test]
fn image_without_gps_is_never_written() {
    let no_gps = GpsTags { has_version: false, ..tags() };
    let out = sync_sidecar(SIDECAR, &no_gps, &options()).unwrap();
    assert_eq!(out.plan.state, SyncState::NoGeoData);
    assert!(out.new_text.is_none());
    assert!(out.record.is_none());
}

#[test]
fn sync_on_sidecar_without_anchor_fails() {
    let r = sync_sidecar("<x/>", &tags(), &options());
    assert_eq!(r.unwrap_err(), PatchError::MissingAnchor);
}

#[test]
fn backup_is_made_only_once() {
    assert!(should_back_up(true, false));
    assert!(!should_back_up(true, true));
    assert!(!should_back_up(false, false));
    assert!(!should_back_up(false, true));
}

#[test]
fn paths_follow_the_naming_convention() {
    assert_eq!(sidecar_path("/photos", "DSC_0001.NEF"), "/photos/NKSC_PARAM/DSC_0001.NEF.nksc");
    assert_eq!(backup_path("/photos/NKSC_PARAM/DSC_0001.NEF.nksc"), "/photos/NKSC_PARAM/DSC_0001.NEF.nksc.original");
}

#[test]
fn record_fields_can_be_built_directly() {
    let rec = GeoRecord {
        latitude_ref: "AAAAAA==".to_string(),
        latitude: "A".to_string(),
        longitude_ref: "AgAAAA==".to_string(),
        longitude: "B".to_string(),
        altitude: String::new(),
        date_stamp: String::new(),
        time_stamp: "C".to_string(),
    };
    let f = build_fragment(&rec);
    assert!(f.ends_with("</ast:GPSTimeStamp>\n"));
    assert!(!f.contains("GPSAltitude"));
}

#[test]
fn image_without_coordinates_is_never_written() {
    let no_coordinates = GpsTags { latitude: None, ..tags() };
    let out = sync_sidecar(SIDECAR, &no_coordinates, &options()).unwrap();
    assert_eq!(out.plan.state, SyncState::NeedsWrite);
    assert!(!out.plan.patch);
    assert!(out.new_text.is_none());
}

#[test]
fn many_sync_steps_insert_one_block() {
    let mut text = SIDECAR.to_string();
    for _ in 0..3 {
        let out = sync_sidecar(&text, &tags(), &options()).unwrap();
        if let Some(t) = out.new_text {
            text = t;
        }
    }
    assert_eq!(text.matches("<ast:GPSVersionID").count(), 1);
}
