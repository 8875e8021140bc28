use nkscgeosync::codec::{
    convert_date_stamp, decode_triple, encode_altitude, encode_reference, encode_triple,
    latitude_ref_from, longitude_ref_from, DoubleTriple, GpsRef,
};

fn triple(a: f64, b: f64, c: f64) -> DoubleTriple {
    DoubleTriple { first: a.to_bits(), second: b.to_bits(), third: c.to_bits() }
}

#[test]
fn reference_codes_encode_as_padded_little_endian_integers() {
    assert_eq!(encode_reference(latitude_ref_from("N")), "AAAAAA==");
    assert_eq!(encode_reference(latitude_ref_from("S")), "AQAAAA==");
    assert_eq!(encode_reference(longitude_ref_from("E")), "AgAAAA==");
    assert_eq!(encode_reference(longitude_ref_from("W")), "AwAAAA==");
}

#[test]
fn reference_text_other_than_north_or_east_counts_as_south_or_west() {
    assert_eq!(latitude_ref_from("X"), GpsRef::South);
    assert_eq!(latitude_ref_from(""), GpsRef::South);
    assert_eq!(latitude_ref_from("NN"), GpsRef::South);
    assert_eq!(longitude_ref_from("e"), GpsRef::West);
}

#[test]
fn reference_encodings_hold_exactly_two_padding_characters() {
    for r in [GpsRef::North, GpsRef::South, GpsRef::East, GpsRef::West] {
        let s = encode_reference(r);
        assert_eq!(s.matches('=').count(), 2);
        assert!(s.ends_with("=="));
    }
}

#[test]
fn latitude_triple_round_trips_exactly() {
    let t = triple(40.0, 26.0, 46.56);
    let s = encode_triple(&t);
    assert_eq!(s, "AAAAAAAAREAAAAAAAAA6QEjhehSuR0dA");
    let back = decode_triple(&s).expect("decodes");
    assert_eq!(f64::from_bits(back.first), 40.0);
    assert_eq!(f64::from_bits(back.second), 26.0);
    assert_eq!(f64::from_bits(back.third), 46.56);
    assert_eq!(back, t);
}

#[test]
fn triple_encodings_never_hold_padding() {
    for (a, b, c) in [(0.0, 0.0, 0.0), (13.0, 45.0, 7.0), (-1.5, 59.999, 1e300)] {
        let s = encode_triple(&triple(a, b, c));
        assert_eq!(s.len(), 32);
        assert!(!s.contains('='));
    }
    assert_eq!(encode_triple(&triple(13.0, 45.0, 7.0)), "AAAAAAAAKkAAAAAAAIBGQAAAAAAAABxA");
}

#[test]
fn decode_triple_rejects_what_is_no_triple_encoding() {
    assert_eq!(decode_triple(""), None);
    assert_eq!(decode_triple("AAAAAA=="), None);
    assert_eq!(decode_triple("AAAAAAAAREAAAAAAAAA6QEjhehSuR0d"), None);
    assert_eq!(decode_triple("AAAAAAAAREAAAAAAAAA6QEjhehSuR0d!"), None);
    assert_eq!(decode_triple("AAAAAAAAREAAAAAAAAA6QEjhehSuR0dAAAAA"), None);
}

#[test]
fn altitude_encoding_holds_exactly_one_padding_character() {
    let s = encode_altitude(123.5f64.to_bits());
    assert_eq!(s, "AAAAAADgXkA=");
    assert_eq!(s.matches('=').count(), 1);
    assert_eq!(encode_altitude(0), "AAAAAAAAAAA=");
}

#[test]
fn date_stamp_dashes_become_colons() {
    assert_eq!(convert_date_stamp("2020-05-14"), "2020:05:14");
    assert_eq!(convert_date_stamp(""), "");
    assert_eq!(convert_date_stamp("2020:05:14"), "2020:05:14");
    assert_eq!(convert_date_stamp("--"), "::");
}
