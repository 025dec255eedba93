use plogtion::geo::{Geocoding, Location};

fn place(levels: [&str; 6]) -> Location {
    Location {
        geocoding: Geocoding {
            suburb: levels[0].to_string(),
            town: levels[1].to_string(),
            city: levels[2].to_string(),
            municipality: levels[3].to_string(),
            province: levels[4].to_string(),
            country: levels[5].to_string(),
        },
        latitude: "1".to_string(),
        longitude: "2".to_string(),
    }
}

#[test]
fn payload_with_suburb_and_country_is_normalized() {
    let location = Location::parse(
        r#"{"geocoding":{"suburb":"X","country":"Y"},"latitude":1.0,"longitude":2.0}"#,
    )
    .unwrap();
    assert_eq!(location.geocoding_as_string(), "X, Y");
    assert_eq!(location.coordinates(), "1,2");
}

#[test]
fn payload_levels_are_read_by_name() {
    let location = Location::parse(
        r#"{"longitude":10.75,"latitude":-59.5,"geocoding":{"country":"Norway","province":"P","municipality":"M","city":"C","town":"T","suburb":"S","other":3}}"#,
    )
    .unwrap();
    assert_eq!(
        location,
        Location {
            geocoding: Geocoding {
                suburb: "S".to_string(),
                town: "T".to_string(),
                city: "C".to_string(),
                municipality: "M".to_string(),
                province: "P".to_string(),
                country: "Norway".to_string(),
            },
            latitude: "-59.5".to_string(),
            longitude: "10.75".to_string(),
        }
    );
    assert_eq!(location.geocoding_as_string(), "S, T, C, M, P, Norway");
    assert_eq!(location.coordinates(), "-59.5,10.75");
}

#[test]
fn whole_numbers_are_printed_without_fraction() {
    let location =
        Location::parse(r#"{"geocoding":{"country":"Y"},"latitude":60,"longitude":-5}"#).unwrap();
    assert_eq!(location.latitude, "60");
    assert_eq!(location.longitude, "-5");
    assert_eq!(location.coordinates(), "60,-5");
    assert_eq!(location.geocoding_as_string(), "Y");
}

#[test]
fn payloads_of_the_wrong_shape_are_refused() {
    assert_eq!(Location::parse(""), None);
    assert_eq!(Location::parse("not json"), None);
    assert_eq!(Location::parse("[1,2]"), None);
    assert_eq!(Location::parse(r#"{"latitude":1.0,"longitude":2.0}"#), None);
    assert_eq!(
        Location::parse(r#"{"geocoding":{"suburb":"X"},"latitude":1.0,"longitude":2.0}"#),
        None
    );
    assert_eq!(
        Location::parse(r#"{"geocoding":{"country":"Y","city":7},"latitude":1.0,"longitude":2.0}"#),
        None
    );
    assert_eq!(
        Location::parse(r#"{"geocoding":{"country":null},"latitude":1.0,"longitude":2.0}"#),
        None
    );
    assert_eq!(
        Location::parse(r#"{"geocoding":{"country":"Y"},"latitude":"1.0","longitude":2.0}"#),
        None
    );
    assert_eq!(Location::parse(r#"{"geocoding":{"country":"Y"},"latitude":1.0}"#), None);
    assert_eq!(
        Location::parse(r#"{"geocoding":"Y","latitude":1.0,"longitude":2.0}"#),
        None
    );
    assert_eq!(
        Location::parse(r#"{"geocoding":{"country":"Y"},"latitude":1.0,"longitude":2.0} x"#),
        None
    );
}

#[test]
fn from_json_reads_a_parsed_document() {
    let doc: serde_json::Value =
        serde_json::from_str(r#"{"geocoding":{"town":"T","country":"Y"},"latitude":0.25,"longitude":100}"#)
            .unwrap();
    let location = Location::from_json(&doc).unwrap();
    assert_eq!(location.geocoding.town, "T");
    assert_eq!(location.geocoding.suburb, "");
    assert_eq!(location.coordinates(), "0.25,100");
    let place = Geocoding::from_json(&doc["geocoding"]).unwrap();
    assert_eq!(place.country, "Y");
    assert_eq!(Geocoding::from_json(&doc), None);
    assert_eq!(Location::from_json(&doc["geocoding"]), None);
}

#[test]
fn place_name_skips_empty_levels() {
    assert_eq!(place(["", "", "", "", "", ""]).geocoding_as_string(), "");
    assert_eq!(place(["", "T", "", "", "", "Y"]).geocoding_as_string(), "T, Y");
    assert_eq!(place(["S", "", "C", "", "P", ""]).geocoding_as_string(), "S, C, P");
    assert_eq!(place(["A", "A", "A", "A", "A", "A"]).geocoding_as_string(), "A, A, A, A, A, A");
}
