use plogtion::failure::{ErrorKind, Stage};
use plogtion::fields::{demultiplex, route_field, rules, Field, FilePart, Incoming, Route, Submission};
use plogtion::form::{ImageEntry, ImageMetadata};

fn text(name: &str, value: &str) -> Field {
    Field {
        name: name.to_string(),
        text: value.to_string(),
        file_name: String::new(),
        content_type: None,
        bytes: Vec::new(),
    }
}

fn file(file_name: &str, content_type: Option<&str>, bytes: &[u8]) -> Field {
    Field {
        name: "filepond".to_string(),
        text: String::new(),
        file_name: file_name.to_string(),
        content_type: content_type.map(|t| t.to_string()),
        bytes: bytes.to_vec(),
    }
}

fn parts(fields: Vec<Field>) -> Vec<Incoming> {
    fields.into_iter().map(Incoming::Part).collect()
}

const PAYLOAD: &str =
    r#"{"geocoding":{"suburb":"X","country":"Y"},"latitude":1.0,"longitude":2.0}"#;

#[test]
fn exact_names_are_routed_without_a_key() {
    assert_eq!(route_field("token"), (Route::Token, String::new()));
    assert_eq!(route_field("title"), (Route::Title, String::new()));
    assert_eq!(route_field("strava"), (Route::Strava, String::new()));
    assert_eq!(route_field("date"), (Route::Date, String::new()));
    assert_eq!(route_field("categories"), (Route::Categories, String::new()));
    assert_eq!(route_field("feature_image"), (Route::FeatureImage, String::new()));
    assert_eq!(route_field("filepond"), (Route::File, String::new()));
}

#[test]
fn endings_are_routed_with_the_key_in_front_of_them() {
    assert_eq!(route_field("a.jpg_alt_text"), (Route::AltText, "a.jpg".to_string()));
    assert_eq!(route_field("a.jpg_caption"), (Route::Caption, "a.jpg".to_string()));
    assert_eq!(route_field("a.jpg_description"), (Route::Description, "a.jpg".to_string()));
    assert_eq!(route_field("a.jpg_location"), (Route::Location, "a.jpg".to_string()));
    assert_eq!(route_field("_caption"), (Route::Caption, String::new()));
    assert_eq!(route_field("x_caption_alt_text"), (Route::AltText, "x_caption".to_string()));
    assert_eq!(route_field("title_caption"), (Route::Caption, "title".to_string()));
    assert_eq!(route_field("blå bær_caption"), (Route::Caption, "blå bær".to_string()));
}

#[test]
fn other_names_are_unknown() {
    assert_eq!(route_field(""), (Route::Unknown, String::new()));
    assert_eq!(route_field("Title"), (Route::Unknown, String::new()));
    assert_eq!(route_field("title "), (Route::Unknown, String::new()));
    assert_eq!(route_field("a.jpg_title"), (Route::Unknown, String::new()));
    assert_eq!(route_field("caption"), (Route::Unknown, String::new()));
    assert_eq!(route_field("a_caption_"), (Route::Unknown, String::new()));
}

#[test]
fn the_table_has_the_exact_names_first() {
    let table = rules();
    assert_eq!(table.len(), 11);
    assert!(table[..7].iter().all(|rule| rule.exact));
    assert!(table[7..].iter().all(|rule| !rule.exact));
    assert_eq!(table[0].text, "token");
    assert_eq!(table[10].text, "_location");
    assert_eq!(table[10].route, Route::Location);
}

#[test]
fn scalar_fields_fill_the_record() {
    let mut s = Submission::new();
    assert!(s.absorb(text("token", " secret ")).is_ok());
    assert!(s.absorb(text("title", "  My Trip \n")).is_ok());
    assert!(s.absorb(text("strava", "123")).is_ok());
    assert!(s.absorb(text("date", "2024-05-06")).is_ok());
    assert!(s.absorb(text("categories", "a, b")).is_ok());
    assert!(s.absorb(text("feature_image", "b.jpg")).is_ok());
    assert_eq!(s.token, " secret ");
    assert_eq!(s.form.title, "My Trip");
    assert_eq!(s.form.strava, "123");
    assert_eq!(s.form.date, "2024-05-06");
    assert_eq!(s.form.categories, "a, b");
    assert_eq!(s.form.feature.file_name, "b.jpg");
    assert!(s.form.images.is_empty());
    assert!(s.files.is_empty());
}

#[test]
fn image_fields_fill_the_image_under_their_key() {
    let mut s = Submission::new();
    assert!(s.absorb(text("a.jpg_caption", " Cap ")).is_ok());
    assert!(s.absorb(text("a.jpg_alt_text", "Alt")).is_ok());
    assert!(s.absorb(text("a.jpg_description", "one\r\ntwo\r\n")).is_ok());
    assert!(s.absorb(text("a.jpg_location", PAYLOAD)).is_ok());
    assert!(s.absorb(file("a.jpg", Some("image/png"), &[1, 2, 3])).is_ok());
    assert_eq!(
        s.form.images,
        vec![ImageEntry {
            key: "a.jpg".to_string(),
            metadata: ImageMetadata {
                file_name: "a.jpg".to_string(),
                location: "X, Y".to_string(),
                coordinates: "1,2".to_string(),
                description: "one\ntwo\n".to_string(),
                alt_text: "Alt".to_string(),
                caption: " Cap ".to_string(),
                image_url: String::new(),
            },
        }]
    );
    assert_eq!(
        s.files,
        vec![FilePart {
            file_name: "a.jpg".to_string(),
            content_type: "image/png".to_string(),
            bytes: vec![1, 2, 3],
        }]
    );
}

#[test]
fn a_file_without_a_type_is_a_jpeg() {
    let mut s = Submission::new();
    assert!(s.absorb(file("b.jpg", None, &[9])).is_ok());
    assert_eq!(s.files[0].content_type, "image/jpeg");
    assert_eq!(s.files[0].bytes, vec![9]);
    assert_eq!(s.form.images[0].key, "b.jpg");
    assert_eq!(s.form.images[0].metadata.file_name, "b.jpg");
}

#[test]
fn a_payload_that_cannot_be_read_changes_nothing() {
    let mut s = Submission::new();
    assert!(s.absorb(text("b.jpg_location", "{")).is_ok());
    assert!(s.form.images.is_empty());
    assert!(s.absorb(text("a.jpg_location", PAYLOAD)).is_ok());
    assert!(s.absorb(text("a.jpg_location", r#"{"geocoding":{}}"#)).is_ok());
    assert_eq!(s.form.images.len(), 1);
    assert_eq!(s.form.images[0].metadata.location, "X, Y");
    assert_eq!(s.form.images[0].metadata.coordinates, "1,2");
}

#[test]
fn a_field_that_the_form_does_not_have_is_refused() {
    let mut s = Submission::new();
    assert!(s.absorb(text("title", "T")).is_ok());
    let failure = s.absorb(text("colour", "red")).unwrap_err();
    assert_eq!(failure.stage, Stage::Demultiplex);
    assert_eq!(failure.kind, ErrorKind::BadInput);
    assert_eq!(failure.message, "Unexpected field: colour");
    assert_eq!(failure.status_code(), 400);
    assert_eq!(s.form.title, "T");
}

#[test]
fn a_broken_stream_is_refused() {
    let mut s = Submission::new();
    let failure = s.receive(Incoming::Broken).unwrap_err();
    assert_eq!(failure.stage, Stage::Demultiplex);
    assert_eq!(failure.kind, ErrorKind::BadInput);
    assert_eq!(failure.message, "Failed to read multipart field");
    assert_eq!(s, Submission::new());
}

#[test]
fn demultiplex_takes_the_items_in_order() {
    let s = demultiplex(parts(vec![
        text("title", "One"),
        text("b.jpg_caption", "B"),
        text("a.jpg_caption", "A"),
        text("title", "Two"),
        file("c.jpg", None, &[7]),
        text("a.jpg_caption", "A2"),
    ]))
    .unwrap();
    assert_eq!(s.form.title, "Two");
    let keys: Vec<&str> = s.form.images.iter().map(|e| e.key.as_str()).collect();
    assert_eq!(keys, vec!["b.jpg", "a.jpg", "c.jpg"]);
    assert_eq!(s.form.images[1].metadata.caption, "A2");
    assert_eq!(s.files.len(), 1);
    assert_eq!(demultiplex(Vec::new()).unwrap(), Submission::new());
}

#[test]
fn demultiplex_stops_at_the_first_item_that_is_refused() {
    let failure = demultiplex(parts(vec![
        text("title", "One"),
        text("first", ""),
        text("second", ""),
    ]))
    .unwrap_err();
    assert_eq!(failure.message, "Unexpected field: first");

    let mut items = parts(vec![text("title", "One")]);
    items.push(Incoming::Broken);
    items.push(Incoming::Part(text("nope", "")));
    let failure = demultiplex(items).unwrap_err();
    assert_eq!(failure.message, "Failed to read multipart field");
}

fn permutations(n: usize) -> Vec<Vec<usize>> {
    if n == 0 {
        return vec![Vec::new()];
    }
    let mut all = Vec::new();
    for shorter in permutations(n - 1) {
        for at in 0..n {
            let mut longer = shorter.clone();
            longer.insert(at, n - 1);
            all.push(longer);
        }
    }
    all
}

#[test]
fn the_fields_of_an_image_may_arrive_in_any_order() {
    let fields = || {
        vec![
            text("a.jpg_alt_text", "Alt"),
            text("a.jpg_caption", "Cap"),
            text("a.jpg_description", "D\r\nE"),
            text("a.jpg_location", PAYLOAD),
            file("a.jpg", None, &[1]),
        ]
    };
    let expected = ImageMetadata {
        file_name: "a.jpg".to_string(),
        location: "X, Y".to_string(),
        coordinates: "1,2".to_string(),
        description: "D\nE".to_string(),
        alt_text: "Alt".to_string(),
        caption: "Cap".to_string(),
        image_url: String::new(),
    };
    let orders = permutations(5);
    assert_eq!(orders.len(), 120);
    for order in orders {
        let mut pool: Vec<Option<Field>> = fields().into_iter().map(Some).collect();
        let mut items = vec![Incoming::Part(text("other.jpg_caption", "O"))];
        for i in order {
            items.push(Incoming::Part(pool[i].take().unwrap()));
        }
        let s = demultiplex(items).unwrap();
        assert_eq!(s.form.images.len(), 2);
        assert_eq!(s.form.images[1].key, "a.jpg");
        assert_eq!(s.form.images[1].metadata, expected);
        assert_eq!(s.form.images[0].metadata.caption, "O");
    }
}
