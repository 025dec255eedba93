use plogtion::failure::{ErrorKind, Stage};
use plogtion::form::{Attribute, ImageEntry, ImageMetadata, UploadForm};

fn image(key: &str, url: &str) -> ImageEntry {
    ImageEntry {
        key: key.to_string(),
        metadata: ImageMetadata {
            image_url: url.to_string(),
            description: format!("about {key}"),
            ..Default::default()
        },
    }
}

fn complete() -> UploadForm {
    UploadForm {
        title: "T".to_string(),
        categories: "c".to_string(),
        strava: String::new(),
        date: "2023-10-01".to_string(),
        feature: ImageMetadata { image_url: "u".to_string(), ..Default::default() },
        images: Vec::new(),
    }
}

#[test]
fn a_complete_record_is_valid() {
    assert_eq!(complete().validate(), Ok(()));
}

#[test]
fn validation_reports_the_first_broken_rule() {
    let mut form = UploadForm::default();
    assert_eq!(form.validate(), Err("Title cannot be empty".to_string()));
    form.title = "T".to_string();
    assert_eq!(form.validate(), Err("Categories cannot be empty".to_string()));
    form.categories = "c".to_string();
    assert_eq!(form.validate(), Err("Date cannot be empty".to_string()));
    form.date = "2023-10-01".to_string();
    assert_eq!(form.validate(), Err("Missing featured image".to_string()));
    form.feature.image_url = "u".to_string();
    assert_eq!(form.validate(), Ok(()));
}

#[test]
fn a_record_missing_its_date_is_invalid() {
    let mut form = complete();
    form.date = String::new();
    assert_eq!(form.validate(), Err("Date cannot be empty".to_string()));
}

#[test]
fn the_smallest_key_is_chosen_without_a_wish() {
    let mut form = complete();
    form.feature = ImageMetadata::default();
    form.images = vec![image("b.jpg", "ub"), image("a.jpg", "ua")];
    assert!(form.resolve_feature().is_ok());
    assert_eq!(form.feature.file_name, "a.jpg");
    assert_eq!(form.feature.image_url, "ua");
    assert_eq!(form.feature.description, "about a.jpg");
    assert_eq!(form.images.len(), 2);
    assert_eq!(form.images[0].key, "b.jpg");
}

#[test]
fn the_wished_key_is_chosen_whatever_the_order() {
    let mut form = complete();
    form.feature = ImageMetadata { file_name: "b.jpg".to_string(), ..Default::default() };
    form.images = vec![image("c.jpg", "uc"), image("b.jpg", "ub"), image("a.jpg", "ua")];
    assert!(form.resolve_feature().is_ok());
    assert_eq!(form.feature.file_name, "b.jpg");
    assert_eq!(form.feature.image_url, "ub");
    assert_eq!(form.feature.description, "about b.jpg");
}

#[test]
fn a_wish_for_a_missing_key_falls_back_to_the_smallest() {
    let mut form = complete();
    form.feature = ImageMetadata { file_name: "z.jpg".to_string(), ..Default::default() };
    form.images = vec![image("c.jpg", "uc"), image("b.jpg", "ub")];
    assert!(form.resolve_feature().is_ok());
    assert_eq!(form.feature.file_name, "b.jpg");
}

#[test]
fn keys_are_compared_in_lowercase() {
    let mut form = complete();
    form.images = vec![image("b.jpg", "u1"), image("C.jpg", "u2"), image("A.JPG", "u3")];
    form.feature = ImageMetadata::default();
    assert!(form.resolve_feature().is_ok());
    assert_eq!(form.feature.file_name, "A.JPG");

    let mut form = complete();
    form.images = vec![image("Z.jpg", "u1"), image("b.jpg", "u2")];
    form.feature = ImageMetadata::default();
    assert!(form.resolve_feature().is_ok());
    assert_eq!(form.feature.file_name, "b.jpg");
}

#[test]
fn of_keys_that_are_equal_in_lowercase_the_first_is_chosen() {
    let mut form = complete();
    form.images = vec![image("b", "u0"), image("A.jpg", "u1"), image("a.jpg", "u2")];
    form.feature = ImageMetadata::default();
    assert!(form.resolve_feature().is_ok());
    assert_eq!(form.feature.file_name, "A.jpg");
    assert_eq!(form.feature.image_url, "u1");
}

#[test]
fn a_record_without_images_has_no_feature_image() {
    let mut form = complete();
    let failure = form.resolve_feature().unwrap_err();
    assert_eq!(failure.stage, Stage::Resolve);
    assert_eq!(failure.kind, ErrorKind::ValidationFailed);
    assert_eq!(failure.message, "No main image specified or found");
    assert_eq!(form, complete());
}

#[test]
fn upsert_creates_the_image_once_and_sets_one_attribute() {
    let mut form = UploadForm::default();
    form.upsert("a.jpg", Attribute::Caption, "Cap".to_string());
    form.upsert("b.jpg", Attribute::AltText, "Alt".to_string());
    form.upsert("a.jpg", Attribute::Description, "Desc".to_string());
    form.upsert("a.jpg", Attribute::Caption, "Cap 2".to_string());
    form.upsert("a.jpg", Attribute::Location, "L".to_string());
    form.upsert("a.jpg", Attribute::Coordinates, "1,2".to_string());
    form.upsert("a.jpg", Attribute::FileName, "a.jpg".to_string());
    form.upsert("a.jpg", Attribute::ImageUrl, "u".to_string());
    assert_eq!(
        form.images,
        vec![
            ImageEntry {
                key: "a.jpg".to_string(),
                metadata: ImageMetadata {
                    file_name: "a.jpg".to_string(),
                    location: "L".to_string(),
                    coordinates: "1,2".to_string(),
                    description: "Desc".to_string(),
                    alt_text: String::new(),
                    caption: "Cap 2".to_string(),
                    image_url: "u".to_string(),
                },
            },
            ImageEntry {
                key: "b.jpg".to_string(),
                metadata: ImageMetadata { alt_text: "Alt".to_string(), ..Default::default() },
            },
        ]
    );
}

#[test]
fn find_image_gives_the_first_index_or_the_length() {
    let mut form = UploadForm::default();
    form.images = vec![image("a", "1"), image("b", "2"), image("a", "3")];
    assert_eq!(form.find_image("a"), 0);
    assert_eq!(form.find_image("b"), 1);
    assert_eq!(form.find_image("c"), 3);
    assert_eq!(form.find_image(""), 3);
    assert_eq!(form.image_slot("b"), 1);
    assert_eq!(form.images.len(), 3);
    assert_eq!(form.image_slot("c"), 3);
    assert_eq!(form.images.len(), 4);
    assert_eq!(form.images[3], ImageEntry { key: "c".to_string(), metadata: ImageMetadata::default() });
}

#[test]
fn a_cloned_image_is_the_same_image() {
    let entry = image("a", "1");
    assert_eq!(entry.clone(), entry);
    let mut metadata = entry.metadata.clone();
    metadata.set(Attribute::AltText, "x".to_string());
    assert_eq!(metadata.alt_text, "x");
    assert_eq!(metadata.image_url, "1");
}
