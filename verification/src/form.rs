//! The post record that a submission builds up, its completeness rules and
//! the choice of its feature image.

use crate::failure::{ErrorKind, Failure, FailureView, Stage};
use crate::text::{
    chars_of, lemma_text_lt_total, lemma_text_lt_transitive, lowercase_text, text_less, text_lt,
};
use vstd::prelude::*;

verus! {

/// What is known of one image.
#[derive(Debug, PartialEq, Eq)]
pub struct ImageMetadata {
    pub file_name: String,
    pub location: String,
    pub coordinates: String,
    pub description: String,
    pub alt_text: String,
    pub caption: String,
    pub image_url: String,
}

pub struct ImageMetadataView {
    pub file_name: Seq<char>,
    pub location: Seq<char>,
    pub coordinates: Seq<char>,
    pub description: Seq<char>,
    pub alt_text: Seq<char>,
    pub caption: Seq<char>,
    pub image_url: Seq<char>,
}

/// The attributes of an image that a submission can set.
#[derive(Clone, Copy, Debug, PartialEq, Eq, Structural)]
pub enum Attribute {
    FileName,
    Location,
    Coordinates,
    Description,
    AltText,
    Caption,
    ImageUrl,
}

impl ImageMetadataView {
    /// The metadata of an image of which nothing is known.
    pub open spec fn empty() -> ImageMetadataView {
        ImageMetadataView {
            file_name: Seq::empty(),
            location: Seq::empty(),
            coordinates: Seq::empty(),
            description: Seq::empty(),
            alt_text: Seq::empty(),
            caption: Seq::empty(),
            image_url: Seq::empty(),
        }
    }

    /// The value of one attribute.
    pub open spec fn get(self, attribute: Attribute) -> Seq<char> {
        match attribute {
            Attribute::FileName => self.file_name,
            Attribute::Location => self.location,
            Attribute::Coordinates => self.coordinates,
            Attribute::Description => self.description,
            Attribute::AltText => self.alt_text,
            Attribute::Caption => self.caption,
            Attribute::ImageUrl => self.image_url,
        }
    }

    /// The same metadata with one attribute replaced.
    pub open spec fn with(self, attribute: Attribute, value: Seq<char>) -> ImageMetadataView {
        match attribute {
            Attribute::FileName => ImageMetadataView { file_name: value, ..self },
            Attribute::Location => ImageMetadataView { location: value, ..self },
            Attribute::Coordinates => ImageMetadataView { coordinates: value, ..self },
            Attribute::Description => ImageMetadataView { description: value, ..self },
            Attribute::AltText => ImageMetadataView { alt_text: value, ..self },
            Attribute::Caption => ImageMetadataView { caption: value, ..self },
            Attribute::ImageUrl => ImageMetadataView { image_url: value, ..self },
        }
    }
}

impl View for ImageMetadata {
    type V = ImageMetadataView;

    open spec fn view(&self) -> ImageMetadataView {
        ImageMetadataView {
            file_name: self.file_name@,
            location: self.location@,
            coordinates: self.coordinates@,
            description: self.description@,
            alt_text: self.alt_text@,
            caption: self.caption@,
            image_url: self.image_url@,
        }
    }
}

impl Clone for ImageMetadata {
    fn clone(&self) -> (r: Self)
        ensures
            r@ == self@,
    {
        ImageMetadata {
            file_name: self.file_name.clone(),
            location: self.location.clone(),
            coordinates: self.coordinates.clone(),
            description: self.description.clone(),
            alt_text: self.alt_text.clone(),
            caption: self.caption.clone(),
            image_url: self.image_url.clone(),
        }
    }
}

impl Default for ImageMetadata {
    fn default() -> (r: Self)
        ensures
            r@ == ImageMetadataView::empty(),
    {
        ImageMetadata {
            file_name: String::new(),
            location: String::new(),
            coordinates: String::new(),
            description: String::new(),
            alt_text: String::new(),
            caption: String::new(),
            image_url: String::new(),
        }
    }
}

impl ImageMetadata {
    /// Replaces one attribute.
    pub fn set(&mut self, attribute: Attribute, value: String)
        ensures
            final(self)@ == old(self)@.with(attribute, value@),
    {
        match attribute {
            Attribute::FileName => self.file_name = value,
            Attribute::Location => self.location = value,
            Attribute::Coordinates => self.coordinates = value,
            Attribute::Description => self.description = value,
            Attribute::AltText => self.alt_text = value,
            Attribute::Caption => self.caption = value,
            Attribute::ImageUrl => self.image_url = value,
        }
    }
}

/// One image of a record, under the key by which the submission names it.
#[derive(Debug, PartialEq, Eq)]
pub struct ImageEntry {
    pub key: String,
    pub metadata: ImageMetadata,
}

pub struct ImageEntryView {
    pub key: Seq<char>,
    pub metadata: ImageMetadataView,
}

impl View for ImageEntry {
    type V = ImageEntryView;

    open spec fn view(&self) -> ImageEntryView {
        ImageEntryView { key: self.key@, metadata: self.metadata@ }
    }
}

impl Clone for ImageEntry {
    fn clone(&self) -> (r: Self)
        ensures
            r@ == self@,
    {
        ImageEntry { key: self.key.clone(), metadata: self.metadata.clone() }
    }
}

/// The views of the entries, in order.
pub open spec fn entry_views(entries: Seq<ImageEntry>) -> Seq<ImageEntryView> {
    entries.map_values(|e: ImageEntry| e@)
}

/// The index of the first entry under `key`, or the number of entries if
/// there is none.
pub open spec fn index_of_key(entries: Seq<ImageEntryView>, key: Seq<char>) -> int
    decreases entries.len(),
{
    if entries.len() == 0 || entries[0].key == key {
        0
    } else {
        1 + index_of_key(entries.skip(1), key)
    }
}

/// Whether an entry stands under `key`.
pub open spec fn has_key(entries: Seq<ImageEntryView>, key: Seq<char>) -> bool {
    index_of_key(entries, key) < entries.len()
}

/// No two entries stand under the same key.
pub open spec fn distinct_keys(entries: Seq<ImageEntryView>) -> bool {
    forall|i: int, j: int|
        0 <= i < j < entries.len() ==> (#[trigger] entries[i]).key != (#[trigger] entries[j]).key
}

/// The metadata under `key`, or empty metadata if nothing stands there.
pub open spec fn metadata_of(entries: Seq<ImageEntryView>, key: Seq<char>) -> ImageMetadataView {
    if has_key(entries, key) {
        entries[index_of_key(entries, key)].metadata
    } else {
        ImageMetadataView::empty()
    }
}

/// The entries with an empty one added under `key`, unless one stands there.
pub open spec fn with_entry(entries: Seq<ImageEntryView>, key: Seq<char>) -> Seq<ImageEntryView> {
    if has_key(entries, key) {
        entries
    } else {
        entries.push(ImageEntryView { key, metadata: ImageMetadataView::empty() })
    }
}

/// The entries after one attribute of the image under `key` is set; the
/// entry is made first if it is not there.
pub open spec fn upserted(
    entries: Seq<ImageEntryView>,
    key: Seq<char>,
    attribute: Attribute,
    value: Seq<char>,
) -> Seq<ImageEntryView> {
    let all = with_entry(entries, key);
    let i = index_of_key(all, key);
    all.update(i, ImageEntryView { key, metadata: all[i].metadata.with(attribute, value) })
}

/// What `index_of_key` finds: the first entry under the key, if any.
pub proof fn lemma_index_of_key(entries: Seq<ImageEntryView>, key: Seq<char>)
    ensures
        0 <= index_of_key(entries, key) <= entries.len(),
        has_key(entries, key) ==> entries[index_of_key(entries, key)].key == key,
        forall|j: int| 0 <= j < index_of_key(entries, key) ==> (#[trigger] entries[j]).key != key,
    decreases entries.len(),
{
    if entries.len() > 0 && entries[0].key != key {
        let rest = entries.skip(1);
        lemma_index_of_key(rest, key);
        assert forall|j: int| 0 <= j < index_of_key(entries, key) implies (
        #[trigger] entries[j]).key != key by {
            if j > 0 {
                assert(rest[j - 1] == entries[j]);
            }
        }
        if has_key(entries, key) {
            assert(rest[index_of_key(rest, key)] == entries[index_of_key(entries, key)]);
        }
    }
}

/// The first index at which a key occurs is its index.
pub proof fn lemma_index_of_key_is(entries: Seq<ImageEntryView>, key: Seq<char>, i: int)
    requires
        0 <= i <= entries.len(),
        i < entries.len() ==> entries[i].key == key,
        forall|j: int| 0 <= j < i ==> (#[trigger] entries[j]).key != key,
    ensures
        index_of_key(entries, key) == i,
    decreases entries.len(),
{
    if entries.len() > 0 && i > 0 {
        let rest = entries.skip(1);
        assert(entries[0].key != key);
        assert forall|j: int| 0 <= j < i - 1 implies (#[trigger] rest[j]).key != key by {
            assert(rest[j] == entries[j + 1]);
        }
        if i < entries.len() {
            assert(rest[i - 1] == entries[i]);
        }
        lemma_index_of_key_is(rest, key, i - 1);
    }
}

/// The record of one post.
#[derive(Debug, PartialEq, Eq)]
pub struct UploadForm {
    pub title: String,
    pub categories: String,
    /// The identifier of the activity on Strava; empty if there is none.
    pub strava: String,
    /// The date of the post, as `YYYY-MM-DD`.
    pub date: String,
    /// The feature image. Before the feature image is resolved, only its
    /// `file_name` counts: it holds the key that the submission asked for.
    pub feature: ImageMetadata,
    /// The images, in the order in which their keys first arrived.
    pub images: Vec<ImageEntry>,
}

pub struct FormView {
    pub title: Seq<char>,
    pub categories: Seq<char>,
    pub strava: Seq<char>,
    pub date: Seq<char>,
    pub feature: ImageMetadataView,
    pub images: Seq<ImageEntryView>,
}

impl FormView {
    /// The record of a submission of which nothing has arrived.
    pub open spec fn empty() -> FormView {
        FormView {
            title: Seq::empty(),
            categories: Seq::empty(),
            strava: Seq::empty(),
            date: Seq::empty(),
            feature: ImageMetadataView::empty(),
            images: Seq::empty(),
        }
    }
}

impl View for UploadForm {
    type V = FormView;

    open spec fn view(&self) -> FormView {
        FormView {
            title: self.title@,
            categories: self.categories@,
            strava: self.strava@,
            date: self.date@,
            feature: self.feature@,
            images: entry_views(self.images@),
        }
    }
}

impl Default for UploadForm {
    fn default() -> (r: Self)
        ensures
            r@ == FormView::empty(),
    {
        let r = UploadForm {
            title: String::new(),
            categories: String::new(),
            strava: String::new(),
            date: String::new(),
            feature: ImageMetadata::default(),
            images: Vec::new(),
        };
        proof {
            assert(entry_views(r.images@) =~= Seq::<ImageEntryView>::empty());
        }
        r
    }
}

/// The first rule of completeness that the record breaks, as a message: the
/// title, the categories, the date and the URL of the feature image must not
/// be empty.
pub open spec fn first_violation(form: FormView) -> Option<Seq<char>> {
    if form.title.len() == 0 {
        Some("Title cannot be empty"@)
    } else if form.categories.len() == 0 {
        Some("Categories cannot be empty"@)
    } else if form.date.len() == 0 {
        Some("Date cannot be empty"@)
    } else if form.feature.image_url.len() == 0 {
        Some("Missing featured image"@)
    } else {
        None
    }
}

/// The index of the first of the smallest keys. Zero if there is no key.
pub open spec fn first_smallest(keys: Seq<Seq<char>>) -> int
    decreases keys.len(),
{
    if keys.len() <= 1 {
        0
    } else {
        let best = first_smallest(keys.drop_last());
        if text_lt(keys.last(), keys[best]) {
            keys.len() - 1
        } else {
            best
        }
    }
}

/// The keys of the entries, each in lowercase.
pub open spec fn lowered_keys(entries: Seq<ImageEntryView>) -> Seq<Seq<char>> {
    entries.map_values(|e: ImageEntryView| lowercase_text(e.key))
}

/// The index of the feature image: that of the key which the submission
/// asked for, if it is not empty and an image stands under it; else that of
/// the key which comes first when the keys are put in lowercase and ordered.
/// None if the record has no image.
pub open spec fn feature_index(form: FormView) -> Option<int> {
    if form.images.len() == 0 {
        None
    } else if form.feature.file_name.len() > 0 && has_key(form.images, form.feature.file_name) {
        Some(index_of_key(form.images, form.feature.file_name))
    } else {
        Some(first_smallest(lowered_keys(form.images)))
    }
}

/// The record with its feature image resolved: the feature is the chosen
/// image's metadata, under the chosen key as its file name.
pub open spec fn resolved(form: FormView) -> Option<FormView> {
    match feature_index(form) {
        None => None,
        Some(i) => Some(
            FormView {
                feature: ImageMetadataView {
                    file_name: form.images[i].key,
                    ..form.images[i].metadata
                },
                ..form
            },
        ),
    }
}

/// The first of the smallest keys lies among the keys, no key comes before
/// it, and every key in front of it comes after it.
pub proof fn lemma_first_smallest(keys: Seq<Seq<char>>)
    requires
        keys.len() > 0,
    ensures
        0 <= first_smallest(keys) < keys.len(),
        forall|j: int| 0 <= j < keys.len() ==> !text_lt(#[trigger] keys[j], keys[first_smallest(keys)]),
        forall|j: int|
            0 <= j < first_smallest(keys) ==> text_lt(keys[first_smallest(keys)], #[trigger] keys[j]),
    decreases keys.len(),
{
    if keys.len() > 1 {
        let front = keys.drop_last();
        lemma_first_smallest(front);
        let best = first_smallest(front);
        let chosen = first_smallest(keys);
        assert(forall|j: int| 0 <= j < front.len() ==> front[j] == keys[j]);
        if text_lt(keys.last(), keys[best]) {
            assert forall|j: int| 0 <= j < keys.len() implies !text_lt(
                #[trigger] keys[j],
                keys[chosen],
            ) by {
                if j < keys.len() - 1 {
                    assert(!text_lt(front[j], front[best]));
                    if text_lt(keys[j], keys[chosen]) {
                        lemma_text_lt_transitive(keys[j], keys[chosen], keys[best]);
                    }
                } else {
                    lemma_text_lt_total(keys[j], keys[j]);
                }
            }
            assert forall|j: int| 0 <= j < chosen implies text_lt(keys[chosen], #[trigger] keys[j]) by {
                assert(!text_lt(front[j], front[best]));
                lemma_text_lt_total(keys[j], keys[best]);
                if keys[j] != keys[best] {
                    lemma_text_lt_transitive(keys[chosen], keys[best], keys[j]);
                }
            }
        } else {
            assert forall|j: int| 0 <= j < keys.len() implies !text_lt(
                #[trigger] keys[j],
                keys[chosen],
            ) by {
                if j < keys.len() - 1 {
                    assert(!text_lt(front[j], front[best]));
                }
            }
            assert forall|j: int| 0 <= j < chosen implies text_lt(keys[chosen], #[trigger] keys[j]) by {
                assert(text_lt(front[best], front[j]));
            }
        }
    } else {
        lemma_text_lt_total(keys[0], keys[0]);
    }
}

/// The image that the submission asks for by a key that is not empty, and
/// that the record has, is the feature image, whatever the other keys are.
pub proof fn lemma_asked_image_is_chosen(form: FormView)
    requires
        form.feature.file_name.len() > 0,
        has_key(form.images, form.feature.file_name),
    ensures
        resolved(form) is Some,
        resolved(form)->0.feature == (ImageMetadataView {
            file_name: form.feature.file_name,
            ..metadata_of(form.images, form.feature.file_name)
        }),
{
    lemma_index_of_key(form.images, form.feature.file_name);
}

/// A record has a feature image if and only if it has an image. The feature
/// image is one of the images of the record, under its key as file name, and
/// resolving it changes nothing else.
pub proof fn lemma_feature_is_an_image(form: FormView)
    ensures
        resolved(form) is None <==> form.images.len() == 0,
        resolved(form) matches Some(with_feature) ==> {
            &&& with_feature == (FormView { feature: with_feature.feature, ..form })
            &&& exists|i: int|
                0 <= i < form.images.len() && with_feature.feature == (ImageMetadataView {
                    file_name: (#[trigger] form.images[i]).key,
                    ..form.images[i].metadata
                })
        },
{
    if form.images.len() > 0 {
        lemma_index_of_key(form.images, form.feature.file_name);
        assert(lowered_keys(form.images).len() == form.images.len());
        lemma_first_smallest(lowered_keys(form.images));
        let i = feature_index(form)->0;
        assert(0 <= i < form.images.len());
        assert(resolved(form)->0.feature == (ImageMetadataView {
            file_name: form.images[i].key,
            ..form.images[i].metadata
        }));
    }
}

/// Where the submission asks for no image that the record has, the feature
/// image is the first of those whose key, in lowercase, no other key in
/// lowercase comes before.
pub proof fn lemma_fallback_is_smallest(form: FormView)
    requires
        form.images.len() > 0,
        form.feature.file_name.len() == 0 || !has_key(form.images, form.feature.file_name),
    ensures
        feature_index(form) is Some,
        0 <= feature_index(form)->0 < form.images.len(),
        forall|j: int|
            0 <= j < form.images.len() ==> !text_lt(
                lowercase_text((#[trigger] form.images[j]).key),
                lowercase_text(form.images[feature_index(form)->0].key),
            ),
        forall|j: int|
            0 <= j < feature_index(form)->0 ==> text_lt(
                lowercase_text(form.images[feature_index(form)->0].key),
                lowercase_text((#[trigger] form.images[j]).key),
            ),
{
    let keys = lowered_keys(form.images);
    lemma_first_smallest(keys);
    let best = first_smallest(keys);
    assert forall|j: int| 0 <= j < form.images.len() implies !text_lt(
        lowercase_text((#[trigger] form.images[j]).key),
        lowercase_text(form.images[best].key),
    ) by {
        assert(keys[j] == lowercase_text(form.images[j].key));
        assert(!text_lt(keys[j], keys[best]));
    }
    assert forall|j: int| 0 <= j < best implies text_lt(
        lowercase_text(form.images[best].key),
        lowercase_text((#[trigger] form.images[j]).key),
    ) by {
        assert(keys[j] == lowercase_text(form.images[j].key));
        assert(text_lt(keys[best], keys[j]));
    }
}

/// Setting an attribute keeps the keys distinct.
pub proof fn lemma_upserted_keeps_keys_distinct(
    entries: Seq<ImageEntryView>,
    key: Seq<char>,
    attribute: Attribute,
    value: Seq<char>,
)
    requires
        distinct_keys(entries),
    ensures
        distinct_keys(upserted(entries, key, attribute, value)),
        upserted(entries, key, attribute, value).len() >= entries.len(),
{
    let all = with_entry(entries, key);
    lemma_index_of_key(entries, key);
    if !has_key(entries, key) {
        lemma_index_of_key_is(all, key, entries.len() as int);
    }
    let i = index_of_key(all, key);
    let changed = upserted(entries, key, attribute, value);
    assert forall|a: int, b: int| 0 <= a < b < changed.len() implies (#[trigger] changed[a]).key != (
    #[trigger] changed[b]).key by {
        assert(changed[a].key == all[a].key);
        assert(changed[b].key == all[b].key);
        if b < entries.len() {
            assert(entries[a].key != entries[b].key);
        } else {
            assert(entries[a].key != key);
        }
    }
}

/// The failure of a record without any image.
pub open spec fn no_main_image() -> FailureView {
    FailureView {
        stage: Stage::Resolve,
        kind: ErrorKind::ValidationFailed,
        message: "No main image specified or found"@,
    }
}

impl UploadForm {
    /// The index of the first image under `key`, or the number of images if
    /// there is none.
    pub fn find_image(&self, key: &str) -> (i: usize)
        ensures
            i == index_of_key(self@.images, key@),
            i <= self.images.len(),
    {
        let ghost all = entry_views(self.images@);
        let wanted = key.to_string();
        let mut i: usize = 0;
        while i < self.images.len() && !self.images[i].key.eq(&wanted)
            invariant
                wanted@ == key@,
                i <= self.images.len(),
                all == entry_views(self.images@),
                forall|j: int| 0 <= j < i ==> (#[trigger] all[j]).key != key@,
            decreases self.images.len() - i,
        {
            i += 1;
        }
        proof {
            lemma_index_of_key_is(all, key@, i as int);
        }
        i
    }

    /// The index of the image under `key`; an empty image is added under the
    /// key first if none stands there.
    pub fn image_slot(&mut self, key: &str) -> (i: usize)
        ensures
            final(self)@ == (FormView { images: with_entry(old(self)@.images, key@), ..old(self)@ }),
            i == index_of_key(final(self)@.images, key@),
            i < final(self).images.len(),
            final(self)@.images[i as int].key == key@,
    {
        let i = self.find_image(key);
        proof {
            lemma_index_of_key(self@.images, key@);
        }
        if i == self.images.len() {
            let ghost before = self@.images;
            self.images.push(ImageEntry { key: key.to_string(), metadata: ImageMetadata::default() });
            proof {
                let added = ImageEntryView { key: key@, metadata: ImageMetadataView::empty() };
                assert(self@.images =~= before.push(added));
                lemma_index_of_key_is(self@.images, key@, i as int);
            }
        }
        i
    }

    /// Sets one attribute of the image under `key`; the image is added first
    /// if none stands under the key.
    pub fn upsert(&mut self, key: &str, attribute: Attribute, value: String)
        ensures
            final(self)@ == (FormView {
                images: upserted(old(self)@.images, key@, attribute, value@),
                ..old(self)@
            }),
    {
        let i = self.image_slot(key);
        let ghost all = self@.images;
        self.images[i].metadata.set(attribute, value);
        proof {
            assert(self@.images =~= all.update(
                i as int,
                ImageEntryView { key: key@, metadata: all[i as int].metadata.with(attribute, value@) },
            ));
        }
    }

    /// Checks the rules of completeness and reports the first that is broken.
    pub fn validate(&self) -> (r: Result<(), String>)
        ensures
            match r {
                Ok(()) => first_violation(self@) is None,
                Err(message) => first_violation(self@) == Some(message@),
            },
    {
        if self.title.as_str().is_empty() {
            return Err("Title cannot be empty".to_string());
        }
        if self.categories.as_str().is_empty() {
            return Err("Categories cannot be empty".to_string());
        }
        if self.date.as_str().is_empty() {
            return Err("Date cannot be empty".to_string());
        }
        if self.feature.image_url.as_str().is_empty() {
            return Err("Missing featured image".to_string());
        }
        Ok(())
    }

    /// The index of the image whose key, in lowercase, comes first.
    fn first_image_by_key(&self) -> (best: usize)
        requires
            self.images.len() > 0,
        ensures
            best == first_smallest(lowered_keys(self@.images)),
            best < self.images.len(),
    {
        let ghost keys = lowered_keys(self@.images);
        let mut best: usize = 0;
        let mut best_key = chars_of(self.images[0].key.as_str().to_lowercase().as_str());
        let mut i: usize = 1;
        proof {
            assert(keys.take(1).drop_last() =~= keys.take(0));
        }
        while i < self.images.len()
            invariant
                1 <= i <= self.images.len(),
                keys == lowered_keys(self@.images),
                best < i,
                best == first_smallest(keys.take(i as int)),
                best_key@ == keys[best as int],
            decreases self.images.len() - i,
        {
            let key = chars_of(self.images[i].key.as_str().to_lowercase().as_str());
            proof {
                assert(keys.take(i + 1).drop_last() =~= keys.take(i as int));
                assert(keys.take(i + 1).last() == keys[i as int]);
                assert(keys.take(i + 1)[best as int] == keys[best as int]);
            }
            if text_less(&key, &best_key) {
                best = i;
                best_key = key;
            }
            i += 1;
        }
        proof {
            assert(keys.take(self.images.len() as int) =~= keys);
        }
        best
    }

    /// Chooses the feature image and copies it into the record, or fails and
    /// leaves the record unchanged if the record has no image.
    pub fn resolve_feature(&mut self) -> (r: Result<(), Failure>)
        ensures
            match r {
                Ok(()) => resolved(old(self)@) == Some(final(self)@),
                Err(failure) => {
                    &&& resolved(old(self)@) is None
                    &&& final(self)@ == old(self)@
                    &&& failure@ == no_main_image()
                },
            },
    {
        if self.images.len() == 0 {
            return Err(
                Failure {
                    stage: Stage::Resolve,
                    kind: ErrorKind::ValidationFailed,
                    message: "No main image specified or found".to_string(),
                },
            );
        }
        let mut chosen = self.images.len();
        if !self.feature.file_name.as_str().is_empty() {
            chosen = self.find_image(self.feature.file_name.as_str());
        }
        if chosen == self.images.len() {
            chosen = self.first_image_by_key();
        }
        proof {
            lemma_first_smallest(lowered_keys(self@.images));
        }
        let entry = self.images[chosen].clone();
        let mut feature = entry.metadata;
        feature.file_name = entry.key;
        self.feature = feature;
        Ok(())
    }
}

} // verus!
