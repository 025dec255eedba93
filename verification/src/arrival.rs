//! The order in which the fields of an image arrive does not matter.

use crate::failure::FailureView;
use crate::fields::{
    absorbed, key_of, received, received_all, route_of, with_location, FieldView, IncomingView,
    Route, SubmissionView,
};
use crate::form::{
    has_key, index_of_key, lemma_index_of_key, lemma_index_of_key_is, metadata_of, upserted,
    with_entry, Attribute, ImageEntryView, ImageMetadataView,
};
use crate::geo::{coordinates_text, decoded_location, place_name};
use crate::text::unix_newlines;
use vstd::prelude::*;

verus! {

/// The value that a field sets for one attribute of the image under `key`,
/// if it sets one.
pub open spec fn written(field: FieldView, key: Seq<char>, attribute: Attribute) -> Option<
    Seq<char>,
> {
    match route_of(field.name) {
        Route::AltText => if key_of(field.name) == key && attribute == Attribute::AltText {
            Some(field.text)
        } else {
            None
        },
        Route::Caption => if key_of(field.name) == key && attribute == Attribute::Caption {
            Some(field.text)
        } else {
            None
        },
        Route::Description => if key_of(field.name) == key && attribute == Attribute::Description {
            Some(unix_newlines(field.text))
        } else {
            None
        },
        Route::Location => match decoded_location(field.text) {
            Some(location) => if key_of(field.name) == key && attribute == Attribute::Location {
                Some(place_name(location.geocoding))
            } else if key_of(field.name) == key && attribute == Attribute::Coordinates {
                Some(coordinates_text(location))
            } else {
                None
            },
            None => None,
        },
        Route::File => if field.file_name == key && attribute == Attribute::FileName {
            Some(field.file_name)
        } else {
            None
        },
        _ => None,
    }
}

/// The value that an item of the stream sets for one attribute of the image
/// under `key`, if it sets one.
pub open spec fn written_by(item: IncomingView, key: Seq<char>, attribute: Attribute) -> Option<
    Seq<char>,
> {
    match item {
        IncomingView::Part(field) => written(field, key, attribute),
        IncomingView::Broken => None,
    }
}

/// The value of an attribute after the items: what the last item that sets
/// it gives, or `before` if none sets it.
pub open spec fn last_written(
    items: Seq<IncomingView>,
    key: Seq<char>,
    attribute: Attribute,
    before: Seq<char>,
) -> Seq<char>
    decreases items.len(),
{
    if items.len() == 0 {
        before
    } else {
        match written_by(items.last(), key, attribute) {
            Some(value) => value,
            None => last_written(items.drop_last(), key, attribute, before),
        }
    }
}

/// No two items set the same attribute of the image under `key`.
pub open spec fn single_writer(items: Seq<IncomingView>, key: Seq<char>) -> bool {
    forall|i: int, j: int, attribute: Attribute|
        0 <= i < j < items.len() ==> !(#[trigger] written_by(items[i], key, attribute) is Some
            && #[trigger] written_by(items[j], key, attribute) is Some)
}

/// Whether an item is taken in: a field that the form has.
pub open spec fn acceptable(item: IncomingView) -> bool {
    match item {
        IncomingView::Part(field) => route_of(field.name) != Route::Unknown,
        IncomingView::Broken => false,
    }
}

/// Setting an attribute of one image changes that attribute of that image
/// and nothing else.
pub proof fn lemma_upserted_metadata(
    entries: Seq<ImageEntryView>,
    key: Seq<char>,
    attribute: Attribute,
    value: Seq<char>,
    other: Seq<char>,
)
    ensures
        metadata_of(upserted(entries, key, attribute, value), other) == if other == key {
            metadata_of(entries, key).with(attribute, value)
        } else {
            metadata_of(entries, other)
        },
{
    let all = with_entry(entries, key);
    lemma_index_of_key(entries, key);
    if !has_key(entries, key) {
        lemma_index_of_key_is(all, key, entries.len() as int);
    }
    let i = index_of_key(all, key);
    let changed = upserted(entries, key, attribute, value);
    assert(changed.len() == all.len());
    if other == key {
        lemma_index_of_key_is(changed, key, i);
    } else {
        lemma_index_of_key(entries, other);
        let j = index_of_key(entries, other);
        if j < entries.len() {
            assert(all[j] == entries[j]);
            lemma_index_of_key_is(changed, other, j);
        } else {
            assert forall|m: int| 0 <= m < changed.len() implies (#[trigger] changed[m]).key
                != other by {
                if m < entries.len() {
                    assert(entries[m].key != other);
                }
            }
            lemma_index_of_key_is(changed, other, changed.len() as int);
        }
    }
}

proof fn lemma_with_get(
    metadata: ImageMetadataView,
    set: Attribute,
    value: Seq<char>,
    attribute: Attribute,
)
    ensures
        metadata.with(set, value).get(attribute) == if set == attribute {
            value
        } else {
            metadata.get(attribute)
        },
{
}

/// What one field does to one attribute of one image.
proof fn lemma_absorbed_metadata(
    s: SubmissionView,
    field: FieldView,
    key: Seq<char>,
    attribute: Attribute,
)
    requires
        absorbed(s, field) is Ok,
    ensures
        metadata_of(absorbed(s, field)->Ok_0.form.images, key).get(attribute) == match written(
            field,
            key,
            attribute,
        ) {
            Some(value) => value,
            None => metadata_of(s.form.images, key).get(attribute),
        },
{
    let images = s.form.images;
    let own = key_of(field.name);
    let old = metadata_of(images, key);
    match route_of(field.name) {
        Route::AltText => {
            lemma_upserted_metadata(images, own, Attribute::AltText, field.text, key);
            lemma_with_get(metadata_of(images, own), Attribute::AltText, field.text, attribute);
        },
        Route::Caption => {
            lemma_upserted_metadata(images, own, Attribute::Caption, field.text, key);
            lemma_with_get(metadata_of(images, own), Attribute::Caption, field.text, attribute);
        },
        Route::Description => {
            let text = unix_newlines(field.text);
            lemma_upserted_metadata(images, own, Attribute::Description, text, key);
            lemma_with_get(metadata_of(images, own), Attribute::Description, text, attribute);
        },
        Route::Location => {
            match decoded_location(field.text) {
                Some(location) => {
                    let name = place_name(location.geocoding);
                    let coordinates = coordinates_text(location);
                    let named = upserted(images, own, Attribute::Location, name);
                    lemma_upserted_metadata(images, own, Attribute::Location, name, key);
                    lemma_upserted_metadata(named, own, Attribute::Coordinates, coordinates, key);
                    lemma_upserted_metadata(images, own, Attribute::Location, name, own);
                    lemma_with_get(metadata_of(images, own), Attribute::Location, name, attribute);
                    lemma_with_get(
                        metadata_of(named, own),
                        Attribute::Coordinates,
                        coordinates,
                        attribute,
                    );
                    assert(absorbed(s, field)->Ok_0.form.images == with_location(
                        images,
                        own,
                        field.text,
                    ));
                },
                None => {
                    assert(absorbed(s, field)->Ok_0.form.images == with_location(
                        images,
                        own,
                        field.text,
                    ));
                },
            }
        },
        Route::File => {
            lemma_upserted_metadata(
                images,
                field.file_name,
                Attribute::FileName,
                field.file_name,
                key,
            );
            lemma_with_get(
                metadata_of(images, field.file_name),
                Attribute::FileName,
                field.file_name,
                attribute,
            );
        },
        _ => {},
    }
}

/// A stream is taken in if and only if each of its items is.
pub proof fn lemma_received_ok(s: SubmissionView, items: Seq<IncomingView>)
    ensures
        received_all(s, items) is Ok <==> forall|i: int|
            0 <= i < items.len() ==> acceptable(#[trigger] items[i]),
    decreases items.len(),
{
    if items.len() > 0 {
        let front = items.drop_last();
        lemma_received_ok(s, front);
        assert(forall|i: int| 0 <= i < front.len() ==> front[i] == items[i]);
        if received_all(s, items) is Ok {
            assert forall|i: int| 0 <= i < items.len() implies acceptable(#[trigger] items[i]) by {
                if i < front.len() {
                    assert(acceptable(front[i]));
                }
            }
        } else if received_all(s, front) is Ok {
            assert(!acceptable(items[items.len() - 1]));
        } else {
            let i = choose|i: int| 0 <= i < front.len() && !acceptable(#[trigger] front[i]);
            assert(!acceptable(items[i]));
        }
    }
}

/// After a stream is taken in, each attribute of each image holds what the
/// last item that sets it gave, or what it held before if none sets it.
pub proof fn lemma_received_metadata(
    s: SubmissionView,
    items: Seq<IncomingView>,
    key: Seq<char>,
    attribute: Attribute,
)
    requires
        received_all(s, items) is Ok,
    ensures
        metadata_of(received_all(s, items)->Ok_0.form.images, key).get(attribute) == last_written(
            items,
            key,
            attribute,
            metadata_of(s.form.images, key).get(attribute),
        ),
    decreases items.len(),
{
    if items.len() > 0 {
        let front = items.drop_last();
        lemma_received_metadata(s, front, key, attribute);
        let before = received_all(s, front)->Ok_0;
        match items.last() {
            IncomingView::Part(field) => {
                lemma_absorbed_metadata(before, field, key, attribute);
            },
            IncomingView::Broken => {},
        }
    }
}

/// Where no two items set the same attribute of an image, an item that sets
/// an attribute of it decides that attribute.
proof fn lemma_single_writer_decides(
    items: Seq<IncomingView>,
    i: int,
    key: Seq<char>,
    attribute: Attribute,
    before: Seq<char>,
)
    requires
        single_writer(items, key),
        0 <= i < items.len(),
        written_by(items[i], key, attribute) is Some,
    ensures
        last_written(items, key, attribute, before) == written_by(items[i], key, attribute)->0,
    decreases items.len(),
{
    let last = items.len() - 1;
    if i < last {
        assert(written_by(items[last], key, attribute) is None);
        let front = items.drop_last();
        assert(single_writer(front, key)) by {
            assert forall|a: int, b: int, t: Attribute| 0 <= a < b < front.len() implies !(
            #[trigger] written_by(front[a], key, t) is Some && #[trigger] written_by(
                front[b],
                key,
                t,
            ) is Some) by {
                assert(front[a] == items[a]);
                assert(front[b] == items[b]);
            }
        }
        assert(front[i] == items[i]);
        lemma_single_writer_decides(front, i, key, attribute, before);
    }
}

/// The last item that sets an attribute, or -1 if no item sets it.
proof fn lemma_last_writer(
    items: Seq<IncomingView>,
    key: Seq<char>,
    attribute: Attribute,
    before: Seq<char>,
) -> (j: int)
    ensures
        -1 <= j < items.len(),
        j >= 0 ==> written_by(items[j], key, attribute) == Some(
            last_written(items, key, attribute, before),
        ),
        j == -1 ==> last_written(items, key, attribute, before) == before,
        j == -1 ==> forall|i: int|
            0 <= i < items.len() ==> written_by(#[trigger] items[i], key, attribute) is None,
    decreases items.len(),
{
    if items.len() == 0 {
        -1
    } else if written_by(items.last(), key, attribute) is Some {
        items.len() - 1
    } else {
        let front = items.drop_last();
        let j = lemma_last_writer(front, key, attribute, before);
        assert(forall|i: int| 0 <= i < front.len() ==> front[i] == items[i]);
        if j == -1 {
            assert forall|i: int| 0 <= i < items.len() implies written_by(
                #[trigger] items[i],
                key,
                attribute,
            ) is None by {
                if i < front.len() {
                    assert(written_by(front[i], key, attribute) is None);
                }
            }
        }
        j
    }
}

/// Each item of one of two streams with the same items is an item of the
/// other.
proof fn lemma_same_items(a: Seq<IncomingView>, b: Seq<IncomingView>, j: int) -> (i: int)
    requires
        a.to_multiset() == b.to_multiset(),
        0 <= j < b.len(),
    ensures
        0 <= i < a.len(),
        a[i] == b[j],
{
    a.to_multiset_ensures();
    b.to_multiset_ensures();
    assert(b.contains(b[j]));
    assert(b.to_multiset().count(b[j]) > 0);
    assert(a.to_multiset().count(b[j]) > 0);
    assert(a.contains(b[j]));
    choose|i: int| 0 <= i < a.len() && a[i] == b[j]
}

proof fn lemma_same_attribute(
    s: SubmissionView,
    a: Seq<IncomingView>,
    b: Seq<IncomingView>,
    key: Seq<char>,
    attribute: Attribute,
)
    requires
        a.to_multiset() == b.to_multiset(),
        single_writer(a, key),
        received_all(s, a) is Ok,
        received_all(s, b) is Ok,
    ensures
        metadata_of(received_all(s, a)->Ok_0.form.images, key).get(attribute) == metadata_of(
            received_all(s, b)->Ok_0.form.images,
            key,
        ).get(attribute),
{
    let before = metadata_of(s.form.images, key).get(attribute);
    lemma_received_metadata(s, a, key, attribute);
    lemma_received_metadata(s, b, key, attribute);
    let j = lemma_last_writer(b, key, attribute, before);
    if j >= 0 {
        let i = lemma_same_items(a, b, j);
        lemma_single_writer_decides(a, i, key, attribute, before);
    } else {
        let m = lemma_last_writer(a, key, attribute, before);
        if m >= 0 {
            let n = lemma_same_items(b, a, m);
            assert(written_by(b[n], key, attribute) is None);
        }
    }
}

/// The order of arrival does not matter. Let two streams hold the same
/// items, each as often as the other, and let no two items set the same
/// attribute of the image under `key`. If one stream is taken in, so is the
/// other, and the image has the same metadata after the one as after the
/// other.
pub proof fn lemma_arrival_order_is_irrelevant(
    s: SubmissionView,
    a: Seq<IncomingView>,
    b: Seq<IncomingView>,
    key: Seq<char>,
)
    requires
        a.to_multiset() == b.to_multiset(),
        single_writer(a, key),
        received_all(s, a) is Ok,
    ensures
        received_all(s, b) is Ok,
        metadata_of(received_all(s, a)->Ok_0.form.images, key) == metadata_of(
            received_all(s, b)->Ok_0.form.images,
            key,
        ),
{
    lemma_received_ok(s, a);
    lemma_received_ok(s, b);
    assert forall|j: int| 0 <= j < b.len() implies acceptable(#[trigger] b[j]) by {
        let i = lemma_same_items(a, b, j);
        assert(acceptable(a[i]));
    }
    lemma_same_attribute(s, a, b, key, Attribute::FileName);
    lemma_same_attribute(s, a, b, key, Attribute::Location);
    lemma_same_attribute(s, a, b, key, Attribute::Coordinates);
    lemma_same_attribute(s, a, b, key, Attribute::Description);
    lemma_same_attribute(s, a, b, key, Attribute::AltText);
    lemma_same_attribute(s, a, b, key, Attribute::Caption);
    lemma_same_attribute(s, a, b, key, Attribute::ImageUrl);
}

} // verus!
