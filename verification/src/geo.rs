//! Places: from a reverse-geocoding payload to a name and coordinates.

use crate::json::{
    json_member, json_model, json_number, json_text, member_of, parse_json, parsed_json,
    JsonModel,
};
use crate::text::{join_texts, join_with, text_views};
use vstd::prelude::*;

verus! {

/// The levels of a place, from the most specific to the least. A level that
/// is not known is empty.
#[derive(Debug, PartialEq, Eq)]
pub struct Geocoding {
    pub suburb: String,
    pub town: String,
    pub city: String,
    pub municipality: String,
    pub province: String,
    pub country: String,
}

pub struct GeocodingView {
    pub suburb: Seq<char>,
    pub town: Seq<char>,
    pub city: Seq<char>,
    pub municipality: Seq<char>,
    pub province: Seq<char>,
    pub country: Seq<char>,
}

impl View for Geocoding {
    type V = GeocodingView;

    open spec fn view(&self) -> GeocodingView {
        GeocodingView {
            suburb: self.suburb@,
            town: self.town@,
            city: self.city@,
            municipality: self.municipality@,
            province: self.province@,
            country: self.country@,
        }
    }
}

/// A place with its coordinates. Latitude and longitude are held as the
/// numerals that the payload's numbers have in default float formatting.
#[derive(Debug, PartialEq, Eq)]
pub struct Location {
    pub geocoding: Geocoding,
    pub latitude: String,
    pub longitude: String,
}

pub struct LocationView {
    pub geocoding: GeocodingView,
    pub latitude: Seq<char>,
    pub longitude: Seq<char>,
}

impl View for Location {
    type V = LocationView;

    open spec fn view(&self) -> LocationView {
        LocationView {
            geocoding: self.geocoding@,
            latitude: self.latitude@,
            longitude: self.longitude@,
        }
    }
}

/// The levels of a place in the order in which they are shown.
pub open spec fn levels(place: GeocodingView) -> Seq<Seq<char>> {
    seq![
        place.suburb,
        place.town,
        place.city,
        place.municipality,
        place.province,
        place.country,
    ]
}

/// The parts that are not empty, in order.
pub open spec fn non_empty_parts(parts: Seq<Seq<char>>) -> Seq<Seq<char>>
    decreases parts.len(),
{
    if parts.len() == 0 {
        Seq::empty()
    } else if parts.last().len() == 0 {
        non_empty_parts(parts.drop_last())
    } else {
        non_empty_parts(parts.drop_last()).push(parts.last())
    }
}

/// The name of a place: its known levels, separated by a comma and a space.
pub open spec fn place_name(place: GeocodingView) -> Seq<char> {
    join_with(non_empty_parts(levels(place)), ", "@)
}

/// The coordinates of a location as one text: latitude, comma, longitude.
pub open spec fn coordinates_text(location: LocationView) -> Seq<char> {
    location.latitude + ","@ + location.longitude
}

/// The text under `key` in an object: `None` if there is no such member or if
/// it is no string.
pub open spec fn required_text_of(doc: JsonModel, key: Seq<char>) -> Option<Seq<char>> {
    match member_of(doc, key) {
        Some(JsonModel::Text(text)) => Some(text),
        _ => None,
    }
}

/// The text under `key` in an object, empty if there is no such member:
/// `None` if the member is no string.
pub open spec fn optional_text_of(doc: JsonModel, key: Seq<char>) -> Option<Seq<char>> {
    match member_of(doc, key) {
        Some(JsonModel::Text(text)) => Some(text),
        Some(_) => None,
        None => Some(Seq::empty()),
    }
}

/// The numeral under `key` in an object: `None` if there is no such member or
/// if it is no number.
pub open spec fn required_number_of(doc: JsonModel, key: Seq<char>) -> Option<Seq<char>> {
    match member_of(doc, key) {
        Some(JsonModel::Number(numeral)) => Some(numeral),
        _ => None,
    }
}

/// The place that a geocoding object holds. The country is required, every
/// other level may be missing; a level that is present must be a string.
pub open spec fn geocoding_of(doc: JsonModel) -> Option<GeocodingView> {
    if required_text_of(doc, "country"@) is Some && optional_text_of(doc, "suburb"@) is Some
        && optional_text_of(doc, "town"@) is Some && optional_text_of(doc, "city"@) is Some
        && optional_text_of(doc, "municipality"@) is Some && optional_text_of(doc, "province"@)
        is Some {
        Some(
            GeocodingView {
                suburb: optional_text_of(doc, "suburb"@)->0,
                town: optional_text_of(doc, "town"@)->0,
                city: optional_text_of(doc, "city"@)->0,
                municipality: optional_text_of(doc, "municipality"@)->0,
                province: optional_text_of(doc, "province"@)->0,
                country: required_text_of(doc, "country"@)->0,
            },
        )
    } else {
        None
    }
}

/// The location that a payload holds: an object with a geocoding object
/// under `geocoding` and numbers under `latitude` and `longitude`.
pub open spec fn location_of(doc: JsonModel) -> Option<LocationView> {
    match member_of(doc, "geocoding"@) {
        Some(place) => if geocoding_of(place) is Some && required_number_of(doc, "latitude"@)
            is Some && required_number_of(doc, "longitude"@) is Some {
            Some(
                LocationView {
                    geocoding: geocoding_of(place)->0,
                    latitude: required_number_of(doc, "latitude"@)->0,
                    longitude: required_number_of(doc, "longitude"@)->0,
                },
            )
        } else {
            None
        },
        None => None,
    }
}

/// The location that a payload text holds, if it is a JSON document of the
/// right shape.
pub open spec fn decoded_location(text: Seq<char>) -> Option<LocationView> {
    match parsed_json(text) {
        Some(doc) => location_of(doc),
        None => None,
    }
}

pub open spec fn text_option_view(text: Option<String>) -> Option<Seq<char>> {
    match text {
        Some(t) => Some(t@),
        None => None,
    }
}

pub open spec fn geocoding_option_view(place: Option<Geocoding>) -> Option<GeocodingView> {
    match place {
        Some(p) => Some(p@),
        None => None,
    }
}

pub open spec fn location_option_view(location: Option<Location>) -> Option<LocationView> {
    match location {
        Some(l) => Some(l@),
        None => None,
    }
}

proof fn lemma_non_empty_push(parts: Seq<Seq<char>>, part: Seq<char>)
    ensures
        non_empty_parts(parts.push(part)) == if part.len() == 0 {
            non_empty_parts(parts)
        } else {
            non_empty_parts(parts).push(part)
        },
{
    assert(parts.push(part).drop_last() == parts);
}

fn push_if_known(parts: &mut Vec<String>, level: &String)
    ensures
        text_views(final(parts)@) == if level@.len() == 0 {
            text_views(old(parts)@)
        } else {
            text_views(old(parts)@).push(level@)
        },
{
    if !level.as_str().is_empty() {
        parts.push(level.clone());
        proof {
            assert(text_views(parts@) =~= text_views(old(parts)@).push(level@));
        }
    }
}

fn required_text(doc: &serde_json::Value, key: &str) -> (r: Option<String>)
    ensures
        text_option_view(r) == required_text_of(json_model(*doc), key@),
{
    match json_member(doc, key) {
        Some(member) => match json_text(member) {
            Some(text) => Some(text.to_string()),
            None => None,
        },
        None => None,
    }
}

fn optional_text(doc: &serde_json::Value, key: &str) -> (r: Option<String>)
    ensures
        text_option_view(r) == optional_text_of(json_model(*doc), key@),
{
    match json_member(doc, key) {
        Some(member) => match json_text(member) {
            Some(text) => Some(text.to_string()),
            None => None,
        },
        None => Some(String::new()),
    }
}

fn required_number(doc: &serde_json::Value, key: &str) -> (r: Option<String>)
    ensures
        text_option_view(r) == required_number_of(json_model(*doc), key@),
{
    match json_member(doc, key) {
        Some(member) => json_number(member),
        None => None,
    }
}

impl Geocoding {
    /// Reads a place from a geocoding object.
    pub fn from_json(doc: &serde_json::Value) -> (r: Option<Geocoding>)
        ensures
            geocoding_option_view(r) == geocoding_of(json_model(*doc)),
    {
        let country = required_text(doc, "country")?;
        let suburb = optional_text(doc, "suburb")?;
        let town = optional_text(doc, "town")?;
        let city = optional_text(doc, "city")?;
        let municipality = optional_text(doc, "municipality")?;
        let province = optional_text(doc, "province")?;
        Some(Geocoding { suburb, town, city, municipality, province, country })
    }
}

impl Location {
    /// The name of the place: its known levels from the most specific to the
    /// least, separated by a comma and a space.
    pub fn geocoding_as_string(&self) -> (name: String)
        ensures
            name@ == place_name(self@.geocoding),
    {
        let ghost place = self@.geocoding;
        let ghost l0 = Seq::<Seq<char>>::empty();
        let ghost l1 = l0.push(place.suburb);
        let ghost l2 = l1.push(place.town);
        let ghost l3 = l2.push(place.city);
        let ghost l4 = l3.push(place.municipality);
        let ghost l5 = l4.push(place.province);
        let ghost l6 = l5.push(place.country);
        proof {
            lemma_non_empty_push(l0, place.suburb);
            lemma_non_empty_push(l1, place.town);
            lemma_non_empty_push(l2, place.city);
            lemma_non_empty_push(l3, place.municipality);
            lemma_non_empty_push(l4, place.province);
            lemma_non_empty_push(l5, place.country);
            assert(l6 =~= levels(place));
        }
        let mut parts: Vec<String> = Vec::new();
        proof {
            assert(text_views(parts@) =~= non_empty_parts(l0));
        }
        push_if_known(&mut parts, &self.geocoding.suburb);
        push_if_known(&mut parts, &self.geocoding.town);
        push_if_known(&mut parts, &self.geocoding.city);
        push_if_known(&mut parts, &self.geocoding.municipality);
        push_if_known(&mut parts, &self.geocoding.province);
        push_if_known(&mut parts, &self.geocoding.country);
        join_texts(&parts, ", ")
    }

    /// The coordinates as one text: latitude, comma, longitude.
    pub fn coordinates(&self) -> (r: String)
        ensures
            r@ == coordinates_text(self@),
    {
        let mut out = self.latitude.clone();
        out.append(",");
        out.append(self.longitude.as_str());
        out
    }

    /// Reads a location from a parsed payload.
    pub fn from_json(doc: &serde_json::Value) -> (r: Option<Location>)
        ensures
            location_option_view(r) == location_of(json_model(*doc)),
    {
        let place = json_member(doc, "geocoding")?;
        let geocoding = Geocoding::from_json(place)?;
        let latitude = required_number(doc, "latitude")?;
        let longitude = required_number(doc, "longitude")?;
        Some(Location { geocoding, latitude, longitude })
    }

    /// Reads a location from the text of a payload.
    pub fn parse(text: &str) -> (r: Option<Location>)
        ensures
            location_option_view(r) == decoded_location(text@),
    {
        match parse_json(text) {
            Some(doc) => Location::from_json(&doc),
            None => None,
        }
    }
}

} // verus!
