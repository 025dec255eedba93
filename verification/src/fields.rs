//! From the fields of a multipart form, in the order in which they arrive,
//! to the record of a post and the files that await upload.

use crate::failure::{ErrorKind, Failure, FailureView, Stage};
use crate::form::{
    distinct_keys, lemma_upserted_keeps_keys_distinct, upserted, Attribute, FormView,
    ImageEntryView, ImageMetadataView, UploadForm,
};
use crate::geo::{coordinates_text, decoded_location, place_name, Location};
use crate::text::{
    chars_of, ends_with, has_suffix, normalize_newlines, text_of_range, trim_text, trimmed_text,
    unix_newlines, without_suffix,
};
use vstd::prelude::*;

verus! {

/// What a field is for.
#[derive(Clone, Copy, Debug, PartialEq, Eq, Structural)]
pub enum Route {
    /// The shared secret.
    Token,
    Title,
    Strava,
    Date,
    Categories,
    /// The key of the image that is asked for as feature image.
    FeatureImage,
    /// The alternative text of the image under the field's key.
    AltText,
    /// The caption of the image under the field's key.
    Caption,
    /// The description of the image under the field's key.
    Description,
    /// The place of the image under the field's key, as a payload.
    Location,
    /// An image file.
    File,
    /// A field that the form does not have.
    Unknown,
}

/// One rule of the routing table: the names that it accepts, and what a
/// field of such a name is for.
#[derive(Debug, PartialEq, Eq)]
pub struct Rule {
    /// Whether the name must be `text` itself; else it must end with `text`.
    pub exact: bool,
    pub text: String,
    pub route: Route,
}

pub struct RuleView {
    pub exact: bool,
    pub text: Seq<char>,
    pub route: Route,
}

impl View for Rule {
    type V = RuleView;

    open spec fn view(&self) -> RuleView {
        RuleView { exact: self.exact, text: self.text@, route: self.route }
    }
}

pub open spec fn rule_views(rules: Seq<Rule>) -> Seq<RuleView> {
    rules.map_values(|r: Rule| r@)
}

/// The routing table. A name goes by the first rule that accepts it: the
/// exact names come first, then the endings that carry an image's key in
/// front of them.
pub open spec fn rule_table() -> Seq<RuleView> {
    seq![
        RuleView { exact: true, text: "token"@, route: Route::Token },
        RuleView { exact: true, text: "title"@, route: Route::Title },
        RuleView { exact: true, text: "strava"@, route: Route::Strava },
        RuleView { exact: true, text: "date"@, route: Route::Date },
        RuleView { exact: true, text: "categories"@, route: Route::Categories },
        RuleView { exact: true, text: "feature_image"@, route: Route::FeatureImage },
        RuleView { exact: true, text: "filepond"@, route: Route::File },
        RuleView { exact: false, text: "_alt_text"@, route: Route::AltText },
        RuleView { exact: false, text: "_caption"@, route: Route::Caption },
        RuleView { exact: false, text: "_description"@, route: Route::Description },
        RuleView { exact: false, text: "_location"@, route: Route::Location },
    ]
}

/// Whether a rule accepts a name.
pub open spec fn rule_accepts(rule: RuleView, name: Seq<char>) -> bool {
    if rule.exact {
        name == rule.text
    } else {
        has_suffix(name, rule.text)
    }
}

/// The index of the first rule that accepts `name`, or the number of rules
/// if none does.
pub open spec fn first_match(rules: Seq<RuleView>, name: Seq<char>) -> int
    decreases rules.len(),
{
    if rules.len() == 0 || rule_accepts(rules[0], name) {
        0
    } else {
        1 + first_match(rules.skip(1), name)
    }
}

/// What a field of this name is for.
pub open spec fn route_of(name: Seq<char>) -> Route {
    let i = first_match(rule_table(), name);
    if i < rule_table().len() {
        rule_table()[i].route
    } else {
        Route::Unknown
    }
}

/// The key of the image that a field of this name speaks of: the name
/// without the ending by which it was routed. Empty where the name carries no
/// key.
pub open spec fn key_of(name: Seq<char>) -> Seq<char> {
    let i = first_match(rule_table(), name);
    if i < rule_table().len() && !rule_table()[i].exact {
        without_suffix(name, rule_table()[i].text)
    } else {
        Seq::empty()
    }
}

fn rule(exact: bool, text: &str, route: Route) -> (r: Rule)
    ensures
        r@ == (RuleView { exact, text: text@, route }),
{
    Rule { exact, text: text.to_string(), route }
}

/// The routing table.
pub fn rules() -> (table: Vec<Rule>)
    ensures
        rule_views(table@) == rule_table(),
{
    let mut table: Vec<Rule> = Vec::new();
    table.push(rule(true, "token", Route::Token));
    table.push(rule(true, "title", Route::Title));
    table.push(rule(true, "strava", Route::Strava));
    table.push(rule(true, "date", Route::Date));
    table.push(rule(true, "categories", Route::Categories));
    table.push(rule(true, "feature_image", Route::FeatureImage));
    table.push(rule(true, "filepond", Route::File));
    table.push(rule(false, "_alt_text", Route::AltText));
    table.push(rule(false, "_caption", Route::Caption));
    table.push(rule(false, "_description", Route::Description));
    table.push(rule(false, "_location", Route::Location));
    proof {
        assert(rule_views(table@) =~= rule_table());
    }
    table
}

/// What a field of this name is for, and the key of the image that it speaks
/// of.
pub fn route_field(name: &str) -> (r: (Route, String))
    ensures
        r.0 == route_of(name@),
        r.1@ == key_of(name@),
{
    let table = rules();
    let chars = chars_of(name);
    let ghost all = rule_views(table@);
    let mut i: usize = 0;
    proof {
        assert(all.skip(0) == all);
    }
    while i < table.len()
        invariant
            i <= table.len(),
            all == rule_views(table@),
            all == rule_table(),
            chars@ == name@,
            first_match(all, name@) == i + first_match(all.skip(i as int), name@),
        decreases table.len() - i,
    {
        let pattern = chars_of(table[i].text.as_str());
        proof {
            assert(all.skip(i as int)[0] == all[i as int]);
            assert(all.skip(i as int).skip(1) == all.skip(i + 1));
            assert(all[i as int] == table@[i as int]@);
            if chars@.len() == pattern@.len() {
                assert(chars@.skip(0) == chars@);
            }
        }
        if ends_with(&chars, &pattern) && (!table[i].exact || chars.len() == pattern.len()) {
            let key = if table[i].exact {
                String::new()
            } else {
                proof {
                    assert(chars@.take(chars@.len() - pattern@.len()) == chars@.subrange(
                        0,
                        chars@.len() - pattern@.len(),
                    ));
                }
                text_of_range(&chars, 0, chars.len() - pattern.len())
            };
            return (table[i].route, key);
        }
        i += 1;
    }
    (Route::Unknown, String::new())
}

/// One field of the form. A field that carries text has it in `text`; a
/// field that carries a file has the name and the type that the sender gave,
/// if any, and the bytes.
#[derive(Debug, PartialEq, Eq)]
pub struct Field {
    pub name: String,
    pub text: String,
    pub file_name: String,
    pub content_type: Option<String>,
    pub bytes: Vec<u8>,
}

pub struct FieldView {
    pub name: Seq<char>,
    pub text: Seq<char>,
    pub file_name: Seq<char>,
    pub content_type: Option<Seq<char>>,
    pub bytes: Seq<u8>,
}

impl View for Field {
    type V = FieldView;

    open spec fn view(&self) -> FieldView {
        FieldView {
            name: self.name@,
            text: self.text@,
            file_name: self.file_name@,
            content_type: match self.content_type {
                Some(t) => Some(t@),
                None => None,
            },
            bytes: self.bytes@,
        }
    }
}

/// What arrives from the stream of the form: a field, or the news that the
/// stream could not be read further.
#[derive(Debug, PartialEq, Eq)]
pub enum Incoming {
    Part(Field),
    Broken,
}

pub enum IncomingView {
    Part(FieldView),
    Broken,
}

impl View for Incoming {
    type V = IncomingView;

    open spec fn view(&self) -> IncomingView {
        match self {
            Incoming::Part(field) => IncomingView::Part(field@),
            Incoming::Broken => IncomingView::Broken,
        }
    }
}

pub open spec fn incoming_views(items: Seq<Incoming>) -> Seq<IncomingView> {
    items.map_values(|i: Incoming| i@)
}

/// A file that has arrived and awaits upload.
#[derive(Debug, PartialEq, Eq)]
pub struct FilePart {
    pub file_name: String,
    pub content_type: String,
    pub bytes: Vec<u8>,
}

pub struct FilePartView {
    pub file_name: Seq<char>,
    pub content_type: Seq<char>,
    pub bytes: Seq<u8>,
}

impl View for FilePart {
    type V = FilePartView;

    open spec fn view(&self) -> FilePartView {
        FilePartView {
            file_name: self.file_name@,
            content_type: self.content_type@,
            bytes: self.bytes@,
        }
    }
}

pub open spec fn file_views(files: Seq<FilePart>) -> Seq<FilePartView> {
    files.map_values(|f: FilePart| f@)
}

/// What a form has brought so far: the secret, the record and the files.
#[derive(Debug, PartialEq, Eq)]
pub struct Submission {
    pub token: String,
    pub form: UploadForm,
    pub files: Vec<FilePart>,
}

pub struct SubmissionView {
    pub token: Seq<char>,
    pub form: FormView,
    pub files: Seq<FilePartView>,
}

impl View for Submission {
    type V = SubmissionView;

    open spec fn view(&self) -> SubmissionView {
        SubmissionView { token: self.token@, form: self.form@, files: file_views(self.files@) }
    }
}

impl SubmissionView {
    /// The submission of a form of which nothing has arrived.
    pub open spec fn empty() -> SubmissionView {
        SubmissionView { token: Seq::empty(), form: FormView::empty(), files: Seq::empty() }
    }
}

/// The type of a file whose sender gave none.
pub open spec fn content_type_of(field: FieldView) -> Seq<char> {
    match field.content_type {
        Some(t) => t,
        None => "image/jpeg"@,
    }
}

/// The failure of a field that the form does not have.
pub open spec fn unexpected_field(name: Seq<char>) -> FailureView {
    FailureView {
        stage: Stage::Demultiplex,
        kind: ErrorKind::BadInput,
        message: "Unexpected field: "@ + name,
    }
}

/// The failure of a stream that could not be read.
pub open spec fn broken_stream() -> FailureView {
    FailureView {
        stage: Stage::Demultiplex,
        kind: ErrorKind::BadInput,
        message: "Failed to read multipart field"@,
    }
}

/// The images after the place of the image under `key` is set from a
/// payload: place name and coordinates if the payload can be read, else no
/// change.
pub open spec fn with_location(
    images: Seq<ImageEntryView>,
    key: Seq<char>,
    payload: Seq<char>,
) -> Seq<ImageEntryView> {
    match decoded_location(payload) {
        Some(location) => upserted(
            upserted(images, key, Attribute::Location, place_name(location.geocoding)),
            key,
            Attribute::Coordinates,
            coordinates_text(location),
        ),
        None => images,
    }
}

/// The submission after one more field, or the failure of a field that the
/// form does not have.
pub open spec fn absorbed(s: SubmissionView, field: FieldView) -> Result<
    SubmissionView,
    FailureView,
> {
    let key = key_of(field.name);
    let form = s.form;
    match route_of(field.name) {
        Route::Token => Ok(SubmissionView { token: field.text, ..s }),
        Route::Title => Ok(
            SubmissionView { form: FormView { title: trimmed_text(field.text), ..form }, ..s },
        ),
        Route::Strava => Ok(SubmissionView { form: FormView { strava: field.text, ..form }, ..s }),
        Route::Date => Ok(SubmissionView { form: FormView { date: field.text, ..form }, ..s }),
        Route::Categories => Ok(
            SubmissionView { form: FormView { categories: field.text, ..form }, ..s },
        ),
        Route::FeatureImage => Ok(
            SubmissionView {
                form: FormView {
                    feature: ImageMetadataView { file_name: field.text, ..form.feature },
                    ..form
                },
                ..s
            },
        ),
        Route::AltText => Ok(
            SubmissionView {
                form: FormView {
                    images: upserted(form.images, key, Attribute::AltText, field.text),
                    ..form
                },
                ..s
            },
        ),
        Route::Caption => Ok(
            SubmissionView {
                form: FormView {
                    images: upserted(form.images, key, Attribute::Caption, field.text),
                    ..form
                },
                ..s
            },
        ),
        Route::Description => Ok(
            SubmissionView {
                form: FormView {
                    images: upserted(
                        form.images,
                        key,
                        Attribute::Description,
                        unix_newlines(field.text),
                    ),
                    ..form
                },
                ..s
            },
        ),
        Route::Location => Ok(
            SubmissionView {
                form: FormView { images: with_location(form.images, key, field.text), ..form },
                ..s
            },
        ),
        Route::File => Ok(
            SubmissionView {
                form: FormView {
                    images: upserted(
                        form.images,
                        field.file_name,
                        Attribute::FileName,
                        field.file_name,
                    ),
                    ..form
                },
                files: s.files.push(
                    FilePartView {
                        file_name: field.file_name,
                        content_type: content_type_of(field),
                        bytes: field.bytes,
                    },
                ),
                ..s
            },
        ),
        Route::Unknown => Err(unexpected_field(field.name)),
    }
}

/// The submission after one more item of the stream.
pub open spec fn received(s: SubmissionView, item: IncomingView) -> Result<
    SubmissionView,
    FailureView,
> {
    match item {
        IncomingView::Part(field) => absorbed(s, field),
        IncomingView::Broken => Err(broken_stream()),
    }
}

/// The submission after all items of the stream, taken in order, or the
/// first failure among them.
pub open spec fn received_all(s: SubmissionView, items: Seq<IncomingView>) -> Result<
    SubmissionView,
    FailureView,
>
    decreases items.len(),
{
    if items.len() == 0 {
        Ok(s)
    } else {
        match received_all(s, items.drop_last()) {
            Ok(before) => received(before, items.last()),
            Err(failure) => Err(failure),
        }
    }
}

pub open spec fn submission_result_view(r: Result<Submission, Failure>) -> Result<
    SubmissionView,
    FailureView,
> {
    match r {
        Ok(s) => Ok(s@),
        Err(f) => Err(f@),
    }
}

impl Submission {
    /// The submission of a form of which nothing has arrived.
    pub fn new() -> (s: Submission)
        ensures
            s@ == SubmissionView::empty(),
    {
        let s = Submission { token: String::new(), form: UploadForm::default(), files: Vec::new() };
        proof {
            assert(file_views(s.files@) =~= Seq::<FilePartView>::empty());
        }
        s
    }

    /// Takes one more field in. A field that the form does not have is
    /// refused, and the submission stays as it was.
    pub fn absorb(&mut self, field: Field) -> (r: Result<(), Failure>)
        ensures
            match r {
                Ok(()) => absorbed(old(self)@, field@) == Ok::<SubmissionView, FailureView>(
                    final(self)@,
                ),
                Err(failure) => {
                    &&& absorbed(old(self)@, field@) == Err::<SubmissionView, FailureView>(failure@)
                    &&& final(self)@ == old(self)@
                },
            },
    {
        let (route, key) = route_field(field.name.as_str());
        match route {
            Route::Token => {
                self.token = field.text;
            },
            Route::Title => {
                self.form.title = trim_text(field.text.as_str());
            },
            Route::Strava => {
                self.form.strava = field.text;
            },
            Route::Date => {
                self.form.date = field.text;
            },
            Route::Categories => {
                self.form.categories = field.text;
            },
            Route::FeatureImage => {
                self.form.feature.file_name = field.text;
            },
            Route::AltText => {
                self.form.upsert(key.as_str(), Attribute::AltText, field.text);
            },
            Route::Caption => {
                self.form.upsert(key.as_str(), Attribute::Caption, field.text);
            },
            Route::Description => {
                let text = normalize_newlines(field.text.as_str());
                self.form.upsert(key.as_str(), Attribute::Description, text);
            },
            Route::Location => {
                match Location::parse(field.text.as_str()) {
                    Some(location) => {
                        let name = location.geocoding_as_string();
                        let coordinates = location.coordinates();
                        self.form.upsert(key.as_str(), Attribute::Location, name);
                        self.form.upsert(key.as_str(), Attribute::Coordinates, coordinates);
                    },
                    None => {},
                }
            },
            Route::File => {
                let content_type = match field.content_type {
                    Some(t) => t,
                    None => "image/jpeg".to_string(),
                };
                self.form.upsert(
                    field.file_name.as_str(),
                    Attribute::FileName,
                    field.file_name.clone(),
                );
                self.files.push(
                    FilePart { file_name: field.file_name, content_type, bytes: field.bytes },
                );
                proof {
                    assert(file_views(self.files@) =~= file_views(old(self).files@).push(
                        FilePartView {
                            file_name: field@.file_name,
                            content_type: content_type_of(field@),
                            bytes: field@.bytes,
                        },
                    ));
                }
            },
            Route::Unknown => {
                let mut message = "Unexpected field: ".to_string();
                message.append(field.name.as_str());
                return Err(Failure { stage: Stage::Demultiplex, kind: ErrorKind::BadInput, message });
            },
        }
        Ok(())
    }

    /// Takes one more item of the stream in.
    pub fn receive(&mut self, item: Incoming) -> (r: Result<(), Failure>)
        ensures
            match r {
                Ok(()) => received(old(self)@, item@) == Ok::<SubmissionView, FailureView>(
                    final(self)@,
                ),
                Err(failure) => {
                    &&& received(old(self)@, item@) == Err::<SubmissionView, FailureView>(failure@)
                    &&& final(self)@ == old(self)@
                },
            },
    {
        match item {
            Incoming::Part(field) => self.absorb(field),
            Incoming::Broken => Err(
                Failure {
                    stage: Stage::Demultiplex,
                    kind: ErrorKind::BadInput,
                    message: "Failed to read multipart field".to_string(),
                },
            ),
        }
    }
}

/// Builds the submission from the items of the stream, in order. The first
/// item that is refused ends the work: nothing of the submission is handed
/// out then.
pub fn demultiplex(stream: Vec<Incoming>) -> (r: Result<Submission, Failure>)
    ensures
        submission_result_view(r) == received_all(SubmissionView::empty(), incoming_views(stream@)),
{
    let mut submission = Submission::new();
    let ghost all = incoming_views(stream@);
    let mut items = stream;
    let mut taken: usize = 0;
    let total = items.len();
    proof {
        assert(all.take(0) =~= Seq::<IncomingView>::empty());
        assert(all.skip(0) =~= all);
    }
    while items.len() > 0
        invariant
            taken + items.len() == total,
            total == all.len(),
            all == incoming_views(stream@),
            incoming_views(items@) == all.skip(taken as int),
            received_all(SubmissionView::empty(), all.take(taken as int)) == Ok::<
                SubmissionView,
                FailureView,
            >(submission@),
        decreases items.len(),
    {
        let ghost rest = incoming_views(items@);
        let ghost before = items@;
        let item = items.remove(0);
        proof {
            assert(item@ == rest[0]);
            assert(rest[0] == all[taken as int]);
            assert forall|k: int| 0 <= k < items@.len() implies #[trigger] incoming_views(
                items@,
            )[k] == all.skip(taken + 1)[k] by {
                assert(items@[k] == before[k + 1]);
                assert(rest[k + 1] == before[k + 1]@);
                assert(rest[k + 1] == all[taken + k + 1]);
            }
            assert(incoming_views(items@) =~= all.skip(taken + 1));
            assert(all.take(taken + 1).drop_last() =~= all.take(taken as int));
            assert(all.take(taken + 1).last() == all[taken as int]);
        }
        match submission.receive(item) {
            Ok(()) => {},
            Err(failure) => {
                proof {
                    lemma_failure_stays(SubmissionView::empty(), all, taken + 1);
                }
                return Err(failure);
            },
        }
        taken += 1;
    }
    proof {
        assert(all.take(taken as int) =~= all);
    }
    Ok(submission)
}

/// Taking a stream in keeps the keys of the images distinct.
pub proof fn lemma_received_keeps_keys_distinct(s: SubmissionView, items: Seq<IncomingView>)
    requires
        distinct_keys(s.form.images),
        received_all(s, items) is Ok,
    ensures
        distinct_keys(received_all(s, items)->Ok_0.form.images),
    decreases items.len(),
{
    if items.len() > 0 {
        lemma_received_keeps_keys_distinct(s, items.drop_last());
        let before = received_all(s, items.drop_last())->Ok_0;
        let images = before.form.images;
        match items.last() {
            IncomingView::Part(field) => {
                let key = key_of(field.name);
                lemma_upserted_keeps_keys_distinct(images, key, Attribute::AltText, field.text);
                lemma_upserted_keeps_keys_distinct(images, key, Attribute::Caption, field.text);
                lemma_upserted_keeps_keys_distinct(
                    images,
                    key,
                    Attribute::Description,
                    unix_newlines(field.text),
                );
                lemma_upserted_keeps_keys_distinct(
                    images,
                    field.file_name,
                    Attribute::FileName,
                    field.file_name,
                );
                match decoded_location(field.text) {
                    Some(location) => {
                        let name = place_name(location.geocoding);
                        lemma_upserted_keeps_keys_distinct(images, key, Attribute::Location, name);
                        lemma_upserted_keeps_keys_distinct(
                            upserted(images, key, Attribute::Location, name),
                            key,
                            Attribute::Coordinates,
                            coordinates_text(location),
                        );
                    },
                    None => {},
                }
            },
            IncomingView::Broken => {},
        }
    }
}

/// Once a part of the stream has been refused, the whole stream is refused
/// with the same failure.
pub proof fn lemma_failure_stays(s: SubmissionView, items: Seq<IncomingView>, n: int)
    requires
        0 <= n <= items.len(),
        received_all(s, items.take(n)) is Err,
    ensures
        received_all(s, items) == received_all(s, items.take(n)),
    decreases items.len() - n,
{
    if n < items.len() {
        assert(items.take(n + 1).drop_last() =~= items.take(n));
        lemma_failure_stays(s, items, n + 1);
    } else {
        assert(items.take(n) =~= items);
    }
}

} // verus!
