//! The publication of a submission, as a machine that is driven from
//! outside: it names the next action, the caller performs it and reports how
//! it went.
//!
//! The stages run in a fixed order: the secret is checked, the working copy
//! is acquired, the files are uploaded, the feature image is resolved, the
//! record is validated and rendered, the post is written, committed and
//! pushed, and at last the campaign is scheduled. A stage that fails ends the
//! request; nothing that was done before is undone.

use crate::calendar::{
    image_url, image_url_text, parse_post_date, post_date, post_url, post_url_text, storage_path,
    storage_path_text, today, upload_date, upload_date_on, CalendarDate,
};
use crate::failure::{ErrorKind, Failure, FailureView, Stage};
use crate::fields::{
    demultiplex, file_views, incoming_views, received_all, FilePart, FilePartView, Incoming,
    IncomingView, Submission, SubmissionView,
};
use crate::form::{
    first_violation, no_main_image, resolved, upserted, Attribute, FormView, UploadForm,
};
use crate::post::{create_post, post_of};
use vstd::prelude::*;

verus! {

/// What the service is configured with.
#[derive(Debug, PartialEq, Eq)]
pub struct Settings {
    /// The secret that a submission must carry. Empty if none is configured:
    /// no submission is accepted then.
    pub secret: String,
    /// The credential for the remote of the content repository.
    pub repository_token: Option<String>,
}

pub struct SettingsView {
    pub secret: Seq<char>,
    pub repository_token: Option<Seq<char>>,
}

impl View for Settings {
    type V = SettingsView;

    open spec fn view(&self) -> SettingsView {
        SettingsView {
            secret: self.secret@,
            repository_token: match self.repository_token {
                Some(t) => Some(t@),
                None => None,
            },
        }
    }
}

/// A file on its way to object storage.
#[derive(Debug, PartialEq, Eq)]
pub struct PendingUpload {
    pub file_name: String,
    pub storage_path: String,
    pub content_type: String,
    pub bytes: Vec<u8>,
}

pub struct PendingUploadView {
    pub file_name: Seq<char>,
    pub storage_path: Seq<char>,
    pub content_type: Seq<char>,
    pub bytes: Seq<u8>,
}

impl View for PendingUpload {
    type V = PendingUploadView;

    open spec fn view(&self) -> PendingUploadView {
        PendingUploadView {
            file_name: self.file_name@,
            storage_path: self.storage_path@,
            content_type: self.content_type@,
            bytes: self.bytes@,
        }
    }
}

pub open spec fn upload_views(uploads: Seq<PendingUpload>) -> Seq<PendingUploadView> {
    uploads.map_values(|u: PendingUpload| u@)
}

/// Where a request stands: what the caller is busy with.
#[derive(Clone, Copy, Debug, PartialEq, Eq, Structural)]
pub enum Phase {
    /// The working copy is being acquired.
    Cloning,
    /// A file is being uploaded.
    Uploading,
    /// The post is being written into the working copy.
    Writing,
    /// The post is being committed and pushed.
    Committing,
    /// The campaign is being scheduled.
    Scheduling,
    /// The request has ended.
    Done,
}

/// How an action went.
#[derive(Clone, Copy, Debug, PartialEq, Eq, Structural)]
pub enum Outcome {
    Succeeded,
    Failed,
}

/// What the caller is to do next.
#[derive(Debug, PartialEq, Eq)]
pub enum Action {
    /// Remove any old working copy and clone the content repository anew.
    CloneRepository { credential: String },
    /// Put a file into object storage.
    Upload { path: String, content_type: String, bytes: Vec<u8> },
    /// Write the post into the working copy.
    WritePost { path: String, contents: String },
    /// Stage the post, commit it and push the commit.
    CommitAndPush { credential: String, file_path: String, message: String },
    /// Schedule the campaign for the post.
    ScheduleCampaign {
        title: String,
        description: String,
        image_url: String,
        post_url: String,
        delay_seconds: u64,
    },
    /// Answer the request: it is published, or it has failed.
    Finish { failure: Option<Failure> },
}

pub enum ActionView {
    CloneRepository { credential: Seq<char> },
    Upload { path: Seq<char>, content_type: Seq<char>, bytes: Seq<u8> },
    WritePost { path: Seq<char>, contents: Seq<char> },
    CommitAndPush { credential: Seq<char>, file_path: Seq<char>, message: Seq<char> },
    ScheduleCampaign {
        title: Seq<char>,
        description: Seq<char>,
        image_url: Seq<char>,
        post_url: Seq<char>,
        delay_seconds: u64,
    },
    Finish { failure: Option<FailureView> },
}

pub open spec fn failure_option_view(failure: Option<Failure>) -> Option<FailureView> {
    match failure {
        Some(f) => Some(f@),
        None => None,
    }
}

impl View for Action {
    type V = ActionView;

    open spec fn view(&self) -> ActionView {
        match self {
            Action::CloneRepository { credential } => ActionView::CloneRepository {
                credential: credential@,
            },
            Action::Upload { path, content_type, bytes } => ActionView::Upload {
                path: path@,
                content_type: content_type@,
                bytes: bytes@,
            },
            Action::WritePost { path, contents } => ActionView::WritePost {
                path: path@,
                contents: contents@,
            },
            Action::CommitAndPush { credential, file_path, message } => ActionView::CommitAndPush {
                credential: credential@,
                file_path: file_path@,
                message: message@,
            },
            Action::ScheduleCampaign {
                title,
                description,
                image_url,
                post_url,
                delay_seconds,
            } => ActionView::ScheduleCampaign {
                title: title@,
                description: description@,
                image_url: image_url@,
                post_url: post_url@,
                delay_seconds: *delay_seconds,
            },
            Action::Finish { failure } => ActionView::Finish {
                failure: failure_option_view(*failure),
            },
        }
    }
}

/// A request on its way through the stages.
#[derive(Debug, PartialEq, Eq)]
pub struct Pipeline {
    pub phase: Phase,
    pub form: UploadForm,
    pub uploads: Vec<PendingUpload>,
    /// The number of files that are uploaded.
    pub next: usize,
    pub credential: String,
    /// Why the request failed, if it did.
    pub failure: Option<Failure>,
}

pub struct PipelineView {
    pub phase: Phase,
    pub form: FormView,
    pub uploads: Seq<PendingUploadView>,
    pub next: nat,
    pub credential: Seq<char>,
    pub failure: Option<FailureView>,
}

impl View for Pipeline {
    type V = PipelineView;

    open spec fn view(&self) -> PipelineView {
        PipelineView {
            phase: self.phase,
            form: self.form@,
            uploads: upload_views(self.uploads@),
            next: self.next as nat,
            credential: self.credential@,
            failure: failure_option_view(self.failure),
        }
    }
}

/// The delay between the push and the campaign, in seconds: one hour.
pub open spec fn campaign_delay() -> u64 {
    3600
}

pub open spec fn upstream_failure(stage: Stage, message: Seq<char>) -> FailureView {
    FailureView { stage, kind: ErrorKind::UpstreamFailure, message }
}

pub open spec fn unauthorized() -> FailureView {
    FailureView {
        stage: Stage::Authenticate,
        kind: ErrorKind::Unauthorized,
        message: "Unauthorized"@,
    }
}

pub open spec fn missing_credential() -> FailureView {
    FailureView {
        stage: Stage::AcquireWorkingCopy,
        kind: ErrorKind::InternalConfiguration,
        message: "GITHUB_TOKEN not set"@,
    }
}

pub open spec fn clone_failed() -> FailureView {
    upstream_failure(Stage::AcquireWorkingCopy, "Failed to clone repository"@)
}

pub open spec fn upload_failed() -> FailureView {
    upstream_failure(Stage::Upload, "Failed to upload image"@)
}

pub open spec fn write_failed() -> FailureView {
    upstream_failure(Stage::Commit, "Failed to create post: File writing failed"@)
}

pub open spec fn commit_failed() -> FailureView {
    upstream_failure(Stage::Commit, "Failed to commit and push"@)
}

pub open spec fn campaign_failed() -> FailureView {
    upstream_failure(Stage::Campaign, "Failed to post campaign"@)
}

pub open spec fn invalid_date() -> FailureView {
    FailureView { stage: Stage::Commit, kind: ErrorKind::BadInput, message: "Invalid date format"@ }
}

pub open spec fn validation_failed(rule: Seq<char>) -> FailureView {
    FailureView {
        stage: Stage::Validate,
        kind: ErrorKind::ValidationFailed,
        message: "Form validation failed: "@ + rule,
    }
}

/// The uploads of the files of a submission: each goes to the path that its
/// name, the date of the record and the current day give.
pub open spec fn pending_of(
    files: Seq<FilePartView>,
    record_date: Seq<char>,
    today: CalendarDate,
) -> Seq<PendingUploadView> {
    files.map_values(
        |f: FilePartView|
            PendingUploadView {
                file_name: f.file_name,
                storage_path: storage_path_text(
                    upload_date(f.file_name, record_date, today),
                    f.file_name,
                ),
                content_type: f.content_type,
                bytes: f.bytes,
            },
    )
}

/// The request ended by a failure.
pub open spec fn failed(s: PipelineView, failure: FailureView) -> (PipelineView, ActionView) {
    (
        PipelineView { phase: Phase::Done, failure: Some(failure), ..s },
        ActionView::Finish { failure: Some(failure) },
    )
}

/// The action that uploads the file at index `i`.
pub open spec fn upload_action(s: PipelineView, i: int) -> ActionView {
    ActionView::Upload {
        path: s.uploads[i].storage_path,
        content_type: s.uploads[i].content_type,
        bytes: s.uploads[i].bytes,
    }
}

/// What follows the last upload: the feature image is resolved and the
/// record validated; then the post is rendered and handed out to be written.
pub open spec fn after_uploads(s: PipelineView) -> (PipelineView, ActionView) {
    match resolved(s.form) {
        None => failed(s, no_main_image()),
        Some(form) => {
            let with_feature = PipelineView { form, ..s };
            match first_violation(form) {
                Some(rule) => failed(with_feature, validation_failed(rule)),
                None => (
                    PipelineView { phase: Phase::Writing, ..with_feature },
                    ActionView::WritePost {
                        path: post_of(form).path,
                        contents: post_of(form).contents,
                    },
                ),
            }
        },
    }
}

/// A request that ended before it began.
pub open spec fn refused(form: FormView, failure: FailureView) -> (PipelineView, ActionView) {
    (
        PipelineView {
            phase: Phase::Done,
            form,
            uploads: Seq::empty(),
            next: 0,
            credential: Seq::empty(),
            failure: Some(failure),
        },
        ActionView::Finish { failure: Some(failure) },
    )
}

/// The start of a request: the secret of the submission must not be empty
/// and must be the configured one, and the credential for the repository
/// must be configured; then the working copy is asked for.
pub open spec fn begun(settings: SettingsView, submission: SubmissionView, today: CalendarDate) -> (
    PipelineView,
    ActionView,
) {
    if submission.token.len() == 0 || submission.token != settings.secret {
        refused(submission.form, unauthorized())
    } else {
        match settings.repository_token {
            None => refused(submission.form, missing_credential()),
            Some(credential) => (
                PipelineView {
                    phase: Phase::Cloning,
                    form: submission.form,
                    uploads: pending_of(submission.files, submission.form.date, today),
                    next: 0,
                    credential,
                    failure: None,
                },
                ActionView::CloneRepository { credential },
            ),
        }
    }
}

/// The start of a request from the items of its stream.
pub open spec fn accepted(settings: SettingsView, items: Seq<IncomingView>, today: CalendarDate) -> (
    PipelineView,
    ActionView,
) {
    match received_all(SubmissionView::empty(), items) {
        Ok(submission) => begun(settings, submission, today),
        Err(failure) => refused(FormView::empty(), failure),
    }
}

/// The state after the file at `s.next` is uploaded: its image has the
/// public address of the file.
pub open spec fn uploaded(s: PipelineView) -> PipelineView {
    let done = s.uploads[s.next as int];
    PipelineView {
        form: FormView {
            images: upserted(
                s.form.images,
                done.file_name,
                Attribute::ImageUrl,
                image_url_text(done.storage_path),
            ),
            ..s.form
        },
        next: s.next + 1,
        ..s
    }
}

/// One step of a request: the state after the caller's report on the last
/// action, and the next action.
pub open spec fn step(s: PipelineView, outcome: Outcome) -> (PipelineView, ActionView) {
    match s.phase {
        Phase::Cloning => match outcome {
            Outcome::Failed => failed(s, clone_failed()),
            Outcome::Succeeded => if s.uploads.len() > 0 {
                (PipelineView { phase: Phase::Uploading, next: 0, ..s }, upload_action(s, 0))
            } else {
                after_uploads(s)
            },
        },
        Phase::Uploading => match outcome {
            Outcome::Failed => failed(s, upload_failed()),
            Outcome::Succeeded => if s.next < s.uploads.len() {
                let now = uploaded(s);
                if now.next < now.uploads.len() {
                    (now, upload_action(now, now.next as int))
                } else {
                    after_uploads(now)
                }
            } else {
                after_uploads(s)
            },
        },
        Phase::Writing => match outcome {
            Outcome::Failed => failed(s, write_failed()),
            Outcome::Succeeded => match post_date(s.form.date) {
                None => failed(s, invalid_date()),
                Some(_) => (
                    PipelineView { phase: Phase::Committing, ..s },
                    ActionView::CommitAndPush {
                        credential: s.credential,
                        file_path: post_of(s.form).path,
                        message: s.form.title,
                    },
                ),
            },
        },
        Phase::Committing => match outcome {
            Outcome::Failed => failed(s, commit_failed()),
            Outcome::Succeeded => match post_date(s.form.date) {
                None => failed(s, invalid_date()),
                Some(date) => (
                    PipelineView { phase: Phase::Scheduling, ..s },
                    ActionView::ScheduleCampaign {
                        title: s.form.title,
                        description: s.form.feature.description,
                        image_url: s.form.feature.image_url,
                        post_url: post_url_text(date, post_of(s.form).slug),
                        delay_seconds: campaign_delay(),
                    },
                ),
            },
        },
        Phase::Scheduling => match outcome {
            Outcome::Failed => failed(s, campaign_failed()),
            Outcome::Succeeded => (
                PipelineView { phase: Phase::Done, failure: None, ..s },
                ActionView::Finish { failure: None },
            ),
        },
        Phase::Done => (s, ActionView::Finish { failure: s.failure }),
    }
}

fn copy_bytes(bytes: &Vec<u8>) -> (r: Vec<u8>)
    ensures
        r@ == bytes@,
{
    let mut out: Vec<u8> = Vec::new();
    let mut i: usize = 0;
    while i < bytes.len()
        invariant
            i <= bytes.len(),
            out@ == bytes@.take(i as int),
        decreases bytes.len() - i,
    {
        out.push(bytes[i]);
        proof {
            assert(bytes@.take(i + 1) == bytes@.take(i as int).push(bytes@[i as int]));
        }
        i += 1;
    }
    proof {
        assert(bytes@.take(bytes.len() as int) == bytes@);
    }
    out
}

fn upstream(stage: Stage, message: &str) -> (failure: Failure)
    ensures
        failure@ == upstream_failure(stage, message@),
{
    Failure { stage, kind: ErrorKind::UpstreamFailure, message: message.to_string() }
}

fn pending_uploads(files: Vec<FilePart>, record_date: &str, today: CalendarDate) -> (uploads: Vec<
    PendingUpload,
>)
    ensures
        upload_views(uploads@) == pending_of(file_views(files@), record_date@, today),
{
    let ghost all = file_views(files@);
    let ghost wanted = pending_of(all, record_date@, today);
    let mut rest = files;
    let mut uploads: Vec<PendingUpload> = Vec::new();
    proof {
        assert(all.skip(0) =~= all);
        assert(upload_views(uploads@) =~= wanted.take(0));
    }
    while rest.len() > 0
        invariant
            uploads.len() + rest.len() == all.len(),
            wanted == pending_of(all, record_date@, today),
            file_views(rest@) == all.skip(uploads.len() as int),
            upload_views(uploads@) == wanted.take(uploads.len() as int),
        decreases rest.len(),
    {
        let ghost n = uploads.len() as int;
        let ghost before = rest@;
        let ghost views = file_views(rest@);
        let file = rest.remove(0);
        proof {
            assert(file@ == views[0]);
            assert(views[0] == all[n]);
            assert forall|k: int| 0 <= k < rest@.len() implies #[trigger] file_views(rest@)[k]
                == all.skip(n + 1)[k] by {
                assert(rest@[k] == before[k + 1]);
                assert(views[k + 1] == before[k + 1]@);
                assert(views[k + 1] == all[n + k + 1]);
            }
            assert(file_views(rest@) =~= all.skip(n + 1));
        }
        let date = upload_date_on(file.file_name.as_str(), record_date, today);
        let path = storage_path(date, file.file_name.as_str());
        let ghost old_uploads = upload_views(uploads@);
        uploads.push(
            PendingUpload {
                file_name: file.file_name,
                storage_path: path,
                content_type: file.content_type,
                bytes: file.bytes,
            },
        );
        proof {
            assert(upload_views(uploads@) =~= old_uploads.push(wanted[n]));
            assert(wanted.take(n + 1) =~= wanted.take(n).push(wanted[n]));
        }
    }
    proof {
        assert(wanted.take(uploads.len() as int) =~= wanted);
    }
    uploads
}

fn refuse(form: UploadForm, failure: Failure) -> (r: (Pipeline, Action))
    ensures
        (r.0@, r.1@) == refused(form@, failure@),
{
    let pipeline = Pipeline {
        phase: Phase::Done,
        form,
        uploads: Vec::new(),
        next: 0,
        credential: String::new(),
        failure: Some(failure.clone()),
    };
    proof {
        assert(upload_views(pipeline.uploads@) =~= Seq::<PendingUploadView>::empty());
    }
    (pipeline, Action::Finish { failure: Some(failure) })
}

impl Pipeline {
    fn fail(&mut self, failure: Failure) -> (action: Action)
        ensures
            (final(self)@, action@) == failed(old(self)@, failure@),
    {
        self.phase = Phase::Done;
        self.failure = Some(failure.clone());
        Action::Finish { failure: Some(failure) }
    }

    fn upload_at(&self, i: usize) -> (action: Action)
        requires
            i < self.uploads.len(),
        ensures
            action@ == upload_action(self@, i as int),
    {
        Action::Upload {
            path: self.uploads[i].storage_path.clone(),
            content_type: self.uploads[i].content_type.clone(),
            bytes: copy_bytes(&self.uploads[i].bytes),
        }
    }

    fn proceed(&mut self) -> (action: Action)
        ensures
            (final(self)@, action@) == after_uploads(old(self)@),
    {
        match self.form.resolve_feature() {
            Err(failure) => self.fail(failure),
            Ok(()) => match self.form.validate() {
                Err(rule) => {
                    let mut message = "Form validation failed: ".to_string();
                    message.append(rule.as_str());
                    self.fail(
                        Failure { stage: Stage::Validate, kind: ErrorKind::ValidationFailed, message },
                    )
                },
                Ok(()) => {
                    let post = create_post(&self.form);
                    self.phase = Phase::Writing;
                    Action::WritePost { path: post.path, contents: post.contents }
                },
            },
        }
    }

    /// Starts a request on the day `today`.
    pub fn begin_on(settings: &Settings, submission: Submission, today: CalendarDate) -> (r: (
        Pipeline,
        Action,
    ))
        ensures
            (r.0@, r.1@) == begun(settings@, submission@, today),
    {
        if submission.token.as_str().is_empty() || !submission.token.eq(&settings.secret) {
            return refuse(
                submission.form,
                Failure {
                    stage: Stage::Authenticate,
                    kind: ErrorKind::Unauthorized,
                    message: "Unauthorized".to_string(),
                },
            );
        }
        match &settings.repository_token {
            None => refuse(
                submission.form,
                Failure {
                    stage: Stage::AcquireWorkingCopy,
                    kind: ErrorKind::InternalConfiguration,
                    message: "GITHUB_TOKEN not set".to_string(),
                },
            ),
            Some(token) => {
                let uploads = pending_uploads(
                    submission.files,
                    submission.form.date.as_str(),
                    today,
                );
                let pipeline = Pipeline {
                    phase: Phase::Cloning,
                    form: submission.form,
                    uploads,
                    next: 0,
                    credential: token.clone(),
                    failure: None,
                };
                (pipeline, Action::CloneRepository { credential: token.clone() })
            },
        }
    }

    /// Starts a request. The current day is read from the clock; it matters
    /// only for files whose date neither their name nor the record gives.
    pub fn begin(settings: &Settings, submission: Submission) -> (r: (Pipeline, Action))
        ensures
            exists|day: CalendarDate| day.wf() && (r.0@, r.1@) == begun(settings@, submission@, day),
    {
        let day = today();
        let r = Pipeline::begin_on(settings, submission, day);
        proof {
            assert(day.wf() && (r.0@, r.1@) == begun(settings@, submission@, day));
        }
        r
    }

    /// Takes the caller's report on the last action and names the next.
    pub fn advance(&mut self, outcome: Outcome) -> (action: Action)
        ensures
            (final(self)@, action@) == step(old(self)@, outcome),
    {
        match self.phase {
            Phase::Cloning => match outcome {
                Outcome::Failed => self.fail(
                    upstream(Stage::AcquireWorkingCopy, "Failed to clone repository"),
                ),
                Outcome::Succeeded => if self.uploads.len() > 0 {
                    self.phase = Phase::Uploading;
                    self.next = 0;
                    self.upload_at(0)
                } else {
                    self.proceed()
                },
            },
            Phase::Uploading => match outcome {
                Outcome::Failed => self.fail(upstream(Stage::Upload, "Failed to upload image")),
                Outcome::Succeeded => if self.next < self.uploads.len() {
                    let url = image_url(self.uploads[self.next].storage_path.as_str());
                    let name = self.uploads[self.next].file_name.clone();
                    self.form.upsert(name.as_str(), Attribute::ImageUrl, url);
                    self.next = self.next + 1;
                    if self.next < self.uploads.len() {
                        self.upload_at(self.next)
                    } else {
                        self.proceed()
                    }
                } else {
                    self.proceed()
                },
            },
            Phase::Writing => match outcome {
                Outcome::Failed => self.fail(
                    upstream(Stage::Commit, "Failed to create post: File writing failed"),
                ),
                Outcome::Succeeded => match parse_post_date(self.form.date.as_str()) {
                    None => self.fail(
                        Failure {
                            stage: Stage::Commit,
                            kind: ErrorKind::BadInput,
                            message: "Invalid date format".to_string(),
                        },
                    ),
                    Some(_) => {
                        let post = create_post(&self.form);
                        self.phase = Phase::Committing;
                        Action::CommitAndPush {
                            credential: self.credential.clone(),
                            file_path: post.path,
                            message: self.form.title.clone(),
                        }
                    },
                },
            },
            Phase::Committing => match outcome {
                Outcome::Failed => self.fail(upstream(Stage::Commit, "Failed to commit and push")),
                Outcome::Succeeded => match parse_post_date(self.form.date.as_str()) {
                    None => self.fail(
                        Failure {
                            stage: Stage::Commit,
                            kind: ErrorKind::BadInput,
                            message: "Invalid date format".to_string(),
                        },
                    ),
                    Some(date) => {
                        let post = create_post(&self.form);
                        self.phase = Phase::Scheduling;
                        Action::ScheduleCampaign {
                            title: self.form.title.clone(),
                            description: self.form.feature.description.clone(),
                            image_url: self.form.feature.image_url.clone(),
                            post_url: post_url(date, post.slug.as_str()),
                            delay_seconds: 3600,
                        }
                    },
                },
            },
            Phase::Scheduling => match outcome {
                Outcome::Failed => self.fail(upstream(Stage::Campaign, "Failed to post campaign")),
                Outcome::Succeeded => {
                    self.phase = Phase::Done;
                    self.failure = None;
                    Action::Finish { failure: None }
                },
            },
            Phase::Done => Action::Finish {
                failure: match &self.failure {
                    Some(failure) => Some(failure.clone()),
                    None => None,
                },
            },
        }
    }
}

/// Starts a request from the items of its stream, on the day `today`.
pub fn accept_on(settings: &Settings, stream: Vec<Incoming>, today: CalendarDate) -> (r: (
    Pipeline,
    Action,
))
    ensures
        (r.0@, r.1@) == accepted(settings@, incoming_views(stream@), today),
{
    match demultiplex(stream) {
        Ok(submission) => Pipeline::begin_on(settings, submission, today),
        Err(failure) => refuse(UploadForm::default(), failure),
    }
}

/// Starts a request from the items of its stream. The current day is read
/// from the clock.
pub fn accept(settings: &Settings, stream: Vec<Incoming>) -> (r: (Pipeline, Action))
    ensures
        exists|day: CalendarDate|
            day.wf() && (r.0@, r.1@) == accepted(settings@, incoming_views(stream@), day),
{
    let day = today();
    let r = accept_on(settings, stream, day);
    proof {
        assert(day.wf() && (r.0@, r.1@) == accepted(settings@, incoming_views(stream@), day));
    }
    r
}

} // verus!
