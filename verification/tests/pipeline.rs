use plogtion::calendar::CalendarDate;
use plogtion::failure::{ErrorKind, Failure, Stage};
use plogtion::fields::{demultiplex, Field, Incoming, Submission};
use plogtion::pipeline::{accept, accept_on, Action, Outcome, Phase, Pipeline, Settings};

fn text(name: &str, value: &str) -> Incoming {
    Incoming::Part(Field {
        name: name.to_string(),
        text: value.to_string(),
        file_name: String::new(),
        content_type: None,
        bytes: Vec::new(),
    })
}

fn file(file_name: &str, content_type: Option<&str>, bytes: &[u8]) -> Incoming {
    Incoming::Part(Field {
        name: "filepond".to_string(),
        text: String::new(),
        file_name: file_name.to_string(),
        content_type: content_type.map(|t| t.to_string()),
        bytes: bytes.to_vec(),
    })
}

fn settings() -> Settings {
    Settings { secret: "s3cret".to_string(), repository_token: Some("gh".to_string()) }
}

fn today() -> CalendarDate {
    CalendarDate { year: 2020, month: 1, day: 2 }
}

fn stream(date: &str) -> Vec<Incoming> {
    vec![
        text("token", "s3cret"),
        text("title", " My Trip "),
        text("categories", "travel"),
        text("date", date),
        file("20240506_a.jpg", Some("image/png"), &[1, 2]),
        text("20240506_a.jpg_description", "The first"),
        file("IMG_b.jpg", None, &[3]),
    ]
}

fn submission(date: &str) -> Submission {
    demultiplex(stream(date)).unwrap()
}

fn upstream(stage: Stage, message: &str) -> Action {
    Action::Finish {
        failure: Some(Failure {
            stage,
            kind: ErrorKind::UpstreamFailure,
            message: message.to_string(),
        }),
    }
}

const BASE: &str = "https://kyrremann-plog.s3.nl-ams.scw.cloud";

#[test]
fn a_request_runs_through_all_stages_in_order() {
    let (mut p, action) = Pipeline::begin_on(&settings(), submission("2024-05-06"), today());
    assert_eq!(action, Action::CloneRepository { credential: "gh".to_string() });
    assert_eq!(p.phase, Phase::Cloning);
    assert_eq!(p.uploads.len(), 2);

    assert_eq!(
        p.advance(Outcome::Succeeded),
        Action::Upload {
            path: "images/2024/05/20240506_a.jpg".to_string(),
            content_type: "image/png".to_string(),
            bytes: vec![1, 2],
        }
    );
    assert_eq!(p.phase, Phase::Uploading);
    assert_eq!(
        p.advance(Outcome::Succeeded),
        Action::Upload {
            path: "images/2024/05/IMG_b.jpg".to_string(),
            content_type: "image/jpeg".to_string(),
            bytes: vec![3],
        }
    );
    assert_eq!(p.form.images[0].metadata.image_url, format!("{BASE}/images/2024/05/20240506_a.jpg"));
    assert_eq!(p.form.images[1].metadata.image_url, "");

    assert_eq!(
        p.advance(Outcome::Succeeded),
        Action::WritePost {
            path: "_posts/2024-05-06-my-trip.md".to_string(),
            contents: format!(
                "---\ntitle: \"My Trip\"\ndate: \"2024-05-06\"\ncategories: \"travel\"\nfeature:\n  image: \"{BASE}/images/2024/05/20240506_a.jpg\"\n\n---\n\n\n![]({BASE}/images/2024/05/IMG_b.jpg)"
            ),
        }
    );
    assert_eq!(p.phase, Phase::Writing);
    assert_eq!(p.form.feature.file_name, "20240506_a.jpg");

    assert_eq!(
        p.advance(Outcome::Succeeded),
        Action::CommitAndPush {
            credential: "gh".to_string(),
            file_path: "_posts/2024-05-06-my-trip.md".to_string(),
            message: "My Trip".to_string(),
        }
    );
    assert_eq!(p.phase, Phase::Committing);

    assert_eq!(
        p.advance(Outcome::Succeeded),
        Action::ScheduleCampaign {
            title: "My Trip".to_string(),
            description: "The first".to_string(),
            image_url: format!("{BASE}/images/2024/05/20240506_a.jpg"),
            post_url: "https://kyrremann.no/plog/2024/05/my-trip".to_string(),
            delay_seconds: 3600,
        }
    );
    assert_eq!(p.phase, Phase::Scheduling);

    assert_eq!(p.advance(Outcome::Succeeded), Action::Finish { failure: None });
    assert_eq!(p.phase, Phase::Done);
    assert_eq!(p.failure, None);
    assert_eq!(p.advance(Outcome::Failed), Action::Finish { failure: None });
    assert_eq!(p.advance(Outcome::Succeeded), Action::Finish { failure: None });
}

#[test]
fn a_wrong_or_missing_secret_is_unauthorized() {
    let expected = Action::Finish {
        failure: Some(Failure {
            stage: Stage::Authenticate,
            kind: ErrorKind::Unauthorized,
            message: "Unauthorized".to_string(),
        }),
    };
    let mut wrong = settings();
    wrong.secret = "other".to_string();
    let (mut p, action) = Pipeline::begin_on(&wrong, submission("2024-05-06"), today());
    assert_eq!(action, expected);
    assert_eq!(p.phase, Phase::Done);
    assert_eq!(p.advance(Outcome::Succeeded), expected);

    let unset = Settings { secret: String::new(), repository_token: Some("gh".to_string()) };
    let mut no_token = submission("2024-05-06");
    no_token.token = String::new();
    assert_eq!(Pipeline::begin_on(&unset, no_token, today()).1, expected);
    assert_eq!(Pipeline::begin_on(&unset, submission("2024-05-06"), today()).1, expected);
    match &expected {
        Action::Finish { failure: Some(failure) } => assert_eq!(failure.status_code(), 401),
        _ => unreachable!(),
    }
}

#[test]
fn a_missing_repository_credential_is_a_configuration_failure() {
    let bare = Settings { secret: "s3cret".to_string(), repository_token: None };
    let (p, action) = Pipeline::begin_on(&bare, submission("2024-05-06"), today());
    assert_eq!(
        action,
        Action::Finish {
            failure: Some(Failure {
                stage: Stage::AcquireWorkingCopy,
                kind: ErrorKind::InternalConfiguration,
                message: "GITHUB_TOKEN not set".to_string(),
            }),
        }
    );
    assert_eq!(p.phase, Phase::Done);
    assert!(p.uploads.is_empty());
}

#[test]
fn a_failed_clone_ends_the_request() {
    let (mut p, _) = Pipeline::begin_on(&settings(), submission("2024-05-06"), today());
    let expected = upstream(Stage::AcquireWorkingCopy, "Failed to clone repository");
    assert_eq!(p.advance(Outcome::Failed), expected);
    assert_eq!(p.phase, Phase::Done);
    assert_eq!(p.advance(Outcome::Succeeded), expected);
}

#[test]
fn a_failed_upload_ends_the_request_before_any_commit() {
    for failing in 0..2 {
        let (mut p, first) = Pipeline::begin_on(&settings(), submission("2024-05-06"), today());
        let mut actions = vec![first];
        actions.push(p.advance(Outcome::Succeeded));
        for _ in 0..failing {
            actions.push(p.advance(Outcome::Succeeded));
        }
        actions.push(p.advance(Outcome::Failed));
        for _ in 0..4 {
            actions.push(p.advance(Outcome::Succeeded));
        }
        let expected = upstream(Stage::Upload, "Failed to upload image");
        assert_eq!(p.phase, Phase::Done);
        assert_eq!(actions.len(), failing + 7);
        for action in &actions[failing + 2..] {
            assert_eq!(action, &expected);
        }
        for action in &actions {
            assert!(!matches!(
                action,
                Action::WritePost { .. }
                    | Action::CommitAndPush { .. }
                    | Action::ScheduleCampaign { .. }
            ));
        }
    }
}

#[test]
fn a_record_without_a_date_is_never_published() {
    let (mut p, first) = Pipeline::begin_on(&settings(), submission(""), today());
    let mut actions = vec![first];
    for _ in 0..6 {
        actions.push(p.advance(Outcome::Succeeded));
    }
    assert_eq!(
        actions[1],
        Action::Upload {
            path: "images/2024/05/20240506_a.jpg".to_string(),
            content_type: "image/png".to_string(),
            bytes: vec![1, 2],
        }
    );
    assert_eq!(
        actions[2],
        Action::Upload {
            path: "images/2020/01/IMG_b.jpg".to_string(),
            content_type: "image/jpeg".to_string(),
            bytes: vec![3],
        }
    );
    let expected = Action::Finish {
        failure: Some(Failure {
            stage: Stage::Validate,
            kind: ErrorKind::ValidationFailed,
            message: "Form validation failed: Date cannot be empty".to_string(),
        }),
    };
    for action in &actions[3..] {
        assert_eq!(action, &expected);
    }
    assert_eq!(p.phase, Phase::Done);
}

#[test]
fn a_record_without_a_date_and_without_files_has_no_side_effect_but_the_clone() {
    let items = vec![
        text("token", "s3cret"),
        text("title", "T"),
        text("categories", "c"),
        text("a.jpg_caption", "Cap"),
    ];
    let (mut p, first) = accept_on(&settings(), items, today());
    assert_eq!(first, Action::CloneRepository { credential: "gh".to_string() });
    let expected = Action::Finish {
        failure: Some(Failure {
            stage: Stage::Validate,
            kind: ErrorKind::ValidationFailed,
            message: "Form validation failed: Date cannot be empty".to_string(),
        }),
    };
    assert_eq!(p.advance(Outcome::Succeeded), expected);
    assert_eq!(p.advance(Outcome::Succeeded), expected);
    match expected {
        Action::Finish { failure: Some(failure) } => assert_eq!(failure.status_code(), 400),
        _ => unreachable!(),
    }
}

#[test]
fn a_record_without_images_has_no_main_image() {
    let items = vec![
        text("token", "s3cret"),
        text("title", "T"),
        text("categories", "c"),
        text("date", "2024-05-06"),
    ];
    let (mut p, _) = accept_on(&settings(), items, today());
    assert_eq!(
        p.advance(Outcome::Succeeded),
        Action::Finish {
            failure: Some(Failure {
                stage: Stage::Resolve,
                kind: ErrorKind::ValidationFailed,
                message: "No main image specified or found".to_string(),
            }),
        }
    );
}

#[test]
fn an_image_that_was_not_uploaded_cannot_be_the_feature() {
    let items = vec![
        text("token", "s3cret"),
        text("title", "T"),
        text("categories", "c"),
        text("date", "2024-05-06"),
        text("a.jpg_caption", "Cap"),
    ];
    let (mut p, _) = accept_on(&settings(), items, today());
    assert_eq!(
        p.advance(Outcome::Succeeded),
        Action::Finish {
            failure: Some(Failure {
                stage: Stage::Validate,
                kind: ErrorKind::ValidationFailed,
                message: "Form validation failed: Missing featured image".to_string(),
            }),
        }
    );
}

#[test]
fn a_date_of_the_wrong_form_fails_after_the_post_is_written() {
    let (mut p, _) = Pipeline::begin_on(&settings(), submission("6 May"), today());
    p.advance(Outcome::Succeeded);
    p.advance(Outcome::Succeeded);
    let write = p.advance(Outcome::Succeeded);
    assert!(matches!(&write, Action::WritePost { path, .. } if path == "_posts/6 May-my-trip.md"));
    let action = p.advance(Outcome::Succeeded);
    assert_eq!(
        action,
        Action::Finish {
            failure: Some(Failure {
                stage: Stage::Commit,
                kind: ErrorKind::BadInput,
                message: "Invalid date format".to_string(),
            }),
        }
    );
    assert_eq!(p.phase, Phase::Done);
}

#[test]
fn failures_of_the_late_stages_are_reported() {
    let reach = |steps: usize| {
        let (mut p, _) = Pipeline::begin_on(&settings(), submission("2024-05-06"), today());
        for _ in 0..steps {
            p.advance(Outcome::Succeeded);
        }
        p
    };
    let mut p = reach(3);
    assert_eq!(p.phase, Phase::Writing);
    assert_eq!(
        p.advance(Outcome::Failed),
        upstream(Stage::Commit, "Failed to create post: File writing failed")
    );
    let mut p = reach(4);
    assert_eq!(p.phase, Phase::Committing);
    assert_eq!(p.advance(Outcome::Failed), upstream(Stage::Commit, "Failed to commit and push"));
    let mut p = reach(5);
    assert_eq!(p.phase, Phase::Scheduling);
    let failed = upstream(Stage::Campaign, "Failed to post campaign");
    assert_eq!(p.advance(Outcome::Failed), failed);
    assert_eq!(p.phase, Phase::Done);
    assert_eq!(p.advance(Outcome::Succeeded), failed);
    match failed {
        Action::Finish { failure: Some(failure) } => assert_eq!(failure.status_code(), 500),
        _ => unreachable!(),
    }
}

#[test]
fn a_stream_that_is_refused_never_starts() {
    let mut items = stream("2024-05-06");
    items.push(text("colour", "red"));
    let (mut p, action) = accept_on(&settings(), items, today());
    let expected = Action::Finish {
        failure: Some(Failure {
            stage: Stage::Demultiplex,
            kind: ErrorKind::BadInput,
            message: "Unexpected field: colour".to_string(),
        }),
    };
    assert_eq!(action, expected);
    assert_eq!(p.phase, Phase::Done);
    assert_eq!(p.advance(Outcome::Succeeded), expected);
}

#[test]
fn the_wished_feature_image_is_used_for_the_campaign() {
    let mut items = stream("2024-05-06");
    items.push(text("feature_image", "IMG_b.jpg"));
    items.push(text("IMG_b.jpg_description", "The second"));
    let (mut p, _) = accept(&settings(), items);
    for _ in 0..4 {
        p.advance(Outcome::Succeeded);
    }
    assert_eq!(
        p.advance(Outcome::Succeeded),
        Action::ScheduleCampaign {
            title: "My Trip".to_string(),
            description: "The second".to_string(),
            image_url: format!("{BASE}/images/2024/05/IMG_b.jpg"),
            post_url: "https://kyrremann.no/plog/2024/05/my-trip".to_string(),
            delay_seconds: 3600,
        }
    );
}

#[test]
fn begin_reads_the_day_from_the_clock_only_where_it_is_needed() {
    let (p, action) = Pipeline::begin(&settings(), submission("2024-05-06"));
    assert_eq!(action, Action::CloneRepository { credential: "gh".to_string() });
    assert_eq!(p.uploads[0].storage_path, "images/2024/05/20240506_a.jpg");
    assert_eq!(p.uploads[1].storage_path, "images/2024/05/IMG_b.jpg");
    assert_eq!(p.uploads[1].file_name, "IMG_b.jpg");
    assert_eq!(p.next, 0);
}
