use plogtion::failure::{ErrorKind, Failure, Stage, StatusClass};

fn failure(kind: ErrorKind) -> Failure {
    Failure { stage: Stage::Validate, kind, message: "m".to_string() }
}

#[test]
fn kinds_map_to_the_three_status_classes() {
    assert_eq!(failure(ErrorKind::BadInput).status_class(), StatusClass::BadInput);
    assert_eq!(failure(ErrorKind::ValidationFailed).status_class(), StatusClass::BadInput);
    assert_eq!(failure(ErrorKind::Unauthorized).status_class(), StatusClass::Unauthorized);
    assert_eq!(failure(ErrorKind::UpstreamFailure).status_class(), StatusClass::Internal);
    assert_eq!(failure(ErrorKind::InternalConfiguration).status_class(), StatusClass::Internal);
}

#[test]
fn status_codes_follow_the_classes() {
    assert_eq!(failure(ErrorKind::BadInput).status_code(), 400);
    assert_eq!(failure(ErrorKind::ValidationFailed).status_code(), 400);
    assert_eq!(failure(ErrorKind::Unauthorized).status_code(), 401);
    assert_eq!(failure(ErrorKind::UpstreamFailure).status_code(), 500);
    assert_eq!(failure(ErrorKind::InternalConfiguration).status_code(), 500);
}

#[test]
fn a_cloned_failure_is_the_same_failure() {
    let f = Failure {
        stage: Stage::Upload,
        kind: ErrorKind::UpstreamFailure,
        message: "Failed to upload image".to_string(),
    };
    assert_eq!(f.clone(), f);
}
