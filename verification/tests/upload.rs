use minicloud::http::StatusCode;
use minicloud::server_receiver_mode::{
    accept_upload_form, request_body_limit, start_upload, UploadAction, UploadEvent, UploadState,
};

fn is_server_error(action: &UploadAction) -> bool {
    matches!(
        action,
        UploadAction::Respond { status: StatusCode::InternalServerError, body } if body.is_empty()
    )
}

fn all_events() -> Vec<UploadEvent> {
    vec![
        UploadEvent::DirectoryCreated,
        UploadEvent::DirectoryFailed,
        UploadEvent::Field { file_name: Some("x".to_string()) },
        UploadEvent::Field { file_name: None },
        UploadEvent::NoMoreFields,
        UploadEvent::FieldFailed,
        UploadEvent::PartStored,
        UploadEvent::PartFailed,
    ]
}

#[test]
fn upload_starts_with_the_directory() {
    let (state, action) = start_upload();
    assert_eq!(state, UploadState::CreatingDirectory);
    assert!(matches!(action, UploadAction::CreateDirectory));
}

#[test]
fn upload_of_two_parts() {
    let (state, _) = start_upload();
    let (state, action) = accept_upload_form(state, UploadEvent::DirectoryCreated);
    assert_eq!(state, UploadState::AwaitingField);
    assert!(matches!(action, UploadAction::NextField));
    let (state, action) =
        accept_upload_form(state, UploadEvent::Field { file_name: Some("a.txt".to_string()) });
    assert_eq!(state, UploadState::StoringPart);
    assert!(matches!(action, UploadAction::StorePart { file_name } if file_name == "a.txt"));
    let (state, action) = accept_upload_form(state, UploadEvent::PartStored);
    assert_eq!(state, UploadState::AwaitingField);
    assert!(matches!(action, UploadAction::NextField));
    let (state, action) = accept_upload_form(state, UploadEvent::Field { file_name: None });
    assert_eq!(state, UploadState::StoringPart);
    assert!(matches!(action, UploadAction::StorePart { file_name } if file_name == "unnamed"));
    let (state, _) = accept_upload_form(state, UploadEvent::PartStored);
    let (state, action) = accept_upload_form(state, UploadEvent::NoMoreFields);
    assert_eq!(state, UploadState::Finished);
    assert!(matches!(
        action,
        UploadAction::Respond { status: StatusCode::Success, body } if body == "Upload successful"
    ));
}

#[test]
fn upload_without_parts_succeeds() {
    let (state, _) = accept_upload_form(UploadState::CreatingDirectory, UploadEvent::DirectoryCreated);
    let (state, action) = accept_upload_form(state, UploadEvent::NoMoreFields);
    assert_eq!(state, UploadState::Finished);
    assert!(matches!(action, UploadAction::Respond { status: StatusCode::Success, .. }));
}

#[test]
fn upload_fails_when_the_directory_cannot_be_created_and_stores_nothing() {
    let (state, _) = start_upload();
    let (mut state, action) = accept_upload_form(state, UploadEvent::DirectoryFailed);
    assert_eq!(state, UploadState::Finished);
    assert!(is_server_error(&action));
    for event in all_events() {
        let (next, action) = accept_upload_form(state, event);
        assert_eq!(next, UploadState::Finished);
        assert!(is_server_error(&action));
        state = next;
    }
}

#[test]
fn upload_stops_at_the_part_that_fails() {
    let (state, _) = accept_upload_form(UploadState::CreatingDirectory, UploadEvent::DirectoryCreated);
    let (state, _) =
        accept_upload_form(state, UploadEvent::Field { file_name: Some("a".to_string()) });
    let (state, _) = accept_upload_form(state, UploadEvent::PartStored);
    let (state, _) =
        accept_upload_form(state, UploadEvent::Field { file_name: Some("b".to_string()) });
    let (state, action) = accept_upload_form(state, UploadEvent::PartFailed);
    assert_eq!(state, UploadState::Finished);
    assert!(is_server_error(&action));
}

#[test]
fn upload_fails_when_the_next_part_cannot_be_fetched() {
    let (state, action) = accept_upload_form(UploadState::AwaitingField, UploadEvent::FieldFailed);
    assert_eq!(state, UploadState::Finished);
    assert!(is_server_error(&action));
}

#[test]
fn a_part_is_stored_only_while_a_part_is_awaited() {
    for state in [
        UploadState::CreatingDirectory,
        UploadState::AwaitingField,
        UploadState::StoringPart,
        UploadState::Finished,
    ] {
        for event in all_events() {
            let is_field = matches!(event, UploadEvent::Field { .. });
            let (_, action) = accept_upload_form(state, event);
            let stores = matches!(action, UploadAction::StorePart { .. });
            assert_eq!(stores, state == UploadState::AwaitingField && is_field);
        }
    }
}

#[test]
fn a_report_that_is_not_awaited_ends_the_request() {
    let unexpected = [
        (UploadState::CreatingDirectory, UploadEvent::NoMoreFields),
        (UploadState::CreatingDirectory, UploadEvent::PartStored),
        (UploadState::AwaitingField, UploadEvent::DirectoryCreated),
        (UploadState::AwaitingField, UploadEvent::PartStored),
        (UploadState::StoringPart, UploadEvent::NoMoreFields),
        (UploadState::StoringPart, UploadEvent::DirectoryCreated),
        (UploadState::Finished, UploadEvent::DirectoryCreated),
    ];
    for (state, event) in unexpected {
        let (next, action) = accept_upload_form(state, event);
        assert_eq!(next, UploadState::Finished);
        assert!(is_server_error(&action));
    }
}

#[test]
fn body_limit_in_bytes() {
    assert_eq!(request_body_limit(0), Some(0));
    assert_eq!(request_body_limit(1), Some(1_048_576));
    assert_eq!(request_body_limit(50), Some(52_428_800));
    assert_eq!(request_body_limit(usize::MAX / 1_048_576), Some((usize::MAX / 1_048_576) * 1_048_576));
    assert_eq!(request_body_limit(usize::MAX / 1_048_576 + 1), None);
    assert_eq!(request_body_limit(usize::MAX), None);
}
