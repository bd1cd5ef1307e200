use filecrab::create::{create_directory, create_file, CreateOutcome};
use filecrab::error::AppError;
use filecrab::localization::{Localizer, LocalizerState};

fn english_state() -> LocalizerState {
    let mut localizer = Localizer::default();
    let en = "create-directory-success = Directory '{ $directory }' created successfully.\n\
              create-directory-already-exists = Directory '{ $directory }' already exists.\n\
              create-directory-error = Could not create directory '{ $directory }'.\n\
              create-file-success = File '{ $file }' created successfully.\n\
              create-file-already-exists = File '{ $file }' already exists.\n\
              create-file-error = Could not create file '{ $file }'.";
    localizer.add_bundle("en".to_string(), &vec![en.to_string()]);
    LocalizerState { locales: localizer, fallback_language: "en".to_string() }
}

#[test]
fn created_directory_answers_success() {
    let state = english_state();
    let (status, response) = create_directory(
        &state,
        "en",
        &"photos".to_string(),
        CreateOutcome::Success,
    );
    assert_eq!(status, 200);
    assert!(response.success);
    assert_eq!(response.message, "Directory 'photos' created successfully.");
}

#[test]
fn existing_directory_answers_already_exists() {
    let state = english_state();
    let (status, response) = create_directory(
        &state,
        "en",
        &"photos".to_string(),
        CreateOutcome::AlreadyExists,
    );
    assert_eq!(status, 400);
    assert!(!response.success);
    assert_eq!(response.message, "Directory 'photos' already exists.");
}

#[test]
fn failed_directory_create_answers_generic_error() {
    let state = english_state();
    let (status, response) = create_directory(
        &state,
        "en",
        &"photos".to_string(),
        CreateOutcome::OtherError,
    );
    assert_eq!(status, 400);
    assert!(!response.success);
    assert_eq!(response.message, "Could not create directory 'photos'.");
}

#[test]
fn file_create_without_parent_answers_generic_error() {
    let state = english_state();
    let (status, response) = create_file(
        &state,
        "en",
        &"notes.txt".to_string(),
        CreateOutcome::OtherError,
    );
    assert_eq!(status, 400);
    assert!(!response.success);
    assert_eq!(response.message, "Could not create file 'notes.txt'.");
}

#[test]
fn existing_file_always_answers_already_exists() {
    let state = english_state();
    let (status, response) = create_file(
        &state,
        "en",
        &"notes.txt".to_string(),
        CreateOutcome::AlreadyExists,
    );
    assert_eq!(status, 400);
    assert!(!response.success);
    assert_eq!(response.message, "File 'notes.txt' already exists.");
}

#[test]
fn created_file_answers_success() {
    let state = english_state();
    let (status, response) = create_file(
        &state,
        "en",
        &"notes.txt".to_string(),
        CreateOutcome::Success,
    );
    assert_eq!(status, 200);
    assert!(response.success);
    assert_eq!(response.message, "File 'notes.txt' created successfully.");
}

#[test]
fn unclassified_error_answers_500_with_raw_text() {
    let err = AppError { message: "database unreachable".to_string() };
    let (status, response) = err.into_response();
    assert_eq!(status, 500);
    assert!(!response.success);
    assert_eq!(response.message, "database unreachable");
}
