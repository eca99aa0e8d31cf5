use error_report_web_rs::models::error_report::ErrorSubmissionData;
use error_report_web_rs::utils::validation::{
    validate_email, validate_error_submission, validate_max_length, validate_no_harmful_content,
    validate_required_field, ValidationError,
};

fn create_valid_submission() -> ErrorSubmissionData {
    ErrorSubmissionData {
        machine: "qemux86-64".to_string(),
        distro: "poky".to_string(),
        distro_version: "4.0".to_string(),
        build_sys: "x86_64-linux".to_string(),
        nativelsbstring: "ubuntu-20.04".to_string(),
        target_sys: "x86_64-poky-linux".to_string(),
        failure_task: "do_compile".to_string(),
        failure_package: "example-package".to_string(),
        error_type: "CompilationError".to_string(),
        error_details: "compilation failed".to_string(),
        log_data: "detailed log content".to_string(),
        submitter_name: Some("Test User".to_string()),
        submitter_email: Some("test@example.com".to_string()),
        branch_commit: "abc123def456".to_string(),
        build_configuration: None,
    }
}

#[test]
fn test_valid_submission() {
    let submission = create_valid_submission();
    assert!(validate_error_submission(&submission).is_ok());
}

#[test]
fn test_empty_required_field() {
    let mut submission = create_valid_submission();
    submission.machine = "".to_string();
    assert!(validate_error_submission(&submission).is_err());
}

#[test]
fn test_too_long_field() {
    let mut submission = create_valid_submission();
    submission.machine = "a".repeat(200);
    assert!(validate_error_submission(&submission).is_err());
}

#[test]
fn test_invalid_email() {
    let mut submission = create_valid_submission();
    submission.submitter_email = Some("invalid-email".to_string());
    assert!(validate_error_submission(&submission).is_err());
}

#[test]
fn test_harmful_content() {
    let mut submission = create_valid_submission();
    submission.error_details = "<script>alert('xss')</script>".to_string();
    assert!(validate_error_submission(&submission).is_err());
}

#[test]
fn empty_machine_is_reported_by_name() {
    let mut submission = create_valid_submission();
    submission.machine = "".to_string();
    assert_eq!(
        validate_error_submission(&submission),
        Err(ValidationError::RequiredField { field: "machine".to_string() })
    );
}

#[test]
fn whitespace_only_field_counts_as_missing() {
    let mut submission = create_valid_submission();
    submission.distro = " \t\n".to_string();
    assert_eq!(
        validate_error_submission(&submission),
        Err(ValidationError::RequiredField { field: "distro".to_string() })
    );
    assert_eq!(
        validate_required_field("\u{2003}\u{00a0}", "log_data"),
        Err(ValidationError::RequiredField { field: "log_data".to_string() })
    );
    assert_eq!(validate_required_field(" x ", "log_data"), Ok(()));
}

#[test]
fn too_long_reports_limit_and_length() {
    let mut submission = create_valid_submission();
    submission.machine = "a".repeat(200);
    assert_eq!(
        validate_error_submission(&submission),
        Err(ValidationError::TooLong { field: "machine".to_string(), max: 100, actual: 200 })
    );
}

#[test]
fn length_is_counted_in_bytes() {
    assert_eq!(validate_max_length("éé", "machine", 4), Ok(()));
    assert_eq!(
        validate_max_length("ééé", "machine", 5),
        Err(ValidationError::TooLong { field: "machine".to_string(), max: 5, actual: 6 })
    );
    assert_eq!(validate_max_length("", "machine", 0), Ok(()));
}

#[test]
fn each_field_has_its_own_limit() {
    let cases: Vec<(&str, usize)> = vec![
        ("machine", 100),
        ("distro", 100),
        ("distro_version", 50),
        ("build_sys", 100),
        ("nativelsbstring", 100),
        ("target_sys", 100),
        ("failure_task", 200),
        ("failure_package", 200),
        ("error_type", 100),
        ("branch_commit", 100),
        ("submitter_name", 100),
        ("submitter_email", 200),
    ];
    for (field, max) in cases {
        let at_limit = "a".repeat(max - 2) + "@.";
        let over_limit = "a".repeat(max - 1) + "@.";
        for (text, expected_ok) in [(at_limit, true), (over_limit, false)] {
            let mut submission = create_valid_submission();
            match field {
                "machine" => submission.machine = text,
                "distro" => submission.distro = text,
                "distro_version" => submission.distro_version = text,
                "build_sys" => submission.build_sys = text,
                "nativelsbstring" => submission.nativelsbstring = text,
                "target_sys" => submission.target_sys = text,
                "failure_task" => submission.failure_task = text,
                "failure_package" => submission.failure_package = text,
                "error_type" => submission.error_type = text,
                "branch_commit" => submission.branch_commit = text,
                "submitter_name" => submission.submitter_name = Some(text),
                _ => submission.submitter_email = Some(text),
            }
            let outcome = validate_error_submission(&submission);
            if expected_ok {
                assert_eq!(outcome, Ok(()));
            } else {
                assert_eq!(
                    outcome,
                    Err(ValidationError::TooLong {
                        field: field.to_string(),
                        max,
                        actual: max + 1
                    })
                );
            }
        }
    }
}

#[test]
fn required_fields_are_checked_before_lengths_and_content() {
    let mut submission = create_valid_submission();
    submission.machine = "a".repeat(200);
    submission.error_details = "<script>".to_string();
    submission.branch_commit = "  ".to_string();
    assert_eq!(
        validate_error_submission(&submission),
        Err(ValidationError::RequiredField { field: "branch_commit".to_string() })
    );
}

#[test]
fn email_needs_at_sign_and_dot() {
    assert_eq!(validate_email("a@b.c"), Ok(()));
    assert_eq!(validate_email(".@"), Ok(()));
    assert_eq!(validate_email("a@b"), Err(ValidationError::InvalidEmail));
    assert_eq!(validate_email("a.b"), Err(ValidationError::InvalidEmail));
    assert_eq!(validate_email(""), Err(ValidationError::InvalidEmail));
}

#[test]
fn absent_submitter_is_accepted() {
    let mut submission = create_valid_submission();
    submission.submitter_name = None;
    submission.submitter_email = None;
    assert_eq!(validate_error_submission(&submission), Ok(()));
}

#[test]
fn every_marker_is_found_in_any_case() {
    let markers =
        ["<script", "</script>", "javascript:", "vbscript:", "onload=", "onerror="];
    for marker in markers {
        let lower = format!("before {} after", marker);
        let upper = format!("before {} after", marker.to_uppercase());
        for content in [lower, upper] {
            assert_eq!(
                validate_no_harmful_content(&content),
                Err(ValidationError::InvalidCharacters { field: "content".to_string() })
            );
            let mut in_details = create_valid_submission();
            in_details.error_details = content.clone();
            assert_eq!(
                validate_error_submission(&in_details),
                Err(ValidationError::InvalidCharacters { field: "content".to_string() })
            );
            let mut in_log = create_valid_submission();
            in_log.log_data = content.clone();
            assert_eq!(
                validate_error_submission(&in_log),
                Err(ValidationError::InvalidCharacters { field: "content".to_string() })
            );
        }
    }
}

#[test]
fn harmless_markup_is_accepted() {
    assert_eq!(validate_no_harmful_content("<b>bold</b> onload ="), Ok(()));
    assert_eq!(validate_no_harmful_content("script"), Ok(()));
    assert_eq!(validate_no_harmful_content(""), Ok(()));
}
