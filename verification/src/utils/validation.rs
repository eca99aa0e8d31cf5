//! The rules a submission has to meet before it is stored.

use crate::models::error_report::ErrorSubmissionData;
use crate::utils::text::{
    blank, byte_len, byte_length, decimal_text, is_blank, lemma_single_char_occurs, lowercase,
    occurs_in, text_contains, to_lowercase, u64_to_decimal,
};
use vstd::prelude::*;
use vstd::string::*;

verus! {

/// Why a submission was turned down.
#[derive(Debug, PartialEq, Eq)]
pub enum ValidationError {
    RequiredField { field: String },
    TooLong { field: String, max: usize, actual: usize },
    InvalidCharacters { field: String },
    InvalidEmail,
}

/// A [`ValidationError`] with its texts as character sequences.
pub enum ValidationErrorView {
    RequiredField { field: Seq<char> },
    TooLong { field: Seq<char>, max: int, actual: int },
    InvalidCharacters { field: Seq<char> },
    InvalidEmail,
}

impl View for ValidationError {
    type V = ValidationErrorView;

    open spec fn view(&self) -> ValidationErrorView {
        match self {
            ValidationError::RequiredField { field } => ValidationErrorView::RequiredField {
                field: field@,
            },
            ValidationError::TooLong { field, max, actual } => ValidationErrorView::TooLong {
                field: field@,
                max: *max as int,
                actual: *actual as int,
            },
            ValidationError::InvalidCharacters { field } => ValidationErrorView::InvalidCharacters {
                field: field@,
            },
            ValidationError::InvalidEmail => ValidationErrorView::InvalidEmail,
        }
    }
}

impl ValidationErrorView {
    /// The sentence that tells a person what is wrong.
    pub open spec fn message_text(self) -> Seq<char> {
        match self {
            ValidationErrorView::RequiredField { field } => "Field '"@ + field + "' is required"@,
            ValidationErrorView::TooLong { field, max, actual } => "Field '"@ + field
                + "' is too long (max: "@ + decimal_text(max) + ", actual: "@ + decimal_text(actual)
                + ")"@,
            ValidationErrorView::InvalidCharacters { field } => "Field '"@ + field
                + "' contains invalid characters"@,
            ValidationErrorView::InvalidEmail => "Invalid email format"@,
        }
    }
}

impl ValidationError {
    /// The sentence that tells a person what is wrong.
    pub fn message(&self) -> (text: String)
        ensures
            text@ == self@.message_text(),
    {
        match self {
            ValidationError::RequiredField { field } => {
                let mut text = String::from_str("Field '");
                text.append(field.as_str());
                text.append("' is required");
                text
            },
            ValidationError::TooLong { field, max, actual } => {
                let mut text = String::from_str("Field '");
                text.append(field.as_str());
                text.append("' is too long (max: ");
                text.append(u64_to_decimal(*max as u64).as_str());
                text.append(", actual: ");
                text.append(u64_to_decimal(*actual as u64).as_str());
                text.append(")");
                text
            },
            ValidationError::InvalidCharacters { field } => {
                let mut text = String::from_str("Field '");
                text.append(field.as_str());
                text.append("' contains invalid characters");
                text
            },
            ValidationError::InvalidEmail => String::from_str("Invalid email format"),
        }
    }
}

/// The violation of the rule that a field must not be blank, if `value` breaks it.
pub open spec fn required_violation(value: Seq<char>, name: Seq<char>) -> Option<
    ValidationErrorView,
> {
    if blank(value) {
        Some(ValidationErrorView::RequiredField { field: name })
    } else {
        None
    }
}

/// The violation of the rule that a field takes at most `max` bytes, if `value` breaks it.
pub open spec fn length_violation(value: Seq<char>, name: Seq<char>, max: int) -> Option<
    ValidationErrorView,
> {
    if byte_length(value) > max {
        Some(
            ValidationErrorView::TooLong { field: name, max, actual: byte_length(value) as int },
        )
    } else {
        None
    }
}

/// The length rule on a field that may be absent.
pub open spec fn optional_length_violation(
    value: Option<String>,
    name: Seq<char>,
    max: int,
) -> Option<ValidationErrorView> {
    match value {
        Some(text) => length_violation(text@, name, max),
        None => None,
    }
}

/// An address is taken for an email address when it holds both `@` and `.`.
pub open spec fn plausible_email(email: Seq<char>) -> bool {
    email.contains('@') && email.contains('.')
}

/// The violation of the email rule, if `email` breaks it.
pub open spec fn email_violation(email: Seq<char>) -> Option<ValidationErrorView> {
    if plausible_email(email) {
        None
    } else {
        Some(ValidationErrorView::InvalidEmail)
    }
}

/// The email rule on an address that may be absent.
pub open spec fn optional_email_violation(email: Option<String>) -> Option<ValidationErrorView> {
    match email {
        Some(text) => email_violation(text@),
        None => None,
    }
}

/// Whether a text that was already lowercased holds one of the six markers of
/// markup or script injection.
pub open spec fn holds_marker(lowered: Seq<char>) -> bool {
    ||| occurs_in("<script"@, lowered)
    ||| occurs_in("</script>"@, lowered)
    ||| occurs_in("javascript:"@, lowered)
    ||| occurs_in("vbscript:"@, lowered)
    ||| occurs_in("onload="@, lowered)
    ||| occurs_in("onerror="@, lowered)
}

/// Whether a text holds one of the markers in any mix of upper and lower case.
pub open spec fn harmful(content: Seq<char>) -> bool {
    holds_marker(lowercase(content))
}

/// The violation of the content rule, if `content` breaks it.
pub open spec fn content_violation(content: Seq<char>) -> Option<ValidationErrorView> {
    if harmful(content) {
        Some(ValidationErrorView::InvalidCharacters { field: "content"@ })
    } else {
        None
    }
}

/// The first of two possible violations.
pub open spec fn first_of(
    first: Option<ValidationErrorView>,
    second: Option<ValidationErrorView>,
) -> Option<ValidationErrorView> {
    if first is Some {
        first
    } else {
        second
    }
}

/// The first required field of `data` that is blank, in the order in which the
/// fields are checked.
pub open spec fn first_missing_field(data: ErrorSubmissionData) -> Option<ValidationErrorView> {
    first_of(
        required_violation(data.machine@, "machine"@),
        first_of(
            required_violation(data.distro@, "distro"@),
            first_of(
                required_violation(data.distro_version@, "distro_version"@),
                first_of(
                    required_violation(data.build_sys@, "build_sys"@),
                    first_of(
                        required_violation(data.nativelsbstring@, "nativelsbstring"@),
                        first_of(
                            required_violation(data.target_sys@, "target_sys"@),
                            first_of(
                                required_violation(data.failure_task@, "failure_task"@),
                                first_of(
                                    required_violation(
                                        data.failure_package@,
                                        "failure_package"@,
                                    ),
                                    first_of(
                                        required_violation(data.error_type@, "error_type"@),
                                        first_of(
                                            required_violation(
                                                data.error_details@,
                                                "error_details"@,
                                            ),
                                            first_of(
                                                required_violation(data.log_data@, "log_data"@),
                                                required_violation(
                                                    data.branch_commit@,
                                                    "branch_commit"@,
                                                ),
                                            ),
                                        ),
                                    ),
                                ),
                            ),
                        ),
                    ),
                ),
            ),
        ),
    )
}

/// The first required field of `data` that is too long, in the order in which the
/// fields are checked.
pub open spec fn first_overlong_field(data: ErrorSubmissionData) -> Option<ValidationErrorView> {
    first_of(
        length_violation(data.machine@, "machine"@, 100),
        first_of(
            length_violation(data.distro@, "distro"@, 100),
            first_of(
                length_violation(data.distro_version@, "distro_version"@, 50),
                first_of(
                    length_violation(data.build_sys@, "build_sys"@, 100),
                    first_of(
                        length_violation(data.nativelsbstring@, "nativelsbstring"@, 100),
                        first_of(
                            length_violation(data.target_sys@, "target_sys"@, 100),
                            first_of(
                                length_violation(data.failure_task@, "failure_task"@, 200),
                                first_of(
                                    length_violation(
                                        data.failure_package@,
                                        "failure_package"@,
                                        200,
                                    ),
                                    first_of(
                                        length_violation(data.error_type@, "error_type"@, 100),
                                        length_violation(
                                            data.branch_commit@,
                                            "branch_commit"@,
                                            100,
                                        ),
                                    ),
                                ),
                            ),
                        ),
                    ),
                ),
            ),
        ),
    )
}

/// The first rule on the submitter's name and address that `data` breaks.
pub open spec fn first_submitter_violation(data: ErrorSubmissionData) -> Option<
    ValidationErrorView,
> {
    first_of(
        optional_length_violation(data.submitter_name, "submitter_name"@, 100),
        first_of(
            optional_length_violation(data.submitter_email, "submitter_email"@, 200),
            optional_email_violation(data.submitter_email),
        ),
    )
}

/// The first rule on the free texts that `data` breaks.
pub open spec fn first_content_violation(data: ErrorSubmissionData) -> Option<
    ValidationErrorView,
> {
    first_of(content_violation(data.error_details@), content_violation(data.log_data@))
}

/// The first rule that `data` breaks: required fields come first, then lengths, then
/// the submitter, then the free texts. `None` where `data` breaks no rule.
pub open spec fn first_violation(data: ErrorSubmissionData) -> Option<ValidationErrorView> {
    first_of(
        first_missing_field(data),
        first_of(
            first_overlong_field(data),
            first_of(first_submitter_violation(data), first_content_violation(data)),
        ),
    )
}

/// The required fields of a submission, each with its name, in the order in which
/// they are checked.
pub open spec fn required_fields(data: ErrorSubmissionData) -> Seq<(Seq<char>, Seq<char>)> {
    seq![
        ("machine"@, data.machine@),
        ("distro"@, data.distro@),
        ("distro_version"@, data.distro_version@),
        ("build_sys"@, data.build_sys@),
        ("nativelsbstring"@, data.nativelsbstring@),
        ("target_sys"@, data.target_sys@),
        ("failure_task"@, data.failure_task@),
        ("failure_package"@, data.failure_package@),
        ("error_type"@, data.error_type@),
        ("error_details"@, data.error_details@),
        ("log_data"@, data.log_data@),
        ("branch_commit"@, data.branch_commit@),
    ]
}

/// The required fields of a submission whose length is limited, each with its name
/// and the number of bytes it may take, in the order in which they are checked.
pub open spec fn limited_fields(data: ErrorSubmissionData) -> Seq<(Seq<char>, Seq<char>, int)> {
    seq![
        ("machine"@, data.machine@, 100int),
        ("distro"@, data.distro@, 100int),
        ("distro_version"@, data.distro_version@, 50int),
        ("build_sys"@, data.build_sys@, 100int),
        ("nativelsbstring"@, data.nativelsbstring@, 100int),
        ("target_sys"@, data.target_sys@, 100int),
        ("failure_task"@, data.failure_task@, 200int),
        ("failure_package"@, data.failure_package@, 200int),
        ("error_type"@, data.error_type@, 100int),
        ("branch_commit"@, data.branch_commit@, 100int),
    ]
}

/// No required field is blank.
pub open spec fn nothing_missing(data: ErrorSubmissionData) -> bool {
    forall|i: int|
        0 <= i < required_fields(data).len() ==> !blank((#[trigger] required_fields(data)[i]).1)
}

/// No required field is longer than it may be.
pub open spec fn nothing_overlong(data: ErrorSubmissionData) -> bool {
    forall|i: int|
        0 <= i < limited_fields(data).len() ==> byte_length(
            (#[trigger] limited_fields(data)[i]).1,
        ) <= limited_fields(data)[i].2
}

/// The submitter's name and address, where given, are short enough, and the
/// address looks like one.
pub open spec fn submitter_acceptable(data: ErrorSubmissionData) -> bool {
    &&& data.submitter_name matches Some(name) ==> byte_length(name@) <= 100
    &&& data.submitter_email matches Some(email) ==> byte_length(email@) <= 200
        && plausible_email(email@)
}

/// Neither free text holds a marker of markup or script injection.
pub open spec fn content_harmless(data: ErrorSubmissionData) -> bool {
    !harmful(data.error_details@) && !harmful(data.log_data@)
}

/// A submission is valid when it meets every rule.
pub open spec fn is_valid_submission(data: ErrorSubmissionData) -> bool {
    &&& nothing_missing(data)
    &&& nothing_overlong(data)
    &&& submitter_acceptable(data)
    &&& content_harmless(data)
}

/// A submission breaks no rule exactly when it is valid, and each group of rules is
/// passed exactly when the submission meets what the group asks.
pub proof fn lemma_violations_match_rules(data: ErrorSubmissionData)
    ensures
        first_missing_field(data) is None <==> nothing_missing(data),
        first_overlong_field(data) is None <==> nothing_overlong(data),
        first_submitter_violation(data) is None <==> submitter_acceptable(data),
        first_content_violation(data) is None <==> content_harmless(data),
        first_violation(data) is None <==> is_valid_submission(data),
{
    let required = required_fields(data);
    let limited = limited_fields(data);
    if first_missing_field(data) is Some {
        if blank(required[0].1) {
        } else if blank(required[1].1) {
        } else if blank(required[2].1) {
        } else if blank(required[3].1) {
        } else if blank(required[4].1) {
        } else if blank(required[5].1) {
        } else if blank(required[6].1) {
        } else if blank(required[7].1) {
        } else if blank(required[8].1) {
        } else if blank(required[9].1) {
        } else if blank(required[10].1) {
        } else {
            assert(blank(required[11].1));
        }
    }
    if first_overlong_field(data) is Some {
        if byte_length(limited[0].1) > limited[0].2 {
        } else if byte_length(limited[1].1) > limited[1].2 {
        } else if byte_length(limited[2].1) > limited[2].2 {
        } else if byte_length(limited[3].1) > limited[3].2 {
        } else if byte_length(limited[4].1) > limited[4].2 {
        } else if byte_length(limited[5].1) > limited[5].2 {
        } else if byte_length(limited[6].1) > limited[6].2 {
        } else if byte_length(limited[7].1) > limited[7].2 {
        } else if byte_length(limited[8].1) > limited[8].2 {
        } else {
            assert(byte_length(limited[9].1) > limited[9].2);
        }
    }
}

/// A submission with a blank required field is rejected for a missing field: for the
/// first of its blank required fields.
pub proof fn lemma_missing_field_is_reported(data: ErrorSubmissionData, missing: int)
    requires
        0 <= missing < required_fields(data).len(),
        blank(required_fields(data)[missing].1),
    ensures
        exists|first: int|
            0 <= first <= missing && blank((#[trigger] required_fields(data)[first]).1)
                && first_violation(data) == Some(
                ValidationErrorView::RequiredField { field: required_fields(data)[first].0 },
            ),
{
    let required = required_fields(data);
    let first = if blank(required[0].1) {
        0int
    } else if blank(required[1].1) {
        1
    } else if blank(required[2].1) {
        2
    } else if blank(required[3].1) {
        3
    } else if blank(required[4].1) {
        4
    } else if blank(required[5].1) {
        5
    } else if blank(required[6].1) {
        6
    } else if blank(required[7].1) {
        7
    } else if blank(required[8].1) {
        8
    } else if blank(required[9].1) {
        9
    } else if blank(required[10].1) {
        10
    } else {
        11
    };
    assert(blank(required[first].1));
    assert(first_violation(data) == Some(
        ValidationErrorView::RequiredField { field: required[first].0 },
    ));
}

/// A submission without a blank required field but with a required field that is
/// too long is rejected for that: with the name, the limit and the length of the
/// first of its overlong fields.
pub proof fn lemma_overlong_field_is_reported(data: ErrorSubmissionData, overlong: int)
    requires
        nothing_missing(data),
        0 <= overlong < limited_fields(data).len(),
        byte_length(limited_fields(data)[overlong].1) > limited_fields(data)[overlong].2,
    ensures
        exists|first: int|
            0 <= first <= overlong && byte_length((#[trigger] limited_fields(data)[first]).1)
                > limited_fields(data)[first].2 && first_violation(data) == Some(
                ValidationErrorView::TooLong {
                    field: limited_fields(data)[first].0,
                    max: limited_fields(data)[first].2,
                    actual: byte_length(limited_fields(data)[first].1) as int,
                },
            ),
{
    lemma_violations_match_rules(data);
    let limited = limited_fields(data);
    let first = if byte_length(limited[0].1) > limited[0].2 {
        0int
    } else if byte_length(limited[1].1) > limited[1].2 {
        1
    } else if byte_length(limited[2].1) > limited[2].2 {
        2
    } else if byte_length(limited[3].1) > limited[3].2 {
        3
    } else if byte_length(limited[4].1) > limited[4].2 {
        4
    } else if byte_length(limited[5].1) > limited[5].2 {
        5
    } else if byte_length(limited[6].1) > limited[6].2 {
        6
    } else if byte_length(limited[7].1) > limited[7].2 {
        7
    } else if byte_length(limited[8].1) > limited[8].2 {
        8
    } else {
        9
    };
    assert(byte_length(limited[first].1) > limited[first].2);
    assert(first_violation(data) == Some(
        ValidationErrorView::TooLong {
            field: limited[first].0,
            max: limited[first].2,
            actual: byte_length(limited[first].1) as int,
        },
    ));
}

/// Whether a text that may be absent is there and takes more than `max` bytes.
pub open spec fn overlong(value: Option<String>, max: int) -> bool {
    value is Some && byte_length(value.unwrap()@) > max
}

/// A submitter's name or address that is too long is reported, where the required
/// fields are in order: the name first, then the address.
pub proof fn lemma_overlong_submitter_is_reported(data: ErrorSubmissionData)
    requires
        nothing_missing(data),
        nothing_overlong(data),
    ensures
        overlong(data.submitter_name, 100) ==> first_violation(data) == Some(
            ValidationErrorView::TooLong {
                field: "submitter_name"@,
                max: 100,
                actual: byte_length(data.submitter_name.unwrap()@) as int,
            },
        ),
        !overlong(data.submitter_name, 100) && overlong(data.submitter_email, 200)
            ==> first_violation(data) == Some(
            ValidationErrorView::TooLong {
                field: "submitter_email"@,
                max: 200,
                actual: byte_length(data.submitter_email.unwrap()@) as int,
            },
        ),
{
    lemma_violations_match_rules(data);
}

/// A submission that meets every other rule and holds a marker of markup or script
/// injection in its details or its log, in any mix of case, is rejected for its
/// characters.
pub proof fn lemma_harmful_content_is_rejected(data: ErrorSubmissionData)
    requires
        nothing_missing(data),
        nothing_overlong(data),
        submitter_acceptable(data),
        harmful(data.error_details@) || harmful(data.log_data@),
    ensures
        first_violation(data) == Some(ValidationErrorView::InvalidCharacters { field: "content"@ }),
{
    lemma_violations_match_rules(data);
}

/// Whether a result of a check stands for the possible violation `expected`.
pub open spec fn reports(
    outcome: Result<(), ValidationError>,
    expected: Option<ValidationErrorView>,
) -> bool {
    match outcome {
        Ok(()) => expected is None,
        Err(error) => expected == Some(error@),
    }
}

/// Checks a submission against every rule and returns the first violation.
pub fn validate_error_submission(data: &ErrorSubmissionData) -> (outcome: Result<
    (),
    ValidationError,
>)
    ensures
        reports(outcome, first_violation(*data)),
        outcome is Ok <==> is_valid_submission(*data),
{
    proof {
        lemma_violations_match_rules(*data);
    }
    validate_required_field(data.machine.as_str(), "machine")?;
    validate_required_field(data.distro.as_str(), "distro")?;
    validate_required_field(data.distro_version.as_str(), "distro_version")?;
    validate_required_field(data.build_sys.as_str(), "build_sys")?;
    validate_required_field(data.nativelsbstring.as_str(), "nativelsbstring")?;
    validate_required_field(data.target_sys.as_str(), "target_sys")?;
    validate_required_field(data.failure_task.as_str(), "failure_task")?;
    validate_required_field(data.failure_package.as_str(), "failure_package")?;
    validate_required_field(data.error_type.as_str(), "error_type")?;
    validate_required_field(data.error_details.as_str(), "error_details")?;
    validate_required_field(data.log_data.as_str(), "log_data")?;
    validate_required_field(data.branch_commit.as_str(), "branch_commit")?;

    validate_max_length(data.machine.as_str(), "machine", 100)?;
    validate_max_length(data.distro.as_str(), "distro", 100)?;
    validate_max_length(data.distro_version.as_str(), "distro_version", 50)?;
    validate_max_length(data.build_sys.as_str(), "build_sys", 100)?;
    validate_max_length(data.nativelsbstring.as_str(), "nativelsbstring", 100)?;
    validate_max_length(data.target_sys.as_str(), "target_sys", 100)?;
    validate_max_length(data.failure_task.as_str(), "failure_task", 200)?;
    validate_max_length(data.failure_package.as_str(), "failure_package", 200)?;
    validate_max_length(data.error_type.as_str(), "error_type", 100)?;
    validate_max_length(data.branch_commit.as_str(), "branch_commit", 100)?;

    if let Some(name) = &data.submitter_name {
        validate_max_length(name.as_str(), "submitter_name", 100)?;
    }
    if let Some(email) = &data.submitter_email {
        validate_max_length(email.as_str(), "submitter_email", 200)?;
        validate_email(email.as_str())?;
    }

    validate_no_harmful_content(data.error_details.as_str())?;
    validate_no_harmful_content(data.log_data.as_str())?;

    Ok(())
}

/// A required field must hold more than whitespace.
pub fn validate_required_field(value: &str, field_name: &str) -> (outcome: Result<
    (),
    ValidationError,
>)
    ensures
        reports(outcome, required_violation(value@, field_name@)),
{
    if is_blank(value) {
        return Err(ValidationError::RequiredField { field: field_name.to_owned() });
    }
    Ok(())
}

/// A field must not take more than `max_length` bytes.
pub fn validate_max_length(value: &str, field_name: &str, max_length: usize) -> (outcome: Result<
    (),
    ValidationError,
>)
    ensures
        reports(outcome, length_violation(value@, field_name@, max_length as int)),
{
    let actual = byte_len(value);
    if actual > max_length {
        return Err(
            ValidationError::TooLong { field: field_name.to_owned(), max: max_length, actual },
        );
    }
    Ok(())
}

/// An email address must hold both `@` and `.`; nothing more is asked of it.
pub fn validate_email(email: &str) -> (outcome: Result<(), ValidationError>)
    ensures
        reports(outcome, email_violation(email@)),
{
    proof {
        reveal_strlit("@");
        reveal_strlit(".");
        assert("@"@ =~= seq!['@']);
        assert("."@ =~= seq!['.']);
        lemma_single_char_occurs('@', email@);
        lemma_single_char_occurs('.', email@);
    }
    if !text_contains(email, "@") || !text_contains(email, ".") {
        return Err(ValidationError::InvalidEmail);
    }
    Ok(())
}

/// Whether a lowercased text holds one of the six markers.
pub fn has_harmful_marker(lowered: &str) -> (found: bool)
    ensures
        found == holds_marker(lowered@),
{
    text_contains(lowered, "<script") || text_contains(lowered, "</script>") || text_contains(
        lowered,
        "javascript:",
    ) || text_contains(lowered, "vbscript:") || text_contains(lowered, "onload=")
        || text_contains(lowered, "onerror=")
}

/// A free text must not hold, in any mix of case, a marker of markup or script
/// injection. This is a substring check and no sanitizer.
pub fn validate_no_harmful_content(content: &str) -> (outcome: Result<(), ValidationError>)
    ensures
        reports(outcome, content_violation(content@)),
{
    let content_lower = to_lowercase(content);
    if has_harmful_marker(content_lower.as_str()) {
        return Err(ValidationError::InvalidCharacters { field: "content".to_owned() });
    }
    Ok(())
}

} // verus!
