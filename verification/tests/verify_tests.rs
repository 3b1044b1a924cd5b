use browser_core::verify::{
    extract_confirmation_details, should_retry, verify_submission, VerificationResult,
};


// -- verify_submission ---------------------------------------------------

#[test]
fn confirmed_by_url_keyword() {
    let result = verify_submission(
        "Some page content",
        "https://jobs.example.com/thank-you",
        "https://jobs.example.com/apply",
    );
    assert_eq!(result, VerificationResult::Confirmed);
}

#[test]
fn confirmed_by_url_success() {
    let result = verify_submission(
        "Your profile",
        "https://example.com/application/success",
        "https://example.com/application/form",
    );
    assert_eq!(result, VerificationResult::Confirmed);
}

#[test]
fn confirmed_by_text_phrase() {
    let result = verify_submission(
        "Thank you for applying! We'll review your application shortly.",
        "https://example.com/apply",
        "https://example.com/apply",
    );
    assert_eq!(result, VerificationResult::Confirmed);
}

#[test]
fn confirmed_application_received() {
    let result = verify_submission(
        "Your application received. We'll be in touch within 5 business days.",
        "https://example.com/apply",
        "https://example.com/apply",
    );
    assert_eq!(result, VerificationResult::Confirmed);
}

#[test]
fn confirmed_successfully_submitted() {
    let result = verify_submission(
        "Your resume has been successfully submitted to the hiring team.",
        "https://example.com/careers",
        "https://example.com/careers",
    );
    assert_eq!(result, VerificationResult::Confirmed);
}

#[test]
fn likely_url_changed() {
    let result = verify_submission(
        "Welcome to your dashboard",
        "https://example.com/dashboard",
        "https://example.com/apply",
    );
    assert_eq!(result, VerificationResult::Likely);
}

#[test]
fn failed_error_keyword() {
    let result = verify_submission(
        "Error: could not process your application",
        "https://example.com/apply",
        "https://example.com/apply",
    );
    assert!(matches!(result, VerificationResult::Failed(_)));
    if let VerificationResult::Failed(msg) = result {
        assert!(msg.contains("error"));
    }
}

#[test]
fn failed_required_field() {
    let result = verify_submission(
        "Please complete the required field: Email",
        "https://example.com/apply",
        "https://example.com/apply",
    );
    assert!(matches!(result, VerificationResult::Failed(_)));
}

#[test]
fn failed_invalid() {
    let result = verify_submission(
        "Invalid phone number format",
        "https://example.com/apply",
        "https://example.com/apply",
    );
    assert!(matches!(result, VerificationResult::Failed(_)));
}

#[test]
fn uncertain_no_change() {
    let result = verify_submission(
        "Fill out the form below to apply.",
        "https://example.com/apply",
        "https://example.com/apply",
    );
    assert_eq!(result, VerificationResult::Uncertain);
}

// -- extract_confirmation_details ----------------------------------------

#[test]
fn extract_details_with_id_and_next_steps() {
    let text = "Thank you for applying! \
                 Your confirmation #APP-12345 has been recorded. \
                 You will hear from us within 5 business days.";
    let details = extract_confirmation_details(text).unwrap();
    assert_eq!(details.confirmation_id.as_deref(), Some("APP-12345"));
    assert!(details.message.contains("Thank you for applying"));
    assert!(details.next_steps.is_some());
}

#[test]
fn extract_details_application_id() {
    let text = "Application submitted. Application ID: JOB-9921. \
                 We'll be in touch soon.";
    let details = extract_confirmation_details(text).unwrap();
    assert_eq!(details.confirmation_id.as_deref(), Some("JOB-9921"));
}

#[test]
fn letter_only_references_are_identifiers() {
    let text = "Thank you for applying! Reference: XYZABC. We will be in touch.";
    let details = extract_confirmation_details(text).unwrap();
    assert_eq!(details.confirmation_id.as_deref(), Some("XYZABC"));
    let lower = "Thank you for applying! Reference: abcdef.";
    let d2 = extract_confirmation_details(lower).unwrap();
    assert_eq!(d2.confirmation_id.as_deref(), Some("abcdef"));
    let worded = "Thank you for applying! Your application submitted, number 4411.";
    let d3 = extract_confirmation_details(worded).unwrap();
    assert_eq!(d3.confirmation_id.as_deref(), Some("4411"));
}

#[test]
fn extract_details_no_id() {
    let text = "Thank you for applying! We have received your application.";
    let details = extract_confirmation_details(text).unwrap();
    assert!(details.confirmation_id.is_none());
    assert!(details.message.contains("Thank you for applying"));
}

#[test]
fn extract_details_no_confirmation_signal() {
    let text = "Please fill out the form below.";
    assert!(extract_confirmation_details(text).is_none());
}

#[test]
fn extract_details_next_steps() {
    let text = "Application received. Next steps: a recruiter will contact you \
                 within 3 business days.";
    let details = extract_confirmation_details(text).unwrap();
    assert!(details.next_steps.is_some());
    let ns = details.next_steps.unwrap();
    assert!(ns.contains("recruiter") || ns.contains("3 business days"));
}

// -- should_retry --------------------------------------------------------

#[test]
fn retry_on_failure_under_max() {
    let r = VerificationResult::Failed("error".into());
    assert!(should_retry(&r, 0, 3));
    assert!(should_retry(&r, 2, 3));
    assert!(!should_retry(&r, 3, 3));
}

#[test]
fn retry_uncertain_once() {
    let r = VerificationResult::Uncertain;
    assert!(should_retry(&r, 0, 5));
    assert!(!should_retry(&r, 1, 5));
}

#[test]
fn no_retry_confirmed() {
    assert!(!should_retry(&VerificationResult::Confirmed, 0, 5));
}

#[test]
fn no_retry_likely() {
    assert!(!should_retry(&VerificationResult::Likely, 0, 5));
}
