use url_shortener_with_a_twist::domain::{FormData, NewRecipient, RecipientEmail, RecipientName};

#[test]
fn empty_string_is_rejected() {
    let email = "".to_string();
    assert!(RecipientEmail::parse(email).is_err());
}

#[test]
fn email_missing_at_symbol_is_rejected() {
    let email = "ursuladomain.com".to_string();
    assert!(RecipientEmail::parse(email).is_err());
}

#[test]
fn email_missing_subject_is_rejected() {
    let email = "@domain.com".to_string();
    assert!(RecipientEmail::parse(email).is_err());
}

#[test]
fn valid_email_is_accepted() {
    let parsed = RecipientEmail::parse("hamada@yahoo.com".to_string()).unwrap();
    assert_eq!(parsed.as_str(), "hamada@yahoo.com");
}

#[test]
fn email_rejection_message_names_the_input() {
    let message = RecipientEmail::parse("not-an-email".to_string()).unwrap_err();
    assert_eq!(message, "not-an-email is not a valid recipient email.");
}

#[test]
fn empty_name_is_rejected() {
    let message = RecipientName::parse("".to_string()).unwrap_err();
    assert_eq!(message, " is not a valid recipient name.");
}

#[test]
fn non_empty_name_is_accepted() {
    let parsed = RecipientName::parse("hamada".to_string()).unwrap();
    assert_eq!(parsed.as_str(), "hamada");
}

#[test]
fn form_with_valid_fields_parses() {
    let form = FormData { name: "hamada".to_string(), email: "hamada@yahoo.com".to_string() };
    let recipient = NewRecipient::parse(form).unwrap();
    assert_eq!(recipient.name.as_str(), "hamada");
    assert_eq!(recipient.email.as_str(), "hamada@yahoo.com");
}

#[test]
fn form_with_invalid_email_is_rejected() {
    let form = FormData {
        name: "hamada".to_string(),
        email: "definitely-not-blitzcrank-an-email".to_string(),
    };
    let message = NewRecipient::parse(form).unwrap_err();
    assert_eq!(message, "definitely-not-blitzcrank-an-email is not a valid recipient email.");
}

#[test]
fn form_rejection_carries_the_first_failing_fields_reason() {
    // The name is checked before the email.
    let form = FormData { name: "".to_string(), email: "not-an-email".to_string() };
    let message = NewRecipient::parse(form).unwrap_err();
    assert_eq!(message, " is not a valid recipient name.");
}
