use url_shortener_with_a_twist::email::{build_confirmation_email, confirmation_link,
    finish_delivery};
use url_shortener_with_a_twist::domain::RecipientEmail;
use url_shortener_with_a_twist::register::{AccessResult, ConfirmError, RecipientError,
    RegisterOutcome};
use url_shortener_with_a_twist::store::{Store, TokenStatus};

fn issued(outcome: Result<RegisterOutcome, RecipientError>) -> (String, String) {
    match outcome {
        Ok(RegisterOutcome::Issued { recipient_id, token }) => (recipient_id, token),
        _ => panic!("expected an issued token"),
    }
}

#[test]
fn full_flow_confirms_and_redirects() {
    let mut store = Store::new();
    let link = store.create("https://www.example.com", 100).unwrap();
    let (rid, token) = issued(store.register("hamada", "hamada@yahoo.com", &link, 200));
    assert_eq!(store.status_of(&rid, &link), Some(TokenStatus::Pending));
    // One confirmation email is owed, with a link embedding the token.
    let email = RecipientEmail::parse("hamada@yahoo.com".to_string()).unwrap();
    let mail = build_confirmation_email(&email, "http://localhost", &token);
    assert!(mail.text_body.contains(&token));
    let confirmed_link = store.confirm_recipient(&token).unwrap();
    assert_eq!(confirmed_link, link);
    assert_eq!(store.status_of(&rid, &link), Some(TokenStatus::Confirmed));
    match store.access("hamada", "hamada@yahoo.com", &link).unwrap() {
        AccessResult::Redirect(url) => assert_eq!(url, "https://www.example.com/"),
        _ => panic!("expected a redirect"),
    }
}

#[test]
fn register_with_empty_name_mutates_nothing() {
    let mut store = Store::new();
    let link = store.create("https://www.example.com", 0).unwrap();
    let err = store.register("", "a@b.com", &link, 1).unwrap_err();
    assert!(matches!(err, RecipientError::InvalidRecipient(_)));
    assert_eq!(store.recipients.len(), 0);
    assert_eq!(store.tokens.len(), 0);
}

#[test]
fn register_with_invalid_email_mutates_nothing() {
    let mut store = Store::new();
    let link = store.create("https://www.example.com", 0).unwrap();
    let err = store.register("hamada", "ursuladomain.com", &link, 1).unwrap_err();
    assert!(matches!(err, RecipientError::InvalidRecipient(_)));
    assert_eq!(store.recipients.len(), 0);
    assert_eq!(store.tokens.len(), 0);
}

#[test]
fn access_before_any_registration_is_not_registered() {
    let mut store = Store::new();
    let link = store.create("https://www.example.com", 0).unwrap();
    let outcome = store.access("nobody", "nobody@x.com", &link).unwrap();
    assert!(matches!(outcome, AccessResult::NotRegistered));
}

#[test]
fn access_while_pending_is_denied() {
    let mut store = Store::new();
    let link = store.create("https://www.example.com", 0).unwrap();
    let _ = issued(store.register("hamada", "hamada@yahoo.com", &link, 1));
    let outcome = store.access("hamada", "hamada@yahoo.com", &link).unwrap();
    assert!(matches!(outcome, AccessResult::Denied));
}

#[test]
fn access_with_invalid_identity_is_rejected() {
    let mut store = Store::new();
    let link = store.create("https://www.example.com", 0).unwrap();
    let err = store.access("", "a@b.com", &link).unwrap_err();
    assert!(matches!(err, RecipientError::InvalidRecipient(_)));
}

#[test]
fn double_registration_keeps_one_recipient_and_a_pending_token() {
    let mut store = Store::new();
    let link = store.create("https://www.example.com", 0).unwrap();
    let (rid1, _t1) = issued(store.register("hamada", "hamada@yahoo.com", &link, 1));
    let (rid2, _t2) = issued(store.register("hamada", "hamada@yahoo.com", &link, 2));
    assert_eq!(rid1, rid2);
    assert_eq!(store.recipients.len(), 1);
    assert_eq!(store.tokens.len(), 1);
    assert_eq!(store.status_of(&rid2, &link), Some(TokenStatus::Pending));
}

#[test]
fn reregistration_after_confirmation_short_circuits() {
    let mut store = Store::new();
    let link = store.create("https://www.example.com", 0).unwrap();
    let (rid, token) = issued(store.register("hamada", "hamada@yahoo.com", &link, 1));
    store.confirm_recipient(&token).unwrap();
    let outcome = store.register("hamada", "hamada@yahoo.com", &link, 2).unwrap();
    assert!(matches!(outcome, RegisterOutcome::AlreadyConfirmed));
    // The confirmed status never moves back.
    assert_eq!(store.status_of(&rid, &link), Some(TokenStatus::Confirmed));
}

#[test]
fn confirming_twice_is_a_no_op_in_effect() {
    let mut store = Store::new();
    let link = store.create("https://www.example.com", 0).unwrap();
    let (rid, token) = issued(store.register("hamada", "hamada@yahoo.com", &link, 1));
    assert_eq!(store.confirm_recipient(&token).unwrap(), link);
    assert_eq!(store.confirm_recipient(&token).unwrap(), link);
    assert_eq!(store.status_of(&rid, &link), Some(TokenStatus::Confirmed));
}

#[test]
fn reregistration_resets_the_pending_token() {
    let mut store = Store::new();
    let link = store.create("https://www.example.com", 0).unwrap();
    let (_rid1, old_token) = issued(store.register("hamada", "hamada@yahoo.com", &link, 1));
    let (rid2, new_token) = issued(store.register("hamada", "hamada@yahoo.com", &link, 2));
    // The pair has exactly one current token row: the old token was replaced.
    assert_eq!(store.tokens.len(), 1);
    let err = store.confirm_recipient(&old_token).unwrap_err();
    assert!(matches!(err, ConfirmError::TokenNotFound));
    assert_eq!(store.confirm_recipient(&new_token).unwrap(), link);
    assert_eq!(store.status_of(&rid2, &link), Some(TokenStatus::Confirmed));
}

#[test]
fn confirming_an_unknown_token_is_token_not_found() {
    let mut store = Store::new();
    let err = store.confirm_recipient("no-such-token").unwrap_err();
    assert!(matches!(err, ConfirmError::TokenNotFound));
}

#[test]
fn registering_for_an_unknown_link_is_a_store_error() {
    let mut store = Store::new();
    let err = store.register("hamada", "hamada@yahoo.com", "no-such-link", 1).unwrap_err();
    assert!(matches!(err, RecipientError::StoreError));
    assert_eq!(store.recipients.len(), 0);
    assert_eq!(store.tokens.len(), 0);
}

#[test]
fn a_colliding_token_is_a_store_error_and_mutates_nothing() {
    let mut store = Store::new();
    let link = store.create("https://www.example.com", 0).unwrap();
    store
        .register_with("hamada", "hamada@yahoo.com", &link, "rid-1", "token-1", 1)
        .unwrap();
    let err = store
        .register_with("johnny", "depp@yahoo.com", &link, "rid-2", "token-1", 2)
        .unwrap_err();
    assert!(matches!(err, RecipientError::StoreError));
    assert_eq!(store.recipients.len(), 1);
    assert_eq!(store.tokens.len(), 1);
}

#[test]
fn registering_one_recipient_for_two_links_issues_two_tokens() {
    let mut store = Store::new();
    let link_a = store.create("https://a.example.com", 0).unwrap();
    let link_b = store.create("https://b.example.com", 0).unwrap();
    let (rid, token_a) = issued(store.register("hamada", "hamada@yahoo.com", &link_a, 1));
    let (rid_b, _token_b) = issued(store.register("hamada", "hamada@yahoo.com", &link_b, 2));
    assert_eq!(rid, rid_b);
    assert_eq!(store.recipients.len(), 1);
    assert_eq!(store.tokens.len(), 2);
    store.confirm_recipient(&token_a).unwrap();
    assert_eq!(store.status_of(&rid, &link_a), Some(TokenStatus::Confirmed));
    assert_eq!(store.status_of(&rid, &link_b), Some(TokenStatus::Pending));
}

#[test]
fn token_expiration_is_seven_days_after_issuance() {
    let mut store = Store::new();
    let link = store.create("https://www.example.com", 0).unwrap();
    let _ = issued(store.register("hamada", "hamada@yahoo.com", &link, 1_000));
    assert_eq!(store.tokens[0].expiration, 1_000 + 604_800);
}

#[test]
fn confirmation_link_embeds_the_token_as_a_query_parameter() {
    let link = confirmation_link("http://localhost", "abc123");
    assert_eq!(link, "http://localhost/link_recipients/confirm?link_token=abc123");
}

#[test]
fn confirmation_email_addresses_the_recipient_and_carries_the_link() {
    let email = RecipientEmail::parse("hamada@yahoo.com".to_string()).unwrap();
    let built = build_confirmation_email(&email, "http://localhost", "tok");
    assert_eq!(built.to, "hamada@yahoo.com");
    assert_eq!(built.subject, "A friend wants to show you something!");
    assert!(built.text_body.contains("http://localhost/link_recipients/confirm?link_token=tok"));
    assert!(built.html_body.contains("http://localhost/link_recipients/confirm?link_token=tok"));
}

#[test]
fn a_failed_delivery_surfaces_as_delivery_failed() {
    let outcome = RegisterOutcome::Issued {
        recipient_id: "rid".to_string(),
        token: "tok".to_string(),
    };
    let err = finish_delivery(outcome, false).unwrap_err();
    assert!(matches!(err, RecipientError::DeliveryFailed));
}

#[test]
fn a_successful_delivery_keeps_the_outcome() {
    let outcome = RegisterOutcome::Issued {
        recipient_id: "rid".to_string(),
        token: "tok".to_string(),
    };
    match finish_delivery(outcome, true).unwrap() {
        RegisterOutcome::Issued { recipient_id, token } => {
            assert_eq!(recipient_id, "rid");
            assert_eq!(token, "tok");
        },
        _ => panic!("expected the issued outcome back"),
    }
}
