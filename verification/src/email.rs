//! The confirmation email owed after a registration: its address, subject
//! and bodies, with the confirmation link embedding the token as the
//! `link_token` query parameter.
//!
//! Building the email is pure; actually sending it is the transport's
//! business, outside this library. A transport failure must not roll back
//! the persisted state, so the workflow's final step only maps the
//! transport's verdict onto the registration outcome.

use vstd::prelude::*;

use crate::domain::RecipientEmail;
use crate::register::{RecipientError, RegisterOutcome};

verus! {

/// The base URL the service is reached under, as configured at startup.
pub struct ApplicationBaseUrl(pub String);

/// A confirmation email, ready for the transport.
pub struct ConfirmationEmail {
    pub to: String,
    pub subject: String,
    pub html_body: String,
    pub text_body: String,
}

/// The confirmation link: `{base_url}/link_recipients/confirm?link_token=
/// {token}`, the one format the confirm endpoint accepts.
pub open spec fn confirmation_link_spec(base_url: Seq<char>, token: Seq<char>) -> Seq<char> {
    base_url + "/link_recipients/confirm?link_token="@ + token
}

/// The plain-text body, inviting a visit to the confirmation link.
pub open spec fn text_body_spec(link: Seq<char>) -> Seq<char> {
    "Welcome to the close friends url-shortener!\nVisit "@ + link
        + " to verify your credentials to visit the link!"@
}

/// The HTML body, wrapping the confirmation link in an anchor.
pub open spec fn html_body_spec(link: Seq<char>) -> Seq<char> {
    "Welcome to the close friends url-shortener!<br />Click <a href=\""@ + link
        + "\">here</a> to verify your credentials to visit the link!"@
}

/// Builds the confirmation link for a token.
pub fn confirmation_link(base_url: &str, link_token: &str) -> (r: String)
    ensures
        r@ == confirmation_link_spec(base_url@, link_token@),
{
    base_url.to_owned().concat("/link_recipients/confirm?link_token=").concat(link_token)
}

/// Builds the whole confirmation email for a recipient and token.
pub fn build_confirmation_email(
    recipient_email: &RecipientEmail,
    base_url: &str,
    link_token: &str,
) -> (r: ConfirmationEmail)
    ensures
        r.to@ == recipient_email@,
        r.subject@ == "A friend wants to show you something!"@,
        r.text_body@ == text_body_spec(confirmation_link_spec(base_url@, link_token@)),
        r.html_body@ == html_body_spec(confirmation_link_spec(base_url@, link_token@)),
{
    let link = confirmation_link(base_url, link_token);
    let text_body = String::from_str("Welcome to the close friends url-shortener!\nVisit ").concat(
        link.as_str(),
    ).concat(" to verify your credentials to visit the link!");
    let html_body = String::from_str(
        "Welcome to the close friends url-shortener!<br />Click <a href=\"",
    ).concat(link.as_str()).concat("\">here</a> to verify your credentials to visit the link!");
    ConfirmationEmail {
        to: recipient_email.as_str().to_owned(),
        subject: String::from_str("A friend wants to show you something!"),
        html_body,
        text_body,
    }
}

/// Folds the transport's verdict into the registration outcome: a delivered
/// email completes the registration; a transport failure surfaces as
/// `DeliveryFailed`, while the persisted `Pending` token stays valid, so a
/// later retry of the registration can resend a confirmation.
pub fn finish_delivery(outcome: RegisterOutcome, sent: bool) -> (r: Result<
    RegisterOutcome,
    RecipientError,
>)
    ensures
        sent ==> r == Ok::<RegisterOutcome, RecipientError>(outcome),
        !sent ==> r == Err::<RegisterOutcome, RecipientError>(RecipientError::DeliveryFailed),
{
    if sent {
        Ok(outcome)
    } else {
        Err(RecipientError::DeliveryFailed)
    }
}

} // verus!
