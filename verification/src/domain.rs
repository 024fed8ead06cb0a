//! Validated recipient identity: a display name and an email address.
//!
//! Validation of the email address is delegated to the `validator` crate,
//! which implements the HTML5 notion of a valid email address; the library
//! only records its verdict.

use vstd::prelude::*;

verus! {

/// Whether the `validator` crate accepts `s` as a valid email address.
/// The verdict is a function of the characters of `s` alone.
pub uninterp spec fn email_ok(s: Seq<char>) -> bool;

/// Relies on `validator::ValidateEmail::validate_email` for `&str`: the
/// verdict depends only on the string's characters; an empty string and a
/// string without `'@'` are always rejected.
#[verifier::external_body]
fn validate_email_str(s: &str) -> (r: bool)
    ensures
        r == email_ok(s@),
        s@.len() == 0 ==> !r,
        (forall|i: int| 0 <= i < s@.len() ==> s@[i] != '@') ==> !r,
{
    validator::ValidateEmail::validate_email(&s)
}

/// A recipient's email address, accepted by the external email validator.
#[derive(Debug)]
pub struct RecipientEmail {
    email: String,
}

impl View for RecipientEmail {
    type V = Seq<char>;

    closed spec fn view(&self) -> Seq<char> {
        self.email@
    }
}

impl RecipientEmail {
    /// The parsed address is always one the validator accepted.
    pub closed spec fn wf(&self) -> bool {
        email_ok(self.email@)
    }

    /// Accepts `s` exactly when the external validator does; an empty
    /// string and a string without `'@'` are always rejected; the rejection
    /// message names the offending input.
    pub fn parse(s: String) -> (r: Result<RecipientEmail, String>)
        ensures
            r is Ok <==> email_ok(s@),
            r matches Ok(e) ==> e@ == s@ && e.wf(),
            r matches Err(m) ==> m@ == s@ + " is not a valid recipient email."@,
            s@.len() == 0 ==> r is Err,
            (forall|i: int| 0 <= i < s@.len() ==> s@[i] != '@') ==> r is Err,
    {
        if validate_email_str(s.as_str()) {
            Ok(RecipientEmail { email: s })
        } else {
            Err(s.concat(" is not a valid recipient email."))
        }
    }

    /// The address as a string slice.
    pub fn as_str(&self) -> (r: &str)
        ensures
            r@ == self@,
    {
        self.email.as_str()
    }
}

/// A recipient's display name: any non-empty string.
#[derive(Debug)]
pub struct RecipientName {
    name: String,
}

impl View for RecipientName {
    type V = Seq<char>;

    closed spec fn view(&self) -> Seq<char> {
        self.name@
    }
}

impl RecipientName {
    /// The parsed name is never empty.
    pub closed spec fn wf(&self) -> bool {
        self.name@.len() > 0
    }

    /// Accepts exactly the non-empty strings.
    pub fn parse(s: String) -> (r: Result<RecipientName, String>)
        ensures
            r is Ok <==> s@.len() > 0,
            r matches Ok(n) ==> n@ == s@ && n.wf(),
            r matches Err(m) ==> m@ == s@ + " is not a valid recipient name."@,
    {
        if s.as_str().is_empty() {
            Err(s.concat(" is not a valid recipient name."))
        } else {
            Ok(RecipientName { name: s })
        }
    }

    /// The name as a string slice.
    pub fn as_str(&self) -> (r: &str)
        ensures
            r@ == self@,
    {
        self.name.as_str()
    }
}

/// The raw registration form as it arrives at the boundary.
pub struct FormData {
    pub name: String,
    pub email: String,
}

/// A fully validated recipient identity.
#[derive(Debug)]
pub struct NewRecipient {
    pub name: RecipientName,
    pub email: RecipientEmail,
}

impl NewRecipient {
    /// Validates both fields of the form, failing fast on the name: a
    /// rejection carries the first failing field's reason.
    pub fn parse(form: FormData) -> (r: Result<NewRecipient, String>)
        ensures
            r is Ok <==> form.name@.len() > 0 && email_ok(form.email@),
            r matches Ok(n) ==> n.name@ == form.name@ && n.email@ == form.email@ && n.name.wf()
                && n.email.wf(),
            r matches Err(m) ==> m@ == if form.name@.len() == 0 {
                form.name@ + " is not a valid recipient name."@
            } else {
                form.email@ + " is not a valid recipient email."@
            },
    {
        let name = match RecipientName::parse(form.name) {
            Ok(n) => n,
            Err(m) => {
                return Err(m);
            },
        };
        let email = match RecipientEmail::parse(form.email) {
            Ok(e) => e,
            Err(m) => {
                return Err(m);
            },
        };
        Ok(NewRecipient { name, email })
    }
}

} // verus!
