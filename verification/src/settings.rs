//! The credentials of the account: taken from the configuration where it
//! gives them, asked of the user where it does not.

use crate::text::text_of;
use vstd::prelude::*;
use vstd::string::*;

verus! {

/// The configuration of the program.
#[derive(Debug, Clone, PartialEq, Eq)]
pub struct Settings {
    pub auth: AuthenticationSettings,
}

/// The account to log in with, as far as it is known.
#[derive(Debug, Clone, PartialEq, Eq)]
pub struct AuthenticationSettings {
    pub email: Option<String>,
    pub password: Option<String>,
}

/// The account as plain values.
pub struct AuthenticationView {
    pub email: Option<Seq<char>>,
    pub password: Option<Seq<char>>,
}

impl View for AuthenticationSettings {
    type V = AuthenticationView;

    open spec fn view(&self) -> AuthenticationView {
        AuthenticationView { email: text_of(self.email), password: text_of(self.password) }
    }
}

/// A part of the account that the user can be asked for.
#[derive(Debug, Clone, Copy, PartialEq, Eq, Structural)]
pub enum Credential {
    Email,
    Password,
}

/// The text that `str::trim` keeps of `text`: `text` without the white space
/// at its two ends.
pub uninterp spec fn trimmed(text: Seq<char>) -> Seq<char>;

/// Calls `str::trim` and copies what it keeps. The contract only names the
/// result: which characters count as white space is Unicode's matter.
#[verifier::external_body]
fn trim(text: &str) -> (kept: String)
    ensures
        kept@ == trimmed(text@),
{
    text.trim().to_owned()
}

impl Credential {
    /// The word that the prompt shows.
    pub open spec fn label_text(self) -> Seq<char> {
        match self {
            Credential::Email => "Email"@,
            Credential::Password => "Password"@,
        }
    }

    /// The word that the prompt shows.
    pub fn label(self) -> (label: &'static str)
        ensures
            label@ == self.label_text(),
    {
        match self {
            Credential::Email => "Email",
            Credential::Password => "Password",
        }
    }
}

/// The first part of an account that is not known, the email before the password.
pub open spec fn first_missing(auth: AuthenticationView) -> Option<Credential> {
    if auth.email is None {
        Some(Credential::Email)
    } else if auth.password is None {
        Some(Credential::Password)
    } else {
        None
    }
}

/// The account after the user's answer for one part: the answer fills the
/// part where it was not known, and a part that was known stays.
pub open spec fn with_answer(
    auth: AuthenticationView,
    part: Credential,
    answer: Seq<char>,
) -> AuthenticationView {
    match part {
        Credential::Email => AuthenticationView {
            email: if auth.email is Some {
                auth.email
            } else {
                Some(answer)
            },
            ..auth
        },
        Credential::Password => AuthenticationView {
            password: if auth.password is Some {
                auth.password
            } else {
                Some(answer)
            },
            ..auth
        },
    }
}

/// The email and the password to log in with, each trimmed, once both are known.
pub open spec fn login_pair(auth: AuthenticationView) -> Option<(Seq<char>, Seq<char>)> {
    match (auth.email, auth.password) {
        (Some(email), Some(password)) => Some((trimmed(email), trimmed(password))),
        _ => None,
    }
}

impl AuthenticationSettings {
    /// What to ask the user for next, if anything.
    pub fn missing(&self) -> (part: Option<Credential>)
        ensures
            part == first_missing(self@),
    {
        if self.email.is_none() {
            Some(Credential::Email)
        } else if self.password.is_none() {
            Some(Credential::Password)
        } else {
            None
        }
    }

    /// Takes the user's answer for one part of the account.
    pub fn answer(self, part: Credential, answer: String) -> (filled: AuthenticationSettings)
        ensures
            filled@ == with_answer(self@, part, answer@),
    {
        match part {
            Credential::Email => AuthenticationSettings {
                email: match self.email {
                    Some(known) => Some(known),
                    None => Some(answer),
                },
                password: self.password,
            },
            Credential::Password => AuthenticationSettings {
                email: self.email,
                password: match self.password {
                    Some(known) => Some(known),
                    None => Some(answer),
                },
            },
        }
    }

    /// The email and the password to log in with, in this order, each
    /// without the white space around it. `None` while a part is missing.
    pub fn credentials(&self) -> (pair: Option<(String, String)>)
        ensures
            match pair {
                Some((email, password)) => login_pair(self@) == Some((email@, password@)),
                None => login_pair(self@) is None,
            },
    {
        match (&self.email, &self.password) {
            (Some(email), Some(password)) => Some((trim(email.as_str()), trim(password.as_str()))),
            _ => None,
        }
    }
}

/// Asking for what is missing ends: an answer for the missing part leaves
/// less missing, and an account with nothing missing yields its pair.
pub proof fn lemma_answers_complete(auth: AuthenticationView, answer: Seq<char>)
    ensures
        first_missing(auth) is None <==> login_pair(auth) is Some,
        first_missing(auth) == Some(Credential::Email) ==> first_missing(
            with_answer(auth, Credential::Email, answer),
        ) != Some(Credential::Email),
        first_missing(auth) == Some(Credential::Password) ==> first_missing(
            with_answer(auth, Credential::Password, answer),
        ) is None,
{
}

} // verus!
