use iracing_client::settings::AuthenticationSettings;
use iracing_client::settings::Credential;
use iracing_client::settings::Settings;

fn account(email: Option<&str>, password: Option<&str>) -> AuthenticationSettings {
    AuthenticationSettings {
        email: email.map(|text| text.to_string()),
        password: password.map(|text| text.to_string()),
    }
}

#[test]
fn email_is_asked_for_before_password() {
    assert_eq!(account(None, None).missing(), Some(Credential::Email));
    assert_eq!(account(None, Some("pw")).missing(), Some(Credential::Email));
    assert_eq!(account(Some("a@b.c"), None).missing(), Some(Credential::Password));
    assert_eq!(account(Some("a@b.c"), Some("pw")).missing(), None);
}

#[test]
fn prompts_are_labelled() {
    assert_eq!(Credential::Email.label(), "Email");
    assert_eq!(Credential::Password.label(), "Password");
}

#[test]
fn answer_fills_what_is_missing() {
    let filled = account(None, None).answer(Credential::Email, "a@b.c\n".to_string());
    assert_eq!(filled, account(Some("a@b.c\n"), None));
    let filled = filled.answer(Credential::Password, "pw\n".to_string());
    assert_eq!(filled, account(Some("a@b.c\n"), Some("pw\n")));
}

#[test]
fn answer_leaves_what_is_configured() {
    let configured = account(Some("a@b.c"), Some("pw"));
    assert_eq!(configured.clone().answer(Credential::Email, "x@y.z".to_string()), configured);
    assert_eq!(configured.clone().answer(Credential::Password, "other".to_string()), configured);
}

#[test]
fn credentials_are_trimmed() {
    let auth = account(Some("  a@b.c \n"), Some("\tpass word\r\n"));
    assert_eq!(auth.credentials(), Some(("a@b.c".to_string(), "pass word".to_string())));
}

#[test]
fn credentials_need_both_parts() {
    assert_eq!(account(None, None).credentials(), None);
    assert_eq!(account(Some("a@b.c"), None).credentials(), None);
    assert_eq!(account(None, Some("pw")).credentials(), None);
    assert_eq!(
        account(Some("a@b.c"), Some("pw")).credentials(),
        Some(("a@b.c".to_string(), "pw".to_string()))
    );
}

#[test]
fn asking_until_nothing_is_missing() {
    let settings = Settings { auth: account(None, None) };
    let mut auth = settings.auth;
    let mut asked = Vec::new();
    while let Some(part) = auth.missing() {
        asked.push(part);
        auth = auth.answer(part, format!(" {} \n", part.label()));
    }
    assert_eq!(asked, vec![Credential::Email, Credential::Password]);
    assert_eq!(auth.credentials(), Some(("Email".to_string(), "Password".to_string())));
}
