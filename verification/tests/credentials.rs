use iracing_client::credentials::build_credentials;
use iracing_client::credentials::credential_input;

fn is_symbol(c: char) -> bool {
    c.is_ascii_alphanumeric() || c == '+' || c == '/'
}

#[test]
fn token_of_documented_account() {
    assert_eq!(
        build_credentials("MyPassWord", "CLUNKY@iracing.Com"),
        "xGKecAR27ALXNuMLsGaG0v5Q9pSs2tZTZRKNgmHMg+Q="
    );
}

#[test]
fn token_ignores_case_of_email() {
    assert_eq!(build_credentials("secret", "A@B.com"), build_credentials("secret", "a@b.com"));
    assert_eq!(build_credentials("secret", "A@B.com"), "T85RTUyVo2iriX/Lp2zNDDbJ8kpaOJd+B+5/l7JESws=");
}

#[test]
fn token_ignores_case_of_email_beyond_ascii() {
    assert_eq!(
        build_credentials("pässwörd", "Ärger@Beispiel.DE"),
        "+109buVIreVJcXi9SKDtDkU82in5gb7THM7tYATlApY="
    );
    assert_eq!(
        build_credentials("pässwörd", "Ärger@Beispiel.DE"),
        build_credentials("pässwörd", "ärger@beispiel.de")
    );
}

#[test]
fn token_is_deterministic() {
    let first = build_credentials("hunter2", "driver@example.org");
    let second = build_credentials("hunter2", "driver@example.org");
    assert_eq!(first, second);
}

#[test]
fn token_keeps_case_of_password() {
    assert_eq!(build_credentials("Secret", "a@b.com"), "ES/UVtBqVyBZ7XAVcQWixJKBqrSsVJeWnLiB7lxCvf8=");
    assert_ne!(build_credentials("Secret", "a@b.com"), build_credentials("secret", "a@b.com"));
}

#[test]
fn token_puts_password_first() {
    assert_eq!(build_credentials("a", "b"), "+44g/C5MPySMYMOb1lLzwTRymLuXe4tNWQO4UFViBgM=");
    assert_eq!(build_credentials("b", "a"), "lw9RnCytvO+x6BaU+QS8YindKoMA6YxtDU/Ev8pYQUA=");
}

#[test]
fn token_has_no_separator() {
    assert_eq!(build_credentials("ab", "c"), build_credentials("a", "bc"));
    assert_eq!(build_credentials("ab", "c"), "ungWv48Bz+pBQUDeXa4iI7ADYaOWF3qctBD/YfIAFa0=");
}

#[test]
fn token_of_empty_account() {
    assert_eq!(build_credentials("", ""), "47DEQpj8HBSa+/TImW+5JCeuQeRkm5NMpJWZG3hSuFU=");
}

#[test]
fn token_is_padded_base64_of_44_characters() {
    let accounts = vec![
        ("", ""),
        ("a", "b"),
        ("MyPassWord", "CLUNKY@iracing.Com"),
        ("pässwörd", "Ärger@Beispiel.DE"),
        ("a much longer password with spaces in it", "someone.with.a.long.name@example.org"),
    ];
    for (password, email) in accounts {
        let token = build_credentials(password, email);
        let symbols: Vec<char> = token.chars().collect();
        assert_eq!(symbols.len(), 44);
        assert!(symbols[..43].iter().all(|c| is_symbol(*c)));
        assert_eq!(symbols[43], '=');
    }
}

#[test]
fn hashed_bytes_are_password_then_email() {
    assert_eq!(credential_input("pw", "a@b.com"), b"pwa@b.com".to_vec());
    assert_eq!(credential_input("", ""), Vec::<u8>::new());
    assert_eq!(credential_input("é", "ü"), vec![0xc3, 0xa9, 0xc3, 0xbc]);
}
