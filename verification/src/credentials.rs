//! The login secret: the password is never sent, only a digest of it and the email.

use base64::prelude::BASE64_STANDARD;
use base64::Engine;
use sha2::Digest;
use sha2::Sha256;
use vstd::prelude::*;
use vstd::string::*;
use vstd::utf8::encode_utf8;

verus! {

/// The text that `str::to_lowercase` gives for `text`.
pub uninterp spec fn lowercase(text: Seq<char>) -> Seq<char>;

/// The SHA-256 digest of `data`, as `sha2` computes it.
pub uninterp spec fn sha256(data: Seq<u8>) -> Seq<u8>;

/// The encoding of `data` by `base64`'s standard engine: the RFC 4648 alphabet, padded.
pub uninterp spec fn base64_standard(data: Seq<u8>) -> Seq<char>;

/// Length of a SHA-256 digest in bytes.
pub const DIGEST_LEN: usize = 32;

/// Length of the login token in characters.
pub const TOKEN_LEN: usize = 44;

/// A character of the standard base64 alphabet.
pub open spec fn is_base64_symbol(c: char) -> bool {
    ('A' <= c <= 'Z') || ('a' <= c <= 'z') || ('0' <= c <= '9') || c == '+' || c == '/'
}

/// Characters in the padded encoding of `n` bytes.
pub open spec fn base64_len(n: nat) -> nat {
    4 * ((n + 2) / 3)
}

/// Padding characters that close the encoding of `n` bytes.
pub open spec fn base64_padding(n: nat) -> nat {
    ((3 - n % 3) % 3) as nat
}

/// `text` has the form of a padded standard encoding of `n` bytes: the right length,
/// alphabet symbols up to the padding, and `=` from there on.
pub open spec fn is_padded_base64(text: Seq<char>, n: nat) -> bool {
    &&& text.len() == base64_len(n)
    &&& forall|i: int| 0 <= i < text.len() - base64_padding(n) ==> is_base64_symbol(#[trigger] text[i])
    &&& forall|i: int| text.len() - base64_padding(n) <= i < text.len() ==> #[trigger] text[i] == '='
}

/// The bytes that are hashed: the UTF-8 text of the password with the
/// lower-cased email directly behind it.
pub open spec fn token_input(password: Seq<char>, lowered_email: Seq<char>) -> Seq<u8> {
    encode_utf8(password + lowered_email)
}

/// The token that the service expects in place of the password: the padded base64
/// of the SHA-256 digest of the password followed by the lower-cased email.
pub open spec fn credential_token(password: Seq<char>, email: Seq<char>) -> Seq<char> {
    base64_standard(sha256(token_input(password, lowercase(email))))
}

/// Calls `str::to_lowercase`. The contract only names the result: Unicode
/// lower-casing is not spelled out here.
#[verifier::external_body]
fn to_lowercase(text: &str) -> (lowered: String)
    ensures
        lowered@ == lowercase(text@),
{
    text.to_lowercase()
}

/// Calls `sha2::Sha256::digest`. The contract names the digest and states its
/// length, 32 bytes, the output size that `sha2` fixes for SHA-256.
#[verifier::external_body]
fn sha256_digest(data: &[u8]) -> (digest: Vec<u8>)
    ensures
        digest@ == sha256(data@),
        digest@.len() == DIGEST_LEN,
{
    Sha256::digest(data).to_vec()
}

/// Calls `Engine::encode` on `base64::prelude::BASE64_STANDARD`. The contract
/// names the encoding and states its form: four characters for every three
/// bytes begun, symbols of the standard alphabet, closed by `=` padding. The
/// call panics where the encoded length overflows `usize`, which `requires`
/// leaves out.
#[verifier::external_body]
fn base64_encode(data: &[u8]) -> (text: String)
    requires
        base64_len(data@.len()) <= usize::MAX,
    ensures
        text@ == base64_standard(data@),
        is_padded_base64(text@, data@.len()),
{
    BASE64_STANDARD.encode(data)
}

/// Lays out the bytes to hash for a password and an email that is already
/// in lower case: the password first, nothing between the two.
pub fn credential_input(password: &str, lowered_email: &str) -> (input: Vec<u8>)
    ensures
        input@ == token_input(password@, lowered_email@),
{
    let mut combined = password.to_owned();
    combined.append(lowered_email);
    combined.as_str().as_bytes_vec()
}

/// Derives the login token from a password and an email.
///
/// The result is a function of the two texts alone, and of the email only
/// through its lower-cased form. It is always 44 characters long: 43 symbols
/// of the base64 alphabet and one `=`.
pub fn build_credentials(password: &str, email: &str) -> (token: String)
    ensures
        token@ == credential_token(password@, email@),
        token@.len() == TOKEN_LEN,
        is_padded_base64(token@, DIGEST_LEN as nat),
        forall|i: int| 0 <= i < 43 ==> is_base64_symbol(#[trigger] token@[i]),
        token@[43] == '=',
{
    let lowered = to_lowercase(email);
    let input = credential_input(password, lowered.as_str());
    let digest = sha256_digest(input.as_slice());
    base64_encode(digest.as_slice())
}

/// The token does not depend on the case of the email: two emails with the
/// same lower-cased form give the same token for a password.
pub proof fn lemma_token_ignores_email_case(password: Seq<char>, email_a: Seq<char>, email_b: Seq<char>)
    requires
        lowercase(email_a) == lowercase(email_b),
    ensures
        credential_token(password, email_a) == credential_token(password, email_b),
{
}

} // verus!
