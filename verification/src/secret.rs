//! The secret of an application with authentication, and the environment
//! file that holds it.

use vstd::prelude::*;
use crate::text::{hex_encode, hex_of, is_lower_hex, lemma_hex_of};

verus! {

/// Calls `Rng::gen` on `rand::thread_rng()`, a cryptographically secure
/// generator, for thirty-two bytes. Nothing is known of the bytes. The
/// generator is seeded by the operating system; where that fails, the call
/// does not return.
#[verifier::external_body]
fn random_bytes() -> [u8; 32] {
    rand::Rng::gen::<[u8; 32]>(&mut rand::thread_rng())
}

/// Whether `secret` is the hexadecimal form of thirty-two bytes.
pub open spec fn is_secret(secret: Seq<char>) -> bool {
    exists|bytes: Seq<u8>| bytes.len() == 32 && secret == hex_of(bytes)
}

/// A secret is sixty-four lower-case hexadecimal digits.
pub proof fn lemma_secret_shape(secret: Seq<char>)
    requires
        is_secret(secret),
    ensures
        secret.len() == 64,
        forall|i: int| 0 <= i < 64 ==> is_lower_hex(#[trigger] secret[i]),
{
    let bytes = choose|bytes: Seq<u8>| bytes.len() == 32 && secret == hex_of(bytes);
    lemma_hex_of(bytes);
}

/// A fresh secret: thirty-two random bytes in hexadecimal.
pub fn generate_random_secret() -> (secret: String)
    ensures
        is_secret(secret@),
        secret@.len() == 64,
        forall|i: int| 0 <= i < 64 ==> is_lower_hex(#[trigger] secret@[i]),
{
    let bytes = random_bytes();
    let secret = hex_encode(bytes.as_slice());
    proof {
        lemma_secret_shape(secret@);
    }
    secret
}

/// The environment file that holds `secret`.
pub open spec fn env_text(secret: Seq<char>) -> Seq<char> {
    "# Auth (GitHub OAuth)\nAUTH_SECRET="@ + secret + "\nAUTH_GITHUB_ID=\nAUTH_GITHUB_SECRET=\n"@
}

/// The environment file that holds `secret`, with the identifiers of the
/// sign-in service left empty.
pub fn env_file(secret: &str) -> (content: String)
    ensures
        content@ == env_text(secret@),
{
    let mut content = String::new();
    content.append("# Auth (GitHub OAuth)\nAUTH_SECRET=");
    content.append(secret);
    content.append("\nAUTH_GITHUB_ID=\nAUTH_GITHUB_SECRET=\n");
    assert(content@ =~= env_text(secret@));
    content
}

/// An environment file with a fresh secret.
pub fn generate_env_file() -> (content: String)
    ensures
        exists|secret: Seq<char>| is_secret(secret) && content@ == env_text(secret),
{
    let secret = generate_random_secret();
    env_file(secret.as_str())
}

} // verus!
