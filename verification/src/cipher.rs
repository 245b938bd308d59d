//! The cipher ChaCha20-Poly1305, without associated data.
use chacha20poly1305::aead::{Aead, NewAead};
use vstd::prelude::*;

verus! {

/// The number of bytes by which a ciphertext is longer than its plaintext.
pub const TAG_LEN_BYTES: usize = 16;

/// The number of bytes that the cipher is asked to take at a time at most: less than it can take,
/// and, with the tag, less than a vector can hold on any machine.
pub const MAX_MESSAGE_BYTES: usize = 0x7fff_0000;

/// The ciphertext, tag included, of a plaintext: what `encrypt` of
/// `chacha20poly1305::ChaCha20Poly1305` gives.
pub uninterp spec fn chacha20poly1305_seal(
    key: Seq<u8>,
    nonce: Seq<u8>,
    plaintext: Seq<u8>,
) -> Seq<u8>;

/// The plaintext of a ciphertext, unless its tag is wrong: what `decrypt` of
/// `chacha20poly1305::ChaCha20Poly1305` gives.
pub uninterp spec fn chacha20poly1305_open(
    key: Seq<u8>,
    nonce: Seq<u8>,
    ciphertext: Seq<u8>,
) -> Option<Seq<u8>>;

/// Whether two ciphertexts differ in their tags, which are their last bytes, and nowhere else.
pub open spec fn differ_in_tag(a: Seq<u8>, b: Seq<u8>) -> bool {
    &&& a.len() == b.len()
    &&& a.len() >= TAG_LEN_BYTES
    &&& a.take(a.len() - TAG_LEN_BYTES) == b.take(b.len() - TAG_LEN_BYTES)
    &&& a != b
}

/// Calls `encrypt` of `chacha20poly1305::ChaCha20Poly1305`.
///
/// The contract names the ciphertext and claims that messages of this length are taken, that the
/// ciphertext is longer than the plaintext by the tag, that decrypting it with the same key and
/// nonce gives the plaintext back, and that with another tag it is not decrypted: the tag is
/// computed from what stands before it and compared whole. The error of the cipher, which holds
/// nothing, is `None`.
#[verifier::external_body]
pub(crate) fn encrypt(key: &[u8; 32], nonce: &[u8; 12], plaintext: &[u8]) -> (result: Option<
    Vec<u8>,
>)
    requires
        plaintext@.len() <= MAX_MESSAGE_BYTES,
    ensures
        result is Some,
        result matches Some(c) ==> c@ == chacha20poly1305_seal(key@, nonce@, plaintext@),
        result matches Some(c) ==> c@.len() == plaintext@.len() + TAG_LEN_BYTES,
        result matches Some(c) ==> chacha20poly1305_open(key@, nonce@, c@) == Some(plaintext@),
        result matches Some(c) ==> forall|other: Seq<u8>|
            differ_in_tag(c@, other) ==> #[trigger] chacha20poly1305_open(
                key@,
                nonce@,
                other,
            ) is None,
{
    let cipher = chacha20poly1305::ChaCha20Poly1305::new(chacha20poly1305::Key::from_slice(key));
    cipher.encrypt(chacha20poly1305::Nonce::from_slice(nonce), plaintext).ok()
}

/// Calls `decrypt` of `chacha20poly1305::ChaCha20Poly1305`.
///
/// The contract names the plaintext and claims that it is shorter than the ciphertext by the tag,
/// that encrypting it with the same key and nonce gives the ciphertext back, since one keystream
/// serves both ways and the tag that is compared is the one that `encrypt` appends, and that a
/// ciphertext that differs from a decrypted one in the tag alone is not decrypted. The error of
/// the cipher, which holds nothing, is `None`.
#[verifier::external_body]
pub(crate) fn decrypt(key: &[u8; 32], nonce: &[u8; 12], ciphertext: &[u8]) -> (result: Option<
    Vec<u8>,
>)
    requires
        ciphertext@.len() <= MAX_MESSAGE_BYTES,
    ensures
        result matches Some(p) ==> chacha20poly1305_open(key@, nonce@, ciphertext@) == Some(p@),
        result matches Some(p) ==> p@.len() + TAG_LEN_BYTES == ciphertext@.len(),
        result matches Some(p) ==> chacha20poly1305_seal(key@, nonce@, p@) == ciphertext@,
        result is Some ==> forall|other: Seq<u8>|
            differ_in_tag(ciphertext@, other) ==> #[trigger] chacha20poly1305_open(
                key@,
                nonce@,
                other,
            ) is None,
        result is None ==> chacha20poly1305_open(key@, nonce@, ciphertext@) is None,
{
    let cipher = chacha20poly1305::ChaCha20Poly1305::new(chacha20poly1305::Key::from_slice(key));
    cipher.decrypt(chacha20poly1305::Nonce::from_slice(nonce), ciphertext).ok()
}

/// Ciphertexts of one length that agree before the tag, and do not agree at some place in it,
/// differ in the tag.
pub proof fn lemma_differ_in_tag(a: Seq<u8>, b: Seq<u8>, place: int)
    requires
        a.len() == b.len(),
        16 <= a.len(),
        forall|i: int| 0 <= i < a.len() - 16 ==> a[i] == b[i],
        a.len() - 16 <= place < a.len(),
        a[place] != b[place],
    ensures
        differ_in_tag(a, b),
{
    assert(a.take(a.len() - 16) =~= b.take(b.len() - 16));
}

} // verus!
