//! Authenticated encryption with associated data.
//!
//! Every backend offers the same two operations. Each takes an input text
//! and an output buffer of the same length. When the input text is omitted,
//! the output buffer holds the input on entry and is overwritten in place.

use crate::board::{BoardError, Unsupported};
use aead::AeadInPlace;
use crypto_common::KeyInit;
use generic_array::GenericArray;
use vstd::prelude::*;

verus! {

/// How a backend takes its input.
#[derive(Clone, Copy)]
pub struct AeadSupport {
    /// The backend reads the input text from a buffer of its own, without
    /// copying it.
    pub no_copy: bool,
    /// The backend works in place on the output buffer, without copying.
    pub in_place_no_copy: bool,
}

impl AeadSupport {
    /// Whether the backend exists at all.
    pub open spec fn supported(self) -> bool {
        self.no_copy || self.in_place_no_copy
    }
}

impl vstd::std_specs::convert::FromSpecImpl<AeadSupport> for bool {
    open spec fn obeys_from_spec() -> bool {
        true
    }

    open spec fn from_spec(value: AeadSupport) -> bool {
        value.supported()
    }
}

impl From<AeadSupport> for bool {
    /// Whether the backend exists at all.
    fn from(value: AeadSupport) -> (r: bool) {
        value.no_copy || value.in_place_no_copy
    }
}

/// The text that an operation works on: the input text if one is given,
/// else what the output buffer holds on entry.
pub open spec fn input(given: Option<Seq<u8>>, buffer: Seq<u8>) -> Seq<u8> {
    match given {
        Some(text) => text,
        None => buffer,
    }
}

/// The view of an optional slice.
pub open spec fn view_of(text: Option<&[u8]>) -> Option<Seq<u8>> {
    match text {
        Some(text) => Some(text@),
        None => None,
    }
}

/// A backend for authenticated encryption with fixed key, IV and tag
/// lengths.
pub trait Api {
    /// How the backend takes its input. A board without the backend
    /// supports neither way.
    spec fn support() -> AeadSupport;

    /// The length of a key in bytes.
    spec fn key_len() -> nat;

    /// The length of an IV in bytes.
    spec fn iv_len() -> nat;

    /// The length of a tag in bytes.
    spec fn tag_len() -> nat;

    /// The cipher text and the tag of `clear` under `key` and `iv` with the
    /// associated data `aad`, or `None` where the backend fails.
    spec fn sealed(key: Seq<u8>, iv: Seq<u8>, aad: Seq<u8>, clear: Seq<u8>) -> Option<
        (Seq<u8>, Seq<u8>),
    >;

    /// The clear text of `cipher` if `tag` authenticates it together with
    /// `aad` under `key` and `iv`, else `None`.
    spec fn opened(key: Seq<u8>, iv: Seq<u8>, aad: Seq<u8>, cipher: Seq<u8>, tag: Seq<u8>)
        -> Option<Seq<u8>>;

    /// How the backend takes its input.
    fn get_support() -> (r: AeadSupport)
        ensures
            r == Self::support(),
    ;

    /// Encrypts and authenticates a clear text with associated data.
    ///
    /// With `clear` omitted, `cipher` holds the clear text on entry and is
    /// encrypted in place. On failure the tag is left as it was, and the
    /// contents of `cipher` are unspecified.
    fn encrypt(
        key: &[u8],
        iv: &[u8],
        aad: &[u8],
        clear: Option<&[u8]>,
        cipher: &mut [u8],
        tag: &mut [u8],
    ) -> (r: Result<(), BoardError>)
        requires
            Self::support().supported(),
            key@.len() == Self::key_len(),
            iv@.len() == Self::iv_len(),
            old(tag)@.len() == Self::tag_len(),
            clear matches Some(text) ==> text@.len() == old(cipher)@.len(),
        ensures
            final(cipher)@.len() == old(cipher)@.len(),
            final(tag)@.len() == old(tag)@.len(),
            match Self::sealed(key@, iv@, aad@, input(view_of(clear), old(cipher)@)) {
                Some((text, code)) => r is Ok && final(cipher)@ == text && final(tag)@ == code,
                None => r == Err::<(), BoardError>(BoardError::World),
            },
            r is Err ==> final(tag)@ == old(tag)@,
    ;

    /// Authenticates and decrypts a cipher text with associated data.
    ///
    /// With `cipher` omitted, `clear` holds the cipher text on entry and is
    /// decrypted in place. What `encrypt` made of a clear text under the
    /// same key, IV and associated data is decrypted to that clear text. On
    /// failure the contents of `clear` are unspecified.
    fn decrypt(
        key: &[u8],
        iv: &[u8],
        aad: &[u8],
        cipher: Option<&[u8]>,
        tag: &[u8],
        clear: &mut [u8],
    ) -> (r: Result<(), BoardError>)
        requires
            Self::support().supported(),
            key@.len() == Self::key_len(),
            iv@.len() == Self::iv_len(),
            tag@.len() == Self::tag_len(),
            cipher matches Some(text) ==> text@.len() == old(clear)@.len(),
        ensures
            final(clear)@.len() == old(clear)@.len(),
            match Self::opened(key@, iv@, aad@, input(view_of(cipher), old(clear)@), tag@) {
                Some(text) => r is Ok && final(clear)@ == text,
                None => r == Err::<(), BoardError>(BoardError::World),
            },
            forall|text: Seq<u8>|
                Self::sealed(key@, iv@, aad@, text) == Some(
                    (input(view_of(cipher), old(clear)@), tag@),
                ) ==> r is Ok && final(clear)@ == text,
    ;
}

/// Encrypting in place a buffer that holds the clear text gives the cipher
/// text and tag that encrypting the same clear text into any other buffer
/// gives.
pub proof fn lemma_in_place_is_equivalent<T: Api>(
    key: Seq<u8>,
    iv: Seq<u8>,
    aad: Seq<u8>,
    clear: Seq<u8>,
    buffer: Seq<u8>,
)
    ensures
        T::sealed(key, iv, aad, input(None, clear)) == T::sealed(
            key,
            iv,
            aad,
            input(Some(clear), buffer),
        ),
        forall|tag: Seq<u8>|
            T::opened(key, iv, aad, input(None, clear), tag) == T::opened(
                key,
                iv,
                aad,
                input(Some(clear), buffer),
                tag,
            ),
{
}

/// Overwrites `to` with `from`.
fn copy(to: &mut [u8], from: &[u8])
    requires
        old(to)@.len() == from@.len(),
    ensures
        final(to)@ == from@,
{
    let mut i: usize = 0;
    while i < from.len()
        invariant
            i <= from@.len(),
            to@.len() == from@.len(),
            to@.take(i as int) == from@.take(i as int),
        decreases from@.len() - i,
    {
        to[i] = from[i];
        proof {
            assert(to@.take(i + 1) =~= from@.take(i + 1));
        }
        i += 1;
    }
    proof {
        assert(to@.take(i as int) =~= to@);
        assert(from@.take(i as int) =~= from@);
    }
}

impl Api for Unsupported {
    open spec fn support() -> AeadSupport {
        AeadSupport { no_copy: false, in_place_no_copy: false }
    }

    open spec fn key_len() -> nat {
        0
    }

    open spec fn iv_len() -> nat {
        0
    }

    open spec fn tag_len() -> nat {
        0
    }

    open spec fn sealed(key: Seq<u8>, iv: Seq<u8>, aad: Seq<u8>, clear: Seq<u8>) -> Option<
        (Seq<u8>, Seq<u8>),
    > {
        None
    }

    open spec fn opened(key: Seq<u8>, iv: Seq<u8>, aad: Seq<u8>, cipher: Seq<u8>, tag: Seq<u8>)
        -> Option<Seq<u8>> {
        None
    }

    fn get_support() -> (r: AeadSupport) {
        AeadSupport { no_copy: false, in_place_no_copy: false }
    }

    /// Never called: no caller can show that the backend is supported.
    fn encrypt(
        key: &[u8],
        iv: &[u8],
        aad: &[u8],
        clear: Option<&[u8]>,
        cipher: &mut [u8],
        tag: &mut [u8],
    ) -> (r: Result<(), BoardError>) {
        proof {
            assert(!Self::support().supported());
        }
        Err(BoardError::World)
    }

    /// Never called: no caller can show that the backend is supported.
    fn decrypt(
        key: &[u8],
        iv: &[u8],
        aad: &[u8],
        cipher: Option<&[u8]>,
        tag: &[u8],
        clear: &mut [u8],
    ) -> (r: Result<(), BoardError>) {
        proof {
            assert(!Self::support().supported());
        }
        Err(BoardError::World)
    }
}

/// The failure of the software cipher, which tells nothing of its cause.
#[verifier::external_type_specification]
#[verifier::external_body]
pub struct ExAeadError(aead::Error);

/// What `encrypt_in_place_detached` of AES-256-GCM makes of a clear text:
/// the cipher text and the tag, or `None` where it fails.
pub uninterp spec fn aes256_gcm_sealed(key: Seq<u8>, iv: Seq<u8>, aad: Seq<u8>, clear: Seq<u8>)
    -> Option<(Seq<u8>, Seq<u8>)>;

/// What `decrypt_in_place_detached` of AES-256-GCM makes of a cipher text
/// and a tag: the clear text, or `None` where it fails.
pub uninterp spec fn aes256_gcm_opened(
    key: Seq<u8>,
    iv: Seq<u8>,
    aad: Seq<u8>,
    cipher: Seq<u8>,
    tag: Seq<u8>,
) -> Option<Seq<u8>>;

/// Calls `encrypt_in_place_detached` of `aes_gcm::Aes256Gcm`, keyed with
/// `key`, on `buffer`. Not proved: that its outcome is a function of the
/// four byte strings alone, that it keeps the length of the buffer, and
/// that a tag has 16 bytes.
#[verifier::external_body]
fn aes256_gcm_encrypt_in_place_detached(key: &[u8], iv: &[u8], aad: &[u8], buffer: &mut [u8]) -> (r:
    Result<Vec<u8>, aead::Error>)
    requires
        key@.len() == 32,
        iv@.len() == 12,
    ensures
        final(buffer)@.len() == old(buffer)@.len(),
        match r {
            Ok(tag) => tag@.len() == 16 && aes256_gcm_sealed(key@, iv@, aad@, old(buffer)@)
                == Some((final(buffer)@, tag@)),
            Err(_) => aes256_gcm_sealed(key@, iv@, aad@, old(buffer)@) is None,
        },
{
    let aead = aes_gcm::Aes256Gcm::new(GenericArray::from_slice(key));
    let tag = aead.encrypt_in_place_detached(GenericArray::from_slice(iv), aad, buffer)?;
    Ok(tag.to_vec())
}

/// Calls `decrypt_in_place_detached` of `aes_gcm::Aes256Gcm`, keyed with
/// `key`, on `buffer`. Not proved: that its outcome is a function of the
/// five byte strings alone, that it keeps the length of the buffer, and
/// that it gives back the clear text of what the cipher sealed under the
/// same key, IV and associated data.
#[verifier::external_body]
fn aes256_gcm_decrypt_in_place_detached(
    key: &[u8],
    iv: &[u8],
    aad: &[u8],
    buffer: &mut [u8],
    tag: &[u8],
) -> (r: Result<(), aead::Error>)
    requires
        key@.len() == 32,
        iv@.len() == 12,
        tag@.len() == 16,
    ensures
        final(buffer)@.len() == old(buffer)@.len(),
        match r {
            Ok(_) => aes256_gcm_opened(key@, iv@, aad@, old(buffer)@, tag@) == Some(
                final(buffer)@,
            ),
            Err(_) => aes256_gcm_opened(key@, iv@, aad@, old(buffer)@, tag@) is None,
        },
        forall|clear: Seq<u8>|
            aes256_gcm_sealed(key@, iv@, aad@, clear) == Some((old(buffer)@, tag@)) ==> r is Ok
                && final(buffer)@ == clear,
{
    let aead = aes_gcm::Aes256Gcm::new(GenericArray::from_slice(key));
    aead.decrypt_in_place_detached(
        GenericArray::from_slice(iv),
        aad,
        buffer,
        GenericArray::from_slice(tag),
    )
}

/// AES-256 in Galois/Counter Mode, computed in software: keys of 32 bytes,
/// IVs of 12 bytes, tags of 16 bytes.
pub struct Aes256Gcm;

impl Api for Aes256Gcm {
    open spec fn support() -> AeadSupport {
        AeadSupport { no_copy: false, in_place_no_copy: true }
    }

    open spec fn key_len() -> nat {
        32
    }

    open spec fn iv_len() -> nat {
        12
    }

    open spec fn tag_len() -> nat {
        16
    }

    open spec fn sealed(key: Seq<u8>, iv: Seq<u8>, aad: Seq<u8>, clear: Seq<u8>) -> Option<
        (Seq<u8>, Seq<u8>),
    > {
        aes256_gcm_sealed(key, iv, aad, clear)
    }

    open spec fn opened(key: Seq<u8>, iv: Seq<u8>, aad: Seq<u8>, cipher: Seq<u8>, tag: Seq<u8>)
        -> Option<Seq<u8>> {
        aes256_gcm_opened(key, iv, aad, cipher, tag)
    }

    fn get_support() -> (r: AeadSupport) {
        AeadSupport { no_copy: false, in_place_no_copy: true }
    }

    fn encrypt(
        key: &[u8],
        iv: &[u8],
        aad: &[u8],
        clear: Option<&[u8]>,
        cipher: &mut [u8],
        tag: &mut [u8],
    ) -> (r: Result<(), BoardError>) {
        if let Some(clear) = clear {
            copy(cipher, clear);
        }
        match aes256_gcm_encrypt_in_place_detached(key, iv, aad, cipher) {
            Ok(code) => {
                copy(tag, code.as_slice());
                Ok(())
            },
            Err(_) => Err(BoardError::World),
        }
    }

    fn decrypt(
        key: &[u8],
        iv: &[u8],
        aad: &[u8],
        cipher: Option<&[u8]>,
        tag: &[u8],
        clear: &mut [u8],
    ) -> (r: Result<(), BoardError>) {
        if let Some(cipher) = cipher {
            copy(clear, cipher);
        }
        match aes256_gcm_decrypt_in_place_detached(key, iv, aad, clear, tag) {
            Ok(_) => Ok(()),
            Err(_) => Err(BoardError::World),
        }
    }
}

} // verus!
