//! The key custodian: owner of the private signing key.
//!
//! The custodian holds the 32-byte secret scalar and the public key derived
//! from it; the secret never leaves this module except through the
//! cryptographic operations below.  The primitives themselves (schnorr
//! signatures and the shared-secret cipher) are outside collaborators,
//! reached through the trusted wrappers at the top of the file; everything
//! stated about them is what their sources show.

use vstd::prelude::*;

verus! {

/// Whether 32 bytes are a valid secret scalar, as decided by
/// `nostr::key::SecretKey::from_slice`.
pub uninterp spec fn sk_ok(sk: Seq<u8>) -> bool;

/// The public key that `nostr::key::Keys` derives from a secret key: a
/// function of the secret bytes alone.
pub uninterp spec fn pubkey_of(sk: Seq<u8>) -> Seq<u8>;

/// The secret key that `nostr::key::SecretKey::parse` reads from a hex or
/// bech32 string, if any.
pub uninterp spec fn sk_from_str(s: Seq<char>) -> Option<Seq<u8>>;

/// Whether 32 bytes name a point on the curve, as decided by the
/// compressed-point parse inside the shared-secret derivation.
pub uninterp spec fn pk_on_curve(pk: Seq<u8>) -> bool;

/// Whether a schnorr signature verifies for a public key and message, as
/// decided by `secp256k1::Secp256k1::verify_schnorr`.
pub uninterp spec fn sig_ok(pk: Seq<u8>, msg: Seq<u8>, sig: Seq<u8>) -> bool;

/// What the shared-secret cipher recovers from a ciphertext, as computed by
/// `nostr::nips::nip04::decrypt_to_bytes`: a function of the keys and the
/// ciphertext alone.
pub uninterp spec fn nip04_decrypt_of(sk: Seq<u8>, pk: Seq<u8>, ct: Seq<u8>) -> Option<Seq<u8>>;

/// A ciphertext is sealed to a recipient key when any holder of a secret
/// for that key, keyed back to the sender, recovers the plaintext.
pub open spec fn sealed_to(sender_sk: Seq<u8>, pk: Seq<u8>, pt: Seq<u8>, ct: Seq<u8>) -> bool {
    forall|sk2: Seq<u8>|
        sk_ok(sk2) && #[trigger] pubkey_of(sk2) == pk ==> nip04_decrypt_of(
            sk2,
            pubkey_of(sender_sk),
            ct,
        ) == Some(pt)
}

/// Relies on nostr::key::SecretKey::parse (hex or bech32 forms) and
/// SecretKey::to_secret_bytes: a parsed key is 32 valid secret bytes.
#[verifier::external_body]
fn secret_key_from_str(s: &str) -> (r: Option<Vec<u8>>)
    ensures
        match r {
            Option::Some(k) => sk_from_str(s@) == Some(k@) && k@.len() == 32 && sk_ok(k@),
            Option::None => sk_from_str(s@) is None,
        },
{
    match nostr::key::SecretKey::parse(s) {
        Ok(secret) => Some(secret.to_secret_bytes().to_vec()),
        Err(_) => None,
    }
}

/// Relies on nostr::key::SecretKey::from_slice and Keys::public_key: the
/// derived x-only public key is 32 bytes and a function of the secret.
#[verifier::external_body]
fn derive_public_key(sk: &Vec<u8>) -> (r: Option<Vec<u8>>)
    ensures
        r is Some <==> sk_ok(sk@),
        r matches Some(p) ==> (p@ == pubkey_of(sk@) && p@.len() == 32),
{
    match nostr::key::SecretKey::from_slice(sk.as_slice()) {
        Ok(secret) => {
            let keys = nostr::key::Keys::new(secret);
            Some(keys.public_key().to_bytes().to_vec())
        },
        Err(_) => None,
    }
}

/// Relies on nostr::key::Keys::sign_schnorr: the signature it returns for a
/// message verifies for the signer's public key (the auxiliary randomness
/// inside makes the signature itself unpredictable, so nothing more is
/// stated of its bytes).
#[verifier::external_body]
fn schnorr_sign_raw(sk: &Vec<u8>, msg: &Vec<u8>) -> (r: Option<Vec<u8>>)
    ensures
        r is Some <==> sk_ok(sk@),
        r matches Some(s) ==> (s@.len() == 64 && sig_ok(pubkey_of(sk@), msg@, s@)),
{
    match nostr::key::SecretKey::from_slice(sk.as_slice()) {
        Ok(secret) => {
            let keys = nostr::key::Keys::new(secret);
            let sig = keys.sign_schnorr(msg.as_slice());
            Some(sig.to_bytes().to_vec())
        },
        Err(_) => None,
    }
}

/// Relies on secp256k1::Secp256k1::verify_schnorr (with the x-only key and
/// signature parses in front of it): verification is a pure function of the
/// key, message and signature bytes; bytes that parse as no key or no
/// signature verify as false.
#[verifier::external_body]
pub(crate) fn schnorr_verify_raw(pk: &Vec<u8>, msg: &Vec<u8>, sig: &Vec<u8>) -> (r: bool)
    ensures
        r == sig_ok(pk@, msg@, sig@),
{
    let x = match secp256k1::XOnlyPublicKey::from_slice(pk.as_slice()) {
        Ok(x) => x,
        Err(_) => return false,
    };
    let s = match secp256k1::schnorr::Signature::from_slice(sig.as_slice()) {
        Ok(s) => s,
        Err(_) => return false,
    };
    let secp = secp256k1::Secp256k1::verification_only();
    secp.verify_schnorr(&s, msg.as_slice(), &x).is_ok()
}

/// Relies on nostr::nips::nip04::encrypt: with a valid secret key it fails
/// exactly when the recipient bytes are not a 32-byte curve point, and a
/// ciphertext it returns decrypts, under any secret key whose public key is
/// the recipient, keyed back to the sender, to the original plaintext
/// (the shared secret of the two key pairs is the same point either way).
#[verifier::external_body]
fn nip04_seal(sk: &Vec<u8>, pk: &Vec<u8>, pt: &Vec<u8>) -> (r: Option<Vec<u8>>)
    requires
        sk_ok(sk@),
    ensures
        r is Some <==> (pk@.len() == 32 && pk_on_curve(pk@)),
        r matches Some(ct) ==> sealed_to(sk@, pk@, pt@, ct@),
{
    let secret = nostr::key::SecretKey::from_slice(sk.as_slice()).ok()?;
    let public = nostr::key::PublicKey::from_slice(pk.as_slice()).ok()?;
    nostr::nips::nip04::encrypt(&secret, &public, pt.as_slice()).ok().map(|t| t.into_bytes())
}

/// Relies on nostr::nips::nip04::decrypt_to_bytes: decryption is a pure
/// function of the two keys and the ciphertext bytes.
#[verifier::external_body]
fn nip04_open(sk: &Vec<u8>, pk: &Vec<u8>, ct: &Vec<u8>) -> (r: Option<Vec<u8>>)
    ensures
        match r {
            Option::Some(p) => nip04_decrypt_of(sk@, pk@, ct@) == Some(p@),
            Option::None => nip04_decrypt_of(sk@, pk@, ct@) is None,
        },
{
    let secret = nostr::key::SecretKey::from_slice(sk.as_slice()).ok()?;
    let public = nostr::key::PublicKey::from_slice(pk.as_slice()).ok()?;
    let text = String::from_utf8(ct.clone()).ok()?;
    nostr::nips::nip04::decrypt_to_bytes(&secret, &public, text).ok()
}

/// Copies a byte vector.
pub fn copy_bytes(v: &Vec<u8>) -> (r: Vec<u8>)
    ensures
        r@ == v@,
{
    let mut out: Vec<u8> = Vec::new();
    let mut i: usize = 0;
    while i < v.len()
        invariant
            i <= v@.len(),
            out@ == v@.take(i as int),
        decreases v@.len() - i,
    {
        out.push(v[i]);
        proof {
            assert(v@.take(i + 1) =~= v@.take(i as int).push(v@[i as int]));
        }
        i = i + 1;
    }
    proof {
        assert(v@.take(v@.len() as int) =~= v@);
    }
    out
}

/// The custodian of the private signing key.  The secret is write-once at
/// construction; the public key field always equals the key derived from
/// the secret.
pub struct KeyCustodian {
    sk: Vec<u8>,
    pk: Vec<u8>,
}

impl KeyCustodian {
    /// The secret scalar (visible to specifications only).
    pub closed spec fn secret(self) -> Seq<u8> {
        self.sk@
    }

    #[verifier::type_invariant]
    closed spec fn inv(self) -> bool {
        &&& sk_ok(self.sk@)
        &&& self.pk@ == pubkey_of(self.sk@)
        &&& self.pk@.len() == 32
    }

    /// Builds a custodian from raw secret bytes; fails exactly when the
    /// bytes are not a valid secret scalar.
    pub fn from_secret_bytes(sk: Vec<u8>) -> (r: Option<KeyCustodian>)
        ensures
            r is Some <==> sk_ok(sk@),
            r matches Some(c) ==> c.secret() == sk@,
    {
        match derive_public_key(&sk) {
            Option::Some(pk) => Option::Some(KeyCustodian { sk, pk }),
            Option::None => Option::None,
        }
    }

    /// Builds a custodian from a secret-key string; fails exactly when the
    /// string parses as no secret key.
    pub fn from_secret_str(s: &str) -> (r: Option<KeyCustodian>)
        ensures
            r is Some <==> sk_from_str(s@) is Some,
            r matches Some(c) ==> sk_from_str(s@) == Some(c.secret()),
    {
        match secret_key_from_str(s) {
            Option::Some(sk) => match KeyCustodian::from_secret_bytes(sk) {
                Option::Some(c) => Option::Some(c),
                Option::None => Option::None,
            },
            Option::None => Option::None,
        }
    }

    /// The derived public key: a pure function of the secret, so repeated
    /// calls always return the same 32 bytes.
    pub fn public_key(&self) -> (r: Vec<u8>)
        ensures
            r@ == pubkey_of(self.secret()),
            r@.len() == 32,
    {
        proof {
            use_type_invariant(&*self);
        }
        copy_bytes(&self.pk)
    }

    /// Signs a message; the signature verifies for this custodian's public
    /// key.
    pub fn sign(&self, msg: &Vec<u8>) -> (r: Vec<u8>)
        ensures
            r@.len() == 64,
            sig_ok(pubkey_of(self.secret()), msg@, r@),
    {
        proof {
            use_type_invariant(&*self);
        }
        match schnorr_sign_raw(&self.sk, msg) {
            Option::Some(s) => s,
            Option::None => {
                proof {
                    assert(false);
                }
                vstd::pervasive::unreached()
            },
        }
    }

    /// Encrypts a plaintext for a counterparty public key; fails exactly
    /// when the counterparty bytes are not a 32-byte curve point.
    pub fn encrypt_for(&self, pk: &Vec<u8>, pt: &Vec<u8>) -> (r: Option<Vec<u8>>)
        ensures
            r is Some <==> (pk@.len() == 32 && pk_on_curve(pk@)),
            r matches Some(ct) ==> sealed_to(self.secret(), pk@, pt@, ct@),
    {
        proof {
            use_type_invariant(&*self);
        }
        nip04_seal(&self.sk, pk, pt)
    }

    /// Decrypts a ciphertext keyed to a counterparty public key.
    pub fn decrypt_from(&self, pk: &Vec<u8>, ct: &Vec<u8>) -> (r: Option<Vec<u8>>)
        ensures
            match r {
                Option::Some(p) => nip04_decrypt_of(self.secret(), pk@, ct@) == Some(p@),
                Option::None => nip04_decrypt_of(self.secret(), pk@, ct@) is None,
            },
    {
        proof {
            use_type_invariant(&*self);
        }
        nip04_open(&self.sk, pk, ct)
    }
}

} // verus!
