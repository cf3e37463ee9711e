//! The handshake and the authenticated encryption of BUD datagrams.

use aes_gcm::aead::{Aead, KeyInit, Payload};
use rand::RngCore;
use sha2::Digest;
use vstd::prelude::*;
use vstd::string::StrSliceExecFns;
use vstd::utf8::encode_utf8;

use crate::bytes::{le_bytes, le_value, push_all, push_le};

verus! {

/// The longest message that AES-GCM can encrypt under one nonce: the counter mode has
/// `2^32 - 2` blocks of sixteen bytes left for it.
pub const MAX_SEALED: u64 = 68_719_476_704;

/// The lengths that the cipher itself turns down lie above this.
pub const CIPHER_LIMIT: u64 = 68_719_476_736;

/// Longer messages than this cannot be copied next to a tag in memory.
pub const MEMORY_LIMIT: u64 = 0x3fff_ffff_ffff_ffff;

/// Bytes that sealing adds to a message.
pub const TAG_LEN: u64 = 16;

#[verifier::external_type_specification]
#[verifier::external_body]
pub struct ExAeadError(aes_gcm::aead::Error);

/// Whether a message of `len` bytes can be handed to the cipher, to be encrypted or turned
/// down. What lies between would run its counter out.
pub open spec fn sealable(len: nat) -> bool {
    len <= MAX_SEALED || CIPHER_LIMIT < len <= MEMORY_LIMIT
}

/// The public key that belongs to an X25519 secret.
pub uninterp spec fn x25519_public(secret: Seq<u8>) -> Seq<u8>;

/// The X25519 shared secret of one side's secret and the other side's public key.
pub uninterp spec fn x25519_shared(secret: Seq<u8>, peer_public: Seq<u8>) -> Seq<u8>;

/// The SHA-256 digest of a byte string.
pub uninterp spec fn sha256(data: Seq<u8>) -> Seq<u8>;

/// Thirty-two bytes of HKDF-SHA256 output for a salt, key material and an info string.
pub uninterp spec fn hkdf_sha256(salt: Seq<u8>, material: Seq<u8>, info: Seq<u8>) -> Seq<u8>;

/// AES-256-GCM encryption: key, nonce, associated data and plaintext.
pub uninterp spec fn aes_seal(
    key: Seq<u8>,
    nonce: Seq<u8>,
    aad: Seq<u8>,
    plain: Seq<u8>,
) -> Seq<u8>;

/// AES-256-GCM decryption: key, nonce, associated data and ciphertext with its tag.
/// Nothing comes back where the tag does not match.
pub uninterp spec fn aes_open(
    key: Seq<u8>,
    nonce: Seq<u8>,
    aad: Seq<u8>,
    sealed: Seq<u8>,
) -> Option<Seq<u8>>;

/// `x25519_dalek::PublicKey::from` on a static secret. The result depends on the
/// secret alone.
#[verifier::external_body]
fn public_of(secret: &[u8; 32]) -> (r: [u8; 32])
    ensures
        r@ == x25519_public(secret@),
{
    x25519_dalek::PublicKey::from(&x25519_dalek::StaticSecret::from(*secret)).to_bytes()
}

/// `x25519_dalek::StaticSecret::diffie_hellman`. Both sides of an exchange arrive at
/// the same shared secret: whoever holds a secret behind `peer_public` computes this
/// result from our public key.
#[verifier::external_body]
fn shared_with(secret: &[u8; 32], peer_public: &[u8; 32]) -> (r: [u8; 32])
    ensures
        r@ == x25519_shared(secret@, peer_public@),
        forall|other: Seq<u8>| #[trigger]
            x25519_public(other) == peer_public@ && other.len() == 32 ==> r@ == x25519_shared(
                other,
                x25519_public(secret@),
            ),
{
    let secret = x25519_dalek::StaticSecret::from(*secret);
    secret.diffie_hellman(&x25519_dalek::PublicKey::from(*peer_public)).to_bytes()
}

/// `sha2::Sha256::digest`.
#[verifier::external_body]
fn digest_of(data: &[u8]) -> (r: [u8; 32])
    ensures
        r@ == sha256(data@),
{
    sha2::Sha256::digest(data).into()
}

/// `hkdf::Hkdf::<Sha256>::new` followed by `expand` into thirty-two bytes, a length
/// that `expand` accepts.
#[verifier::external_body]
fn expand_key(salt: &[u8], material: &[u8], info: &[u8]) -> (r: [u8; 32])
    ensures
        r@ == hkdf_sha256(salt@, material@, info@),
{
    let mut okm = [0u8; 32];
    hkdf::Hkdf::<sha2::Sha256>::new(Some(salt), material).expand(info, &mut okm).expect("hkdf");
    okm
}

/// `Aes256Gcm::encrypt`. It turns down messages and associated data above
/// `CIPHER_LIMIT` bytes and succeeds on all others; the ciphertext is longer than the
/// plaintext by the tag, and decrypting it under the same key, nonce and associated
/// data gives the plaintext back. Lengths that are not `sealable` run the counter
/// or the memory out and are left out.
#[verifier::external_body]
fn encrypt_bytes(
    key: &[u8; 32],
    nonce: &[u8; 12],
    aad: &[u8],
    plain: &[u8],
) -> (r: Result<Vec<u8>, aes_gcm::aead::Error>)
    requires
        sealable(plain@.len()),
    ensures
        match r {
            Ok(c) => {
                &&& plain@.len() <= CIPHER_LIMIT && aad@.len() <= CIPHER_LIMIT
                &&& c@ == aes_seal(key@, nonce@, aad@, plain@)
                &&& c@.len() == plain@.len() + TAG_LEN
                &&& aes_open(key@, nonce@, aad@, c@) == Some(plain@)
            },
            Err(_) => !(plain@.len() <= CIPHER_LIMIT && aad@.len() <= CIPHER_LIMIT),
        },
{
    let cipher = aes_gcm::Aes256Gcm::new(key.into());
    cipher.encrypt(nonce.into(), Payload { msg: plain, aad })
}

/// `Aes256Gcm::decrypt`. What comes back is shorter than the ciphertext by the tag.
/// Lengths that would run the counter out are left out.
#[verifier::external_body]
fn decrypt_bytes(
    key: &[u8; 32],
    nonce: &[u8; 12],
    aad: &[u8],
    sealed: &[u8],
) -> (r: Result<Vec<u8>, aes_gcm::aead::Error>)
    requires
        sealed@.len() <= MAX_SEALED + TAG_LEN,
    ensures
        match r {
            Ok(p) => aes_open(key@, nonce@, aad@, sealed@) == Some(p@) && sealed@.len() == p@.len()
                + TAG_LEN,
            Err(_) => aes_open(key@, nonce@, aad@, sealed@) is None,
        },
{
    let cipher = aes_gcm::Aes256Gcm::new(key.into());
    cipher.decrypt(nonce.into(), Payload { msg: sealed, aad })
}

/// `rand::rngs::OsRng::fill_bytes` on sixteen bytes. Nothing is known of the outcome.
#[verifier::external_body]
fn random_nonce() -> (r: [u8; 16]) {
    let mut nonce = [0u8; 16];
    rand::rngs::OsRng.fill_bytes(&mut nonce);
    nonce
}

/// `x25519_dalek::StaticSecret::random_from_rng`. Nothing is known of the outcome.
#[verifier::external_body]
fn random_secret() -> (r: [u8; 32]) {
    x25519_dalek::StaticSecret::random_from_rng(rand::rngs::OsRng).to_bytes()
}

#[derive(Debug, Clone, Copy, PartialEq, Eq, Structural)]
pub enum CryptoError {
    Decrypt,
    Encrypt,
}

impl CryptoError {
    pub fn message(&self) -> (r: &'static str)
        ensures
            r@ == match self {
                CryptoError::Decrypt => "aes-gcm decrypt failed"@,
                CryptoError::Encrypt => "aes-gcm encrypt failed"@,
            },
    {
        match self {
            CryptoError::Decrypt => "aes-gcm decrypt failed",
            CryptoError::Encrypt => "aes-gcm encrypt failed",
        }
    }
}

/// Whether byte string `a` comes before `b` in dictionary order.
pub open spec fn precedes(a: Seq<u8>, b: Seq<u8>) -> bool
    decreases a.len(),
{
    if b.len() == 0 {
        false
    } else if a.len() == 0 {
        true
    } else {
        a[0] < b[0] || (a[0] == b[0] && precedes(a.skip(1), b.skip(1)))
    }
}

/// Both nonces, the one that comes first in dictionary order in front.
pub open spec fn ordered_salt(a: Seq<u8>, b: Seq<u8>) -> Seq<u8> {
    if precedes(a, b) {
        a + b
    } else {
        b + a
    }
}

/// The salt does not depend on which side puts it together.
pub proof fn salt_is_symmetric(a: Seq<u8>, b: Seq<u8>)
    ensures
        ordered_salt(a, b) == ordered_salt(b, a),
{
    lemma_precedes_total(a, b);
}

proof fn lemma_precedes_total(a: Seq<u8>, b: Seq<u8>)
    ensures
        a != b ==> precedes(a, b) != precedes(b, a),
    decreases a.len(),
{
    if a.len() > 0 && b.len() > 0 {
        lemma_precedes_total(a.skip(1), b.skip(1));
        if a[0] == b[0] && a.skip(1) == b.skip(1) {
            assert(a =~= seq![a[0]] + a.skip(1));
            assert(b =~= seq![b[0]] + b.skip(1));
        }
    } else if a.len() == 0 && b.len() == 0 {
        assert(a =~= b);
    }
}

fn nonce_precedes(a: &[u8; 16], b: &[u8; 16]) -> (r: bool)
    ensures
        r == precedes(a@, b@),
{
    let mut i: usize = 0;
    assert(a@.skip(0) =~= a@ && b@.skip(0) =~= b@);
    while i < 16
        invariant
            i <= 16,
            precedes(a@, b@) == precedes(a@.skip(i as int), b@.skip(i as int)),
        decreases 16 - i,
    {
        assert(a@.skip(i as int).skip(1) =~= a@.skip(i + 1));
        assert(b@.skip(i as int).skip(1) =~= b@.skip(i + 1));
        if a[i] < b[i] {
            return true;
        }
        if a[i] > b[i] {
            return false;
        }
        i = i + 1;
    }
    false
}

/// The session key of an exchange: HKDF over the shared secret, salted with both
/// nonces, bound to the protocol's name and to the digest of the PIN.
pub open spec fn session_key(
    shared: Seq<u8>,
    nonce: Seq<u8>,
    peer_nonce: Seq<u8>,
    pin: Seq<char>,
) -> Seq<u8> {
    hkdf_sha256(
        ordered_salt(nonce, peer_nonce),
        shared,
        encode_utf8("lansec-bud-v1"@) + sha256(encode_utf8(pin)),
    )
}

/// One side's part in a key exchange.
#[verifier::ext_equal]
pub struct HandshakeModel {
    pub secret: Seq<u8>,
    pub public: Seq<u8>,
    pub nonce: Seq<u8>,
}

impl HandshakeModel {
    /// The public key belongs to the secret.
    pub open spec fn wf(self) -> bool {
        &&& self.secret.len() == 32
        &&& self.public.len() == 32
        &&& self.nonce.len() == 16
        &&& self.public == x25519_public(self.secret)
    }

    /// The session key this side derives with a peer.
    pub open spec fn derived(
        self,
        peer_public: Seq<u8>,
        peer_nonce: Seq<u8>,
        pin: Seq<char>,
    ) -> Seq<u8> {
        session_key(x25519_shared(self.secret, peer_public), self.nonce, peer_nonce, pin)
    }
}

pub struct Handshake {
    secret: [u8; 32],
    public: [u8; 32],
    nonce: [u8; 16],
}

impl View for Handshake {
    type V = HandshakeModel;

    closed spec fn view(&self) -> HandshakeModel {
        HandshakeModel { secret: self.secret@, public: self.public@, nonce: self.nonce@ }
    }
}

impl Handshake {
    #[verifier::type_invariant]
    closed spec fn inv(self) -> bool {
        self.public@ == x25519_public(self.secret@)
    }

    /// A fresh secret and nonce. Which ones is left to chance.
    pub fn new() -> (r: Handshake)
        ensures
            r@.wf(),
    {
        let nonce = random_nonce();
        Handshake::from_parts(random_secret(), nonce)
    }

    /// The handshake of a given secret and nonce.
    pub fn from_parts(secret: [u8; 32], nonce: [u8; 16]) -> (r: Handshake)
        ensures
            r@ == (HandshakeModel {
                secret: secret@,
                public: x25519_public(secret@),
                nonce: nonce@,
            }),
            r@.wf(),
    {
        let public = public_of(&secret);
        Handshake { secret, public, nonce }
    }

    pub fn public(&self) -> (r: &[u8; 32])
        ensures
            r@ == self@.public,
    {
        &self.public
    }

    pub fn nonce(&self) -> (r: &[u8; 16])
        ensures
            r@ == self@.nonce,
    {
        &self.nonce
    }

    /// The public key and the nonce, as they are sent to the peer.
    pub fn offer(&self) -> (r: Vec<u8>)
        ensures
            r@ == self@.public + self@.nonce,
            self@.wf(),
    {
        proof {
            use_type_invariant(self);
        }
        let mut out: Vec<u8> = Vec::new();
        push_all(&mut out, self.public.as_slice());
        push_all(&mut out, self.nonce.as_slice());
        assert(out@ =~= self.public@ + self.nonce@);
        out
    }

    /// The keys shared with the peer that sent `peer_public` and `peer_nonce`, if both
    /// sides use the same PIN. The peer derives the same keys from our offer.
    pub fn derive(&self, peer_public: &[u8; 32], peer_nonce: &[u8; 16], pin: &str) -> (r:
        SessionKeys)
        ensures
            r@ == self@.derived(peer_public@, peer_nonce@, pin@),
            self@.wf(),
            forall|peer: HandshakeModel|
                peer.wf() && peer.public == peer_public@ && peer.nonce == peer_nonce@ ==> r@
                    == #[trigger] peer.derived(self@.public, self@.nonce, pin@),
    {
        proof {
            use_type_invariant(self);
        }
        let shared = shared_with(&self.secret, peer_public);
        let salt = key_salt(&self.nonce, peer_nonce);
        let info = key_info(&pin_hash(pin));
        proof {
            salt_is_symmetric(self.nonce@, peer_nonce@);
        }
        SessionKeys { key: expand_key(salt.as_slice(), shared.as_slice(), info.as_slice()) }
    }
}

/// The salt of a session key. The nonces are ordered so both peers get the same key
/// regardless of who started.
pub fn key_salt(a: &[u8; 16], b: &[u8; 16]) -> (r: Vec<u8>)
    ensures
        r@ == ordered_salt(a@, b@),
{
    let mut salt: Vec<u8> = Vec::new();
    if nonce_precedes(a, b) {
        push_all(&mut salt, a.as_slice());
        push_all(&mut salt, b.as_slice());
    } else {
        push_all(&mut salt, b.as_slice());
        push_all(&mut salt, a.as_slice());
    }
    assert(salt@ =~= ordered_salt(a@, b@));
    salt
}

/// The info string of a session key: the protocol's name and the digest of the PIN.
pub fn key_info(pin_digest: &[u8; 32]) -> (r: Vec<u8>)
    ensures
        r@ == encode_utf8("lansec-bud-v1"@) + pin_digest@,
{
    let mut info: Vec<u8> = Vec::new();
    push_all(&mut info, "lansec-bud-v1".as_bytes());
    push_all(&mut info, pin_digest.as_slice());
    assert(info@ =~= encode_utf8("lansec-bud-v1"@) + pin_digest@);
    info
}

/// The digest of a PIN.
pub fn pin_hash(pin: &str) -> (r: [u8; 32])
    ensures
        r@ == sha256(encode_utf8(pin@)),
{
    digest_of(pin.as_bytes())
}

/// Keys are bound to the PIN: where one exchange gives two PINs the same key, SHA-256 or
/// HKDF-SHA256 has collided.
pub proof fn pins_bind_keys(
    h: HandshakeModel,
    peer_public: Seq<u8>,
    peer_nonce: Seq<u8>,
    p: Seq<char>,
    q: Seq<char>,
)
    requires
        p != q,
        h.derived(peer_public, peer_nonce, p) == h.derived(peer_public, peer_nonce, q),
    ensures
        ({
            let shared = x25519_shared(h.secret, peer_public);
            let salt = ordered_salt(h.nonce, peer_nonce);
            let a = encode_utf8(p);
            let b = encode_utf8(q);
            let info_a = encode_utf8("lansec-bud-v1"@) + sha256(a);
            let info_b = encode_utf8("lansec-bud-v1"@) + sha256(b);
            ||| a != b && sha256(a) == sha256(b)
            ||| info_a != info_b && hkdf_sha256(salt, shared, info_a) == hkdf_sha256(
                salt,
                shared,
                info_b,
            )
        }),
{
    let a = encode_utf8(p);
    let b = encode_utf8(q);
    vstd::utf8::encode_utf8_decode_utf8(p);
    vstd::utf8::encode_utf8_decode_utf8(q);
    let name = encode_utf8("lansec-bud-v1"@);
    if name + sha256(a) == name + sha256(b) {
        assert((name + sha256(a)).skip(name.len() as int) =~= sha256(a));
        assert((name + sha256(b)).skip(name.len() as int) =~= sha256(b));
    }
}

/// The AES nonce for packet number `n`: four zero bytes and the number.
pub open spec fn packet_nonce(n: u64) -> Seq<u8> {
    seq![0u8, 0u8, 0u8, 0u8] + le_bytes(n as nat, 8)
}

/// Different packet numbers have different AES nonces.
pub proof fn packet_nonces_differ(a: u64, b: u64)
    requires
        a != b,
    ensures
        packet_nonce(a) != packet_nonce(b),
{
    crate::bytes::lemma_le_bytes_len(a as nat, 8);
    crate::bytes::lemma_le_bytes_len(b as nat, 8);
    crate::bytes::lemma_le_range_values();
    crate::bytes::lemma_le_roundtrip(a as nat, 8);
    crate::bytes::lemma_le_roundtrip(b as nat, 8);
    assert(packet_nonce(a).skip(4) =~= le_bytes(a as nat, 8));
    assert(packet_nonce(b).skip(4) =~= le_bytes(b as nat, 8));
}

fn seq_nonce(n: u64) -> (r: [u8; 12])
    ensures
        r@ == packet_nonce(n),
{
    let mut le: Vec<u8> = Vec::new();
    push_le(&mut le, n, 8);
    proof {
        crate::bytes::lemma_le_bytes_len(n as nat, 8);
        assert(le@ =~= le_bytes(n as nat, 8));
    }
    let r: [u8; 12] = [0, 0, 0, 0, le[0], le[1], le[2], le[3], le[4], le[5], le[6], le[7]];
    assert(r@ =~= packet_nonce(n));
    r
}

/// The symmetric key of an established session.
#[derive(Clone, Copy)]
pub struct SessionKeys {
    key: [u8; 32],
}

impl View for SessionKeys {
    type V = Seq<u8>;

    closed spec fn view(&self) -> Seq<u8> {
        self.key@
    }
}

impl SessionKeys {
    /// Encrypts `plaintext` as packet number `nonce` and authenticates `aad` with it.
    pub fn seal(&self, nonce: u64, aad: &[u8], plaintext: &[u8]) -> (r: Result<
        Vec<u8>,
        CryptoError,
    >)
        requires
            sealable(plaintext@.len()),
        ensures
            match r {
                Ok(c) => {
                    &&& plaintext@.len() <= CIPHER_LIMIT && aad@.len() <= CIPHER_LIMIT
                    &&& c@ == aes_seal(self@, packet_nonce(nonce), aad@, plaintext@)
                    &&& c@.len() == plaintext@.len() + TAG_LEN
                    &&& aes_open(self@, packet_nonce(nonce), aad@, c@) == Some(plaintext@)
                },
                Err(e) => e == CryptoError::Encrypt && !(plaintext@.len() <= CIPHER_LIMIT
                    && aad@.len() <= CIPHER_LIMIT),
            },
    {
        let n = seq_nonce(nonce);
        match encrypt_bytes(&self.key, &n, aad, plaintext) {
            Ok(c) => Ok(c),
            Err(_) => Err(CryptoError::Encrypt),
        }
    }

    /// Decrypts what was sealed as packet number `nonce` with the same `aad`.
    pub fn open(&self, nonce: u64, aad: &[u8], ciphertext: &[u8]) -> (r: Result<
        Vec<u8>,
        CryptoError,
    >)
        requires
            ciphertext@.len() <= MAX_SEALED + TAG_LEN,
        ensures
            match r {
                Ok(p) => aes_open(self@, packet_nonce(nonce), aad@, ciphertext@) == Some(p@)
                    && ciphertext@.len() == p@.len() + TAG_LEN,
                Err(e) => e == CryptoError::Decrypt && aes_open(
                    self@,
                    packet_nonce(nonce),
                    aad@,
                    ciphertext@,
                ) is None,
            },
    {
        let n = seq_nonce(nonce);
        match decrypt_bytes(&self.key, &n, aad, ciphertext) {
            Ok(p) => Ok(p),
            Err(_) => Err(CryptoError::Decrypt),
        }
    }
}

/// The salt of two nonces holds both of them whole, the one that is smaller at the first byte
/// in which they differ in front.
pub proof fn salts_hold_both_nonces(a: Seq<u8>, b: Seq<u8>, i: int)
    requires
        a.len() == 16,
        b.len() == 16,
        0 <= i < 16,
        forall|k: int| 0 <= k < i ==> a[k] == b[k],
        a[i] < b[i],
    ensures
        ordered_salt(a, b) == a + b,
        ordered_salt(b, a) == a + b,
        ordered_salt(a, b).take(16) == a,
        ordered_salt(a, b).skip(16) == b,
{
    lemma_first_difference(a, b, i);
    lemma_precedes_total(a, b);
    assert((a + b).take(16) =~= a);
    assert((a + b).skip(16) =~= b);
}

proof fn lemma_first_difference(a: Seq<u8>, b: Seq<u8>, i: int)
    requires
        a.len() == b.len(),
        0 <= i < a.len(),
        forall|k: int| 0 <= k < i ==> a[k] == b[k],
        a[i] < b[i],
    ensures
        precedes(a, b),
        a != b,
    decreases i,
{
    if i > 0 {
        assert(a[0] == b[0]);
        lemma_first_difference(a.skip(1), b.skip(1), i - 1);
    }
}

/// Each side's nonce counts: with one of them another, the salt is another.
pub proof fn salts_depend_on_each_nonce(a: Seq<u8>, b: Seq<u8>, c: Seq<u8>)
    requires
        a.len() == 16,
        b.len() == 16,
        c.len() == 16,
        b != c,
    ensures
        ordered_salt(a, b) != ordered_salt(a, c),
        ordered_salt(b, a) != ordered_salt(c, a),
{
    salt_is_symmetric(a, b);
    salt_is_symmetric(a, c);
    assert((a + b).take(16) =~= a && (a + b).skip(16) =~= b);
    assert((b + a).take(16) =~= b && (b + a).skip(16) =~= a);
    assert((a + c).take(16) =~= a && (a + c).skip(16) =~= c);
    assert((c + a).take(16) =~= c && (c + a).skip(16) =~= a);
}

/// A packet's AES nonce is twelve bytes long: four that are zero, and the packet's number, its
/// low byte first.
pub proof fn packet_nonces_count_up(n: u64)
    ensures
        packet_nonce(n).len() == 12,
        forall|i: int| 0 <= i < 4 ==> packet_nonce(n)[i] == 0,
        le_value(packet_nonce(n).skip(4)) == n,
        packet_nonce(n)[4] == n % 256,
{
    crate::bytes::lemma_le_bytes_len(n as nat, 8);
    crate::bytes::lemma_le_range_values();
    crate::bytes::lemma_le_roundtrip(n as nat, 8);
    assert(packet_nonce(n).skip(4) =~= le_bytes(n as nat, 8));
    reveal_with_fuel(le_bytes, 2);
    assert(le_bytes(n as nat, 8)[0] == n % 256);
}

} // verus!
