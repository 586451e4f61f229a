use vstd::prelude::*;
use std::str::FromStr;
use nostr::nips::nip19::{FromBech32, ToBech32};
use nostr::event::{Event, EventBuilder, EventId, FinalizeEvent, Kind, Signature, Tag};
use nostr::key::{Keys, PublicKey, SecretKey};
use nostr::nips::{nip04, nip44};
use nostr::types::time::Timestamp;
use crate::error::{ErrorKind, WalletError, fails_with};
use crate::text::{opt_view, concat2};

verus! {

/// Whether nostr accepts `sk` as a secret key (hex or bech32).
pub uninterp spec fn secret_key_valid(sk: Seq<char>) -> bool;

/// Whether nostr accepts `pk` as a public key (hex or bech32).
pub uninterp spec fn public_key_valid(pk: Seq<char>) -> bool;

/// The hex public key that belongs to the secret key `sk`.
pub uninterp spec fn public_key_of(sk: Seq<char>) -> Seq<char>;

/// What NIP-04 decryption of `ct` between `pk` and `sk` gives, if it succeeds.
pub uninterp spec fn nip04_plaintext(ct: Seq<char>, pk: Seq<char>, sk: Seq<char>) -> Option<Seq<char>>;

/// What NIP-44 decryption of `ct` between `pk` and `sk` gives, if it succeeds.
pub uninterp spec fn nip44_plaintext(ct: Seq<char>, pk: Seq<char>, sk: Seq<char>) -> Option<Seq<char>>;

/// The `nsec` form of the secret key `sk`, if it can be encoded.
pub uninterp spec fn nsec_of(sk: Seq<char>) -> Option<Seq<char>>;

/// The `npub` form of the public key `pk`, if it can be encoded.
pub uninterp spec fn npub_of(pk: Seq<char>) -> Option<Seq<char>>;

/// The hex secret key spelled by the `nsec` string `s`, if it is one.
pub uninterp spec fn secret_of_nsec(s: Seq<char>) -> Option<Seq<char>>;

/// The hex public key spelled by the `npub` string `s`, if it is one.
pub uninterp spec fn public_of_npub(s: Seq<char>) -> Option<Seq<char>>;

/// Whether the signed event with these fields verifies (id and signature); `None`
/// where a field does not parse.
pub uninterp spec fn event_verified(
    id: Seq<char>,
    pubkey: Seq<char>,
    sig: Seq<char>,
    created_at: u64,
    kind: u16,
    tags: Seq<Seq<Seq<char>>>,
    content: Seq<char>,
) -> Option<bool>;

/// Relies on SecretKey::from_str.
#[verifier::external_body]
fn parses_secret_key(sk: &str) -> (r: bool)
    ensures
        r == secret_key_valid(sk@),
{
    SecretKey::from_str(sk).is_ok()
}

/// Relies on PublicKey::from_str.
#[verifier::external_body]
fn parses_public_key(pk: &str) -> (r: bool)
    ensures
        r == public_key_valid(pk@),
{
    PublicKey::from_str(pk).is_ok()
}

/// Relies on Keys::new and Keys::public_key, in hex.
#[verifier::external_body]
fn derive_public_key(sk: &str) -> (r: String)
    requires
        secret_key_valid(sk@),
    ensures
        r@ == public_key_of(sk@),
{
    match SecretKey::from_str(sk) {
        Ok(k) => Keys::new(k).public_key().to_hex(),
        Err(_) => String::new(),
    }
}

/// Relies on Keys::generate: a fresh key pair, as (public, secret) hex.
#[verifier::external_body]
fn fresh_keys() -> (r: (String, String))
    ensures
        secret_key_valid(r.1@),
        r.0@ == public_key_of(r.1@),
{
    let keys = Keys::generate();
    (keys.public_key().to_hex(), keys.secret_key().to_secret_hex())
}

/// Relies on nip04::encrypt, which draws a random IV.
#[verifier::external_body]
fn nip04_seal(plaintext: &str, pk: &str, sk: &str) -> (r: Option<String>)
    requires
        secret_key_valid(sk@),
        public_key_valid(pk@),
{
    let sk = SecretKey::from_str(sk).ok()?;
    let pk = PublicKey::from_str(pk).ok()?;
    nip04::encrypt(&sk, &pk, plaintext).ok()
}

/// Relies on nip04::decrypt.
#[verifier::external_body]
fn nip04_open(ct: &str, pk: &str, sk: &str) -> (r: Option<String>)
    requires
        secret_key_valid(sk@),
        public_key_valid(pk@),
    ensures
        opt_view(r) == nip04_plaintext(ct@, pk@, sk@),
{
    let sk = SecretKey::from_str(sk).ok()?;
    let pk = PublicKey::from_str(pk).ok()?;
    nip04::decrypt(&sk, &pk, ct).ok()
}

/// Relies on nip44::encrypt (version 2), which draws a random nonce.
#[verifier::external_body]
fn nip44_seal(plaintext: &str, pk: &str, sk: &str) -> (r: Option<String>)
    requires
        secret_key_valid(sk@),
        public_key_valid(pk@),
{
    let sk = SecretKey::from_str(sk).ok()?;
    let pk = PublicKey::from_str(pk).ok()?;
    nip44::encrypt(&sk, &pk, plaintext, nip44::Version::V2).ok()
}

/// Relies on nip44::decrypt.
#[verifier::external_body]
fn nip44_open(ct: &str, pk: &str, sk: &str) -> (r: Option<String>)
    requires
        secret_key_valid(sk@),
        public_key_valid(pk@),
    ensures
        opt_view(r) == nip44_plaintext(ct@, pk@, sk@),
{
    let sk = SecretKey::from_str(sk).ok()?;
    let pk = PublicKey::from_str(pk).ok()?;
    nip44::decrypt(&sk, &pk, ct).ok()
}

/// Relies on nostr's ToBech32 for SecretKey.
#[verifier::external_body]
fn encode_nsec(sk: &str) -> (r: Option<String>)
    requires
        secret_key_valid(sk@),
    ensures
        opt_view(r) == nsec_of(sk@),
{
    SecretKey::from_str(sk).ok()?.to_bech32().ok()
}

/// Relies on nostr's ToBech32 for PublicKey.
#[verifier::external_body]
fn encode_npub(pk: &str) -> (r: Option<String>)
    requires
        public_key_valid(pk@),
    ensures
        opt_view(r) == npub_of(pk@),
{
    PublicKey::from_str(pk).ok()?.to_bech32().ok()
}

/// Relies on nostr's FromBech32 for SecretKey, read back in hex.
#[verifier::external_body]
fn decode_nsec(s: &str) -> (r: Option<String>)
    ensures
        opt_view(r) == secret_of_nsec(s@),
{
    SecretKey::from_bech32(s).ok().map(|k| k.to_secret_hex())
}

/// Relies on nostr's FromBech32 for PublicKey, read back in hex.
#[verifier::external_body]
fn decode_npub(s: &str) -> (r: Option<String>)
    ensures
        opt_view(r) == public_of_npub(s@),
{
    PublicKey::from_bech32(s).ok().map(|k| k.to_hex())
}

/// Relies on nostr's EventBuilder (tags parsed with Tag::parse) and
/// FinalizeEvent::finalize with the keys, then the event's JSON form; signing draws randomness.
#[verifier::external_body]
fn signed_event_json(sk: &str, kind: u16, content: &str, tags: &Vec<Vec<String>>, created_at: u64) -> (r:
    Option<String>)
    requires
        secret_key_valid(sk@),
{
    let keys = Keys::new(SecretKey::from_str(sk).ok()?);
    let tags = tags.iter().map(|t| Tag::parse(t)).collect::<Result<Vec<_>, _>>().ok()?;
    let builder = EventBuilder::new(Kind::from(kind), content)
        .tags(tags)
        .custom_created_at(Timestamp::from(created_at));
    let event = FinalizeEvent::finalize(builder, &keys).ok()?;
    serde_json::to_string(&event).ok()
}

/// Relies on Event::new over the parsed fields and Event::verify.
#[verifier::external_body]
fn check_event(e: &NostrEvent, kind: u16) -> (r: Option<bool>)
    ensures
        r == event_verified(e.id@, e.pubkey@, e.sig@, e.created_at, kind, tag_views(e.tags@), e.content@),
{
    let id = EventId::from_str(&e.id).ok()?;
    let pk = PublicKey::from_str(&e.pubkey).ok()?;
    let sig = Signature::from_str(&e.sig).ok()?;
    let tags = e.tags.iter().map(|t| Tag::parse(t)).collect::<Result<Vec<_>, _>>().ok()?;
    let ts = Timestamp::from(e.created_at);
    let event = Event::new(id, pk, ts, Kind::from(kind), tags, e.content.clone(), sig);
    Some(event.verify().is_ok())
}

/// A key pair in hex.
#[derive(Debug, Clone)]
pub struct NostrKeys {
    pub public_key: String,
    pub private_key: String,
}

/// A key pair in hex and in bech32.
#[derive(Debug, Clone)]
pub struct NostrKeysWithBech32 {
    pub private_key: String,
    pub public_key: String,
    pub nsec: String,
    pub npub: String,
}

/// A signed event.
#[derive(Debug, Clone)]
pub struct NostrEvent {
    pub id: String,
    pub pubkey: String,
    pub created_at: u64,
    pub kind: u64,
    pub tags: Vec<Vec<String>>,
    pub content: String,
    pub sig: String,
}

/// The fields of an event to be signed.
#[derive(Debug, Clone)]
pub struct EventTemplate {
    pub created_at: u64,
    pub kind: u64,
    pub tags: Vec<Vec<String>>,
    pub content: String,
}

/// The views of a list of tags.
pub open spec fn tag_views(tags: Seq<Vec<String>>) -> Seq<Seq<Seq<char>>> {
    tags.map_values(|t: Vec<String>| t@.map_values(|s: String| s@))
}

fn keys_error(sk_ok: bool) -> (r: WalletError)
    ensures
        r.kind == ErrorKind::InvalidInput,
{
    if sk_ok {
        WalletError::new(ErrorKind::InvalidInput, "invalid public key")
    } else {
        WalletError::new(ErrorKind::InvalidInput, "invalid private key")
    }
}

/// A fresh key pair; the public key belongs to the secret key.
pub fn generate_keys() -> (r: Result<NostrKeys, WalletError>)
    ensures
        r is Ok,
        secret_key_valid(r->Ok_0.private_key@),
        r->Ok_0.public_key@ == public_key_of(r->Ok_0.private_key@),
{
    let (public_key, private_key) = fresh_keys();
    Ok(NostrKeys { public_key, private_key })
}

/// The public key of a secret key; a malformed key is `InvalidInput`.
pub fn get_public_key_from_private(private_key: &str) -> (r: Result<String, WalletError>)
    ensures
        r is Ok <==> secret_key_valid(private_key@),
        r is Err ==> fails_with(r, ErrorKind::InvalidInput),
        r is Ok ==> r->Ok_0@ == public_key_of(private_key@),
{
    if !parses_secret_key(private_key) {
        return Err(WalletError::new(ErrorKind::InvalidInput, "invalid private key"));
    }
    Ok(derive_public_key(private_key))
}

/// Encrypts for `public_key` with NIP-04. Malformed keys are `InvalidInput`; a
/// failed encryption is `ProtocolError`.
pub fn nip04_encrypt(plaintext: &str, public_key: &str, private_key: &str) -> (r: Result<
    String,
    WalletError,
>)
    ensures
        !(secret_key_valid(private_key@) && public_key_valid(public_key@)) <==> fails_with(
            r,
            ErrorKind::InvalidInput,
        ),
        r is Err && secret_key_valid(private_key@) && public_key_valid(public_key@) ==> fails_with(
            r,
            ErrorKind::ProtocolError,
        ),
{
    let sk_ok = parses_secret_key(private_key);
    if !sk_ok || !parses_public_key(public_key) {
        return Err(keys_error(sk_ok));
    }
    match nip04_seal(plaintext, public_key, private_key) {
        Some(c) => Ok(c),
        None => Err(WalletError::new(ErrorKind::ProtocolError, "encryption failed")),
    }
}

/// Decrypts a NIP-04 message. Malformed keys are `InvalidInput`; a message that
/// does not decrypt under them is `DecryptionFailed`.
pub fn nip04_decrypt(ciphertext: &str, public_key: &str, private_key: &str) -> (r: Result<
    String,
    WalletError,
>)
    ensures
        !(secret_key_valid(private_key@) && public_key_valid(public_key@)) <==> fails_with(
            r,
            ErrorKind::InvalidInput,
        ),
        secret_key_valid(private_key@) && public_key_valid(public_key@) ==> match nip04_plaintext(
            ciphertext@,
            public_key@,
            private_key@,
        ) {
            None => fails_with(r, ErrorKind::DecryptionFailed),
            Some(p) => r is Ok && r->Ok_0@ == p,
        },
{
    let sk_ok = parses_secret_key(private_key);
    if !sk_ok || !parses_public_key(public_key) {
        return Err(keys_error(sk_ok));
    }
    match nip04_open(ciphertext, public_key, private_key) {
        Some(p) => Ok(p),
        None => Err(WalletError::new(ErrorKind::DecryptionFailed, "decryption failed")),
    }
}

/// Encrypts for `public_key` with NIP-44 (version 2). Malformed keys are
/// `InvalidInput`; a failed encryption is `ProtocolError`.
pub fn nip44_encrypt(plaintext: &str, public_key: &str, private_key: &str) -> (r: Result<
    String,
    WalletError,
>)
    ensures
        !(secret_key_valid(private_key@) && public_key_valid(public_key@)) <==> fails_with(
            r,
            ErrorKind::InvalidInput,
        ),
        r is Err && secret_key_valid(private_key@) && public_key_valid(public_key@) ==> fails_with(
            r,
            ErrorKind::ProtocolError,
        ),
{
    let sk_ok = parses_secret_key(private_key);
    if !sk_ok || !parses_public_key(public_key) {
        return Err(keys_error(sk_ok));
    }
    match nip44_seal(plaintext, public_key, private_key) {
        Some(c) => Ok(c),
        None => Err(WalletError::new(ErrorKind::ProtocolError, "encryption failed")),
    }
}

/// Decrypts a NIP-44 message. Malformed keys are `InvalidInput`; a message that
/// does not decrypt under them is `DecryptionFailed`.
pub fn nip44_decrypt(ciphertext: &str, public_key: &str, private_key: &str) -> (r: Result<
    String,
    WalletError,
>)
    ensures
        !(secret_key_valid(private_key@) && public_key_valid(public_key@)) <==> fails_with(
            r,
            ErrorKind::InvalidInput,
        ),
        secret_key_valid(private_key@) && public_key_valid(public_key@) ==> match nip44_plaintext(
            ciphertext@,
            public_key@,
            private_key@,
        ) {
            None => fails_with(r, ErrorKind::DecryptionFailed),
            Some(p) => r is Ok && r->Ok_0@ == p,
        },
{
    let sk_ok = parses_secret_key(private_key);
    if !sk_ok || !parses_public_key(public_key) {
        return Err(keys_error(sk_ok));
    }
    match nip44_open(ciphertext, public_key, private_key) {
        Some(p) => Ok(p),
        None => Err(WalletError::new(ErrorKind::DecryptionFailed, "decryption failed")),
    }
}

/// The `nsec` form of a secret key; a malformed key is `InvalidInput`.
pub fn secret_key_to_nsec(secret_key: &str) -> (r: Result<String, WalletError>)
    ensures
        !secret_key_valid(secret_key@) ==> fails_with(r, ErrorKind::InvalidInput),
        secret_key_valid(secret_key@) ==> (r is Ok <==> nsec_of(secret_key@) is Some),
        r is Ok ==> r->Ok_0@ == nsec_of(secret_key@)->0,
{
    if !parses_secret_key(secret_key) {
        return Err(WalletError::new(ErrorKind::InvalidInput, "invalid secret key"));
    }
    match encode_nsec(secret_key) {
        Some(s) => Ok(s),
        None => Err(WalletError::new(ErrorKind::InvalidInput, "failed to encode to nsec")),
    }
}

/// The `npub` form of a public key; a malformed key is `InvalidInput`.
pub fn public_key_to_npub(public_key: &str) -> (r: Result<String, WalletError>)
    ensures
        !public_key_valid(public_key@) ==> fails_with(r, ErrorKind::InvalidInput),
        public_key_valid(public_key@) ==> (r is Ok <==> npub_of(public_key@) is Some),
        r is Ok ==> r->Ok_0@ == npub_of(public_key@)->0,
{
    if !parses_public_key(public_key) {
        return Err(WalletError::new(ErrorKind::InvalidInput, "invalid public key"));
    }
    match encode_npub(public_key) {
        Some(s) => Ok(s),
        None => Err(WalletError::new(ErrorKind::InvalidInput, "failed to encode to npub")),
    }
}

/// The hex secret key of an `nsec` string; anything else is `InvalidInput`.
pub fn nsec_to_secret_key(nsec: &str) -> (r: Result<String, WalletError>)
    ensures
        r is Ok <==> secret_of_nsec(nsec@) is Some,
        r is Err ==> fails_with(r, ErrorKind::InvalidInput),
        r is Ok ==> r->Ok_0@ == secret_of_nsec(nsec@)->0,
{
    match decode_nsec(nsec) {
        Some(s) => Ok(s),
        None => Err(WalletError::new(ErrorKind::InvalidInput, "failed to decode nsec")),
    }
}

/// The hex public key of an `npub` string; anything else is `InvalidInput`.
pub fn npub_to_public_key(npub: &str) -> (r: Result<String, WalletError>)
    ensures
        r is Ok <==> public_of_npub(npub@) is Some,
        r is Err ==> fails_with(r, ErrorKind::InvalidInput),
        r is Ok ==> r->Ok_0@ == public_of_npub(npub@)->0,
{
    match decode_npub(npub) {
        Some(s) => Ok(s),
        None => Err(WalletError::new(ErrorKind::InvalidInput, "failed to decode npub")),
    }
}

/// A fresh key pair in hex and in bech32.
pub fn generate_keys_with_bech32() -> (r: Result<NostrKeysWithBech32, WalletError>)
    ensures
        r is Ok ==> {
            let k = r->Ok_0;
            &&& secret_key_valid(k.private_key@)
            &&& k.public_key@ == public_key_of(k.private_key@)
            &&& nsec_of(k.private_key@) == Some(k.nsec@)
            &&& npub_of(k.public_key@) == Some(k.npub@)
        },
{
    let keys = generate_keys()?;
    let nsec = secret_key_to_nsec(keys.private_key.as_str())?;
    let npub = public_key_to_npub(keys.public_key.as_str())?;
    Ok(NostrKeysWithBech32 { private_key: keys.private_key, public_key: keys.public_key, nsec, npub })
}

/// Signs an event with a secret key and returns its JSON form. A malformed key
/// or a kind past `u16::MAX` is `InvalidInput`; a tag that does not parse, or a
/// failure to sign, is `ProtocolError`.
pub fn sign_event(event: &EventTemplate, private_key: &str) -> (r: Result<String, WalletError>)
    ensures
        !secret_key_valid(private_key@) || event.kind > u16::MAX ==> fails_with(
            r,
            ErrorKind::InvalidInput,
        ),
        r is Err && secret_key_valid(private_key@) && event.kind <= u16::MAX ==> fails_with(
            r,
            ErrorKind::ProtocolError,
        ),
{
    if !parses_secret_key(private_key) {
        return Err(WalletError::new(ErrorKind::InvalidInput, "invalid private key"));
    }
    if event.kind > 65535 {
        return Err(WalletError::new(ErrorKind::InvalidInput, "kind out of range"));
    }
    match signed_event_json(
        private_key,
        event.kind as u16,
        event.content.as_str(),
        &event.tags,
        event.created_at,
    ) {
        Some(j) => Ok(j),
        None => Err(WalletError::new(ErrorKind::ProtocolError, "failed to sign event")),
    }
}

/// Whether a signed event's id and signature are valid. A kind past `u16::MAX`,
/// or a field that does not parse, is `InvalidInput`.
pub fn verify_event(event: &NostrEvent) -> (r: Result<bool, WalletError>)
    ensures
        event.kind > u16::MAX ==> fails_with(r, ErrorKind::InvalidInput),
        event.kind <= u16::MAX ==> match event_verified(
            event.id@,
            event.pubkey@,
            event.sig@,
            event.created_at,
            event.kind as u16,
            tag_views(event.tags@),
            event.content@,
        ) {
            None => fails_with(r, ErrorKind::InvalidInput),
            Some(b) => r == Ok::<bool, WalletError>(b),
        },
{
    if event.kind > 65535 {
        return Err(WalletError::new(ErrorKind::InvalidInput, "kind out of range"));
    }
    match check_event(event, event.kind as u16) {
        Some(b) => Ok(b),
        None => Err(WalletError::new(ErrorKind::InvalidInput, "malformed event")),
    }
}

/// A greeting for `name`.
pub fn greet(name: &str) -> (r: String)
    ensures
        r@ == "Hello, "@ + name@ + "!"@,
{
    concat2("Hello, ", name).concat("!")
}

} // verus!
