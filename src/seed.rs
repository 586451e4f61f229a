use vstd::prelude::*;
use crate::error::{ErrorKind, WalletError, fails_with};
use vstd::string::StringSliceAdditionalSpecFns;
use crate::hexcodec::{hex_decode, hex_encode, is_hex, hex_bytes, hex_text, lemma_hex_round_trip};

verus! {

/// The mnemonic phrase that bip39 encodes from `entropy` (English word list).
pub uninterp spec fn mnemonic_words(entropy: Seq<u8>) -> Seq<char>;

/// Whether bip39 accepts `phrase` as a mnemonic (known words, valid checksum).
pub uninterp spec fn mnemonic_accepted(phrase: Seq<char>) -> bool;

/// The 64-byte seed that bip39 derives from `phrase` with an empty passphrase.
pub uninterp spec fn mnemonic_seed(phrase: Seq<char>) -> Seq<u8>;

/// 64 bytes of HKDF-SHA256 output from `ikm` and `info`, with no salt.
pub uninterp spec fn hkdf_sha256_64(ikm: Seq<u8>, info: Seq<u8>) -> Seq<u8>;

/// Entropy lengths in bytes that bip39 encodes: 16 to 32, a multiple of 4.
pub open spec fn entropy_len_ok(n: nat) -> bool {
    16 <= n <= 32 && n % 4 == 0
}

/// Label that binds the expansion of a short seed to this wallet.
pub const SEED_EXPANSION_INFO: &'static str = "ecash-wallet working seed";

/// Relies on bip39::Mnemonic::from_entropy and its Display: entropy of an accepted
/// length encodes to the words of an English mnemonic, separated by spaces.
#[verifier::external_body]
fn mnemonic_from_entropy(entropy: &[u8]) -> (r: Option<String>)
    ensures
        r is Some <==> entropy_len_ok(entropy@.len()),
        r is Some ==> r->0@ == mnemonic_words(entropy@),
{
    bip39::Mnemonic::from_entropy(entropy).ok().map(|m| m.to_string())
}

/// Relies on bip39::Mnemonic::from_str: whether the phrase parses.
#[verifier::external_body]
fn mnemonic_parses(phrase: &str) -> (r: bool)
    ensures
        r == mnemonic_accepted(phrase@),
{
    <bip39::Mnemonic as std::str::FromStr>::from_str(phrase).is_ok()
}

/// Relies on bip39::Mnemonic::to_seed_normalized with an empty passphrase, on the
/// mnemonic parsed from `phrase`: a 64-byte seed.
#[verifier::external_body]
fn mnemonic_to_seed(phrase: &str) -> (r: Option<Vec<u8>>)
    ensures
        r is Some <==> mnemonic_accepted(phrase@),
        r is Some ==> r->0@ == mnemonic_seed(phrase@) && r->0@.len() == 64,
{
    match <bip39::Mnemonic as std::str::FromStr>::from_str(phrase) {
        Ok(m) => Some(m.to_seed_normalized("").to_vec()),
        Err(_) => None,
    }
}

/// Relies on hkdf::Hkdf::<Sha256>::expand: 64 bytes of output, which is within
/// the 8160 bytes it can produce.
#[verifier::external_body]
fn hkdf_expand_64(ikm: &[u8], info: &[u8]) -> (r: Vec<u8>)
    ensures
        r@ == hkdf_sha256_64(ikm@, info@),
        r@.len() == 64,
{
    let mut okm = [0u8; 64];
    let _ = hkdf::Hkdf::<sha2::Sha256>::new(None, ikm).expand(info, &mut okm);
    okm.to_vec()
}

pub assume_specification<T>[ rand::random::<T> ]() -> (r: T)
    where
        rand::distributions::Standard: rand::distributions::Distribution<T>,
;

/// Bytes of entropy behind a mnemonic of `word_count` words.
pub open spec fn entropy_bytes(word_count: u32) -> nat {
    if word_count == 12 {
        16
    } else {
        32
    }
}

/// Draws fresh entropy and encodes it as a mnemonic of 12 or 24 words; any other
/// word count is `InvalidInput`.
pub fn generate_mnemonic_phrase(word_count: u32) -> (r: Result<String, WalletError>)
    ensures
        r is Ok <==> (word_count == 12 || word_count == 24),
        r is Err ==> fails_with(r, ErrorKind::InvalidInput),
        r is Ok ==> exists|e: Seq<u8>|
            e.len() == entropy_bytes(word_count) && r->Ok_0@ == #[trigger] mnemonic_words(e),
{
    let n: usize = if word_count == 12 {
        16
    } else if word_count == 24 {
        32
    } else {
        return Err(WalletError::new(ErrorKind::InvalidInput, "word count must be 12 or 24"));
    };
    let mut entropy: Vec<u8> = Vec::new();
    while entropy.len() < n
        invariant
            entropy.len() <= n,
        decreases n - entropy.len(),
    {
        entropy.push(rand::random::<u8>());
    }
    match mnemonic_from_entropy(entropy.as_slice()) {
        Some(m) => Ok(m),
        None => Err(WalletError::new(ErrorKind::InvalidInput, "entropy was refused")),
    }
}

/// The seed of a mnemonic, as 128 lower-case hex digits; a phrase that does not
/// parse is `InvalidInput`.
pub fn mnemonic_to_seed_hex(mnemonic_phrase: &str) -> (r: Result<String, WalletError>)
    ensures
        r is Ok <==> mnemonic_accepted(mnemonic_phrase@),
        r is Err ==> fails_with(r, ErrorKind::InvalidInput),
        r is Ok ==> r->Ok_0@ == hex_text(mnemonic_seed(mnemonic_phrase@)) && r->Ok_0@.len()
            == 128,
{
    match mnemonic_to_seed(mnemonic_phrase) {
        Some(seed) => Ok(hex_encode(seed.as_slice())),
        None => Err(WalletError::new(ErrorKind::InvalidInput, "invalid mnemonic phrase")),
    }
}

/// The mnemonic that encodes entropy given in hex: 16 bytes give 12 words and
/// 32 bytes give 24. Other input is `InvalidInput`.
pub fn seed_hex_to_mnemonic(seed_hex: &str) -> (r: Result<String, WalletError>)
    ensures
        r is Ok <==> is_hex(seed_hex@) && (hex_bytes(seed_hex@).len() == 16 || hex_bytes(
            seed_hex@,
        ).len() == 32),
        r is Err ==> fails_with(r, ErrorKind::InvalidInput),
        r is Ok ==> r->Ok_0@ == mnemonic_words(hex_bytes(seed_hex@)),
{
    let bytes = match hex_decode(seed_hex) {
        Some(b) => b,
        None => {
            return Err(WalletError::new(ErrorKind::InvalidInput, "invalid hex"));
        },
    };
    if bytes.len() != 16 && bytes.len() != 32 {
        return Err(WalletError::new(ErrorKind::InvalidInput, "seed must be 16 or 32 bytes"));
    }
    match mnemonic_from_entropy(bytes.as_slice()) {
        Some(m) => Ok(m),
        None => Err(WalletError::new(ErrorKind::InvalidInput, "entropy was refused")),
    }
}

/// Whether a phrase is a valid mnemonic; never fails.
pub fn validate_mnemonic_phrase(mnemonic_phrase: &str) -> (r: bool)
    ensures
        r == mnemonic_accepted(mnemonic_phrase@),
{
    mnemonic_parses(mnemonic_phrase)
}

/// Reads a seed from 64 or 128 hex digits (32 or 64 bytes); anything else is
/// `InvalidInput`.
pub fn parse_seed_from_hex(seed_hex: &str) -> (r: Result<Vec<u8>, WalletError>)
    ensures
        r is Ok <==> (seed_hex@.len() == 64 || seed_hex@.len() == 128) && is_hex(seed_hex@),
        r is Err ==> fails_with(r, ErrorKind::InvalidInput),
        r is Ok ==> r->Ok_0@ == hex_bytes(seed_hex@),
{
    let n = seed_hex.unicode_len();
    if n != 64 && n != 128 {
        return Err(
            WalletError::new(ErrorKind::InvalidInput, "seed must be 64 or 128 hex characters"),
        );
    }
    match hex_decode(seed_hex) {
        Some(b) => Ok(b),
        None => Err(WalletError::new(ErrorKind::InvalidInput, "invalid hex string")),
    }
}

/// The 64-byte working seed: a 64-byte seed is used as it is, and a 32-byte seed
/// is expanded with HKDF-SHA256 under `SEED_EXPANSION_INFO`. Other lengths are
/// `InvalidInput`.
pub fn working_seed(seed: &Vec<u8>) -> (r: Result<Vec<u8>, WalletError>)
    ensures
        r is Ok <==> (seed@.len() == 32 || seed@.len() == 64),
        r is Err ==> fails_with(r, ErrorKind::InvalidInput),
        seed@.len() == 64 ==> r is Ok && r->Ok_0@ == seed@,
        seed@.len() == 32 ==> r is Ok && r->Ok_0@ == hkdf_sha256_64(
            seed@,
            SEED_EXPANSION_INFO.spec_bytes(),
        ),
        r is Ok ==> r->Ok_0@.len() == 64,
{
    if seed.len() == 64 {
        let mut out: Vec<u8> = Vec::new();
        let mut i: usize = 0;
        while i < 64
            invariant
                seed@.len() == 64,
                i <= 64,
                out@ == seed@.take(i as int),
            decreases 64 - i,
        {
            out.push(seed[i]);
            assert(seed@.take(i as int + 1) == seed@.take(i as int).push(seed@[i as int]));
            i += 1;
        }
        assert(seed@.take(64) == seed@);
        Ok(out)
    } else if seed.len() == 32 {
        Ok(hkdf_expand_64(seed.as_slice(), SEED_EXPANSION_INFO.as_bytes()))
    } else {
        Err(WalletError::new(ErrorKind::InvalidInput, "seed must be 32 or 64 bytes"))
    }
}

/// A 32- or 64-byte seed written as hex is accepted by `parse_seed_from_hex`,
/// which reads back the same bytes.
pub proof fn lemma_seed_hex_interchange(seed: Seq<u8>)
    requires
        seed.len() == 32 || seed.len() == 64,
    ensures
        hex_text(seed).len() == 64 || hex_text(seed).len() == 128,
        is_hex(hex_text(seed)),
        hex_bytes(hex_text(seed)) == seed,
{
    lemma_hex_round_trip(seed);
}

/// The working seed of a wallet given as hex: `parse_seed_from_hex`, then
/// `working_seed`.
pub fn wallet_seed_from_hex(seed_hex: &str) -> (r: Result<Vec<u8>, WalletError>)
    ensures
        r is Ok <==> (seed_hex@.len() == 64 || seed_hex@.len() == 128) && is_hex(seed_hex@),
        r is Err ==> fails_with(r, ErrorKind::InvalidInput),
        seed_hex@.len() == 128 && is_hex(seed_hex@) ==> r is Ok && r->Ok_0@ == hex_bytes(
            seed_hex@,
        ),
        seed_hex@.len() == 64 && is_hex(seed_hex@) ==> r is Ok && r->Ok_0@ == hkdf_sha256_64(
            hex_bytes(seed_hex@),
            SEED_EXPANSION_INFO.spec_bytes(),
        ),
        r is Ok ==> r->Ok_0@.len() == 64,
{
    let seed = parse_seed_from_hex(seed_hex)?;
    working_seed(&seed)
}

} // verus!
