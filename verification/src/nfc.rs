//! The non-fungible certificate (NFC) bound to an asset, and the
//! append-only ownership trail recorded at issuance and on every
//! transfer.

use vstd::prelude::*;
use crate::clock::{now_millis, now_unix_nanos};
use crate::digits::{dec_chars, is_digit_char, lemma_dec_chars_digits, lemma_dec_chars_injective, u128_to_dec};
use crate::error::DomainError;
use crate::key::{generate_unique_key, is_alnum_char, DOMAIN_KEY_SIZE};
use base64::Engine;
use sha2::Digest;

verus! {

/// A non-fungible certificate: one per asset, never mutated after
/// issuance; transfers only add trail entries for its id.
#[derive(Debug, Clone)]
pub struct NFC {
    pub id: String,
    pub cert: String,
    pub asset_id: String,
    pub created_at: i64,
}

/// One entry of the ownership trail: who holds the certificate's asset
/// from `transferred_on` onward.
#[derive(Debug, Clone)]
pub struct NFCTrail {
    pub nfc_id: String,
    pub user_fp: String,
    pub asset_id: String,
    pub transferred_on: i64,
}

impl NFCTrail {
    /// A trail entry for the given certificate and new owner, stamped
    /// with the current time.
    pub fn new(nfc_id: String, user_fp: String, asset_id: String) -> (r: NFCTrail)
        ensures
            r.nfc_id == nfc_id,
            r.user_fp == user_fp,
            r.asset_id == asset_id,
    {
        let now = now_millis();
        NFCTrail { nfc_id, user_fp, asset_id, transferred_on: now }
    }
}

/// An exact copy of a certificate record.
pub fn copy_nfc(n: &NFC) -> (r: NFC)
    ensures
        r == *n,
{
    NFC {
        id: n.id.clone(),
        cert: n.cert.clone(),
        asset_id: n.asset_id.clone(),
        created_at: n.created_at,
    }
}

/// An exact copy of a trail entry.
pub fn copy_trail(t: &NFCTrail) -> (r: NFCTrail)
    ensures
        r == *t,
{
    NFCTrail {
        nfc_id: t.nfc_id.clone(),
        user_fp: t.user_fp.clone(),
        asset_id: t.asset_id.clone(),
        transferred_on: t.transferred_on,
    }
}

/// The character for one hexadecimal digit, lower case.
pub open spec fn hex_digit(d: nat) -> char
    recommends
        d < 16,
{
    if d == 0 {
        '0'
    } else if d == 1 {
        '1'
    } else if d == 2 {
        '2'
    } else if d == 3 {
        '3'
    } else if d == 4 {
        '4'
    } else if d == 5 {
        '5'
    } else if d == 6 {
        '6'
    } else if d == 7 {
        '7'
    } else if d == 8 {
        '8'
    } else if d == 9 {
        '9'
    } else if d == 10 {
        'a'
    } else if d == 11 {
        'b'
    } else if d == 12 {
        'c'
    } else if d == 13 {
        'd'
    } else if d == 14 {
        'e'
    } else {
        'f'
    }
}

/// The lower-case hexadecimal rendering of a byte string: two digits per
/// byte, high nibble first.
pub open spec fn hex_chars(b: Seq<u8>) -> Seq<char>
    decreases b.len(),
{
    if b.len() == 0 {
        Seq::empty()
    } else {
        hex_chars(b.drop_last()) + seq![
            hex_digit((b.last() / 16) as nat),
            hex_digit((b.last() % 16) as nat),
        ]
    }
}

/// A hexadecimal rendering has two characters per byte, and none of them
/// is a `'*'`.
pub proof fn lemma_hex_chars_shape(b: Seq<u8>)
    ensures
        hex_chars(b).len() == 2 * b.len(),
        forall|i: int| 0 <= i < hex_chars(b).len() ==> #[trigger] hex_chars(b)[i] != '*',
    decreases b.len(),
{
    if b.len() > 0 {
        lemma_hex_chars_shape(b.drop_last());
        assert forall|i: int| 0 <= i < hex_chars(b).len() implies #[trigger] hex_chars(b)[i]
            != '*' by {
            if i < hex_chars(b.drop_last()).len() {
                assert(hex_chars(b)[i] == hex_chars(b.drop_last())[i]);
            }
        }
    }
}

/// The digest of the certificate entropy string; the value is a function
/// of the characters alone.
pub uninterp spec fn sha512_of(s: Seq<char>) -> Seq<u8>;

/// The URL-safe, unpadded base64 rendering of a byte string; the value
/// is a function of the bytes alone.
pub uninterp spec fn b64url_of(b: Seq<u8>) -> Seq<char>;

/// A character of the URL-safe base64 alphabet.
pub open spec fn is_b64url_char(c: char) -> bool {
    is_alnum_char(c) || c == '-' || c == '_'
}

/// Relies on hex's `encode`: lower-case hexadecimal, two digits per
/// byte, high nibble first, bytes in order.
#[verifier::external_body]
fn hex_encode(data: &Vec<u8>) -> (r: String)
    ensures
        r@ == hex_chars(data@),
{
    hex::encode(data)
}

/// Relies on sha2's `Sha512`: the digest has 64 bytes and depends on the
/// hashed characters alone.
#[verifier::external_body]
fn sha512_digest(data: &str) -> (r: Vec<u8>)
    ensures
        r@ == sha512_of(data@),
        r@.len() == 64,
{
    let mut hasher = sha2::Sha512::new();
    hasher.update(data.as_bytes());
    hasher.finalize().to_vec()
}

/// Relies on base64's `URL_SAFE_NO_PAD` engine: the rendering depends on
/// the input bytes alone, holds four characters for every three bytes
/// (rounded up, unpadded), and draws them from the URL-safe alphabet.
#[verifier::external_body]
fn b64url_encode(data: &Vec<u8>) -> (r: String)
    ensures
        r@ == b64url_of(data@),
        r@.len() == (data@.len() * 4 + 2) / 3,
        forall|i: int| 0 <= i < r@.len() ==> is_b64url_char(#[trigger] r@[i]),
{
    base64::engine::general_purpose::URL_SAFE_NO_PAD.encode(data)
}

/// Relies on ring's `SystemRandom::fill`: on success the buffer holds
/// `n` bytes from the system's secure random source. Nothing is assumed
/// of the values.
#[verifier::external_body]
fn ring_random_bytes(n: usize) -> (r: Result<Vec<u8>, DomainError>)
    ensures
        r matches Ok(v) ==> v@.len() == n,
        r matches Err(e) ==> e is ServerError,
{
    let mut buf = vec![0u8; n];
    let rng = ring::rand::SystemRandom::new();
    match ring::rand::SecureRandom::fill(&rng, &mut buf) {
        Ok(()) => Ok(buf),
        Err(_) => Err(
            DomainError::ServerError(String::from("failed to generate random bytes")),
        ),
    }
}

/// Relies on getrandom's `fill`: on success the buffer holds `n` bytes
/// from the operating system's random source. Nothing is assumed of the
/// values.
#[verifier::external_body]
fn getrandom_bytes(n: usize) -> (r: Result<Vec<u8>, DomainError>)
    ensures
        r matches Ok(v) ==> v@.len() == n,
        r matches Err(e) ==> e is ServerError,
{
    let mut buf = vec![0u8; n];
    match getrandom::fill(&mut buf) {
        Ok(()) => Ok(buf),
        Err(_) => Err(DomainError::ServerError(String::from("failed to generate salt"))),
    }
}

/// The per-call salt: the asset id, an underscore, and the base64
/// rendering of the fresh salt bytes.
pub open spec fn salt_chars(asset_id: Seq<char>, salt_bytes: Seq<u8>) -> Seq<char> {
    asset_id + seq!['_'] + b64url_of(salt_bytes)
}

/// The string hashed to produce a certificate payload: the timestamp,
/// the hex rendering of the random bytes, the issuer counter, and the
/// salt, separated by stars.
pub open spec fn combined_entropy(
    ts: nat,
    hex_part: Seq<char>,
    counter: nat,
    salt: Seq<char>,
) -> Seq<char> {
    dec_chars(ts) + seq!['*'] + hex_part + seq!['*', '*'] + dec_chars(counter) + seq!['*'] + salt
}

/// Splitting at an unambiguous separator: when the prefixes hold no
/// star, equal concatenations have equal parts.
proof fn lemma_star_split(a1: Seq<char>, b1: Seq<char>, a2: Seq<char>, b2: Seq<char>)
    requires
        a1 + seq!['*'] + b1 == a2 + seq!['*'] + b2,
        forall|i: int| 0 <= i < a1.len() ==> a1[i] != '*',
        forall|i: int| 0 <= i < a2.len() ==> a2[i] != '*',
    ensures
        a1 == a2,
        b1 == b2,
{
    let s = a1 + seq!['*'] + b1;
    if a1.len() < a2.len() {
        assert(s[a1.len() as int] == '*');
        assert((a2 + seq!['*'] + b2)[a1.len() as int] == a2[a1.len() as int]);
        assert(false);
    }
    if a2.len() < a1.len() {
        assert(s[a2.len() as int] == a1[a2.len() as int]);
        assert((a2 + seq!['*'] + b2)[a2.len() as int] == '*');
        assert(false);
    }
    assert(a1.len() == a2.len());
    assert(a1 =~= a2) by {
        assert forall|i: int| 0 <= i < a1.len() implies a1[i] == a2[i] by {
            assert(s[i] == a1[i]);
            assert((a2 + seq!['*'] + b2)[i] == a2[i]);
        }
    }
    assert(s.len() == (a2 + seq!['*'] + b2).len());
    assert(b1.len() == b2.len());
    assert(b1 =~= b2) by {
        assert forall|i: int| 0 <= i < b1.len() implies b1[i] == b2[i] by {
            let j = a1.len() + 1 + i;
            assert(0 <= j < s.len());
            assert(s[j] == b1[i]);
            assert(j - (a2 + seq!['*']).len() == i);
            assert((a2 + seq!['*'] + b2)[j] == b2[i]);
        }
    }
}

/// The entropy string parses back into its four parts: two entropy
/// strings are equal only if the timestamps, random bytes, counters and
/// salts all agree. In particular, two issuances with different counter
/// values always hash different inputs, whatever the clock and the
/// random source returned — the heart of the uniqueness guarantee.
pub proof fn lemma_combined_entropy_parts(
    ts1: nat,
    rb1: Seq<u8>,
    c1: nat,
    salt1: Seq<char>,
    ts2: nat,
    rb2: Seq<u8>,
    c2: nat,
    salt2: Seq<char>,
)
    requires
        combined_entropy(ts1, hex_chars(rb1), c1, salt1) == combined_entropy(
            ts2,
            hex_chars(rb2),
            c2,
            salt2,
        ),
    ensures
        ts1 == ts2,
        hex_chars(rb1) == hex_chars(rb2),
        c1 == c2,
        salt1 == salt2,
{
    lemma_dec_chars_digits(ts1);
    lemma_dec_chars_digits(ts2);
    lemma_dec_chars_digits(c1);
    lemma_dec_chars_digits(c2);
    lemma_hex_chars_shape(rb1);
    lemma_hex_chars_shape(rb2);
    assert forall|i: int| 0 <= i < dec_chars(ts1).len() implies dec_chars(ts1)[i] != '*' by {
        assert(is_digit_char(dec_chars(ts1)[i]));
    }
    assert forall|i: int| 0 <= i < dec_chars(ts2).len() implies dec_chars(ts2)[i] != '*' by {
        assert(is_digit_char(dec_chars(ts2)[i]));
    }
    assert forall|i: int| 0 <= i < dec_chars(c1).len() implies dec_chars(c1)[i] != '*' by {
        assert(is_digit_char(dec_chars(c1)[i]));
    }
    assert forall|i: int| 0 <= i < dec_chars(c2).len() implies dec_chars(c2)[i] != '*' by {
        assert(is_digit_char(dec_chars(c2)[i]));
    }
    // peel the timestamp
    let r1 = hex_chars(rb1) + seq!['*', '*'] + dec_chars(c1) + seq!['*'] + salt1;
    let r2 = hex_chars(rb2) + seq!['*', '*'] + dec_chars(c2) + seq!['*'] + salt2;
    assert(combined_entropy(ts1, hex_chars(rb1), c1, salt1) =~= dec_chars(ts1) + seq!['*'] + r1);
    assert(combined_entropy(ts2, hex_chars(rb2), c2, salt2) =~= dec_chars(ts2) + seq!['*'] + r2);
    lemma_star_split(dec_chars(ts1), r1, dec_chars(ts2), r2);
    lemma_dec_chars_injective(ts1, ts2);
    // peel the hex block
    let t1 = seq!['*'] + dec_chars(c1) + seq!['*'] + salt1;
    let t2 = seq!['*'] + dec_chars(c2) + seq!['*'] + salt2;
    assert(r1 =~= hex_chars(rb1) + seq!['*'] + t1);
    assert(r2 =~= hex_chars(rb2) + seq!['*'] + t2);
    lemma_star_split(hex_chars(rb1), t1, hex_chars(rb2), t2);
    // peel the second star of the double separator
    let u1 = dec_chars(c1) + seq!['*'] + salt1;
    let u2 = dec_chars(c2) + seq!['*'] + salt2;
    assert(t1 =~= Seq::<char>::empty() + seq!['*'] + u1);
    assert(t2 =~= Seq::<char>::empty() + seq!['*'] + u2);
    lemma_star_split(Seq::<char>::empty(), u1, Seq::<char>::empty(), u2);
    // peel the counter
    lemma_star_split(dec_chars(c1), salt1, dec_chars(c2), salt2);
    lemma_dec_chars_injective(c1, c2);
}

/// The uniqueness law of the issuer: whatever the clock and the random
/// sources returned, two issuances with different counter values always
/// hash different entropy strings, so their payloads are digests of
/// different inputs.
pub proof fn lemma_distinct_counters_distinct_entropy(
    ts1: nat,
    rb1: Seq<u8>,
    c1: nat,
    salt1: Seq<char>,
    ts2: nat,
    rb2: Seq<u8>,
    c2: nat,
    salt2: Seq<char>,
)
    requires
        c1 != c2,
    ensures
        combined_entropy(ts1, hex_chars(rb1), c1, salt1) != combined_entropy(
            ts2,
            hex_chars(rb2),
            c2,
            salt2,
        ),
{
    if combined_entropy(ts1, hex_chars(rb1), c1, salt1) == combined_entropy(
        ts2,
        hex_chars(rb2),
        c2,
        salt2,
    ) {
        lemma_combined_entropy_parts(ts1, rb1, c1, salt1, ts2, rb2, c2, salt2);
    }
}

/// Issues unique certificates: a per-issuer counter is incremented under
/// exclusive access (`&mut self`) exactly once per call, before any
/// fallible step, so no two calls ever hash the same entropy string.
pub struct CertificateIssuer {
    pub counter: u128,
}

impl CertificateIssuer {
    /// A fresh issuer with its counter at zero.
    pub fn new() -> (r: CertificateIssuer)
        ensures
            r.counter == 0,
    {
        CertificateIssuer { counter: 0 }
    }

    /// Issues a certificate for the asset: a nanosecond timestamp, 64
    /// secure random bytes, this call's counter value and a fresh salt
    /// are concatenated, hashed with SHA-512, and the digest is encoded
    /// as URL-safe unpadded base64 — 86 characters of the URL-safe
    /// alphabet. The counter moves exactly once per call, on failures
    /// too; a clock or entropy-source failure is returned as an error.
    pub fn issue(&mut self, asset_id: &str) -> (r: Result<NFC, DomainError>)
        requires
            old(self).counter < u128::MAX,
        ensures
            final(self).counter == old(self).counter + 1,
            r matches Ok(nfc) ==> {
                &&& nfc.asset_id@ == asset_id@
                &&& nfc.id@.len() == DOMAIN_KEY_SIZE
                &&& forall|i: int|
                    0 <= i < nfc.id@.len() ==> is_alnum_char(#[trigger] nfc.id@[i])
                &&& nfc.cert@.len() == 86
                &&& forall|i: int|
                    0 <= i < nfc.cert@.len() ==> is_b64url_char(#[trigger] nfc.cert@[i])
                &&& exists|ts: nat, rb: Seq<u8>, sb: Seq<u8>|
                    rb.len() == 64 && sb.len() == 16 && b64url_of(sb).len() == 22 && nfc.cert@
                        == b64url_of(
                        #[trigger] sha512_of(
                            combined_entropy(
                                ts,
                                hex_chars(rb),
                                old(self).counter as nat,
                                salt_chars(asset_id@, sb),
                            ),
                        ),
                    )
            },
            r matches Err(e) ==> e is ServerError,
    {
        // the counter moves before any fallible step, so a failed call
        // never shares its value with a later one
        let counter_val = self.counter;
        self.counter = self.counter + 1;

        let ts: u128 = match now_unix_nanos() {
            Ok(n) => n,
            Err(e) => {
                return Err(e);
            },
        };

        let random_bytes = match ring_random_bytes(64) {
            Ok(v) => v,
            Err(e) => {
                return Err(e);
            },
        };
        let salt_bytes = match getrandom_bytes(16) {
            Ok(v) => v,
            Err(e) => {
                return Err(e);
            },
        };

        let mut data = u128_to_dec(ts);
        data.append("*");
        let hex_part = hex_encode(&random_bytes);
        data.append(hex_part.as_str());
        data.append("**");
        let counter_part = u128_to_dec(counter_val);
        data.append(counter_part.as_str());
        data.append("*");
        data.append(asset_id);
        data.append("_");
        let salt_part = b64url_encode(&salt_bytes);
        data.append(salt_part.as_str());
        proof {
            reveal_strlit("*");
            reveal_strlit("**");
            reveal_strlit("_");
            assert("*"@ =~= seq!['*']);
            assert("**"@ =~= seq!['*', '*']);
            assert("_"@ =~= seq!['_']);
            assert(data@ =~= combined_entropy(
                ts as nat,
                hex_chars(random_bytes@),
                counter_val as nat,
                salt_chars(asset_id@, salt_bytes@),
            ));
        }

        let digest = sha512_digest(data.as_str());
        let cert = b64url_encode(&digest);
        let cert_id = generate_unique_key(DOMAIN_KEY_SIZE);
        let now = now_millis();
        let nfc = NFC { id: cert_id, cert, asset_id: asset_id.to_owned(), created_at: now };
        proof {
            let wts = ts as nat;
            let wrb = random_bytes@;
            let wsb = salt_bytes@;
            assert(wrb.len() == 64 && wsb.len() == 16 && nfc.cert@ == b64url_of(
                sha512_of(
                    combined_entropy(
                        wts,
                        hex_chars(wrb),
                        old(self).counter as nat,
                        salt_chars(asset_id@, wsb),
                    ),
                ),
            ));
        }
        Ok(nfc)
    }
}

} // verus!
