//! Connection passwords: the OS keychain when it is available, otherwise a
//! file sealed with AES-256-GCM under a key derived from the data directory.
//!
//! The sealed file holds the nonce and the ciphertext, each in base64; the
//! payload it seals is the JSON of the entries (connection id to secret).
//! Both JSON documents are read and written by the application; here the
//! payload is sealed and opened and the entries are kept.
use crate::error::prefixed;
use crate::paths::{joined_path, path_join};
use crate::text::{first_names_distinct, push_str, string_of, text_of};
use aes_gcm::aead::{Aead, KeyInit};
use base64::Engine;
use rand::RngCore;
use sha2::Digest;
use vstd::prelude::*;

verus! {

/// Why the secrets could not be read or written.
#[derive(Debug)]
pub enum CredentialError {
    Read(String),
    Write(String),
    NotFound,
}

pub open spec fn credential_error_text(e: CredentialError) -> Seq<char> {
    match e {
        CredentialError::Read(m) => "failed to read secrets: "@ + m@,
        CredentialError::Write(m) => "failed to write secrets: "@ + m@,
        CredentialError::NotFound => "secret not found"@,
    }
}

impl CredentialError {
    /// The one-line description of the error.
    pub fn describe(&self) -> (s: String)
        ensures
            s@ == credential_error_text(*self),
    {
        match self {
            CredentialError::Read(m) => prefixed("failed to read secrets: ", m.as_str()),
            CredentialError::Write(m) => prefixed("failed to write secrets: ", m.as_str()),
            CredentialError::NotFound => text_of("secret not found"),
        }
    }
}

// ---------------------------------------------------------------------------
// Key/value pairs with distinct keys, seen as maps
// ---------------------------------------------------------------------------

pub type Pairs = Seq<(Seq<char>, Seq<char>)>;

pub open spec fn pairs_view(p: Seq<(String, String)>) -> Pairs {
    p.map_values(|e: (String, String)| (e.0@, e.1@))
}

/// No key occurs twice.
pub open spec fn distinct_keys(p: Pairs) -> bool {
    forall|i: int, j: int| 0 <= i < j < p.len() ==> p[i].0 != p[j].0
}

/// The map the pairs spell, a later pair replacing an earlier one.
pub open spec fn map_of(p: Pairs) -> Map<Seq<char>, Seq<char>>
    decreases p.len(),
{
    if p.len() == 0 {
        Map::empty()
    } else {
        map_of(p.drop_last()).insert(p.last().0, p.last().1)
    }
}

pub open spec fn map_get(m: Map<Seq<char>, Seq<char>>, k: Seq<char>) -> Option<Seq<char>> {
    if m.contains_key(k) {
        Some(m[k])
    } else {
        None
    }
}

proof fn lemma_map_of_keys(p: Pairs, k: Seq<char>)
    ensures
        map_of(p).contains_key(k) <==> exists|i: int| 0 <= i < p.len() && p[i].0 == k,
    decreases p.len(),
{
    if p.len() > 0 {
        let init = p.drop_last();
        lemma_map_of_keys(init, k);
        if exists|i: int| 0 <= i < p.len() && p[i].0 == k {
            let i = choose|i: int| 0 <= i < p.len() && p[i].0 == k;
            if i < init.len() {
                assert(init[i].0 == k);
            }
        }
        if exists|i: int| 0 <= i < init.len() && init[i].0 == k {
            let i = choose|i: int| 0 <= i < init.len() && init[i].0 == k;
            assert(p[i].0 == k);
        }
    }
}

proof fn lemma_map_of_at(p: Pairs, i: int)
    requires
        distinct_keys(p),
        0 <= i < p.len(),
    ensures
        map_of(p).contains_key(p[i].0),
        map_of(p)[p[i].0] == p[i].1,
    decreases p.len(),
{
    let init = p.drop_last();
    if i < p.len() - 1 {
        lemma_map_of_at(init, i);
        assert(init[i] == p[i]);
        assert(p[i].0 != p.last().0);
    }
}

/// The value of `k`: the first pair holding it.
pub open spec fn first_value(p: Pairs, k: Seq<char>) -> Option<Seq<char>>
    decreases p.len(),
{
    if p.len() == 0 {
        None
    } else if p[0].0 == k {
        Some(p[0].1)
    } else {
        first_value(p.drop_first(), k)
    }
}

/// The value stored under `k`.
pub fn lookup(p: &Vec<(String, String)>, k: &str) -> (r: Option<String>)
    ensures
        match r {
            Some(v) => first_value(pairs_view(p@), k@) == Some(v@),
            None => first_value(pairs_view(p@), k@) is None,
        },
        distinct_keys(pairs_view(p@)) ==> match r {
            Some(v) => map_get(map_of(pairs_view(p@)), k@) == Some(v@),
            None => map_get(map_of(pairs_view(p@)), k@) is None,
        },
{
    let ghost all = pairs_view(p@);
    let ks = text_of(k);
    let mut i: usize = 0;
    assert(all.skip(0) == all);
    while i < p.len()
        invariant
            i <= p@.len(),
            all == pairs_view(p@),
            ks@ == k@,
            first_value(all, k@) == first_value(all.skip(i as int), k@),
            forall|j: int| 0 <= j < i ==> all[j].0 != k@,
        decreases p@.len() - i,
    {
        assert(all.skip(i as int)[0] == all[i as int]);
        if p[i].0 == ks {
            proof {
                if distinct_keys(all) {
                    lemma_map_of_at(all, i as int);
                }
            }
            return Some(p[i].1.clone());
        }
        assert(all.skip(i as int).drop_first() == all.skip(i + 1));
        i = i + 1;
    }
    proof {
        lemma_map_of_keys(all, k@);
    }
    None
}

/// Stores `v` under `k`, replacing what was there.
pub fn put_pair(p: &mut Vec<(String, String)>, k: String, v: String)
    requires
        distinct_keys(pairs_view(old(p)@)),
    ensures
        distinct_keys(pairs_view(final(p)@)),
        map_of(pairs_view(final(p)@)) == map_of(pairs_view(old(p)@)).insert(k@, v@),
{
    let ghost before = pairs_view(p@);
    let mut i: usize = 0;
    while i < p.len()
        invariant
            i <= p@.len(),
            p@ == old(p)@,
            before == pairs_view(p@),
            distinct_keys(before),
            forall|j: int| 0 <= j < i ==> before[j].0 != k@,
        decreases p@.len() - i,
    {
        if p[i].0 == k {
            let ghost kk = k@;
            let ghost vv = v@;
            p.set(i, (k, v));
            proof {
                let after = pairs_view(p@);
                assert(after =~= before.update(i as int, (kk, vv)));
                lemma_update_same_key(before, i as int, vv);
            }
            return;
        }
        i = i + 1;
    }
    let ghost kk = k@;
    let ghost vv = v@;
    p.push((k, v));
    proof {
        let after = pairs_view(p@);
        assert(after =~= before.push((kk, vv)));
        assert(after.drop_last() == before);
    }
}

proof fn lemma_update_same_key(p: Pairs, i: int, v: Seq<char>)
    requires
        distinct_keys(p),
        0 <= i < p.len(),
    ensures
        distinct_keys(p.update(i, (p[i].0, v))),
        map_of(p.update(i, (p[i].0, v))) == map_of(p).insert(p[i].0, v),
    decreases p.len(),
{
    let q = p.update(i, (p[i].0, v));
    let k = p[i].0;
    if i == p.len() - 1 {
        assert(q.drop_last() == p.drop_last());
        assert(map_of(q) == map_of(p.drop_last()).insert(k, v));
        assert(map_of(p) == map_of(p.drop_last()).insert(k, p[i].1));
        assert(map_of(q) =~= map_of(p).insert(k, v));
    } else {
        lemma_update_same_key(p.drop_last(), i, v);
        assert(q.drop_last() == p.drop_last().update(i, (k, v)));
        assert(p.last().0 != k);
        assert(map_of(q) =~= map_of(p).insert(k, v));
    }
}

proof fn lemma_remove_at(p: Pairs, i: int)
    requires
        distinct_keys(p),
        0 <= i < p.len(),
    ensures
        distinct_keys(p.remove(i)),
        map_of(p.remove(i)) == map_of(p).remove(p[i].0),
    decreases p.len(),
{
    let q = p.remove(i);
    let k = p[i].0;
    if i == p.len() - 1 {
        assert(q == p.drop_last());
        lemma_map_of_keys(p.drop_last(), k);
        assert(map_of(q) =~= map_of(p).remove(k));
    } else {
        lemma_remove_at(p.drop_last(), i);
        assert(q.drop_last() == p.drop_last().remove(i));
        assert(q.last() == p.last());
        assert(p.last().0 != k);
        assert(map_of(q) =~= map_of(p).remove(k));
    }
}

/// Forgets `k`.
pub fn drop_pair(p: &mut Vec<(String, String)>, k: &str)
    requires
        distinct_keys(pairs_view(old(p)@)),
    ensures
        distinct_keys(pairs_view(final(p)@)),
        map_of(pairs_view(final(p)@)) == map_of(pairs_view(old(p)@)).remove(k@),
{
    let ghost before = pairs_view(p@);
    let ks = text_of(k);
    let mut i: usize = 0;
    while i < p.len()
        invariant
            i <= p@.len(),
            p@ == old(p)@,
            before == pairs_view(p@),
            distinct_keys(before),
            ks@ == k@,
            forall|j: int| 0 <= j < i ==> before[j].0 != k@,
        decreases p@.len() - i,
    {
        if p[i].0 == ks {
            p.remove(i);
            proof {
                assert(pairs_view(p@) =~= before.remove(i as int));
                lemma_remove_at(before, i as int);
            }
            return;
        }
        i = i + 1;
    }
    proof {
        lemma_map_of_keys(before, k@);
        assert(map_of(before).remove(k@) =~= map_of(before));
    }
}

/// A read gives back what the last write for the same key stored.
pub proof fn law_get_after_put(m: Map<Seq<char>, Seq<char>>, k: Seq<char>, v: Seq<char>)
    ensures
        map_get(m.insert(k, v), k) == Some(v),
{
}

/// After a delete nothing is stored under the key.
pub proof fn law_get_after_drop(m: Map<Seq<char>, Seq<char>>, k: Seq<char>)
    ensures
        map_get(m.remove(k), k) is None,
{
}

// ---------------------------------------------------------------------------
// Outside calls: base64, AES-256-GCM, SHA-256, randomness, UUID text
// ---------------------------------------------------------------------------

/// The character of a 6-bit value in the standard base64 alphabet
/// (`A`-`Z`, `a`-`z`, `0`-`9`, `+`, `/`).
pub open spec fn base64_char(v: int) -> char {
    if v < 26 {
        (65 + v) as char
    } else if v < 52 {
        (71 + v) as char
    } else if v < 62 {
        (v - 4) as char
    } else if v == 62 {
        '+'
    } else {
        '/'
    }
}

/// The standard base64 text (with `=` padding) of the bytes: each group of
/// three bytes as four characters of six bits each, a last group of one or
/// two bytes padded.
pub open spec fn base64_of(bytes: Seq<u8>) -> Seq<char>
    decreases bytes.len(),
{
    if bytes.len() == 0 {
        seq![]
    } else if bytes.len() == 1 {
        let a = bytes[0] as int;
        seq![base64_char(a / 4), base64_char((a % 4) * 16), '=', '=']
    } else if bytes.len() == 2 {
        let a = bytes[0] as int;
        let b = bytes[1] as int;
        seq![base64_char(a / 4), base64_char((a % 4) * 16 + b / 16), base64_char((b % 16) * 4), '=']
    } else {
        let a = bytes[0] as int;
        let b = bytes[1] as int;
        let c = bytes[2] as int;
        seq![
            base64_char(a / 4),
            base64_char((a % 4) * 16 + b / 16),
            base64_char((b % 16) * 4 + c / 64),
            base64_char(c % 64),
        ] + base64_of(bytes.skip(3))
    }
}

/// What standard base64 decoding gives for the text.
pub uninterp spec fn base64_decoded_of(text: Seq<char>) -> Result<Seq<u8>, Seq<char>>;

/// `base64::engine::general_purpose::STANDARD.encode`. Claimed: the result
/// is `base64_of` of the bytes, and `STANDARD.decode` reads it back as the
/// bytes.
#[verifier::external_body]
fn b64_encode(bytes: &[u8]) -> (s: String)
    ensures
        s@ == base64_of(bytes@),
        (base64_decoded_of(s@) == Ok::<Seq<u8>, Seq<char>>(bytes@)),
{
    base64::engine::general_purpose::STANDARD.encode(bytes)
}

/// `base64::engine::general_purpose::STANDARD.decode`. Claimed: the result is
/// `base64_decoded_of` of the text, and the encoding of some bytes decodes to
/// those bytes.
#[verifier::external_body]
fn b64_decode(text: &str) -> (r: Result<Vec<u8>, String>)
    ensures
        match r {
            Ok(b) => base64_decoded_of(text@) == Ok::<Seq<u8>, Seq<char>>(b@),
            Err(e) => base64_decoded_of(text@) == Err::<Seq<u8>, Seq<char>>(e@),
        },
        forall|b: Seq<u8>| #[trigger] base64_of(b) == text@ ==> (r is Ok && r->Ok_0@ == b),
{
    base64::engine::general_purpose::STANDARD.decode(text).map_err(|e| e.to_string())
}

/// What AES-256-GCM encryption gives (ciphertext followed by the tag), or
/// its error.
pub uninterp spec fn aes_sealed(key: Seq<u8>, nonce: Seq<u8>, plain: Seq<u8>) -> Result<
    Seq<u8>,
    Seq<char>,
>;

/// What AES-256-GCM decryption gives, or its error.
pub uninterp spec fn aes_opened(key: Seq<u8>, nonce: Seq<u8>, sealed: Seq<u8>) -> Result<
    Seq<u8>,
    Seq<char>,
>;

/// `aes_gcm::Aes256Gcm::new_from_slice(key)` then `encrypt(Nonce::from_slice(nonce),
/// plain)` (no associated data). Claimed: the result is `aes_sealed` of the
/// three, a success is the plaintext's length plus the 16-byte tag, and
/// decrypting it with the same key and nonce gives the plaintext back.
#[verifier::external_body]
fn aes_seal(key: &[u8], nonce: &[u8], plain: &[u8]) -> (r: Result<Vec<u8>, String>)
    requires
        key@.len() == 32,
        nonce@.len() == 12,
    ensures
        match r {
            Ok(c) => aes_sealed(key@, nonce@, plain@) == Ok::<Seq<u8>, Seq<char>>(c@)
                && c@.len() == plain@.len() + 16 && aes_opened(key@, nonce@, c@) == Ok::<
                Seq<u8>,
                Seq<char>,
            >(plain@),
            Err(e) => aes_sealed(key@, nonce@, plain@) == Err::<Seq<u8>, Seq<char>>(e@),
        },
{
    let cipher = aes_gcm::Aes256Gcm::new_from_slice(key).map_err(|e| e.to_string())?;
    cipher.encrypt(aes_gcm::Nonce::from_slice(nonce), plain).map_err(|e| e.to_string())
}

/// `aes_gcm::Aes256Gcm::new_from_slice(key)` then `decrypt(Nonce::from_slice(nonce),
/// sealed)`. Claimed: the result is `aes_opened` of the three, and what
/// `aes_seal` produced with the same key and nonce opens to its plaintext.
#[verifier::external_body]
fn aes_open(key: &[u8], nonce: &[u8], sealed: &[u8]) -> (r: Result<Vec<u8>, String>)
    requires
        key@.len() == 32,
        nonce@.len() == 12,
    ensures
        match r {
            Ok(p) => aes_opened(key@, nonce@, sealed@) == Ok::<Seq<u8>, Seq<char>>(p@),
            Err(e) => aes_opened(key@, nonce@, sealed@) == Err::<Seq<u8>, Seq<char>>(e@),
        },
        forall|p: Seq<u8>|
            (#[trigger] aes_sealed(key@, nonce@, p) == Ok::<Seq<u8>, Seq<char>>(sealed@))
                ==> (r is Ok && r->Ok_0@ == p),
{
    let cipher = aes_gcm::Aes256Gcm::new_from_slice(key).map_err(|e| e.to_string())?;
    cipher.decrypt(aes_gcm::Nonce::from_slice(nonce), sealed).map_err(|e| e.to_string())
}

/// The SHA-256 digest of the bytes.
pub uninterp spec fn sha256_of(data: Seq<u8>) -> Seq<u8>;

/// `sha2::Sha256::digest`. Claimed: the result is `sha256_of` of the bytes,
/// 32 bytes long.
#[verifier::external_body]
fn sha256(data: &[u8]) -> (d: Vec<u8>)
    ensures
        d@ == sha256_of(data@),
        d@.len() == 32,
{
    sha2::Sha256::digest(data).to_vec()
}

/// `rand::RngCore::fill_bytes` with `aes_gcm::aead::OsRng` on 12 zero bytes.
/// Claimed: 12 bytes; nothing of their values.
#[verifier::external_body]
fn random_nonce() -> (n: Vec<u8>)
    ensures
        n@.len() == 12,
{
    let mut bytes = [0u8;12];
    aes_gcm::aead::OsRng.fill_bytes(&mut bytes);
    bytes.to_vec()
}

/// The lower-case hexadecimal digit of `d` (below 16).
pub open spec fn lower_hex_digit(d: int) -> char {
    if d < 10 {
        (48 + d) as char
    } else {
        (87 + d) as char
    }
}

/// The `k`-th of the 32 hexadecimal digits of the 128 bits, most significant
/// first.
pub open spec fn uuid_nibble(id: u128, k: int) -> int {
    ((id >> ((124 - 4 * k) as u128)) & 15u128) as int
}

/// The hyphenated lower-case text of the UUID with these 128 bits: its 32
/// hexadecimal digits in groups of 8, 4, 4, 4 and 12 joined by `-`.
pub open spec fn uuid_text_of(id: u128) -> Seq<char> {
    Seq::new(
        36,
        |i: int|
            if i == 8 || i == 13 || i == 18 || i == 23 {
                '-'
            } else {
                let k = if i < 8 {
                    i
                } else if i < 13 {
                    i - 1
                } else if i < 18 {
                    i - 2
                } else if i < 23 {
                    i - 3
                } else {
                    i - 4
                };
                lower_hex_digit(uuid_nibble(id, k))
            },
    )
}

/// `uuid::Uuid::from_u128(id).to_string()` (the bits in big-endian order,
/// hyphenated, lower case). Claimed: the result is `uuid_text_of` of the id.
#[verifier::external_body]
pub(crate) fn uuid_text(id: u128) -> (s: String)
    ensures
        s@ == uuid_text_of(id),
{
    uuid::Uuid::from_u128(id).to_string()
}

// ---------------------------------------------------------------------------
// Distinct connections have distinct keys
// ---------------------------------------------------------------------------

proof fn lemma_nibble_range(id: u128, s: u128)
    ensures
        (id >> s) & 15u128 <= 15u128,
{
    assert((id >> s) & 15u128 <= 15u128) by (bit_vector);
}

/// The 32 digits determine the bits.
proof fn lemma_nibbles_determine(a: u128, b: u128)
    requires
        forall|k: int| 0 <= k < 32 ==> uuid_nibble(a, k) == uuid_nibble(b, k),
    ensures
        a == b,
{
    assert(uuid_nibble(a, 0) == uuid_nibble(b, 0));
    assert(uuid_nibble(a, 1) == uuid_nibble(b, 1));
    assert(uuid_nibble(a, 2) == uuid_nibble(b, 2));
    assert(uuid_nibble(a, 3) == uuid_nibble(b, 3));
    assert(uuid_nibble(a, 4) == uuid_nibble(b, 4));
    assert(uuid_nibble(a, 5) == uuid_nibble(b, 5));
    assert(uuid_nibble(a, 6) == uuid_nibble(b, 6));
    assert(uuid_nibble(a, 7) == uuid_nibble(b, 7));
    assert(uuid_nibble(a, 8) == uuid_nibble(b, 8));
    assert(uuid_nibble(a, 9) == uuid_nibble(b, 9));
    assert(uuid_nibble(a, 10) == uuid_nibble(b, 10));
    assert(uuid_nibble(a, 11) == uuid_nibble(b, 11));
    assert(uuid_nibble(a, 12) == uuid_nibble(b, 12));
    assert(uuid_nibble(a, 13) == uuid_nibble(b, 13));
    assert(uuid_nibble(a, 14) == uuid_nibble(b, 14));
    assert(uuid_nibble(a, 15) == uuid_nibble(b, 15));
    assert(uuid_nibble(a, 16) == uuid_nibble(b, 16));
    assert(uuid_nibble(a, 17) == uuid_nibble(b, 17));
    assert(uuid_nibble(a, 18) == uuid_nibble(b, 18));
    assert(uuid_nibble(a, 19) == uuid_nibble(b, 19));
    assert(uuid_nibble(a, 20) == uuid_nibble(b, 20));
    assert(uuid_nibble(a, 21) == uuid_nibble(b, 21));
    assert(uuid_nibble(a, 22) == uuid_nibble(b, 22));
    assert(uuid_nibble(a, 23) == uuid_nibble(b, 23));
    assert(uuid_nibble(a, 24) == uuid_nibble(b, 24));
    assert(uuid_nibble(a, 25) == uuid_nibble(b, 25));
    assert(uuid_nibble(a, 26) == uuid_nibble(b, 26));
    assert(uuid_nibble(a, 27) == uuid_nibble(b, 27));
    assert(uuid_nibble(a, 28) == uuid_nibble(b, 28));
    assert(uuid_nibble(a, 29) == uuid_nibble(b, 29));
    assert(uuid_nibble(a, 30) == uuid_nibble(b, 30));
    assert(uuid_nibble(a, 31) == uuid_nibble(b, 31));
    assert(a == b) by (bit_vector)
        requires
            (a >> 124u128) & 15u128 == (b >> 124u128) & 15u128,
            (a >> 120u128) & 15u128 == (b >> 120u128) & 15u128,
            (a >> 116u128) & 15u128 == (b >> 116u128) & 15u128,
            (a >> 112u128) & 15u128 == (b >> 112u128) & 15u128,
            (a >> 108u128) & 15u128 == (b >> 108u128) & 15u128,
            (a >> 104u128) & 15u128 == (b >> 104u128) & 15u128,
            (a >> 100u128) & 15u128 == (b >> 100u128) & 15u128,
            (a >> 96u128) & 15u128 == (b >> 96u128) & 15u128,
            (a >> 92u128) & 15u128 == (b >> 92u128) & 15u128,
            (a >> 88u128) & 15u128 == (b >> 88u128) & 15u128,
            (a >> 84u128) & 15u128 == (b >> 84u128) & 15u128,
            (a >> 80u128) & 15u128 == (b >> 80u128) & 15u128,
            (a >> 76u128) & 15u128 == (b >> 76u128) & 15u128,
            (a >> 72u128) & 15u128 == (b >> 72u128) & 15u128,
            (a >> 68u128) & 15u128 == (b >> 68u128) & 15u128,
            (a >> 64u128) & 15u128 == (b >> 64u128) & 15u128,
            (a >> 60u128) & 15u128 == (b >> 60u128) & 15u128,
            (a >> 56u128) & 15u128 == (b >> 56u128) & 15u128,
            (a >> 52u128) & 15u128 == (b >> 52u128) & 15u128,
            (a >> 48u128) & 15u128 == (b >> 48u128) & 15u128,
            (a >> 44u128) & 15u128 == (b >> 44u128) & 15u128,
            (a >> 40u128) & 15u128 == (b >> 40u128) & 15u128,
            (a >> 36u128) & 15u128 == (b >> 36u128) & 15u128,
            (a >> 32u128) & 15u128 == (b >> 32u128) & 15u128,
            (a >> 28u128) & 15u128 == (b >> 28u128) & 15u128,
            (a >> 24u128) & 15u128 == (b >> 24u128) & 15u128,
            (a >> 20u128) & 15u128 == (b >> 20u128) & 15u128,
            (a >> 16u128) & 15u128 == (b >> 16u128) & 15u128,
            (a >> 12u128) & 15u128 == (b >> 12u128) & 15u128,
            (a >> 8u128) & 15u128 == (b >> 8u128) & 15u128,
            (a >> 4u128) & 15u128 == (b >> 4u128) & 15u128,
            (a >> 0u128) & 15u128 == (b >> 0u128) & 15u128,
    ;
}

/// The place in the text of the `k`-th digit.
pub open spec fn digit_position(k: int) -> int {
    if k < 8 {
        k
    } else if k < 12 {
        k + 1
    } else if k < 16 {
        k + 2
    } else if k < 20 {
        k + 3
    } else {
        k + 4
    }
}

/// Distinct identifiers have distinct texts, so distinct connections never
/// share a secret.
pub proof fn lemma_uuid_text_injective(a: u128, b: u128)
    requires
        uuid_text_of(a) == uuid_text_of(b),
    ensures
        a == b,
{
    assert forall|k: int| 0 <= k < 32 implies uuid_nibble(a, k) == uuid_nibble(b, k) by {
        let i = digit_position(k);
        assert(0 <= i < 36 && i != 8 && i != 13 && i != 18 && i != 23);
        assert(uuid_text_of(a)[i] == lower_hex_digit(uuid_nibble(a, k)));
        assert(uuid_text_of(b)[i] == lower_hex_digit(uuid_nibble(b, k)));
        assert(uuid_text_of(a)[i] == uuid_text_of(b)[i]);
        lemma_nibble_range(a, (124 - 4 * k) as u128);
        lemma_nibble_range(b, (124 - 4 * k) as u128);
        let x = uuid_nibble(a, k);
        let y = uuid_nibble(b, k);
        assert(lower_hex_digit(x) == lower_hex_digit(y));
        assert((lower_hex_digit(x) as int) == (lower_hex_digit(y) as int));
    }
    lemma_nibbles_determine(a, b);
}

/// Storing or deleting one connection's secret leaves every other
/// connection's secret as it was.
pub proof fn law_other_secrets_kept(
    m: Map<Seq<char>, Seq<char>>,
    id: u128,
    other: u128,
    secret: Seq<char>,
)
    requires
        id != other,
    ensures
        map_get(m.insert(uuid_text_of(id), secret), uuid_text_of(other)) == map_get(
            m,
            uuid_text_of(other),
        ),
        map_get(m.remove(uuid_text_of(id)), uuid_text_of(other)) == map_get(m, uuid_text_of(other)),
{
    if uuid_text_of(id) == uuid_text_of(other) {
        lemma_uuid_text_injective(id, other);
    }
}

/// A password saved for a connection is what a later read of the entries
/// finds, and every other connection's password stays as it was (the
/// entries as `store_encrypted` leaves them).
pub proof fn law_saved_secret_reads_back(
    entries: Pairs,
    m: Map<Seq<char>, Seq<char>>,
    id: u128,
    other: u128,
    secret: Seq<char>,
)
    requires
        map_of(entries) == m.insert(uuid_text_of(id), secret),
        other != id,
    ensures
        map_get(map_of(entries), uuid_text_of(id)) == Some(secret),
        map_get(map_of(entries), uuid_text_of(other)) == map_get(m, uuid_text_of(other)),
{
    law_other_secrets_kept(m, id, other, secret);
}

/// After a connection's password is deleted no read finds it, and every
/// other connection's password stays as it was (the entries as
/// `delete_encrypted` leaves them).
pub proof fn law_deleted_secret_gone(
    entries: Pairs,
    m: Map<Seq<char>, Seq<char>>,
    id: u128,
    other: u128,
)
    requires
        map_of(entries) == m.remove(uuid_text_of(id)),
        other != id,
    ensures
        map_get(map_of(entries), uuid_text_of(id)) is None,
        map_get(map_of(entries), uuid_text_of(other)) == map_get(m, uuid_text_of(other)),
{
    law_other_secrets_kept(m, id, other, Seq::empty());
}

// ---------------------------------------------------------------------------
// Sealing and opening the secrets file
// ---------------------------------------------------------------------------

/// The secrets file: the nonce and the sealed payload, each in base64.
#[derive(Clone, Debug)]
pub struct SealedFile {
    pub nonce: String,
    pub ciphertext: String,
}

/// What sealing `plain` with `key` and `nonce` gives: the base64 texts of the
/// nonce and of the ciphertext, or the encryption error.
pub open spec fn sealed_of(key: Seq<u8>, nonce: Seq<u8>, plain: Seq<u8>) -> Result<
    (Seq<char>, Seq<char>),
    Seq<char>,
> {
    match aes_sealed(key, nonce, plain) {
        Err(e) => Err(e),
        Ok(ct) => Ok((base64_of(nonce), base64_of(ct))),
    }
}

pub open spec fn bad_nonce_message() -> Seq<char> {
    "invalid nonce length"@
}

/// What opening a file with nonce text `nonce` and ciphertext text `ct`
/// gives: no payload when the ciphertext is empty, else the decrypted
/// payload, or the error of the step that failed (decoding the nonce, then
/// the ciphertext, the nonce's length, decryption).
pub open spec fn opened_of(key: Seq<u8>, nonce: Seq<char>, ct: Seq<char>) -> Result<
    Option<Seq<u8>>,
    Seq<char>,
> {
    if ct.len() == 0 {
        Ok(None)
    } else {
        match base64_decoded_of(nonce) {
            Err(e) => Err(e),
            Ok(n) => match base64_decoded_of(ct) {
                Err(e) => Err(e),
                Ok(c) => if n.len() != 12 {
                    Err(bad_nonce_message())
                } else {
                    match aes_opened(key, n, c) {
                        Err(e) => Err(e),
                        Ok(p) => Ok(Some(p)),
                    }
                },
            },
        }
    }
}

pub open spec fn payload_view(r: Option<Vec<u8>>) -> Option<Seq<u8>> {
    match r {
        Some(b) => Some(b@),
        None => None,
    }
}

/// Seals the payload: encrypted with `key` and `nonce`, both in base64. A
/// failing step gives `Write`. The file opens to the payload again.
pub fn seal_payload(key: &Vec<u8>, nonce: &Vec<u8>, plain: &[u8]) -> (r: Result<
    SealedFile,
    CredentialError,
>)
    requires
        key@.len() == 32,
        nonce@.len() == 12,
    ensures
        match r {
            Ok(f) => sealed_of(key@, nonce@, plain@) == Ok::<(Seq<char>, Seq<char>), Seq<char>>(
                (f.nonce@, f.ciphertext@),
            ) && opened_of(key@, f.nonce@, f.ciphertext@) == Ok::<Option<Seq<u8>>, Seq<char>>(
                Some(plain@),
            ),
            Err(CredentialError::Write(e)) => sealed_of(key@, nonce@, plain@) == Err::<
                (Seq<char>, Seq<char>),
                Seq<char>,
            >(e@),
            Err(_) => false,
        },
{
    let ct = match aes_seal(key.as_slice(), nonce.as_slice(), plain) {
        Ok(c) => c,
        Err(e) => {
            return Err(CredentialError::Write(e));
        },
    };
    let n_text = b64_encode(nonce.as_slice());
    let c_text = b64_encode(ct.as_slice());
    assert(c_text@.len() > 0) by {
        assert(ct@.len() > 0);
    }
    Ok(SealedFile { nonce: n_text, ciphertext: c_text })
}

/// Opens the file with `key`: `None` when its ciphertext is empty (an empty
/// store), else the payload. Every failing step gives `Read`; a nonce of the
/// wrong length is refused.
pub fn open_payload(key: &Vec<u8>, file: &SealedFile) -> (r: Result<
    Option<Vec<u8>>,
    CredentialError,
>)
    requires
        key@.len() == 32,
    ensures
        match r {
            Ok(o) => opened_of(key@, file.nonce@, file.ciphertext@) == Ok::<
                Option<Seq<u8>>,
                Seq<char>,
            >(payload_view(o)),
            Err(CredentialError::Read(e)) => opened_of(key@, file.nonce@, file.ciphertext@)
                == Err::<Option<Seq<u8>>, Seq<char>>(e@),
            Err(_) => false,
        },
{
    if file.ciphertext.as_str().is_empty() {
        return Ok(None);
    }
    let nonce = match b64_decode(file.nonce.as_str()) {
        Ok(b) => b,
        Err(e) => {
            return Err(CredentialError::Read(e));
        },
    };
    let ct = match b64_decode(file.ciphertext.as_str()) {
        Ok(b) => b,
        Err(e) => {
            return Err(CredentialError::Read(e));
        },
    };
    if nonce.len() != 12 {
        return Err(CredentialError::Read(text_of("invalid nonce length")));
    }
    match aes_open(key.as_slice(), nonce.as_slice(), ct.as_slice()) {
        Ok(p) => Ok(Some(p)),
        Err(e) => Err(CredentialError::Read(e)),
    }
}

// ---------------------------------------------------------------------------
// The store
// ---------------------------------------------------------------------------

/// The service name secrets are kept under.
pub open spec fn service_name() -> Seq<char> {
    "com.simplsource.app"@
}

/// Where passwords are kept: the OS keychain when `keyring_available`,
/// otherwise the sealed file in the data directory.
pub struct CredentialStore {
    pub data_dir: String,
    /// Whether the keychain answered when the store was opened.
    pub keyring_available: bool,
}

/// The key the sealed file is encrypted with: SHA-256 of the service name's
/// UTF-8 bytes followed by the data directory's.
pub open spec fn derived_key(data_dir: Seq<char>) -> Seq<u8> {
    sha256_of(vstd::utf8::encode_utf8(service_name()) + vstd::utf8::encode_utf8(data_dir))
}

pub open spec fn file_view(f: Option<&SealedFile>) -> Option<(Seq<char>, Seq<char>)> {
    match f {
        Some(s) => Some((s.nonce@, s.ciphertext@)),
        None => None,
    }
}

/// The payload of the store's file: none without a file.
pub open spec fn file_payload_of(key: Seq<u8>, f: Option<(Seq<char>, Seq<char>)>) -> Result<
    Option<Seq<u8>>,
    Seq<char>,
> {
    match f {
        None => Ok(None),
        Some((n, c)) => opened_of(key, n, c),
    }
}

/// The secret of connection `id` among the entries.
pub open spec fn secret_of(entries: Pairs, id: u128) -> Option<Seq<char>> {
    map_get(map_of(entries), uuid_text_of(id))
}

impl CredentialStore {
    /// A store for the data directory; `keyring_available` is what probing
    /// the keychain answered.
    pub fn new(data_dir: &str, keyring_available: bool) -> (c: CredentialStore)
        ensures
            c.data_dir@ == data_dir@,
            c.keyring_available == keyring_available,
    {
        CredentialStore { data_dir: text_of(data_dir), keyring_available }
    }

    /// The keychain service secrets are kept under: `com.simplsource.app`.
    pub fn service_name() -> (s: String)
        ensures
            s@ == service_name(),
    {
        text_of("com.simplsource.app")
    }

    /// Whether passwords go to the keychain.
    pub fn uses_keyring(&self) -> (b: bool)
        ensures
            b == self.keyring_available,
    {
        self.keyring_available
    }

    /// `secrets.enc.json` under the data directory.
    pub fn secrets_path(&self) -> (p: String)
        ensures
            p@ == joined_path(self.data_dir@, "secrets.enc.json"@),
    {
        path_join(self.data_dir.as_str(), "secrets.enc.json")
    }

    /// The keychain account of a connection: `conn-<uuid>`.
    pub fn keyring_key(id: u128) -> (k: String)
        ensures
            k@ == "conn-"@ + uuid_text_of(id),
    {
        let u = uuid_text(id);
        let mut v: Vec<char> = Vec::new();
        push_str(&mut v, "conn-");
        push_str(&mut v, u.as_str());
        string_of(&v)
    }

    /// The file key of the data directory.
    pub fn derive_key(&self) -> (k: Vec<u8>)
        ensures
            k@ == derived_key(self.data_dir@),
            k@.len() == 32,
    {
        let mut data = "com.simplsource.app".as_bytes_vec();
        let dir = self.data_dir.as_str().as_bytes_vec();
        let mut i: usize = 0;
        let ghost start = data@;
        while i < dir.len()
            invariant
                i <= dir@.len(),
                data@ == start + dir@.take(i as int),
            decreases dir@.len() - i,
        {
            data.push(dir[i]);
            i = i + 1;
            assert(data@ =~= start + dir@.take(i as int));
        }
        assert(dir@.take(dir@.len() as int) =~= dir@);
        sha256(data.as_slice())
    }

    /// The payload of the store's file (`None` when there is no file or its
    /// ciphertext is empty: an empty store).
    pub fn open_file(&self, file: Option<&SealedFile>) -> (r: Result<
        Option<Vec<u8>>,
        CredentialError,
    >)
        ensures
            match r {
                Ok(o) => file_payload_of(derived_key(self.data_dir@), file_view(file)) == Ok::<
                    Option<Seq<u8>>,
                    Seq<char>,
                >(payload_view(o)),
                Err(CredentialError::Read(e)) => file_payload_of(
                    derived_key(self.data_dir@),
                    file_view(file),
                ) == Err::<Option<Seq<u8>>, Seq<char>>(e@),
                Err(_) => false,
            },
    {
        match file {
            None => Ok(None),
            Some(f) => {
                let key = self.derive_key();
                open_payload(&key, f)
            },
        }
    }

    /// Seals a payload for the store's file under a fresh random nonce.
    ///
    /// A read gives back what the last write stored: the file opens to the
    /// payload with the store's key.
    pub fn seal_file(&self, plain: &[u8]) -> (r: Result<SealedFile, CredentialError>)
        ensures
            match r {
                Ok(f) => file_payload_of(derived_key(self.data_dir@), file_view(Some(&f))) == Ok::<
                    Option<Seq<u8>>,
                    Seq<char>,
                >(Some(plain@)) && exists|n: Seq<u8>|
                    #![trigger sealed_of(derived_key(self.data_dir@), n, plain@)]
                    n.len() == 12 && sealed_of(derived_key(self.data_dir@), n, plain@) == Ok::<
                        (Seq<char>, Seq<char>),
                        Seq<char>,
                    >((f.nonce@, f.ciphertext@)),
                Err(CredentialError::Write(e)) => exists|n: Seq<u8>|
                    #![trigger sealed_of(derived_key(self.data_dir@), n, plain@)]
                    n.len() == 12 && sealed_of(derived_key(self.data_dir@), n, plain@) == Err::<
                        (Seq<char>, Seq<char>),
                        Seq<char>,
                    >(e@),
                Err(_) => false,
            },
    {
        let key = self.derive_key();
        let nonce = random_nonce();
        let r = seal_payload(&key, &nonce, plain);
        proof {
            let n = nonce@;
            assert(sealed_of(key@, n, plain@) == sealed_of(derived_key(self.data_dir@), n, plain@));
        }
        r
    }

    /// The secret of a connection among the file's entries.
    pub fn load_encrypted(entries: &Vec<(String, String)>, id: u128) -> (r: Option<String>)
        requires
            distinct_keys(pairs_view(entries@)),
        ensures
            match r {
                Some(s) => secret_of(pairs_view(entries@), id) == Some(s@),
                None => secret_of(pairs_view(entries@), id) is None,
            },
    {
        let k = uuid_text(id);
        lookup(entries, k.as_str())
    }

    /// Stores the secret of a connection among the entries, replacing the old
    /// one.
    pub fn store_encrypted(entries: &mut Vec<(String, String)>, id: u128, secret: &str)
        requires
            distinct_keys(pairs_view(old(entries)@)),
        ensures
            distinct_keys(pairs_view(final(entries)@)),
            map_of(pairs_view(final(entries)@)) == map_of(pairs_view(old(entries)@)).insert(
                uuid_text_of(id),
                secret@,
            ),
            secret_of(pairs_view(final(entries)@), id) == Some(secret@),
    {
        let k = uuid_text(id);
        put_pair(entries, k, text_of(secret));
    }

    /// Forgets the secret of a connection among the entries.
    pub fn delete_encrypted(entries: &mut Vec<(String, String)>, id: u128)
        requires
            distinct_keys(pairs_view(old(entries)@)),
        ensures
            distinct_keys(pairs_view(final(entries)@)),
            map_of(pairs_view(final(entries)@)) == map_of(pairs_view(old(entries)@)).remove(
                uuid_text_of(id),
            ),
            secret_of(pairs_view(final(entries)@), id) is None,
    {
        let k = uuid_text(id);
        drop_pair(entries, k.as_str());
    }
}

/// Whether no key occurs twice among the entries.
pub fn keys_distinct(p: &Vec<(String, String)>) -> (b: bool)
    ensures
        b == distinct_keys(pairs_view(p@)),
{
    let b = first_names_distinct(p);
    proof {
        let v = pairs_view(p@);
        assert forall|i: int, j: int| 0 <= i < j < p@.len() implies (v[i].0 == v[j].0 <==> p@[i].0@
            == p@[j].0@) by {}
        if b {
            assert(distinct_keys(v));
        } else {
            let (i, j) = choose|i: int, j: int| 0 <= i < j < p@.len() && p@[i].0@ == p@[j].0@;
            assert(v[i].0 == v[j].0);
        }
    }
    b
}

} // verus!
