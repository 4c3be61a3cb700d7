//! Font obfuscation: the two reversible XOR masks that a publication may
//! lay over the first bytes of an embedded font, keyed by its unique
//! identifier.

use vstd::prelude::*;
use vstd::string::*;
use vstd::utf8::encode_utf8;

verus! {

/// The SHA-1 digest of `data`: what `sha1::Sha1::digest` returns.
pub uninterp spec fn sha1_digest(data: Seq<u8>) -> Seq<u8>;

/// The SHA-256 digest of `data`: what `sha2::Sha256::digest` returns.
pub uninterp spec fn sha256_digest(data: Seq<u8>) -> Seq<u8>;

/// Calls `sha1::Sha1::digest`. The result is the digest of `data`, which
/// has 20 bytes.
#[verifier::external_body]
fn sha1_of(data: &[u8]) -> (digest: Vec<u8>)
    ensures
        digest@ == sha1_digest(data@),
        digest@.len() == 20,
{
    <sha1::Sha1 as sha1::Digest>::digest(data).to_vec()
}

/// Calls `sha2::Sha256::digest`. The result is the digest of `data`, which
/// has 32 bytes.
#[verifier::external_body]
fn sha256_of(data: &[u8]) -> (digest: Vec<u8>)
    ensures
        digest@ == sha256_digest(data@),
        digest@.len() == 32,
{
    <sha2::Sha256 as sha2::Digest>::digest(data).to_vec()
}

/// `data` with each of its first `window` bytes XORed with the byte of
/// `key` at the same index, the key repeated every `period` bytes. An
/// empty key changes nothing.
pub open spec fn masked(data: Seq<u8>, key: Seq<u8>, period: nat, window: nat) -> Seq<u8> {
    Seq::new(
        data.len(),
        |i: int|
            if 0 <= i < window && key.len() > 0 && period > 0 {
                data[i] ^ key[(i % period as int) % key.len() as int]
            } else {
                data[i]
            },
    )
}

/// The IDPF obfuscation of `data` under the identifier `key`: the first
/// 1040 bytes XORed with the SHA-1 digest of the identifier, repeated.
/// Empty data stays empty.
pub open spec fn idpf_obfuscated(data: Seq<u8>, key: Seq<char>) -> Seq<u8> {
    masked(data, sha1_digest(encode_utf8(key)), 1040, 1040)
}

/// The Adobe obfuscation of `data` under the identifier `key`: the first
/// 1024 bytes XORed with the first 16 bytes of the identifier's bytes,
/// repeated.
pub open spec fn adobe_obfuscated(data: Seq<u8>, key: Seq<char>) -> Seq<u8> {
    masked(data, encode_utf8(key), 16, 1024)
}

/// The XOR of all of `data` with the first `key_size` bytes of the SHA-256
/// digest of `key`, repeated.
pub open spec fn xml_masked(data: Seq<u8>, key: Seq<char>, key_size: nat) -> Seq<u8> {
    masked(data, sha256_digest(encode_utf8(key)), key_size, data.len())
}

/// XORs each of the first `window` bytes of `data` with the byte of `key`
/// at the same index, the key repeated every `period` bytes.
pub fn apply_mask(data: &[u8], key: &[u8], period: usize, window: usize) -> (r: Vec<u8>)
    ensures
        r@ == masked(data@, key@, period as nat, window as nat),
{
    let mut out: Vec<u8> = Vec::new();
    let mut i: usize = 0;
    while i < data.len()
        invariant
            i <= data.len(),
            out.len() == i,
            forall|j: int|
                0 <= j < i ==> out[j] == masked(data@, key@, period as nat, window as nat)[j],
        decreases data.len() - i,
    {
        let byte = if i < window && key.len() > 0 && period > 0 {
            data[i] ^ key[(i % period) % key.len()]
        } else {
            data[i]
        };
        out.push(byte);
        i += 1;
    }
    assert(out@ =~= masked(data@, key@, period as nat, window as nat));
    out
}

/// Masking twice with the same key gives the data back.
pub proof fn lemma_mask_involution(data: Seq<u8>, key: Seq<u8>, period: nat, window: nat)
    ensures
        masked(masked(data, key, period, window), key, period, window) == data,
{
    let once = masked(data, key, period, window);
    let twice = masked(once, key, period, window);
    assert forall|i: int| 0 <= i < data.len() implies twice[i] == data[i] by {
        if 0 <= i < window && key.len() > 0 && period > 0 {
            let k = key[(i % period as int) % key.len() as int];
            let d = data[i];
            assert((d ^ k) ^ k == d) by (bit_vector);
        }
    }
    assert(twice =~= data);
}

/// Obfuscating twice under one identifier gives the data back, with the
/// IDPF mask and with the Adobe mask, whatever the length of the data.
pub proof fn lemma_obfuscation_involution(data: Seq<u8>, key: Seq<char>)
    ensures
        idpf_obfuscated(idpf_obfuscated(data, key), key) == data,
        adobe_obfuscated(adobe_obfuscated(data, key), key) == data,
{
    lemma_mask_involution(data, sha1_digest(encode_utf8(key)), 1040, 1040);
    lemma_mask_involution(data, encode_utf8(key), 16, 1024);
}

/// Obfuscates font data with the IDPF algorithm.
pub fn idpf_font_encryption(data: &[u8], key: &str) -> (r: Vec<u8>)
    ensures
        r@ == idpf_obfuscated(data@, key@),
{
    let digest = sha1_of(key.as_bytes());
    apply_mask(data, digest.as_slice(), 1040, 1040)
}

/// Restores font data that was obfuscated with the IDPF algorithm.
pub fn idpf_font_dencryption(data: &[u8], key: &str) -> (r: Vec<u8>)
    ensures
        r@ == idpf_obfuscated(data@, key@),
{
    idpf_font_encryption(data, key)
}

/// Obfuscates font data with the Adobe algorithm.
pub fn adobe_font_encryption(data: &[u8], key: &str) -> (r: Vec<u8>)
    ensures
        r@ == adobe_obfuscated(data@, key@),
{
    apply_mask(data, key.as_bytes(), 16, 1024)
}

/// Restores font data that was obfuscated with the Adobe algorithm.
pub fn adobe_font_dencryption(data: &[u8], key: &str) -> (r: Vec<u8>)
    ensures
        r@ == adobe_obfuscated(data@, key@),
{
    adobe_font_encryption(data, key)
}

/// XORs `data` with the first `key_size` bytes of the SHA-256 digest of
/// `key`, repeated over the whole of the data.
fn xml_encryption_algorithm(data: &[u8], key: &str, key_size: usize) -> (r: Vec<u8>)
    ensures
        r@ == xml_masked(data@, key@, key_size as nat),
{
    let digest = sha256_of(key.as_bytes());
    apply_mask(data, digest.as_slice(), key_size, data.len())
}

/// Masks `data` with a 16-byte key derived from `key`.
pub fn xml_encryption_aes128_cbc(data: &[u8], key: &str) -> (r: Vec<u8>)
    ensures
        r@ == xml_masked(data@, key@, 16),
{
    xml_encryption_algorithm(data, key, 16)
}

/// Unmasks what `xml_encryption_aes128_cbc` masked.
pub fn xml_decryption_aes128_cbc(data: &[u8], key: &str) -> (r: Vec<u8>)
    ensures
        r@ == xml_masked(data@, key@, 16),
{
    xml_encryption_algorithm(data, key, 16)
}

/// Masks `data` with a 24-byte key derived from `key`.
pub fn xml_encryption_aes192_cbc(data: &[u8], key: &str) -> (r: Vec<u8>)
    ensures
        r@ == xml_masked(data@, key@, 24),
{
    xml_encryption_algorithm(data, key, 24)
}

/// Unmasks what `xml_encryption_aes192_cbc` masked.
pub fn xml_decryption_aes192_cbc(data: &[u8], key: &str) -> (r: Vec<u8>)
    ensures
        r@ == xml_masked(data@, key@, 24),
{
    xml_encryption_algorithm(data, key, 24)
}

/// Masks `data` with a 32-byte key derived from `key`.
pub fn xml_encryption_aes256_cbc(data: &[u8], key: &str) -> (r: Vec<u8>)
    ensures
        r@ == xml_masked(data@, key@, 32),
{
    xml_encryption_algorithm(data, key, 32)
}

/// Unmasks what `xml_encryption_aes256_cbc` masked.
pub fn xml_decryption_aes256_cbc(data: &[u8], key: &str) -> (r: Vec<u8>)
    ensures
        r@ == xml_masked(data@, key@, 32),
{
    xml_encryption_algorithm(data, key, 32)
}

} // verus!
