//! PKCS#7 padding, AES-ECB media encryption and media key parsing.
use vstd::prelude::*;

use aes::{Aes128, Aes256};
use base64::Engine;
use cipher::{BlockDecrypt, BlockEncrypt, KeyInit};
use generic_array::GenericArray;

use crate::text::{copy_range, decimal, decimal_string, push_str, starts_with, str_trim, string_from, trim};
use vstd::utf8::encode_utf8;

verus! {

// ---------------------------------------------------------------------------
// Outside functions: names for what they compute, and their wrappers.
// ---------------------------------------------------------------------------

/// AES-128 encryption of one 16-byte block under a 16-byte key.
pub uninterp spec fn aes128_enc(key: Seq<u8>, block: Seq<u8>) -> Seq<u8>;

/// AES-128 decryption of one 16-byte block under a 16-byte key.
pub uninterp spec fn aes128_dec(key: Seq<u8>, block: Seq<u8>) -> Seq<u8>;

/// AES-256 encryption of one 16-byte block under a 32-byte key.
pub uninterp spec fn aes256_enc(key: Seq<u8>, block: Seq<u8>) -> Seq<u8>;

/// AES-256 decryption of one 16-byte block under a 32-byte key.
pub uninterp spec fn aes256_dec(key: Seq<u8>, block: Seq<u8>) -> Seq<u8>;

/// The bytes that base64's `STANDARD` engine decodes `input` to, or `None` where it
/// refuses the input.
pub uninterp spec fn base64_std_decode(input: Seq<u8>) -> Option<Seq<u8>>;

/// The text that base64's `STANDARD` engine encodes `input` to.
pub uninterp spec fn base64_std_encode(input: Seq<u8>) -> Seq<char>;

/// Calls `Aes128::encrypt_block` (crates aes/cipher). The contract claims that the
/// result is the 16-byte AES-128 encryption of `block` under `key`, and that AES-128
/// decryption under the same key gives `block` back, as for any block cipher.
#[verifier::external_body]
fn aes128_encrypt_block(key: &[u8], block: &[u8]) -> (r: Vec<u8>)
    requires
        key@.len() == 16,
        block@.len() == 16,
    ensures
        r@ == aes128_enc(key@, block@),
        r@.len() == 16,
        aes128_dec(key@, r@) == block@,
{
    let cipher = Aes128::new(GenericArray::from_slice(key));
    let mut b = GenericArray::clone_from_slice(block);
    cipher.encrypt_block(&mut b);
    b.to_vec()
}

/// Calls `Aes128::decrypt_block` (crates aes/cipher). The contract claims that the
/// result is the 16-byte AES-128 decryption of `block` under `key`.
#[verifier::external_body]
fn aes128_decrypt_block(key: &[u8], block: &[u8]) -> (r: Vec<u8>)
    requires
        key@.len() == 16,
        block@.len() == 16,
    ensures
        r@ == aes128_dec(key@, block@),
        r@.len() == 16,
{
    let cipher = Aes128::new(GenericArray::from_slice(key));
    let mut b = GenericArray::clone_from_slice(block);
    cipher.decrypt_block(&mut b);
    b.to_vec()
}

/// Calls `Aes256::encrypt_block` (crates aes/cipher). The contract claims that the
/// result is the 16-byte AES-256 encryption of `block` under `key`, and that AES-256
/// decryption under the same key gives `block` back.
#[verifier::external_body]
fn aes256_encrypt_block(key: &[u8], block: &[u8]) -> (r: Vec<u8>)
    requires
        key@.len() == 32,
        block@.len() == 16,
    ensures
        r@ == aes256_enc(key@, block@),
        r@.len() == 16,
        aes256_dec(key@, r@) == block@,
{
    let cipher = Aes256::new(GenericArray::from_slice(key));
    let mut b = GenericArray::clone_from_slice(block);
    cipher.encrypt_block(&mut b);
    b.to_vec()
}

/// Calls `Aes256::decrypt_block` (crates aes/cipher). The contract claims that the
/// result is the 16-byte AES-256 decryption of `block` under `key`.
#[verifier::external_body]
fn aes256_decrypt_block(key: &[u8], block: &[u8]) -> (r: Vec<u8>)
    requires
        key@.len() == 32,
        block@.len() == 16,
    ensures
        r@ == aes256_dec(key@, block@),
        r@.len() == 16,
{
    let cipher = Aes256::new(GenericArray::from_slice(key));
    let mut b = GenericArray::clone_from_slice(block);
    cipher.decrypt_block(&mut b);
    b.to_vec()
}

/// Calls `base64::Engine::decode` with the `STANDARD` engine. The contract claims that
/// the call succeeds exactly when the named decoding exists, and then returns it; the
/// text of the error is the engine's own and is not described.
#[verifier::external_body]
fn base64_decode_standard(input: &[u8]) -> (r: Result<Vec<u8>, String>)
    ensures
        r is Ok <==> base64_std_decode(input@) is Some,
        r matches Ok(v) ==> v@ == base64_std_decode(input@)->0,
{
    base64::engine::general_purpose::STANDARD.decode(input).map_err(|e| e.to_string())
}

/// Calls `base64::Engine::encode` with the `STANDARD` engine; the result is the named
/// encoding of `input`.
#[verifier::external_body]
pub(crate) fn base64_encode_standard(input: &[u8]) -> (r: String)
    ensures
        r@ == base64_std_encode(input@),
{
    base64::engine::general_purpose::STANDARD.encode(input)
}

/// The value of an ASCII hex digit (either case).
pub open spec fn hex_val(c: u8) -> int {
    if 48 <= c <= 57 {
        c - 48
    } else if 65 <= c <= 70 {
        c - 55
    } else {
        c - 87
    }
}

/// Whether `c` is an ASCII hex digit (`0-9`, `a-f`, `A-F`).
pub open spec fn is_hex_digit(c: u8) -> bool {
    (48 <= c <= 57) || (65 <= c <= 70) || (97 <= c <= 102)
}

/// What `hex::decode` accepts: an even number of hex digits.
pub open spec fn hex_decodable(s: Seq<u8>) -> bool {
    s.len() % 2 == 0 && forall|i: int| 0 <= i < s.len() ==> is_hex_digit(#[trigger] s[i])
}

/// The bytes that a decodable hex text stands for, two digits per byte, high first.
pub open spec fn hex_decoded(s: Seq<u8>) -> Seq<u8> {
    Seq::new(s.len() / 2, |i: int| (hex_val(s[2 * i]) * 16 + hex_val(s[2 * i + 1])) as u8)
}

/// The lower-case hex digit for `d < 16`.
pub open spec fn hex_char(d: int) -> char {
    if d < 10 {
        ((48 + d) as u8) as char
    } else {
        ((87 + d) as u8) as char
    }
}

/// Lower-case hex text of `data`, two digits per byte, high first.
pub open spec fn hex_encoded(data: Seq<u8>) -> Seq<char> {
    Seq::new(
        2 * data.len(),
        |j: int|
            if j % 2 == 0 {
                hex_char((data[j / 2] / 16) as int)
            } else {
                hex_char((data[j / 2] % 16) as int)
            },
    )
}

/// Calls `hex::decode`. The contract states its whole behaviour: it succeeds exactly
/// on an even number of hex digits of either case, and gives one byte per pair.
#[verifier::external_body]
pub(crate) fn hex_decode(s: &[u8]) -> (r: Result<Vec<u8>, String>)
    ensures
        r is Ok <==> hex_decodable(s@),
        r matches Ok(v) ==> v@ == hex_decoded(s@),
{
    hex::decode(s).map_err(|e| e.to_string())
}

/// Calls `hex::encode`. The contract states its whole behaviour: lower-case hex, two
/// digits per byte.
#[verifier::external_body]
pub(crate) fn hex_encode(data: &[u8]) -> (r: String)
    ensures
        r@ == hex_encoded(data@),
{
    hex::encode(data)
}

// ---------------------------------------------------------------------------
// PKCS#7
// ---------------------------------------------------------------------------

/// The number of padding bytes PKCS#7 adds to `n` bytes for 16-byte blocks (1..=16).
pub open spec fn pkcs7_pad_len(n: nat) -> nat {
    (16 - n % 16) as nat
}

/// `data` followed by `p` copies of the byte `p`, where `p` is the padding length.
pub open spec fn pkcs7_padded(data: Seq<u8>) -> Seq<u8> {
    let p = pkcs7_pad_len(data.len());
    data + Seq::new(p, |i: int| p as u8)
}

/// What `pkcs7_unpad` gives for input of a valid length: the input without its
/// padding when the padding is well formed, else the input unchanged.
pub open spec fn pkcs7_stripped(data: Seq<u8>) -> Seq<u8> {
    let p = data.last() as int;
    if p == 0 || p > 16 || p > data.len() {
        data
    } else if forall|i: int| data.len() - p <= i < data.len() ==> #[trigger] data[i] == p as u8 {
        data.take(data.len() - p)
    } else {
        data
    }
}

/// Pads `data` with PKCS#7 to a multiple of 16 bytes.
pub fn pkcs7_pad(data: &[u8]) -> (r: Vec<u8>)
    ensures
        r@ == pkcs7_padded(data@),
{
    let block_size: usize = 16;
    let pad_len: usize = block_size - (data.len() % block_size);
    let mut padded = copy_range(data, 0, data.len());
    let mut i: usize = 0;
    while i < pad_len
        invariant
            pad_len == pkcs7_pad_len(data@.len()),
            i <= pad_len,
            padded@ == data@ + Seq::new(i as nat, |k: int| pad_len as u8),
        decreases pad_len - i,
    {
        padded.push(pad_len as u8);
        assert(padded@ =~= data@ + Seq::new((i + 1) as nat, |k: int| pad_len as u8));
        i = i + 1;
    }
    padded
}

/// Removes PKCS#7 padding; input of a length that is zero or not a multiple of 16 is
/// refused. Malformed padding leaves the input as it is.
pub fn pkcs7_unpad(data: &[u8]) -> (r: Result<Vec<u8>, String>)
    ensures
        match r {
            Ok(v) => data@.len() > 0 && data@.len() % 16 == 0 && v@ == pkcs7_stripped(data@),
            Err(e) => (data@.len() == 0 || data@.len() % 16 != 0) && e@
                == "invalid ciphertext length"@,
        },
{
    if data.len() == 0 || data.len() % 16 != 0 {
        proof {
            reveal_strlit("invalid ciphertext length");
        }
        return Err(string_from("invalid ciphertext length"));
    }
    let pad_len: usize = data[data.len() - 1] as usize;
    if pad_len == 0 || pad_len > 16 {
        return Ok(copy_range(data, 0, data.len()));
    }
    if pad_len > data.len() {
        return Ok(copy_range(data, 0, data.len()));
    }
    let start: usize = data.len() - pad_len;
    let mut i: usize = start;
    while i < data.len()
        invariant
            start <= i <= data.len(),
            start == data.len() - pad_len,
            pad_len == data@.last() as int,
            data@.len() > 0,
            data@.len() % 16 == 0,
            1 <= pad_len <= 16,
            pad_len <= data@.len(),
            forall|k: int| start <= k < i ==> data@[k] == pad_len as u8,
        decreases data.len() - i,
    {
        if data[i] != pad_len as u8 {
            assert(data@.last() as int == pad_len);
            assert(data@[i as int] != pad_len as u8);
            assert(!(forall|k: int|
                data@.len() - pad_len <= k < data@.len() ==> #[trigger] data@[k] == pad_len as u8));
            return Ok(copy_range(data, 0, data.len()));
        }
        i = i + 1;
    }
    Ok(copy_range(data, 0, start))
}

/// The size of `size` bytes once PKCS#7-padded to 16-byte blocks.
pub fn aes_padded_size(size: usize) -> (r: usize)
    requires
        size + (16 - size % 16) <= usize::MAX,
    ensures
        r == size + (16 - size % 16),
{
    size + (16 - (size % 16))
}

/// Law: removing PKCS#7 padding gives back exactly the data that was padded, and the
/// padded data always has a valid, non-zero length that `aes_padded_size` predicts.
pub proof fn lemma_pkcs7_round_trip(data: Seq<u8>)
    ensures
        pkcs7_padded(data).len() == data.len() + (16 - data.len() % 16),
        pkcs7_padded(data).len() > 0,
        pkcs7_padded(data).len() % 16 == 0,
        pkcs7_stripped(pkcs7_padded(data)) == data,
{
    let padded = pkcs7_padded(data);
    let p = pkcs7_pad_len(data.len());
    assert(padded.last() == p as u8);
    assert(padded.take(padded.len() - p) =~= data);
}

// ---------------------------------------------------------------------------
// AES-ECB
// ---------------------------------------------------------------------------

/// The `i`-th 16-byte block of `data`.
pub open spec fn block_of(data: Seq<u8>, i: int) -> Seq<u8> {
    data.subrange(16 * i, 16 * i + 16)
}

/// Whether `key` has a length AES accepts here (AES-128 or AES-256).
pub open spec fn valid_aes_key(key: Seq<u8>) -> bool {
    key.len() == 16 || key.len() == 32
}

/// Block encryption with AES-128 or AES-256, chosen by the key's length.
pub open spec fn enc_block(key: Seq<u8>, block: Seq<u8>) -> Seq<u8> {
    if key.len() == 16 {
        aes128_enc(key, block)
    } else {
        aes256_enc(key, block)
    }
}

/// Block decryption with AES-128 or AES-256, chosen by the key's length.
pub open spec fn dec_block(key: Seq<u8>, block: Seq<u8>) -> Seq<u8> {
    if key.len() == 16 {
        aes128_dec(key, block)
    } else {
        aes256_dec(key, block)
    }
}

/// ECB encryption of block-aligned `data`: each block encrypted on its own.
pub open spec fn ecb_encrypted(key: Seq<u8>, data: Seq<u8>) -> Seq<u8> {
    Seq::new(data.len(), |j: int| enc_block(key, block_of(data, j / 16))[j % 16])
}

/// ECB decryption of block-aligned `data`: each block decrypted on its own.
pub open spec fn ecb_decrypted(key: Seq<u8>, data: Seq<u8>) -> Seq<u8> {
    Seq::new(data.len(), |j: int| dec_block(key, block_of(data, j / 16))[j % 16])
}

/// The message of the error for a key of an unsupported length.
pub open spec fn key_length_error(len: nat) -> Seq<char> {
    "unsupported AES key length: "@ + decimal(len) + " (expected 16 or 32)"@
}

/// What `aes_ecb_decrypt` returns.
pub open spec fn aes_ecb_decrypt_result(key: Seq<u8>, data: Seq<u8>) -> Result<Seq<u8>, Seq<char>> {
    if !valid_aes_key(key) {
        Err(key_length_error(key.len()))
    } else if data.len() == 0 || data.len() % 16 != 0 {
        Err("invalid ciphertext length for AES decryption"@)
    } else {
        Ok(pkcs7_stripped(ecb_decrypted(key, data)))
    }
}

fn encrypt_block(key: &[u8], block: &[u8]) -> (r: Vec<u8>)
    requires
        valid_aes_key(key@),
        block@.len() == 16,
    ensures
        r@ == enc_block(key@, block@),
        r@.len() == 16,
        dec_block(key@, r@) == block@,
{
    if key.len() == 16 {
        aes128_encrypt_block(key, block)
    } else {
        aes256_encrypt_block(key, block)
    }
}

fn decrypt_block(key: &[u8], block: &[u8]) -> (r: Vec<u8>)
    requires
        valid_aes_key(key@),
        block@.len() == 16,
    ensures
        r@ == dec_block(key@, block@),
        r@.len() == 16,
{
    if key.len() == 16 {
        aes128_decrypt_block(key, block)
    } else {
        aes256_decrypt_block(key, block)
    }
}

fn extend_bytes(v: &mut Vec<u8>, w: &[u8])
    ensures
        final(v)@ == old(v)@ + w@,
{
    let mut i: usize = 0;
    while i < w.len()
        invariant
            i <= w.len(),
            v@ == old(v)@ + w@.take(i as int),
        decreases w.len() - i,
    {
        v.push(w[i]);
        assert(w@.take(i + 1) == w@.take(i as int).push(w@[i as int]));
        i = i + 1;
    }
    assert(w@.take(w.len() as int) == w@);
}

proof fn lemma_block_index(j: int)
    requires
        0 <= j,
    ensures
        j == 16 * (j / 16) + j % 16,
        0 <= j % 16 < 16,
{
}

/// Maps each 16-byte block of `data` through encryption (`encrypt`) or decryption.
fn ecb_blocks(key: &[u8], data: &[u8], encrypt: bool) -> (r: Vec<u8>)
    requires
        valid_aes_key(key@),
        data@.len() % 16 == 0,
    ensures
        encrypt ==> r@ == ecb_encrypted(key@, data@),
        encrypt ==> ecb_decrypted(key@, r@) == data@,
        !encrypt ==> r@ == ecb_decrypted(key@, data@),
{
    let total: usize = data.len();
    let nblocks: usize = total / 16;
    proof {
        lemma_block_index(data@.len() as int);
    }
    let mut result: Vec<u8> = Vec::new();
    let mut i: usize = 0;
    while i < nblocks
        invariant
            valid_aes_key(key@),
            nblocks == data@.len() / 16,
            16 * nblocks == data@.len(),
            total == data@.len(),
            data@.len() % 16 == 0,
            i <= nblocks,
            result@.len() == 16 * i,
            forall|k: int|
                0 <= k < i ==> #[trigger] block_of(result@, k) == (if encrypt {
                    enc_block(key@, block_of(data@, k))
                } else {
                    dec_block(key@, block_of(data@, k))
                }),
            encrypt ==> forall|k: int|
                0 <= k < i ==> dec_block(key@, #[trigger] block_of(result@, k)) == block_of(
                    data@,
                    k,
                ),
        decreases nblocks - i,
    {
        assert(16 * i + 16 <= total) by (nonlinear_arith)
            requires
                i < nblocks,
                16 * nblocks == total,
        ;
        let block = copy_range(data, 16 * i, 16 * i + 16);
        let out = if encrypt {
            encrypt_block(key, block.as_slice())
        } else {
            decrypt_block(key, block.as_slice())
        };
        let ghost before = result@;
        extend_bytes(&mut result, out.as_slice());
        assert forall|k: int| 0 <= k < i + 1 implies #[trigger] block_of(result@, k) == (if encrypt {
            enc_block(key@, block_of(data@, k))
        } else {
            dec_block(key@, block_of(data@, k))
        }) by {
            if k < i {
                assert(block_of(result@, k) =~= block_of(before, k));
            } else {
                assert(block_of(result@, k) =~= out@);
            }
        }
        if encrypt {
            assert forall|k: int| 0 <= k < i + 1 implies dec_block(
                key@,
                #[trigger] block_of(result@, k),
            ) == block_of(data@, k) by {
                if k < i {
                    assert(block_of(result@, k) =~= block_of(before, k));
                } else {
                    assert(block_of(result@, k) =~= out@);
                }
            }
        }
        i = i + 1;
    }
    assert forall|j: int| 0 <= j < data@.len() implies result@[j] == (if encrypt {
        enc_block(key@, block_of(data@, j / 16))[j % 16]
    } else {
        dec_block(key@, block_of(data@, j / 16))[j % 16]
    }) by {
        lemma_block_index(j);
        assert(block_of(result@, j / 16)[j % 16] == result@[j]);
    }
    if encrypt {
        assert(result@ =~= ecb_encrypted(key@, data@));
        assert forall|j: int| 0 <= j < result@.len() implies #[trigger] ecb_decrypted(
            key@,
            result@,
        )[j] == data@[j] by {
            lemma_block_index(j);
            assert(dec_block(key@, block_of(result@, j / 16)) == block_of(data@, j / 16));
            assert(block_of(data@, j / 16)[j % 16] == data@[j]);
        }
        assert(ecb_decrypted(key@, result@) =~= data@);
    } else {
        assert(result@ =~= ecb_decrypted(key@, data@));
    }
    result
}

fn aes_ecb_encrypt_impl(key: &[u8], data: &[u8]) -> (r: Vec<u8>)
    requires
        valid_aes_key(key@),
    ensures
        r@ == ecb_encrypted(key@, pkcs7_padded(data@)),
        ecb_decrypted(key@, r@) == pkcs7_padded(data@),
{
    proof {
        lemma_pkcs7_round_trip(data@);
    }
    let padded = pkcs7_pad(data);
    ecb_blocks(key, padded.as_slice(), true)
}

fn aes_ecb_decrypt_impl(key: &[u8], data: &[u8]) -> (r: Result<Vec<u8>, String>)
    requires
        valid_aes_key(key@),
    ensures
        r matches Ok(v) ==> aes_ecb_decrypt_result(key@, data@) == Ok::<Seq<u8>, Seq<char>>(v@),
        r matches Err(e) ==> aes_ecb_decrypt_result(key@, data@) == Err::<Seq<u8>, Seq<char>>(e@),
{
    if data.len() == 0 || data.len() % 16 != 0 {
        proof {
            reveal_strlit("invalid ciphertext length for AES decryption");
        }
        return Err(string_from("invalid ciphertext length for AES decryption"));
    }
    let result = ecb_blocks(key, data, false);
    pkcs7_unpad(result.as_slice())
}

fn key_length_message(len: usize) -> (r: String)
    ensures
        r@ == key_length_error(len as nat),
{
    let mut m = string_from("unsupported AES key length: ");
    let d = decimal_string(len as u64);
    push_str(&mut m, d.as_str());
    push_str(&mut m, " (expected 16 or 32)");
    m
}

/// Encrypts `data` with AES-ECB (PKCS#7 padding) under a 16- or 32-byte key. The
/// result always decrypts back to `data` under the same key.
pub fn aes_ecb_encrypt(key: &[u8], data: &[u8]) -> (r: Result<Vec<u8>, String>)
    ensures
        match r {
            Ok(v) => valid_aes_key(key@) && v@ == ecb_encrypted(key@, pkcs7_padded(data@))
                && aes_ecb_decrypt_result(key@, v@) == Ok::<Seq<u8>, Seq<char>>(data@),
            Err(e) => !valid_aes_key(key@) && e@ == key_length_error(key@.len()),
        },
{
    if key.len() == 16 || key.len() == 32 {
        let v = aes_ecb_encrypt_impl(key, data);
        proof {
            lemma_pkcs7_round_trip(data@);
        }
        Ok(v)
    } else {
        Err(key_length_message(key.len()))
    }
}

/// Decrypts AES-ECB `data` under a 16- or 32-byte key and removes PKCS#7 padding.
pub fn aes_ecb_decrypt(key: &[u8], data: &[u8]) -> (r: Result<Vec<u8>, String>)
    ensures
        match r {
            Ok(v) => aes_ecb_decrypt_result(key@, data@) == Ok::<Seq<u8>, Seq<char>>(v@),
            Err(e) => aes_ecb_decrypt_result(key@, data@) == Err::<Seq<u8>, Seq<char>>(e@),
        },
{
    if key.len() == 16 || key.len() == 32 {
        aes_ecb_decrypt_impl(key, data)
    } else {
        Err(key_length_message(key.len()))
    }
}

// ---------------------------------------------------------------------------
// Media keys
// ---------------------------------------------------------------------------

/// The bytes handed to the base64 decoder for a media key: the trimmed text, padded
/// with `=` to a multiple of four bytes.
pub open spec fn media_key_base64_input(value: Seq<char>) -> Seq<u8> {
    let b = encode_utf8(trim(value));
    b + Seq::new(((4 - b.len() % 4) % 4) as nat, |i: int| 61u8)
}

/// Whether every byte of `d` is an ASCII hex digit.
pub open spec fn all_hex_digits(d: Seq<u8>) -> bool {
    forall|i: int| 0 <= i < d.len() ==> is_hex_digit(#[trigger] d[i])
}

/// The AES key that decoded media-key bytes stand for: raw 16- or 32-byte keys as
/// they are, 64 hex digits as the 32 bytes they spell; `None` for anything else.
pub open spec fn media_key_from_decoded(d: Seq<u8>) -> Option<Seq<u8>> {
    if d.len() == 16 || d.len() == 32 {
        Some(d)
    } else if d.len() == 64 && all_hex_digits(d) {
        Some(hex_decoded(d))
    } else {
        None
    }
}

/// The AES key a media-key value stands for, when `parse_media_aes_key` accepts it.
pub open spec fn media_aes_key(value: Seq<char>) -> Option<Seq<u8>> {
    if trim(value).len() == 0 {
        None
    } else {
        match base64_std_decode(media_key_base64_input(value)) {
            Some(d) => media_key_from_decoded(d),
            None => None,
        }
    }
}

/// The message for decoded key material of an unsupported length.
pub open spec fn media_key_format_error(len: nat) -> Seq<char> {
    "unsupported media aes key format: len="@ + decimal(len)
}

fn all_hex(d: &Vec<u8>) -> (r: bool)
    ensures
        r == all_hex_digits(d@),
{
    let mut i: usize = 0;
    while i < d.len()
        invariant
            i <= d.len(),
            forall|k: int| 0 <= k < i ==> is_hex_digit(#[trigger] d@[k]),
        decreases d.len() - i,
    {
        let c = d[i];
        if !((48 <= c && c <= 57) || (65 <= c && c <= 70) || (97 <= c && c <= 102)) {
            return false;
        }
        i = i + 1;
    }
    true
}

/// Parses the `aes_key` value of a media item: base64 text (padding optional) of
/// either a raw 16/32-byte AES key or of 64 hex digits spelling a 32-byte key.
pub fn parse_media_aes_key(aes_key_value: &str) -> (r: Result<Vec<u8>, String>)
    ensures
        trim(aes_key_value@).len() == 0 ==> (r matches Err(e) && e@ == "empty media aes key"@),
        trim(aes_key_value@).len() > 0 ==> match base64_std_decode(
            media_key_base64_input(aes_key_value@),
        ) {
            None => (r matches Err(e) && starts_with(e@, "base64 decode failed: "@)),
            Some(d) => match media_key_from_decoded(d) {
                Some(k) => (r matches Ok(v) && v@ == k),
                None => (r matches Err(e) && e@ == media_key_format_error(d.len())),
            },
        },
        r matches Ok(v) ==> media_aes_key(aes_key_value@) == Some(v@),
        r is Err ==> media_aes_key(aes_key_value@) is None,
{
    let normalized = str_trim(aes_key_value);
    if normalized.as_str().is_empty() {
        proof {
            reveal_strlit("empty media aes key");
        }
        return Err(string_from("empty media aes key"));
    }
    let bytes = normalized.as_str().as_bytes();
    let padding_len: usize = (4 - bytes.len() % 4) % 4;
    let mut padded = copy_range(bytes, 0, bytes.len());
    let mut i: usize = 0;
    while i < padding_len
        invariant
            i <= padding_len,
            padded@ == bytes@ + Seq::new(i as nat, |k: int| 61u8),
        decreases padding_len - i,
    {
        padded.push(61u8);
        assert(padded@ =~= bytes@ + Seq::new((i + 1) as nat, |k: int| 61u8));
        i = i + 1;
    }
    assert(padded@ == media_key_base64_input(aes_key_value@));
    let decoded = match base64_decode_standard(padded.as_slice()) {
        Ok(d) => d,
        Err(e) => {
            let mut m = string_from("base64 decode failed: ");
            proof {
                reveal_strlit("base64 decode failed: ");
            }
            let ghost prefix = m@;
            push_str(&mut m, e.as_str());
            assert(m@.take(prefix.len() as int) =~= prefix);
            return Err(m);
        },
    };
    if decoded.len() == 16 || decoded.len() == 32 {
        return Ok(decoded);
    }
    if decoded.len() == 64 && all_hex(&decoded) {
        match hex_decode(decoded.as_slice()) {
            Ok(k) => {
                return Ok(k);
            },
            Err(_) => {},
        }
    }
    let mut m = string_from("unsupported media aes key format: len=");
    let d = decimal_string(decoded.len() as u64);
    push_str(&mut m, d.as_str());
    Err(m)
}

} // verus!
