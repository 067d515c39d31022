//! Job field encryption: a SHA-256 counter-mode keystream, keyed by the
//! worker key, a random 16-byte IV and the job id, XORed over the data; the
//! IV travels in front of the ciphertext and the whole is base64-encoded.
use vstd::prelude::*;
use vstd::utf8::encode_utf8;
use crate::primitives::{
    base64_decode, base64_encode, base64_standard_decode, base64_standard_encode,
    is_base64_standard_char, random_iv, sha256, sha256_digest,
};
use crate::text::{is_white_space, trim, trim_end_spec, trim_spec, trim_start_spec};

verus! {

/// Why a job field could not be decrypted.
#[derive(Clone, Copy, Debug, PartialEq, Eq, Structural)]
pub enum CryptoError {
    /// The field is not valid standard base64.
    InvalidBase64,
}

/// Length of the IV in front of every ciphertext.
pub const IV_LEN: usize = 16;

/// Length of one keystream block (one SHA-256 digest).
pub const BLOCK_LEN: usize = 32;

/// `n` as four big-endian bytes.
pub open spec fn be32(n: u32) -> Seq<u8> {
    seq![(n >> 24u32) as u8, (n >> 16u32) as u8, (n >> 8u32) as u8, n as u8]
}

/// The keystream seed: SHA-256 over the worker key, the IV and the job id.
pub open spec fn keystream_seed(key: Seq<u8>, iv: Seq<u8>, job_id: Seq<u8>) -> Seq<u8> {
    sha256_digest(key + iv + job_id)
}

/// Keystream block `index`: SHA-256 over the seed and the block index as a
/// big-endian 32-bit number.
pub open spec fn keystream_block(seed: Seq<u8>, index: int) -> Seq<u8> {
    sha256_digest(seed + be32(index as u32))
}

/// `data` XORed with the keystream of `seed`: byte `j` with byte `j % 32` of
/// block `j / 32`.
pub open spec fn keystream_xor(seed: Seq<u8>, data: Seq<u8>) -> Seq<u8> {
    Seq::new(data.len(), |j: int| data[j] ^ keystream_block(seed, j / 32)[j % 32])
}

/// The bytes that are base64-encoded for a plaintext: the IV, then the
/// plaintext XORed with the keystream.
pub open spec fn sealed_bytes(plaintext: Seq<u8>, job_id: Seq<u8>, key: Seq<u8>, iv: Seq<u8>) -> Seq<u8> {
    iv + keystream_xor(keystream_seed(key, iv, job_id), plaintext)
}

/// What the decoded bytes of a job field decrypt to.
pub open spec fn open_sealed_spec(raw: Seq<u8>, job_id: Seq<u8>, worker_key: Seq<u8>) -> Seq<u8> {
    if raw.len() < 16 {
        Seq::empty()
    } else {
        keystream_xor(keystream_seed(worker_key, raw.take(16), job_id), raw.skip(16))
    }
}

/// What decrypting an optional job field gives: nothing for an absent or
/// blank field, an error for text that is not base64, nothing for fewer than
/// sixteen decoded bytes, and otherwise the bytes after the IV XORed with the
/// keystream.
pub open spec fn decrypt_spec(text: Option<Seq<char>>, job_id: Seq<char>, worker_key: Seq<char>) -> Result<Seq<u8>, CryptoError> {
    match text {
        None => Ok(Seq::empty()),
        Some(t) => {
            let v = trim_spec(t);
            if v.len() == 0 {
                Ok(Seq::empty())
            } else {
                match base64_standard_decode(encode_utf8(v)) {
                    None => Err(CryptoError::InvalidBase64),
                    Some(raw) => Ok(open_sealed_spec(raw, encode_utf8(job_id), encode_utf8(worker_key))),
                }
            }
        },
    }
}

/// The view of an optional string slice.
pub open spec fn opt_str_view(opt: Option<&str>) -> Option<Seq<char>> {
    match opt {
        Some(s) => Some(s@),
        None => None,
    }
}

proof fn lemma_xor_twice(a: u8, k: u8)
    ensures
        (a ^ k) ^ k == a,
{
    assert((a ^ k) ^ k == a) by (bit_vector);
}

/// Applying the keystream twice gives the data back.
pub proof fn lemma_keystream_involution(seed: Seq<u8>, data: Seq<u8>)
    ensures
        keystream_xor(seed, keystream_xor(seed, data)) == data,
{
    let once = keystream_xor(seed, data);
    let twice = keystream_xor(seed, once);
    assert forall|j: int| 0 <= j < data.len() implies twice[j] == data[j] by {
        lemma_xor_twice(data[j], keystream_block(seed, j / 32)[j % 32]);
    }
    assert(twice =~= data);
}

/// The keystream keeps the length of the data.
pub proof fn lemma_keystream_len(seed: Seq<u8>, data: Seq<u8>)
    ensures
        keystream_xor(seed, data).len() == data.len(),
{
}

/// The four bytes of a block index are its big-endian digits in base 256:
/// most significant first, so that they add back up to the index.
pub proof fn lemma_be32_digits(n: u32)
    ensures
        be32(n).len() == 4,
        be32(n)[0] as int * 0x100_0000 + be32(n)[1] as int * 0x1_0000 + be32(n)[2] as int * 0x100
            + be32(n)[3] as int == n as int,
{
    assert(((n >> 24u32) as u8) as u32 * 0x100_0000u32 + ((n >> 16u32) as u8) as u32 * 0x1_0000u32
        + ((n >> 8u32) as u8) as u32 * 0x100u32 + (n as u8) as u32 == n) by (bit_vector);
}

/// Keystream block `i` is SHA-256 of the seed followed by `i` written as four
/// big-endian bytes, for every index a 32-bit counter holds: the bytes
/// `b0 b1 b2 b3` with `i == b0 * 2^24 + b1 * 2^16 + b2 * 2^8 + b3`.
pub proof fn lemma_keystream_block_index(seed: Seq<u8>, i: int, b0: u8, b1: u8, b2: u8, b3: u8)
    requires
        0 <= i < 0x1_0000_0000,
        i == b0 as int * 0x100_0000 + b1 as int * 0x1_0000 + b2 as int * 0x100 + b3 as int,
    ensures
        keystream_block(seed, i) == sha256_digest(seed + seq![b0, b1, b2, b3]),
{
    let n = i as u32;
    assert(n == b0 as u32 * 0x100_0000u32 + b1 as u32 * 0x1_0000u32 + b2 as u32 * 0x100u32 + b3 as u32);
    assert((n >> 24u32) as u8 == b0 && (n >> 16u32) as u8 == b1 && (n >> 8u32) as u8 == b2 && n as u8
        == b3) by (bit_vector)
        requires
            n == b0 as u32 * 0x100_0000u32 + b1 as u32 * 0x1_0000u32 + b2 as u32 * 0x100u32 + b3 as u32,
    ;
    assert(be32(n) =~= seq![b0, b1, b2, b3]);
}

/// The seed hashes the worker key, then the IV, then the job id: any byte
/// string laid out that way hashes to the seed.
pub proof fn lemma_seed_layout(key: Seq<u8>, iv: Seq<u8>, job_id: Seq<u8>, input: Seq<u8>)
    requires
        input.len() == key.len() + iv.len() + job_id.len(),
        input.subrange(0, key.len() as int) == key,
        input.subrange(key.len() as int, (key.len() + iv.len()) as int) == iv,
        input.subrange((key.len() + iv.len()) as int, input.len() as int) == job_id,
    ensures
        keystream_seed(key, iv, job_id) == sha256_digest(input),
{
    assert forall|j: int| 0 <= j < input.len() implies input[j] == (key + iv + job_id)[j] by {
        if j < key.len() {
            assert(input[j] == input.subrange(0, key.len() as int)[j]);
        } else if j < (key.len() + iv.len()) as int {
            assert(input[j] == input.subrange(key.len() as int, (key.len() + iv.len()) as int)[j - key.len()]);
        } else {
            assert(input[j] == input.subrange((key.len() + iv.len()) as int, input.len() as int)[j - key.len()
                - iv.len()]);
        }
    }
    assert(input =~= key + iv + job_id);
}

/// The data is handled in chunks of 32 bytes: chunk `i` of the output
/// (bytes `32 i` up to `32 i + 32`, or to the end) is chunk `i` of the data
/// XORed byte by byte with the leading bytes of keystream block `i`.
pub proof fn lemma_keystream_chunk(seed: Seq<u8>, data: Seq<u8>, i: int)
    requires
        0 <= i,
        32 * i < data.len(),
    ensures
        ({
            let end = if 32 * i + 32 <= data.len() {
                32 * i + 32
            } else {
                data.len() as int
            };
            let chunk = data.subrange(32 * i, end);
            keystream_xor(seed, data).subrange(32 * i, end) == Seq::new(
                chunk.len(),
                |k: int| chunk[k] ^ keystream_block(seed, i)[k],
            )
        }),
{
    let end = if 32 * i + 32 <= data.len() {
        32 * i + 32
    } else {
        data.len() as int
    };
    let chunk = data.subrange(32 * i, end);
    let out = keystream_xor(seed, data).subrange(32 * i, end);
    let want = Seq::new(chunk.len(), |k: int| chunk[k] ^ keystream_block(seed, i)[k]);
    assert forall|k: int| 0 <= k < chunk.len() implies out[k] == want[k] by {
        let j = 32 * i + k;
        assert(j / 32 == i && j % 32 == k) by (nonlinear_arith)
            requires
                j == 32 * i + k,
                0 <= k < 32,
                0 <= i,
        ;
    }
    assert(out =~= want);
}

/// Appends the bytes of `s` to `v`.
fn extend_bytes(v: &mut Vec<u8>, s: &[u8])
    ensures
        final(v)@ == old(v)@ + s@,
{
    let n = s.len();
    let mut i: usize = 0;
    while i < n
        invariant
            i <= n,
            n == s@.len(),
            v@ == old(v)@ + s@.take(i as int),
        decreases n - i,
    {
        v.push(s[i]);
        i = i + 1;
        assert(v@ =~= old(v)@ + s@.take(i as int));
    }
    assert(s@.take(n as int) =~= s@);
}

/// The keystream seed for a key, an IV and a job id.
fn seed_of(key: &[u8], iv: &[u8], job_id: &[u8]) -> (seed: Vec<u8>)
    ensures
        seed@ == keystream_seed(key@, iv@, job_id@),
        seed@.len() == 32,
{
    let mut input: Vec<u8> = Vec::new();
    extend_bytes(&mut input, key);
    extend_bytes(&mut input, iv);
    extend_bytes(&mut input, job_id);
    assert(input@ =~= key@ + iv@ + job_id@);
    sha256(input.as_slice())
}

/// Keystream block `index` of `seed`.
fn block_of(seed: &Vec<u8>, index: usize) -> (block: Vec<u8>)
    ensures
        block@ == keystream_block(seed@, index as int),
        block@.len() == 32,
{
    let mut input: Vec<u8> = Vec::new();
    extend_bytes(&mut input, seed.as_slice());
    let c = index as u32;
    input.push((c >> 24u32) as u8);
    input.push((c >> 16u32) as u8);
    input.push((c >> 8u32) as u8);
    input.push(c as u8);
    assert(input@ =~= seed@ + be32(index as u32));
    sha256(input.as_slice())
}

/// `data` XORed with the keystream of `seed`.
pub fn apply_keystream(seed: &Vec<u8>, data: &[u8]) -> (out: Vec<u8>)
    ensures
        out@ == keystream_xor(seed@, data@),
{
    let n = data.len();
    let mut out: Vec<u8> = Vec::with_capacity(n);
    let mut block: Vec<u8> = Vec::new();
    let mut j: usize = 0;
    while j < n
        invariant
            j <= n,
            n == data@.len(),
            out@.len() == j,
            forall|k: int|
                0 <= k < j ==> #[trigger] out@[k] == data@[k] ^ keystream_block(seed@, k / 32)[k
                    % 32],
            j % 32 != 0 ==> block@ == keystream_block(seed@, (j / 32) as int) && block@.len() == 32,
        decreases n - j,
    {
        if j % BLOCK_LEN == 0 {
            block = block_of(seed, j / BLOCK_LEN);
        }
        out.push(data[j] ^ block[j % BLOCK_LEN]);
        j = j + 1;
    }
    assert(out@ =~= keystream_xor(seed@, data@));
    out
}

/// Decrypts the decoded bytes of a job field: fewer than sixteen bytes give
/// nothing; otherwise the first sixteen are the IV and the rest is XORed
/// with the keystream.
pub fn open_sealed(raw: &[u8], job_id: &[u8], worker_key: &[u8]) -> (r: Vec<u8>)
    ensures
        r@ == open_sealed_spec(raw@, job_id@, worker_key@),
{
    if raw.len() < IV_LEN {
        return Vec::new();
    }
    let (iv, encrypted) = raw.split_at(IV_LEN);
    let seed = seed_of(worker_key, iv, job_id);
    apply_keystream(&seed, encrypted)
}

/// Decrypts an optional job field with the worker key and the job id.
///
/// An absent field, or one that is empty after trimming white space, gives
/// no bytes; text that is not standard base64 is an error; fewer than sixteen
/// decoded bytes give no bytes; otherwise the first sixteen decoded bytes are
/// the IV and the rest is XORed with the keystream.
pub fn decrypt(opt: Option<&str>, job_id: &str, worker_key: &str) -> (r: Result<Vec<u8>, CryptoError>)
    ensures
        match r {
            Ok(v) => decrypt_spec(opt_str_view(opt), job_id@, worker_key@) == Ok::<Seq<u8>, CryptoError>(v@),
            Err(e) => decrypt_spec(opt_str_view(opt), job_id@, worker_key@) == Err::<Seq<u8>, CryptoError>(e),
        },
{
    let text = match opt {
        None => {
            return Ok(Vec::new());
        },
        Some(t) => t,
    };
    let value = trim(text);
    if value.is_empty() {
        return Ok(Vec::new());
    }
    let raw = match base64_decode(value.as_bytes()) {
        Ok(raw) => raw,
        Err(_) => {
            return Err(CryptoError::InvalidBase64);
        },
    };
    Ok(open_sealed(raw.as_slice(), job_id.as_bytes(), worker_key.as_bytes()))
}

/// A non-empty sequence that neither starts nor ends with white space is its
/// own trim.
proof fn lemma_trim_unchanged(s: Seq<char>)
    requires
        s.len() > 0,
        !is_white_space(s[0]),
        !is_white_space(s.last()),
    ensures
        trim_spec(s) == s,
{
    assert(trim_start_spec(s) == s);
    assert(trim_end_spec(s) == s);
}

/// The bytes that are base64-encoded for a plaintext: the IV, then the
/// plaintext XORed with the keystream.
pub fn seal(plaintext: &[u8], job_id: &[u8], worker_key: &[u8], iv: [u8; 16]) -> (r: Vec<u8>)
    ensures
        r@ == sealed_bytes(plaintext@, job_id@, worker_key@, iv@),
{
    let seed = seed_of(worker_key, iv.as_slice(), job_id);
    let encrypted = apply_keystream(&seed, plaintext);
    let mut raw: Vec<u8> = Vec::new();
    extend_bytes(&mut raw, iv.as_slice());
    extend_bytes(&mut raw, encrypted.as_slice());
    raw
}

/// Encrypts `plaintext` for the job with the given 16-byte IV: the IV
/// followed by the plaintext XORed with the keystream, base64-encoded.
/// Decrypting the result with the same job id and worker key gives the
/// plaintext back.
pub fn encrypt_with_iv(plaintext: &str, job_id: &str, worker_key: &str, iv: [u8; 16]) -> (r: String)
    ensures
        r@ == base64_standard_encode(
            sealed_bytes(encode_utf8(plaintext@), encode_utf8(job_id@), encode_utf8(worker_key@), iv@),
        ),
        base64_standard_decode(encode_utf8(r@)) == Some(
            sealed_bytes(encode_utf8(plaintext@), encode_utf8(job_id@), encode_utf8(worker_key@), iv@),
        ),
        decrypt_spec(Some(r@), job_id@, worker_key@) == Ok::<Seq<u8>, CryptoError>(encode_utf8(plaintext@)),
{
    let raw = seal(plaintext.as_bytes(), job_id.as_bytes(), worker_key.as_bytes(), iv);
    let r = base64_encode(raw.as_slice());
    proof {
        let pt = encode_utf8(plaintext@);
        let s = keystream_seed(encode_utf8(worker_key@), iv@, encode_utf8(job_id@));
        let encrypted = keystream_xor(s, pt);
        assert(r@.len() >= 24);
        let c0 = r@[0];
        let cl = r@[r@.len() - 1];
        assert(is_base64_standard_char(c0));
        assert(is_base64_standard_char(cl));
        lemma_trim_unchanged(r@);
        assert(raw@.take(16) =~= iv@);
        assert(raw@.skip(16) =~= encrypted);
        lemma_keystream_involution(s, pt);
    }
    r
}

/// Encrypts `plaintext` for the job under a fresh random IV. The result
/// always exists, is the encryption of the plaintext under some 16-byte IV,
/// and decrypts back to the plaintext.
pub fn encrypt(plaintext: &str, job_id: &str, worker_key: &str) -> (r: Result<String, CryptoError>)
    ensures
        r is Ok,
        r matches Ok(s) ==> exists|iv: Seq<u8>|
            iv.len() == 16 && s@ == base64_standard_encode(
                #[trigger] sealed_bytes(encode_utf8(plaintext@), encode_utf8(job_id@), encode_utf8(worker_key@), iv),
            ) && base64_standard_decode(encode_utf8(s@)) == Some(
                sealed_bytes(encode_utf8(plaintext@), encode_utf8(job_id@), encode_utf8(worker_key@), iv),
            ),
        r matches Ok(s) ==> decrypt_spec(Some(s@), job_id@, worker_key@) == Ok::<Seq<u8>, CryptoError>(encode_utf8(plaintext@)),
{
    let iv = random_iv();
    let s = encrypt_with_iv(plaintext, job_id, worker_key, iv);
    Ok(s)
}

} // verus!
