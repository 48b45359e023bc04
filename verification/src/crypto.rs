//! Stream-cipher layer and the magic-tagged compressed container codec.
//!
//! Two fixed keys drive the cipher: a 19-byte key for the outer container
//! ("resource") pass and a 14-byte key for the per-entry ("ulib") pass.
//! Applying a cipher context twice restores the data, because the cipher is a
//! keystream XOR and a fresh keystream is generated on every call.
//!
//! The container codec wraps a zlib stream in a fixed 8-byte header:
//! `MAGIC (4 bytes, little endian) || UNCOMPRESSED_SIZE (4 bytes, little
//! endian) || zlib bytes`.

use vstd::prelude::*;
use vstd::bytes::*;
use vstd::slice::slice_subrange;
use crate::errors::FormatError;
use flate2::Compression;
use flate2::bufread::{ZlibDecoder, ZlibEncoder};
use rc4::{KeyInit, StreamCipher};
use std::io::Read;

verus! {

/// The 19-byte key of the container ("resource") cipher context.
pub open spec fn res_key() -> Seq<u8> {
    seq![
        0x5Fu8, 0x4Eu8, 0x70u8, 0x69u8, 0x5Fu8, 0x64u8, 0x65u8, 0x73u8, 0x74u8, 0x5Fu8,
        0x5Fu8, 0x63u8, 0x63u8, 0x5Fu8, 0x26u8, 0x25u8, 0x5Fu8, 0x32u8, 0x33u8,
    ]
}

/// The 14-byte key of the per-entry ("ulib") cipher context.
pub open spec fn ulib_key() -> Seq<u8> {
    seq![
        0x26u8, 0x21u8, 0x21u8, 0x5Fu8, 0x5Fu8, 0x6Bu8, 0x6Cu8, 0x5Fu8, 0xB2u8, 0xE2u8,
        0x5Fu8, 0x49u8, 0x5Fu8, 0x30u8,
    ]
}

/// The RC4 keystream byte at position `i` for the given key, with a fresh
/// key schedule (as every cipher call here makes one).
pub uninterp spec fn rc4_keystream(key: Seq<u8>, i: int) -> u8;

/// One cipher pass: every byte XORed with the keystream of `key`.
pub open spec fn rc4_apply_spec(key: Seq<u8>, data: Seq<u8>) -> Seq<u8> {
    Seq::new(data.len(), |i: int| data[i] ^ rc4_keystream(key, i))
}

/// The container-context cipher pass.
pub open spec fn res_cipher_spec(data: Seq<u8>) -> Seq<u8> {
    rc4_apply_spec(res_key(), data)
}

/// The entry-context cipher pass.
pub open spec fn ulib_cipher_spec(data: Seq<u8>) -> Seq<u8> {
    rc4_apply_spec(ulib_key(), data)
}

/// Relies on rc4::Rc4 (RustCrypto) with the 19-byte container key:
/// `apply_keystream` XORs the RC4 keystream into the buffer, and a fresh
/// `Rc4::new` starts the keystream at position zero.
#[verifier::external_body]
fn rc4_apply_res(data: &mut Vec<u8>)
    ensures
        final(data)@.len() == old(data)@.len(),
        forall|i: int|
            0 <= i < old(data)@.len() ==> final(data)@[i] == (old(data)@[i] ^ rc4_keystream(
                res_key(),
                i,
            )),
{
    let key: [u8; 19] = [
        0x5F, 0x4E, 0x70, 0x69, 0x5F, 0x64, 0x65, 0x73, 0x74, 0x5F,
        0x5F, 0x63, 0x63, 0x5F, 0x26, 0x25, 0x5F, 0x32, 0x33,
    ];
    let mut rc4 = rc4::Rc4::<rc4::consts::U19>::new(rc4::Key::<rc4::consts::U19>::from_slice(&key));
    rc4.apply_keystream(data.as_mut_slice());
}

/// Relies on rc4::Rc4 (RustCrypto) with the 14-byte entry key:
/// `apply_keystream` XORs the RC4 keystream into the buffer, and a fresh
/// `Rc4::new` starts the keystream at position zero.
#[verifier::external_body]
fn rc4_apply_ulib(data: &mut Vec<u8>)
    ensures
        final(data)@.len() == old(data)@.len(),
        forall|i: int|
            0 <= i < old(data)@.len() ==> final(data)@[i] == (old(data)@[i] ^ rc4_keystream(
                ulib_key(),
                i,
            )),
{
    let key: [u8; 14] = [
        0x26, 0x21, 0x21, 0x5F, 0x5F, 0x6B, 0x6C, 0x5F, 0xB2, 0xE2,
        0x5F, 0x49, 0x5F, 0x30,
    ];
    let mut rc4 = rc4::Rc4::<rc4::consts::U14>::new(rc4::Key::<rc4::consts::U14>::from_slice(&key));
    rc4.apply_keystream(data.as_mut_slice());
}

/// Encrypt a final artifact in place (container context).
pub fn encrypt_res(plain: &mut Vec<u8>)
    ensures
        final(plain)@ == res_cipher_spec(old(plain)@),
{
    rc4_apply_res(plain);
    proof {
        assert(plain@ =~= res_cipher_spec(old(plain)@));
    }
}

/// Decrypt a final artifact in place: the same keystream XOR as
/// [`encrypt_res`].
pub fn decrypt_res(cipher: &mut Vec<u8>)
    ensures
        final(cipher)@ == res_cipher_spec(old(cipher)@),
{
    encrypt_res(cipher)
}

/// Encrypt a bundle entry in place (entry context).
pub fn encrypt_ulib(plain: &mut Vec<u8>)
    ensures
        final(plain)@ == ulib_cipher_spec(old(plain)@),
{
    rc4_apply_ulib(plain);
    proof {
        assert(plain@ =~= ulib_cipher_spec(old(plain)@));
    }
}

/// Decrypt a bundle entry in place: the same keystream XOR as
/// [`encrypt_ulib`].
pub fn decrypt_ulib(cipher: &mut Vec<u8>)
    ensures
        final(cipher)@ == ulib_cipher_spec(old(cipher)@),
{
    encrypt_ulib(cipher)
}

/// A cipher pass is an involution: applying the same context twice restores
/// every byte sequence.
pub proof fn lemma_cipher_involution(key: Seq<u8>, data: Seq<u8>)
    ensures
        rc4_apply_spec(key, rc4_apply_spec(key, data)) == data,
{
    let once = rc4_apply_spec(key, data);
    let twice = rc4_apply_spec(key, once);
    assert forall|i: int| 0 <= i < data.len() implies twice[i] == data[i] by {
        let b = data[i];
        let k = rc4_keystream(key, i);
        assert(((b ^ k) ^ k) == b) by (bit_vector);
    }
    assert(twice =~= data);
}

/// Round trip of the container cipher context.
pub proof fn lemma_res_cipher_round_trip(data: Seq<u8>)
    ensures
        res_cipher_spec(res_cipher_spec(data)) == data,
{
    lemma_cipher_involution(res_key(), data);
}

/// Round trip of the entry cipher context.
pub proof fn lemma_ulib_cipher_round_trip(data: Seq<u8>)
    ensures
        ulib_cipher_spec(ulib_cipher_spec(data)) == data,
{
    lemma_cipher_involution(ulib_key(), data);
}

/// The fixed magic tag at the head of every compressed container.
pub const COMPRESS_MAGIC: u32 = 0x033E0F0D;

/// The zlib compression of `data` at the default level: a function of the
/// input bytes alone.
pub uninterp spec fn deflate_of(data: Seq<u8>) -> Seq<u8>;

/// The whole container for `data`: magic, little-endian size, zlib bytes.
pub open spec fn compress_spec(data: Seq<u8>) -> Seq<u8>
    recommends
        data.len() < 0x1_0000_0000,
{
    spec_u32_to_le_bytes(COMPRESS_MAGIC) + spec_u32_to_le_bytes(data.len() as u32)
        + deflate_of(data)
}

/// The magic tag a container carries.
pub open spec fn container_magic(c: Seq<u8>) -> u32 {
    spec_u32_from_le_bytes(c.subrange(0, 4))
}

/// The uncompressed size a container declares.
pub open spec fn container_size(c: Seq<u8>) -> u32 {
    spec_u32_from_le_bytes(c.subrange(4, 8))
}

/// The compressed bytes after the 8-byte header.
pub open spec fn container_body(c: Seq<u8>) -> Seq<u8> {
    c.skip(8)
}

/// A container long enough for its header, with the right magic.
pub open spec fn container_header_ok(c: Seq<u8>) -> bool {
    c.len() >= 8 && container_magic(c) == COMPRESS_MAGIC
}

/// What zlib decoding makes of a byte stream when asked for exactly `n`
/// bytes: the decoded prefix, or nothing when the stream is invalid or runs
/// short.  A function of the stream and the count alone.
pub uninterp spec fn inflate_exact_of(s: Seq<u8>, n: nat) -> Option<Seq<u8>>;

/// Relies on flate2::bufread::ZlibEncoder: emits the zlib compression of its
/// input at the given level, a function of the input bytes alone, and zlib
/// compression is lossless, so decoding the stream at the input's length
/// gives the input back; reading from an in-memory buffer cannot fail.
#[verifier::external_body]
fn deflate(data: &Vec<u8>) -> (out: Vec<u8>)
    ensures
        out@ == deflate_of(data@),
        inflate_exact_of(out@, data@.len()) == Some(data@),
{
    let mut out = Vec::new();
    let mut enc = ZlibEncoder::new(data.as_slice(), Compression::default());
    enc.read_to_end(&mut out).expect("compressing an in-memory buffer");
    out
}

/// Relies on flate2::bufread::ZlibDecoder: zlib decompression inverts
/// compression exactly; `read_exact` reports `UnexpectedEof` when the stream
/// decodes to fewer bytes than asked, and any other failure means the stream
/// is structurally invalid.
#[verifier::external_body]
fn inflate_exact(data: &[u8], n: usize) -> (r: Result<Vec<u8>, FormatError>)
    ensures
        r matches Ok(v) ==> v@.len() == n && inflate_exact_of(data@, n as nat) == Some(v@),
        r is Err ==> inflate_exact_of(data@, n as nat) is None,
        r matches Ok(v) ==> (forall|d: Seq<u8>| #![trigger deflate_of(d)]
            data@ == deflate_of(d) ==> d.len() >= n),
        r matches Err(e) ==> e == FormatError::Truncated || e == FormatError::CorruptStream,
        r matches Err(e) && e == FormatError::Truncated ==> (forall|d: Seq<u8>|
            #![trigger deflate_of(d)]
            data@ == deflate_of(d) ==> d.len() < n),
        r matches Err(e) && e == FormatError::CorruptStream ==> (forall|d: Seq<u8>|
            #![trigger deflate_of(d)]
            data@ != deflate_of(d)),
{
    let mut buf = vec![0u8; n];
    match ZlibDecoder::new(data).read_exact(&mut buf) {
        Ok(()) => Ok(buf),
        Err(e) if e.kind() == std::io::ErrorKind::UnexpectedEof => Err(FormatError::Truncated),
        Err(_) => Err(FormatError::CorruptStream),
    }
}

/// Wrap `data` into a compressed container: magic, little-endian byte count,
/// zlib stream.
pub fn compress(data: &Vec<u8>) -> (out: Vec<u8>)
    requires
        data@.len() < 0x1_0000_0000,
    ensures
        out@ == compress_spec(data@),
        inflate_exact_of(deflate_of(data@), data@.len()) == Some(data@),
{
    let len: u32 = data.len() as u32;
    let mut out = u32_to_le_bytes(COMPRESS_MAGIC);
    let mut size_bytes = u32_to_le_bytes(len);
    out.append(&mut size_bytes);
    let mut packed = deflate(data);
    out.append(&mut packed);
    proof {
        assert(out@ =~= compress_spec(data@));
    }
    out
}

/// Unwrap a compressed container.
///
/// The magic is checked first (after the 8-byte header floor), the declared
/// size is read, and the zlib stream is decoded into exactly that many
/// bytes.  On a container produced by [`compress`] this returns the original
/// data; a container whose declared size overshoots the stream fails as
/// truncated.
pub fn decompress(data: &Vec<u8>) -> (r: Result<Vec<u8>, FormatError>)
    ensures
        data@.len() < 8 ==> (r matches Err(e) && e == FormatError::Truncated),
        data@.len() >= 8 && container_magic(data@) != COMPRESS_MAGIC ==> (r matches Err(e)
            && e == FormatError::BadMagic(container_magic(data@))),
        inflate_exact_of(container_body(data@), container_size(data@) as nat) matches Some(d)
            ==> container_header_ok(data@) ==> (r matches Ok(v) && v@ == d),
        forall|d: Seq<u8>| #![trigger deflate_of(d)]
            container_header_ok(data@) && container_body(data@) == deflate_of(d)
                && d.len() < container_size(data@) ==> (r matches Err(e)
                && e == FormatError::Truncated),
        r matches Ok(v) ==> container_header_ok(data@) && v@.len() == container_size(data@)
            && inflate_exact_of(container_body(data@), container_size(data@) as nat) == Some(
            v@,
        ),
{
    if data.len() < 8 {
        return Err(FormatError::Truncated);
    }
    let magic = u32_from_le_bytes(slice_subrange(data.as_slice(), 0, 4));
    if magic != COMPRESS_MAGIC {
        return Err(FormatError::BadMagic(magic));
    }
    let size = u32_from_le_bytes(slice_subrange(data.as_slice(), 4, 8));
    let body = slice_subrange(data.as_slice(), 8, data.len());
    assert(body@ == container_body(data@));
    match inflate_exact(body, size as usize) {
        Ok(v) => Ok(v),
        Err(e) => Err(e),
    }
}

/// The codec round trip, stated executably and proved: decompressing a
/// fresh compression returns the input unchanged, for every byte sequence
/// that fits the 32-bit size field.
pub fn codec_round_trip(data: &Vec<u8>) -> (out: Vec<u8>)
    requires
        data@.len() < 0x1_0000_0000,
    ensures
        out@ == data@,
{
    let packed = compress(data);
    proof {
        lemma_codec_round_trip(data@);
    }
    match decompress(&packed) {
        Ok(v) => v,
        Err(_) => {
            proof {
                assert(false);
            }
            Vec::new()
        },
    }
}

/// A container built by [`compress`] carries the right magic, declares the
/// exact input length, and holds the zlib stream of the input: the codec
/// round-trips every byte sequence that fits the 32-bit size field.
pub proof fn lemma_codec_round_trip(data: Seq<u8>)
    requires
        data.len() < 0x1_0000_0000,
    ensures
        container_header_ok(compress_spec(data)),
        container_size(compress_spec(data)) == data.len(),
        container_body(compress_spec(data)) == deflate_of(data),
{
    lemma_auto_spec_u32_to_from_le_bytes();
    let c = compress_spec(data);
    assert(c.subrange(0, 4) =~= spec_u32_to_le_bytes(COMPRESS_MAGIC));
    assert(c.subrange(4, 8) =~= spec_u32_to_le_bytes(data.len() as u32));
    assert(c.skip(8) =~= deflate_of(data));
}

} // verus!
