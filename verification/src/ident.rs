//! Identifier obfuscation: resource names are transcoded into a legacy
//! double-byte codepage (GBK) and then rendered as upper-case hex, so that an
//! otherwise-arbitrary name can sit inside a generated source literal.

use vstd::prelude::*;
use crate::errors::EncodingError;
use crate::hexcode::{hex_decode, hex_encode_upper, hex_of, hex_parse, lemma_hex_round_trip};

verus! {

/// The bytes of a text in the legacy codepage, with that codepage's lossy
/// substitution for unmappable characters: a function of the characters
/// alone.
pub uninterp spec fn gbk_bytes_of(s: Seq<char>) -> Seq<u8>;

/// The text the legacy codepage reads a byte sequence as, with replacement
/// for invalid sequences: a function of the bytes alone.
pub uninterp spec fn gbk_chars_of(b: Seq<u8>) -> Seq<char>;

/// A name the legacy codepage represents exactly: encoding and then decoding
/// it returns it unchanged.
pub open spec fn gbk_representable(s: Seq<char>) -> bool {
    gbk_chars_of(gbk_bytes_of(s)) == s
}

/// Relies on encoding_rs's GBK encoder: the output bytes depend on the input
/// characters alone (unmappable characters get the encoder's substitution).
#[verifier::external_body]
pub(crate) fn gbk_encode(s: &str) -> (r: Vec<u8>)
    ensures
        r@ == gbk_bytes_of(s@),
{
    let (b, _, _) = encoding_rs::GBK.encode(s);
    b.into_owned()
}

/// Relies on encoding_rs's GBK decoder: the output characters depend on the
/// input bytes alone (invalid sequences get the replacement character).
#[verifier::external_body]
pub(crate) fn gbk_decode(b: &Vec<u8>) -> (r: String)
    ensures
        r@ == gbk_chars_of(b@),
{
    let (s, _, _) = encoding_rs::GBK.decode(b.as_slice());
    s.into_owned()
}

/// The obfuscated form of a resource name.
pub open spec fn obfuscate_spec(name: Seq<char>) -> Seq<char> {
    hex_of(gbk_bytes_of(name))
}

/// The name an obfuscated identifier stands for, or nothing when the hex
/// text is malformed.
pub open spec fn deobfuscate_spec(text: Seq<char>) -> Option<Seq<char>> {
    match hex_parse(text) {
        Some(b) => Some(gbk_chars_of(b)),
        None => None,
    }
}

/// Obfuscate a resource name: legacy codepage bytes, then upper-case hex.
pub fn encode(name: &str) -> (out: String)
    ensures
        out@ == obfuscate_spec(name@),
{
    let bytes = gbk_encode(name);
    hex_encode_upper(&bytes)
}

/// Recover a resource name from its obfuscated form.  Fails only on
/// malformed hex; a name that never fit the codepage comes back with the
/// codepage's substitutions, which is accepted information loss.
pub fn decode(text: &str) -> (r: Result<String, EncodingError>)
    ensures
        deobfuscate_spec(text@) matches Some(n) ==> (r matches Ok(v) && v@ == n),
        deobfuscate_spec(text@) is None ==> (r matches Err(e) && e == EncodingError::BadHex),
{
    match hex_decode(text) {
        Ok(b) => Ok(gbk_decode(&b)),
        Err(e) => Err(e),
    }
}

/// Identifier round trip: decoding the obfuscated form of any name the
/// legacy codepage represents gives that name back.
pub proof fn lemma_ident_round_trip(name: Seq<char>)
    requires
        gbk_representable(name),
    ensures
        deobfuscate_spec(obfuscate_spec(name)) == Some(name),
{
    lemma_hex_round_trip(gbk_bytes_of(name));
}

} // verus!
