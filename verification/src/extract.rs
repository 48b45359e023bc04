//! Extraction: the exact inverse of packing, used by verification tooling.
//!
//! The container cipher is undone, the loader bytecode is run in a sandboxed
//! interpreter to recover the registered (name, payload) text pairs, and each
//! pair is reversed through hex, the entry cipher and the codec back to the
//! original named payload.

use vstd::prelude::*;
use crate::bundle::{upsert, Bundles};
use crate::crypto;
use crate::crypto::{
    container_body,
    container_header_ok,
    container_magic,
    container_size,
    inflate_exact_of,
    ulib_cipher_spec,
    COMPRESS_MAGIC,
};
use crate::errors::{EncodingError, ExtractError, FormatError};
use crate::hexcode::{hex_decode, hex_parse};
use crate::ident::{gbk_chars_of, gbk_decode};
use crate::lua;

verus! {

/// What one recovered loader pair stands for: the name its hex parses to
/// under the codepage, and the payload the entry-deciphered container
/// decodes to -- or nothing when the hex is malformed, the container header
/// is wrong, or the stream will not decode to the declared size.
pub open spec fn decode_pair_spec(nh: Seq<char>, dh: Seq<char>) -> Option<(Seq<char>, Seq<u8>)> {
    match (hex_parse(nh), hex_parse(dh)) {
        (Some(nb), Some(db)) => {
            let plain = ulib_cipher_spec(db);
            if container_header_ok(plain) {
                match inflate_exact_of(container_body(plain), container_size(plain) as nat) {
                    Some(payload) => Some((gbk_chars_of(nb), payload)),
                    None => None,
                }
            } else {
                None
            }
        },
        _ => None,
    }
}

/// The bundle a pair sequence stands for: each pair decoded in call order
/// and folded in with the position-preserving upsert -- or nothing when any
/// pair fails to decode.
pub open spec fn bundle_of_pairs(ps: Seq<(String, String)>) -> Option<Seq<(Seq<char>, Seq<u8>)>>
    decreases ps.len(),
{
    if ps.len() == 0 {
        Some(Seq::empty())
    } else {
        match (bundle_of_pairs(ps.drop_last()), decode_pair_spec(ps.last().0@, ps.last().1@)) {
            (Some(es), Some(entry)) => Some(upsert(es, entry.0, entry.1)),
            _ => None,
        }
    }
}

/// One undecodable pair anywhere makes the whole sequence undecodable.
proof fn lemma_bundle_of_pairs_poison(ps: Seq<(String, String)>, i: int)
    requires
        0 <= i < ps.len(),
        decode_pair_spec(ps[i].0@, ps[i].1@) is None,
    ensures
        bundle_of_pairs(ps) is None,
    decreases ps.len(),
{
    if i == ps.len() - 1 {
        assert(ps.last() == ps[i]);
    } else {
        assert(ps.drop_last()[i] == ps[i]);
        lemma_bundle_of_pairs_poison(ps.drop_last(), i);
    }
}

/// Reverse one loader pair: hex, entry cipher, codec, and the identifier
/// codepage.
pub fn decode_entry(name_hex: &str, data_hex: &str) -> (r: Result<
    (String, Vec<u8>),
    ExtractError,
>)
    ensures
        r matches Ok(p) ==> decode_pair_spec(name_hex@, data_hex@) == Some((p.0@, p.1@))
            && p.1@.len() < 0x1_0000_0000,
        decode_pair_spec(name_hex@, data_hex@) matches Some(entry) ==> (r matches Ok(p) && (
        p.0@, p.1@) == entry),
        r is Err ==> decode_pair_spec(name_hex@, data_hex@) is None,
        hex_parse(name_hex@) is None ==> (r matches Err(e) && e == ExtractError::Encoding(
            EncodingError::BadHex,
        )),
        hex_parse(name_hex@) is Some && hex_parse(data_hex@) is None ==> (r matches Err(e) && e
            == ExtractError::Encoding(EncodingError::BadHex)),
        hex_parse(data_hex@) matches Some(db) ==> hex_parse(name_hex@) is Some ==> {
            let plain = ulib_cipher_spec(db);
            &&& (plain.len() < 8 ==> (r matches Err(e) && e == ExtractError::Format(
                FormatError::Truncated,
            )))
            &&& (plain.len() >= 8 && container_magic(plain) != COMPRESS_MAGIC ==> (r matches Err(e)
                && e == ExtractError::Format(FormatError::BadMagic(container_magic(plain)))))
            &&& (inflate_exact_of(container_body(plain), container_size(plain) as nat)
                matches Some(d) ==> container_header_ok(plain) ==> (r matches Ok(p) && p.1@
                == d))
        },
{
    let nb = match hex_decode(name_hex) {
        Ok(b) => b,
        Err(e) => {
            return Err(ExtractError::Encoding(e));
        },
    };
    let name = gbk_decode(&nb);
    let mut data = match hex_decode(data_hex) {
        Ok(b) => b,
        Err(e) => {
            return Err(ExtractError::Encoding(e));
        },
    };
    crypto::decrypt_ulib(&mut data);
    match crypto::decompress(&data) {
        Ok(payload) => Ok((name, payload)),
        Err(e) => Err(ExtractError::Format(e)),
    }
}

/// Rebuild a bundle from recovered loader pairs, in call order, with the
/// bundle's position-preserving upsert.  The result is exactly the bundle
/// the pair sequence stands for; the first pair that will not decode stops
/// the rebuild with its error.
pub fn extract_pairs(pairs: &Vec<(String, String)>) -> (r: Result<Bundles, ExtractError>)
    ensures
        r matches Ok(b) ==> b.wf() && bundle_of_pairs(pairs@) == Some(b@),
        r is Err ==> bundle_of_pairs(pairs@) is None,
{
    let mut bundle = Bundles::empty();
    let mut i: usize = 0;
    while i < pairs.len()
        invariant
            bundle.wf(),
            i <= pairs@.len(),
            bundle_of_pairs(pairs@.take(i as int)) == Some(bundle@),
        decreases pairs@.len() - i,
    {
        let pair = &pairs[i];
        match decode_entry(pair.0.as_str(), pair.1.as_str()) {
            Ok((name, payload)) => {
                proof {
                    assert(payload@.len() < 0x1_0000_0000);
                }
                bundle.insert(name, payload);
                proof {
                    let t = pairs@.take(i + 1);
                    assert(t.drop_last() =~= pairs@.take(i as int));
                    assert(t.last() == pairs@[i as int]);
                    assert(bundle_of_pairs(t) == Some(bundle@));
                }
            },
            Err(e) => {
                proof {
                    lemma_bundle_of_pairs_poison(pairs@, i as int);
                }
                return Err(e);
            },
        }
        i = i + 1;
    }
    proof {
        assert(pairs@.take(pairs@.len() as int) =~= pairs@);
    }
    Ok(bundle)
}

/// Drop a fixed-length trailing signature that an external tool appends to
/// artifacts in the wild; its length is a deployment constant, not part of
/// the artifact's own format.
pub fn strip_trailer(artifact: &Vec<u8>, trailer_len: usize) -> (r: Option<Vec<u8>>)
    ensures
        trailer_len <= artifact@.len() ==> (r matches Some(v) && v@ == artifact@.take(
            artifact@.len() - trailer_len,
        )),
        trailer_len > artifact@.len() ==> r is None,
{
    if trailer_len > artifact.len() {
        return None;
    }
    let mut out = artifact.clone();
    out.truncate(artifact.len() - trailer_len);
    proof {
        assert(out@ =~= artifact@.take(artifact@.len() - trailer_len));
    }
    Some(out)
}

/// Undo the container cipher, run the loader, and reverse every registered
/// entry.  The artifact must already be free of any trailing signature bytes
/// an external tool may have appended.
pub fn extract(artifact: &Vec<u8>) -> (r: Result<Bundles, ExtractError>)
    ensures
        r matches Ok(b) ==> b.wf() && (exists|ps: Seq<(String, String)>|
            #[trigger] bundle_of_pairs(ps) == Some(b@)),
{
    let mut bytecode = artifact.clone();
    crypto::decrypt_res(&mut bytecode);
    match lua::run_loader(&bytecode) {
        Ok(pairs) => {
            let r = extract_pairs(&pairs);
            proof {
                if r is Ok {
                    assert(bundle_of_pairs(pairs@) == Some(r.unwrap()@));
                }
            }
            r
        },
        Err(msg) => Err(ExtractError::LoaderRun(msg)),
    }
}

} // verus!
