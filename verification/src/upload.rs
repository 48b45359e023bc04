//! Parsing of uploaded payloads: the wire format puts the storage path
//! first, then a long run of space bytes as separator, then the compressed
//! file data.  The filename of interest is the path's last component without
//! its extension.

use vstd::prelude::*;
use vstd::slice::{slice_subrange, slice_to_vec};

verus! {

/// The separator byte of the upload wire format.
pub const SEPARATOR_BYTE: u8 = 0x20;

/// The least run length that counts as the separator.
pub const SEPARATOR_RUN_FLOOR: usize = 0xc0;

/// A maximal run of more than `SEPARATOR_RUN_FLOOR` separator bytes starting
/// at `p0`, of length `len`, followed by a non-separator byte.
pub open spec fn sep_at(b: Seq<u8>, p0: int, len: int) -> bool {
    &&& 0 <= p0
    &&& len > SEPARATOR_RUN_FLOOR
    &&& p0 + len < b.len()
    &&& (forall|k: int| p0 <= k < p0 + len ==> b[k] == SEPARATOR_BYTE)
    &&& b[p0 + len] != SEPARATOR_BYTE
    &&& (p0 == 0 || b[p0 - 1] != SEPARATOR_BYTE)
}

/// Find the first qualifying separator run: its start and its length.
pub fn find_separator(bytes: &Vec<u8>) -> (r: Option<(usize, usize)>)
    ensures
        r matches Some(p) ==> sep_at(bytes@, p.0 as int, p.1 as int) && (forall|q0: int, l: int|
            sep_at(bytes@, q0, l) ==> p.0 <= q0),
        r is None ==> forall|q0: int, l: int| !sep_at(bytes@, q0, l),
{
    let mut run_start: Option<usize> = None;
    let mut i: usize = 0;
    while i < bytes.len()
        invariant
            i <= bytes@.len(),
            run_start matches Some(s) ==> s <= i && (forall|k: int|
                s <= k < i ==> bytes@[k] == SEPARATOR_BYTE) && (s == 0 || bytes@[s - 1]
                != SEPARATOR_BYTE) && (forall|q0: int, l: int| sep_at(bytes@, q0, l) ==> q0 >= s),
            run_start is None ==> (forall|q0: int, l: int| sep_at(bytes@, q0, l) ==> q0 >= i) && (i
                == 0 || bytes@[i - 1] != SEPARATOR_BYTE),
        decreases bytes@.len() - i,
    {
        let b = bytes[i];
        match run_start {
            None => {
                if b == SEPARATOR_BYTE {
                    run_start = Some(i);
                } else {
                    proof {
                        assert forall|q0: int, l: int| sep_at(bytes@, q0, l) implies q0 >= i + 1 by {
                            if q0 == i {
                                assert(bytes@[q0] == SEPARATOR_BYTE);
                            }
                        }
                    }
                }
            },
            Some(s) => {
                if b != SEPARATOR_BYTE {
                    if i - s > SEPARATOR_RUN_FLOOR {
                        proof {
                            assert(sep_at(bytes@, s as int, i - s));
                        }
                        return Some((s, i - s));
                    }
                    proof {
                        assert forall|q0: int, l: int| sep_at(bytes@, q0, l) implies q0 >= i + 1 by {
                            if s < q0 <= i {
                                assert(bytes@[q0 - 1] == SEPARATOR_BYTE || q0 == i);
                                if q0 == i {
                                    assert(bytes@[q0] == SEPARATOR_BYTE);
                                }
                            }
                            if q0 == s {
                                // The maximal run from `s` ends here, too short.
                                if l < i - s {
                                    assert(bytes@[q0 + l] == SEPARATOR_BYTE);
                                } else {
                                    assert(bytes@[s + (i - s)] != SEPARATOR_BYTE);
                                    assert(forall|k: int|
                                        q0 <= k < q0 + l ==> bytes@[k] == SEPARATOR_BYTE);
                                    assert(l == i - s);
                                }
                            }
                        }
                    }
                    run_start = None;
                }
            },
        }
        i = i + 1;
    }
    proof {
        match run_start {
            Some(s) => {
                assert forall|q0: int, l: int| !sep_at(bytes@, q0, l) by {
                    if sep_at(bytes@, q0, l) {
                        assert(q0 >= s);
                        if q0 + l < bytes@.len() {
                            if s < q0 {
                                assert(bytes@[q0 - 1] == SEPARATOR_BYTE);
                            }
                            assert(bytes@[q0 + l] == SEPARATOR_BYTE);
                        }
                    }
                }
            },
            None => {
                assert forall|q0: int, l: int| !sep_at(bytes@, q0, l) by {
                    if sep_at(bytes@, q0, l) {
                        assert(q0 >= i);
                        assert(q0 + l < bytes@.len());
                    }
                }
            },
        }
    }
    None
}

/// Split an uploaded payload at its separator run: the storage path before
/// it, the file data after it.
pub fn split_upload(bytes: &Vec<u8>) -> (r: Option<(Vec<u8>, Vec<u8>)>)
    ensures
        r matches Some(p) ==> exists|p0: int, l: int|
            #![trigger sep_at(bytes@, p0, l)]
            sep_at(bytes@, p0, l) && p.0@ == bytes@.take(p0) && p.1@ == bytes@.skip(p0 + l) && (
            forall|q0: int, l2: int| sep_at(bytes@, q0, l2) ==> p0 <= q0),
        r is None ==> forall|q0: int, l: int| !sep_at(bytes@, q0, l),
{
    match find_separator(bytes) {
        Some((p0, len)) => {
            let n = bytes.len();
            proof {
                assert(p0 + len < n);
            }
            let name = slice_to_vec(slice_subrange(bytes.as_slice(), 0, p0));
            let data = slice_to_vec(slice_subrange(bytes.as_slice(), p0 + len, n));
            proof {
                assert(bytes@.subrange(0, p0 as int) =~= bytes@.take(p0 as int));
                assert(bytes@.subrange(p0 + len, bytes@.len() as int) =~= bytes@.skip(
                    p0 + len,
                ));
            }
            Some((name, data))
        },
        None => None,
    }
}

/// The path separator of the upload's storage path.
pub const PATH_SEPARATOR: u8 = 0x5c;

/// The extension separator of the upload's storage path.
pub const EXTENSION_DOT: u8 = 0x2e;

/// The stem of a storage path: what stands after the last path separator
/// and before the first dot of that component.
pub open spec fn stem_of(f: Seq<u8>) -> Seq<u8> {
    let tail = match f.index_of_last(PATH_SEPARATOR) {
        Some(j) => f.skip(j + 1),
        None => f,
    };
    match tail.index_of_first(EXTENSION_DOT) {
        Some(k) => tail.take(k),
        None => tail,
    }
}

/// Extract the stem of a storage path.
pub fn filename_stem(f: &Vec<u8>) -> (r: Vec<u8>)
    ensures
        r@ == stem_of(f@),
{
    let mut start: usize = 0;
    let mut found = false;
    let mut i: usize = f.len();
    while i > 0 && !found
        invariant
            i <= f@.len(),
            !found ==> start == 0 && (forall|k: int| i <= k < f@.len() ==> f@[k] != PATH_SEPARATOR),
            found ==> 1 <= start <= f@.len() && f@[start - 1] == PATH_SEPARATOR && (forall|k: int|
                start <= k < f@.len() ==> f@[k] != PATH_SEPARATOR),
        decreases i,
    {
        i = i - 1;
        if f[i] == PATH_SEPARATOR {
            start = i + 1;
            found = true;
        }
    }
    proof {
        f@.index_of_last_ensures(PATH_SEPARATOR);
        if found {
            match f@.index_of_last(PATH_SEPARATOR) {
                Some(j) => {
                    assert(j == start - 1) by {
                        if j > start - 1 {
                            assert(f@[j] != PATH_SEPARATOR);
                        }
                        if j < start - 1 {
                            assert(f@[start - 1] == PATH_SEPARATOR);
                        }
                    }
                },
                None => {
                    assert(f@[start - 1] == PATH_SEPARATOR);
                    assert(false);
                },
            }
        } else {
            match f@.index_of_last(PATH_SEPARATOR) {
                Some(j) => {
                    assert(f@[j] == PATH_SEPARATOR);
                    assert(false);
                },
                None => {},
            }
        }
    }
    let ghost tail_spec = match f@.index_of_last(PATH_SEPARATOR) {
        Some(j) => f@.skip(j + 1),
        None => f@,
    };
    let tail = slice_to_vec(slice_subrange(f.as_slice(), start, f.len()));
    proof {
        assert(tail@ =~= tail_spec);
    }
    let mut end: usize = tail.len();
    let mut dotted = false;
    let mut j: usize = 0;
    while j < tail.len() && !dotted
        invariant
            j <= tail@.len(),
            !dotted ==> end == tail@.len() && (forall|k: int|
                0 <= k < j ==> tail@[k] != EXTENSION_DOT),
            dotted ==> end < tail@.len() && tail@[end as int] == EXTENSION_DOT && (forall|k: int|
                0 <= k < end ==> tail@[k] != EXTENSION_DOT),
        decreases tail@.len() - j,
    {
        if tail[j] == EXTENSION_DOT {
            end = j;
            dotted = true;
        }
        j = j + 1;
    }
    proof {
        tail@.index_of_first_ensures(EXTENSION_DOT);
        if dotted {
            match tail@.index_of_first(EXTENSION_DOT) {
                Some(k) => {
                    assert(k == end) by {
                        if k < end {
                            assert(tail@[k] != EXTENSION_DOT);
                        }
                        if k > end {
                            assert(tail@[end as int] == EXTENSION_DOT);
                        }
                    }
                },
                None => {
                    assert(tail@[end as int] == EXTENSION_DOT);
                    assert(false);
                },
            }
        } else {
            match tail@.index_of_first(EXTENSION_DOT) {
                Some(k) => {
                    assert(tail@[k] == EXTENSION_DOT);
                    assert(false);
                },
                None => {},
            }
        }
    }
    if end == tail.len() {
        proof {
            assert(tail@ =~= stem_of(f@));
        }
        tail
    } else {
        let out = slice_to_vec(slice_subrange(tail.as_slice(), 0, end));
        proof {
            assert(out@ =~= stem_of(f@));
        }
        out
    }
}

} // verus!
