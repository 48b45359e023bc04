//! The ordered, key-unique bundle of named payloads, and its rendering as a
//! loader script.
//!
//! The bundle keeps first-seen insertion order: inserting an existing name
//! replaces its payload but keeps its position.  The rendered loader script
//! holds one registration statement per entry, in bundle order, each carrying
//! the obfuscated name and the hex of the entry-ciphered compressed payload.

use vstd::prelude::*;
use indexmap::IndexMap;
use crate::crypto;
use crate::crypto::{compress_spec, ulib_cipher_spec};
use crate::errors::CompileError;
use crate::hexcode::{hex_encode_upper, hex_of};
use crate::ident;
use crate::ident::obfuscate_spec;
use crate::lua;

verus! {

#[verifier::external_type_specification]
#[verifier::external_body]
#[verifier::reject_recursive_types(K)]
#[verifier::reject_recursive_types(V)]
#[verifier::reject_recursive_types(S)]
pub struct ExIndexMap<K, V, S>(IndexMap<K, V, S>);

/// What an ordered map holds: its (name, payload) pairs in insertion order.
pub uninterp spec fn imap_entries(m: IndexMap<String, Vec<u8>>) -> Seq<(Seq<char>, Seq<u8>)>;

/// Whether some entry carries this name.
pub open spec fn has_name(es: Seq<(Seq<char>, Seq<u8>)>, name: Seq<char>) -> bool {
    exists|j: int| 0 <= j < es.len() && es[j].0 == name
}

/// The position of the entry carrying this name.
pub open spec fn name_index(es: Seq<(Seq<char>, Seq<u8>)>, name: Seq<char>) -> int {
    choose|j: int| 0 <= j < es.len() && es[j].0 == name
}

/// A position-preserving upsert: an existing name keeps its place and gets
/// the new payload; a new name goes last.
pub open spec fn upsert(
    es: Seq<(Seq<char>, Seq<u8>)>,
    name: Seq<char>,
    payload: Seq<u8>,
) -> Seq<(Seq<char>, Seq<u8>)> {
    if has_name(es, name) {
        es.update(name_index(es, name), (name, payload))
    } else {
        es.push((name, payload))
    }
}

/// Relies on indexmap::IndexMap::new: a fresh map holds nothing.
#[verifier::external_body]
fn imap_new() -> (m: IndexMap<String, Vec<u8>>)
    ensures
        imap_entries(m) == Seq::<(Seq<char>, Seq<u8>)>::empty(),
{
    IndexMap::new()
}

/// Relies on indexmap::IndexMap::insert: an existing (equal) key keeps its
/// place in the order and gets the new value; a new key is appended last.
#[verifier::external_body]
fn imap_insert(m: &mut IndexMap<String, Vec<u8>>, name: String, payload: Vec<u8>)
    ensures
        imap_entries(*final(m)) == upsert(imap_entries(*old(m)), name@, payload@),
{
    m.insert(name, payload);
}

/// Relies on indexmap::IndexMap::len: the number of entries.
#[verifier::external_body]
fn imap_len(m: &IndexMap<String, Vec<u8>>) -> (n: usize)
    ensures
        n == imap_entries(*m).len(),
{
    m.len()
}

/// Relies on indexmap::IndexMap::get_index: the pair at a position, counted
/// in insertion order.
#[verifier::external_body]
fn imap_entry_at(m: &IndexMap<String, Vec<u8>>, i: usize) -> (r: Option<(String, Vec<u8>)>)
    ensures
        r matches Some(p) ==> i < imap_entries(*m).len() && p.0@ == imap_entries(*m)[i as int].0
            && p.1@ == imap_entries(*m)[i as int].1,
        r is None ==> i >= imap_entries(*m).len(),
{
    m.get_index(i).map(|(k, v)| (k.clone(), v.clone()))
}

/// The reserved name under which the adaptor entry is seeded.
pub open spec fn adaptor_name() -> Seq<char> {
    "adaptor.lua"@
}

/// The reserved name under which the database entry is kept.
pub open spec fn database_name() -> Seq<char> {
    "database.lua"@
}

/// No two entries carry the same name.
pub open spec fn names_unique(es: Seq<(Seq<char>, Seq<u8>)>) -> bool {
    forall|i: int, j: int| 0 <= i < j < es.len() ==> es[i].0 != es[j].0
}

/// Every payload fits the container format's 32-bit size field.
pub open spec fn payloads_fit(es: Seq<(Seq<char>, Seq<u8>)>) -> bool {
    forall|i: int| 0 <= i < es.len() ==> es[i].1.len() < 0x1_0000_0000
}

/// An upsert keeps names unique and payloads within the size field.
pub proof fn lemma_upsert_wf(es: Seq<(Seq<char>, Seq<u8>)>, name: Seq<char>, payload: Seq<u8>)
    requires
        names_unique(es),
        payloads_fit(es),
        payload.len() < 0x1_0000_0000,
    ensures
        names_unique(upsert(es, name, payload)),
        payloads_fit(upsert(es, name, payload)),
{
    let out = upsert(es, name, payload);
    if has_name(es, name) {
        let j = name_index(es, name);
        assert(0 <= j < es.len() && es[j].0 == name);
        assert forall|p: int, q: int| 0 <= p < q < out.len() implies out[p].0 != out[q].0 by {
            assert(es[p].0 != es[q].0);
        }
    } else {
        assert forall|p: int, q: int| 0 <= p < q < out.len() implies out[p].0 != out[q].0 by {
            if q < es.len() {
                assert(es[p].0 != es[q].0);
            } else {
                assert(out[q].0 == name);
                assert(!(exists|j: int| 0 <= j < es.len() && es[j].0 == name));
                assert(out[p].0 == es[p].0);
            }
        }
    }
}

/// An ordered, key-unique collection of named byte payloads, in first-seen
/// insertion order.
pub struct Bundles {
    entries: IndexMap<String, Vec<u8>>,
}

impl View for Bundles {
    type V = Seq<(Seq<char>, Seq<u8>)>;

    closed spec fn view(&self) -> Seq<(Seq<char>, Seq<u8>)> {
        imap_entries(self.entries)
    }
}

impl Bundles {
    /// Well-formed: names unique, payloads within the 32-bit size field.
    pub open spec fn wf(&self) -> bool {
        names_unique(self@) && payloads_fit(self@)
    }

    /// A bundle holding nothing yet.
    pub fn empty() -> (b: Bundles)
        ensures
            b@ == Seq::<(Seq<char>, Seq<u8>)>::empty(),
            b.wf(),
    {
        let b = Bundles { entries: imap_new() };
        proof {
            assert(b.wf());
        }
        b
    }

    /// Seed a bundle with the adaptor payload under its reserved name.
    pub fn with_adaptor(adaptor: Vec<u8>) -> (b: Bundles)
        requires
            adaptor@.len() < 0x1_0000_0000,
        ensures
            b@ == seq![(adaptor_name(), adaptor@)],
            b.wf(),
    {
        let mut b = Bundles::empty();
        b.insert_str("adaptor.lua", adaptor);
        proof {
            assert(b@ =~= seq![(adaptor_name(), adaptor@)]);
        }
        b
    }

    /// Upsert an entry: an existing name keeps its position and gets the new
    /// payload; a new name goes last.
    pub fn insert(&mut self, name: String, payload: Vec<u8>)
        requires
            payload@.len() < 0x1_0000_0000,
        ensures
            final(self)@ == upsert(old(self)@, name@, payload@),
            old(self).wf() ==> final(self).wf(),
    {
        proof {
            if old(self).wf() {
                lemma_upsert_wf(old(self)@, name@, payload@);
            }
        }
        imap_insert(&mut self.entries, name, payload);
    }

    /// Upsert under a string-slice name.
    pub fn insert_str(&mut self, name: &str, payload: Vec<u8>)
        requires
            payload@.len() < 0x1_0000_0000,
        ensures
            final(self)@ == upsert(old(self)@, name@, payload@),
            old(self).wf() ==> final(self).wf(),
    {
        self.insert(name.to_owned(), payload);
    }

    /// Upsert the database payload under its reserved name: due to the
    /// position invariant it is emitted wherever that name first appeared,
    /// or last if never seeded.
    pub fn set_database(&mut self, bytecode: Vec<u8>)
        requires
            bytecode@.len() < 0x1_0000_0000,
        ensures
            final(self)@ == upsert(old(self)@, database_name(), bytecode@),
            old(self).wf() ==> final(self).wf(),
    {
        self.insert_str("database.lua", bytecode);
    }

    /// The number of entries.
    pub fn len(&self) -> (n: usize)
        ensures
            n == self@.len(),
    {
        imap_len(&self.entries)
    }

    /// The entry at a position, in bundle order.
    pub fn entry_at(&self, i: usize) -> (r: Option<(String, Vec<u8>)>)
        ensures
            r matches Some(p) ==> i < self@.len() && p.0@ == self@[i as int].0 && p.1@
                == self@[i as int].1,
            r is None ==> i >= self@.len(),
    {
        imap_entry_at(&self.entries, i)
    }

    /// One loader statement: the fixed loader call with the obfuscated name
    /// and the hex of the entry-ciphered compressed payload, newline last.
    pub open spec fn statement_spec(name: Seq<char>, payload: Seq<u8>) -> Seq<char> {
        "__U_Lib(\""@ + obfuscate_spec(name) + "\", \""@ + hex_of(
            ulib_cipher_spec(compress_spec(payload)),
        ) + "\")\n"@
    }

    /// The whole loader script: one statement per entry, in bundle order.
    pub open spec fn render_spec(es: Seq<(Seq<char>, Seq<u8>)>) -> Seq<char>
        decreases es.len(),
    {
        if es.len() == 0 {
            Seq::empty()
        } else {
            Self::statement_spec(es[0].0, es[0].1) + Self::render_spec(es.skip(1))
        }
    }

    /// Render a loader script for each processed entry prefix in turn.
    proof fn lemma_render_take_snoc(es: Seq<(Seq<char>, Seq<u8>)>, i: int)
        requires
            0 <= i < es.len(),
        ensures
            Self::render_spec(es.take(i + 1)) == Self::render_spec(es.take(i))
                + Self::statement_spec(es[i].0, es[i].1),
        decreases i,
    {
        let a = es.take(i + 1);
        let b = es.take(i);
        if i == 0 {
            assert(a.skip(1) =~= Seq::<(Seq<char>, Seq<u8>)>::empty());
            assert(Self::render_spec(b) == Seq::<char>::empty());
            assert(Self::render_spec(a.skip(1)) == Seq::<char>::empty());
            assert(a[0] == es[0]);
            assert(Self::render_spec(a) == Self::statement_spec(es[0].0, es[0].1)
                + Seq::<char>::empty());
            assert(Self::statement_spec(es[0].0, es[0].1) + Seq::<char>::empty()
                =~= Self::statement_spec(es[0].0, es[0].1));
            assert(Seq::<char>::empty() + Self::statement_spec(es[0].0, es[0].1)
                =~= Self::statement_spec(es[0].0, es[0].1));
        } else {
            Self::lemma_render_take_snoc(es.skip(1), i - 1);
            assert(a.skip(1) =~= es.skip(1).take(i));
            assert(b.skip(1) =~= es.skip(1).take(i - 1));
            assert(es.skip(1)[i - 1] == es[i]);
            assert(Self::render_spec(a) == Self::statement_spec(es[0].0, es[0].1)
                + Self::render_spec(es.skip(1).take(i)));
            assert(Self::render_spec(es.skip(1).take(i)) == Self::render_spec(
                es.skip(1).take(i - 1),
            ) + Self::statement_spec(es[i].0, es[i].1));
            assert(Self::render_spec(b) == Self::statement_spec(es[0].0, es[0].1)
                + Self::render_spec(es.skip(1).take(i - 1)));
            assert((Self::statement_spec(es[0].0, es[0].1) + Self::render_spec(
                es.skip(1).take(i - 1),
            )) + Self::statement_spec(es[i].0, es[i].1) =~= Self::statement_spec(es[0].0, es[0].1)
                + (Self::render_spec(es.skip(1).take(i - 1)) + Self::statement_spec(
                es[i].0,
                es[i].1,
            )));
        }
    }

    /// Render the loader script for this bundle: one statement per entry, in
    /// bundle order, no entry skipped.
    pub fn render_loader_script(&self) -> (out: String)
        requires
            self.wf(),
        ensures
            out@ == Self::render_spec(self@),
    {
        let mut out = String::new();
        let n = imap_len(&self.entries);
        let mut i: usize = 0;
        proof {
            assert(self@.take(0) =~= Seq::<(Seq<char>, Seq<u8>)>::empty());
        }
        while i < n
            invariant
                self.wf(),
                n == self@.len(),
                i <= n,
                out@ == Self::render_spec(self@.take(i as int)),
            decreases n - i,
        {
            let entry = imap_entry_at(&self.entries, i);
            match entry {
                Some((name, payload)) => {
                    let obf = ident::encode(name.as_str());
                    let mut packed = crypto::compress(&payload);
                    crypto::encrypt_ulib(&mut packed);
                    let hexdata = hex_encode_upper(&packed);
                    out.append("__U_Lib(\"");
                    out.append(obf.as_str());
                    out.append("\", \"");
                    out.append(hexdata.as_str());
                    out.append("\")\n");
                    proof {
                        Self::lemma_render_take_snoc(self@, i as int);
                        assert(out@ == Self::render_spec(self@.take(i + 1)));
                    }
                    i = i + 1;
                },
                None => {
                    proof {
                        assert(false);
                    }
                },
            }
        }
        proof {
            assert(self@.take(n as int) =~= self@);
        }
        out
    }

    /// Pack the bundle: render the loader script, compile it, and apply the
    /// container cipher to the bytecode.
    ///
    /// The artifact on success is the container-ciphered image of whatever
    /// the external compiler made of the rendered script; what each of those
    /// steps does is pinned down by [`Self::render_loader_script`] and
    /// [`crate::crypto::encrypt_res`], while the compiler's output itself is
    /// opaque.
    pub fn pack(&self) -> (r: Result<Vec<u8>, CompileError>)
        requires
            self.wf(),
    {
        let script = self.render_loader_script();
        let chunk = script.as_str().as_bytes_vec();
        match lua::compile("loader.lua", &chunk) {
            Ok(mut bytecode) => {
                crypto::encrypt_res(&mut bytecode);
                Ok(bytecode)
            },
            Err(e) => Err(e),
        }
    }
}

/// Bundle ordering: inserting names `[a, b, a]` in that order emits `[a, b]`,
/// with `a` carrying its last-inserted payload.
pub proof fn lemma_bundle_ordering(
    a: Seq<char>,
    b: Seq<char>,
    v1: Seq<u8>,
    v2: Seq<u8>,
    v3: Seq<u8>,
)
    requires
        a != b,
    ensures
        upsert(upsert(upsert(Seq::empty(), a, v1), b, v2), a, v3) == seq![(a, v3), (b, v2)],
{
    let e0 = Seq::<(Seq<char>, Seq<u8>)>::empty();
    let e1 = upsert(e0, a, v1);
    assert(!has_name(e0, a));
    assert(e1 =~= seq![(a, v1)]);
    let e2 = upsert(e1, b, v2);
    assert(!has_name(e1, b));
    assert(e2 =~= seq![(a, v1), (b, v2)]);
    let e3 = upsert(e2, a, v3);
    assert(e2[0].0 == a);
    assert(has_name(e2, a));
    assert(name_index(e2, a) == 0) by {
        let j = name_index(e2, a);
        assert(0 <= j < e2.len() && e2[j].0 == a);
    }
    assert(e3 =~= seq![(a, v3), (b, v2)]);
}

} // verus!
