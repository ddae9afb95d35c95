//! The content-addressed blob store.
//!
//! Blobs and extracted cover images are keyed by their content digest.  The
//! store is append-only and idempotent: a payload already present under its
//! digest is never rewritten, so concurrent writers of identical content are
//! harmless and re-ingesting known bytes is free.
//!
//! The model of each side of the store is an association sequence of
//! `(digest, bytes)` pairs with pairwise-distinct digests.

use vstd::prelude::*;
use vstd::string::StringExecFns;

verus! {

/// The model of one stored object: its digest and its bytes.
pub type SlotModel = (Seq<char>, Seq<u8>);

/// The bytes stored under a digest, if any.
pub open spec fn lookup(s: Seq<SlotModel>, k: Seq<char>) -> Option<Seq<u8>>
    decreases s.len(),
{
    if s.len() == 0 {
        None
    } else if s.last().0 == k {
        Some(s.last().1)
    } else {
        lookup(s.drop_last(), k)
    }
}

/// Whether some payload is stored under a digest.
pub open spec fn stored(s: Seq<SlotModel>, k: Seq<char>) -> bool {
    lookup(s, k) is Some
}

/// An idempotent write: a digest already present is left untouched.
pub open spec fn put_model(s: Seq<SlotModel>, k: Seq<char>, v: Seq<u8>) -> Seq<SlotModel> {
    if stored(s, k) {
        s
    } else {
        s.push((k, v))
    }
}

/// No digest occurs twice.
pub open spec fn distinct_keys(s: Seq<SlotModel>) -> bool {
    forall|i: int, j: int| 0 <= i < j < s.len() ==> s[i].0 != s[j].0
}

/// A digest that matches no slot is absent.
pub proof fn lemma_lookup_none(s: Seq<SlotModel>, k: Seq<char>)
    requires
        forall|i: int| 0 <= i < s.len() ==> s[i].0 != k,
    ensures
        lookup(s, k) is None,
    decreases s.len(),
{
    if s.len() > 0 {
        lemma_lookup_none(s.drop_last(), k);
    }
}

/// Under distinct digests, the slot that matches a digest is its lookup.
pub proof fn lemma_lookup_at(s: Seq<SlotModel>, k: Seq<char>, i: int)
    requires
        distinct_keys(s),
        0 <= i < s.len(),
        s[i].0 == k,
    ensures
        lookup(s, k) == Some(s[i].1),
    decreases s.len(),
{
    if i < s.len() - 1 {
        lemma_lookup_at(s.drop_last(), k, i);
    }
}

/// Idempotent storage: writing a payload under its digest a second time
/// changes nothing, and when the digest was free the store then holds exactly
/// that payload under it.  (A digest already bound to a different payload can
/// arise only from a hash collision and is the one case left out.)
pub proof fn lemma_put_idempotent(s: Seq<SlotModel>, k: Seq<char>, v: Seq<u8>)
    ensures
        ({
            let s1 = put_model(s, k, v);
            let s2 = put_model(s1, k, v);
            &&& s2 == s1
            &&& stored(s1, k)
            &&& (!stored(s, k) ==> s1 == s.push((k, v)) && lookup(s1, k) == Some(v))
        }),
{
    if !stored(s, k) {
        assert(s.push((k, v)).last() == (k, v));
    }
}

/// An idempotent write loses no stored digest.
pub proof fn lemma_put_preserves_stored(s: Seq<SlotModel>, k: Seq<char>, v: Seq<u8>, k2: Seq<char>)
    requires
        stored(s, k2),
    ensures
        stored(put_model(s, k, v), k2),
{
    if !stored(s, k) && s.push((k, v)).last().0 != k2 {
        assert(s.push((k, v)).drop_last() =~= s);
    }
}

/// An idempotent write keeps digests distinct.
pub proof fn lemma_put_distinct(s: Seq<SlotModel>, k: Seq<char>, v: Seq<u8>)
    requires
        distinct_keys(s),
    ensures
        distinct_keys(put_model(s, k, v)),
{
    if !stored(s, k) {
        let s1 = s.push((k, v));
        assert forall|i: int, j: int| 0 <= i < j < s1.len() implies s1[i].0 != s1[j].0 by {
            if j == s1.len() - 1 {
                if s1[i].0 == k {
                    lemma_lookup_at(s, k, i);
                }
            }
        }
    }
}

/// The model of the whole store: where it lives on disk, the blobs, and the
/// extracted cover images.
#[verifier::ext_equal]
pub ghost struct StoreModel {
    pub root: Seq<char>,
    pub blobs: Seq<SlotModel>,
    pub covers: Seq<SlotModel>,
}

impl StoreModel {
    /// Both sides of the store key each payload by a distinct digest.
    pub open spec fn wf(self) -> bool {
        &&& distinct_keys(self.blobs)
        &&& distinct_keys(self.covers)
    }
}

/// The filesystem path a blob is served from.
pub open spec fn blob_path_of(root: Seq<char>, digest: Seq<char>) -> Seq<char> {
    root + "/"@ + digest + ".bin"@
}

/// The filesystem path a cover image is served from.
pub open spec fn cover_path_of(root: Seq<char>, digest: Seq<char>) -> Seq<char> {
    root + "/"@ + digest + "-cover.bin"@
}

/// The views of the slots a vector holds.
pub open spec fn slots_view(s: Seq<(String, Vec<u8>)>) -> Seq<SlotModel> {
    s.map_values(|p: (String, Vec<u8>)| (p.0@, p.1@))
}

/// The content-addressed store of blobs and cover images.
pub struct BlobStore {
    root: String,
    blobs: Vec<(String, Vec<u8>)>,
    covers: Vec<(String, Vec<u8>)>,
}

impl View for BlobStore {
    type V = StoreModel;

    closed spec fn view(&self) -> StoreModel {
        StoreModel {
            root: self.root@,
            blobs: slots_view(self.blobs@),
            covers: slots_view(self.covers@),
        }
    }
}

/// The index of the slot holding a digest, if any.
fn find_slot(v: &Vec<(String, Vec<u8>)>, key: &String) -> (r: Option<usize>)
    ensures
        match r {
            Some(i) => i < v@.len() && v@[i as int].0@ == key@,
            None => forall|i: int| 0 <= i < v@.len() ==> v@[i].0@ != key@,
        },
{
    let mut i: usize = 0;
    while i < v.len()
        invariant
            i <= v@.len(),
            forall|j: int| 0 <= j < i ==> v@[j].0@ != key@,
        decreases v@.len() - i,
    {
        if v[i].0 == *key {
            return Some(i);
        }
        i = i + 1;
    }
    None
}

/// A fresh payload is appended; slots with other digests are untouched.
fn put_slot(v: &mut Vec<(String, Vec<u8>)>, key: &String, value: &Vec<u8>)
    requires
        distinct_keys(slots_view(old(v)@)),
    ensures
        distinct_keys(slots_view(final(v)@)),
        slots_view(final(v)@) == put_model(slots_view(old(v)@), key@, value@),
{
    let ghost s = slots_view(v@);
    match find_slot(v, key) {
        Some(i) => {
            proof {
                lemma_lookup_at(s, key@, i as int);
            }
        },
        None => {
            proof {
                lemma_lookup_none(s, key@);
                lemma_put_distinct(s, key@, value@);
            }
            v.push((key.clone(), value.clone()));
            proof {
                assert(slots_view(v@) =~= s.push((key@, value@)));
            }
        },
    }
}

/// The payload stored under a digest, if any.
fn get_slot<'a>(v: &'a Vec<(String, Vec<u8>)>, key: &String) -> (r: Option<&'a Vec<u8>>)
    requires
        distinct_keys(slots_view(v@)),
    ensures
        match r {
            Some(b) => lookup(slots_view(v@), key@) == Some(b@),
            None => lookup(slots_view(v@), key@) is None,
        },
{
    let ghost s = slots_view(v@);
    match find_slot(v, key) {
        Some(i) => {
            proof {
                lemma_lookup_at(s, key@, i as int);
            }
            Some(&v[i].1)
        },
        None => {
            proof {
                lemma_lookup_none(s, key@);
            }
            None
        },
    }
}

impl BlobStore {
    /// An empty store rooted at the given directory.
    pub fn new(root: String) -> (r: BlobStore)
        ensures
            r@.wf(),
            r@.root == root@,
            r@.blobs == Seq::<SlotModel>::empty(),
            r@.covers == Seq::<SlotModel>::empty(),
    {
        let r = BlobStore { root, blobs: Vec::new(), covers: Vec::new() };
        proof {
            assert(slots_view(r.blobs@) =~= Seq::<SlotModel>::empty());
            assert(slots_view(r.covers@) =~= Seq::<SlotModel>::empty());
        }
        r
    }

    /// Stores a payload under its digest, idempotently: bytes already present
    /// at that digest are left untouched and the call still succeeds.
    pub fn put(&mut self, digest: &String, bytes: &Vec<u8>)
        requires
            old(self)@.wf(),
        ensures
            final(self)@.wf(),
            final(self)@.blobs == put_model(old(self)@.blobs, digest@, bytes@),
            final(self)@.covers == old(self)@.covers,
            final(self)@.root == old(self)@.root,
    {
        put_slot(&mut self.blobs, digest, bytes);
    }

    /// Stores a cover image under the digest of the blob it was extracted
    /// from, idempotently.
    pub fn put_cover(&mut self, digest: &String, bytes: &Vec<u8>)
        requires
            old(self)@.wf(),
        ensures
            final(self)@.wf(),
            final(self)@.covers == put_model(old(self)@.covers, digest@, bytes@),
            final(self)@.blobs == old(self)@.blobs,
            final(self)@.root == old(self)@.root,
    {
        put_slot(&mut self.covers, digest, bytes);
    }

    /// Reads the payload stored under a digest.
    pub fn get(&self, digest: &String) -> (r: Option<&Vec<u8>>)
        requires
            self@.wf(),
        ensures
            match r {
                Some(b) => lookup(self@.blobs, digest@) == Some(b@),
                None => lookup(self@.blobs, digest@) is None,
            },
    {
        get_slot(&self.blobs, digest)
    }

    /// Reads the cover image stored under a digest.
    pub fn get_cover(&self, digest: &String) -> (r: Option<&Vec<u8>>)
        requires
            self@.wf(),
        ensures
            match r {
                Some(b) => lookup(self@.covers, digest@) == Some(b@),
                None => lookup(self@.covers, digest@) is None,
            },
    {
        get_slot(&self.covers, digest)
    }

    /// Derives the filesystem path of a blob; existence is not checked.
    pub fn blob_path(&self, digest: &String) -> (r: String)
        ensures
            r@ == blob_path_of(self@.root, digest@),
    {
        let mut r = self.root.clone();
        r.append("/");
        r.append(digest.as_str());
        r.append(".bin");
        r
    }

    /// Derives the filesystem path of a cover image; existence is not
    /// checked.
    pub fn cover_path(&self, digest: &String) -> (r: String)
        ensures
            r@ == cover_path_of(self@.root, digest@),
    {
        let mut r = self.root.clone();
        r.append("/");
        r.append(digest.as_str());
        r.append("-cover.bin");
        r
    }

    /// How many distinct blobs the store holds.
    pub fn blob_count(&self) -> (r: usize)
        ensures
            r == self@.blobs.len(),
    {
        self.blobs.len()
    }

    /// How many cover images the store holds.
    pub fn cover_count(&self) -> (r: usize)
        ensures
            r == self@.covers.len(),
    {
        self.covers.len()
    }
}

} // verus!
