//! The ingestion pipeline and the per-owner catalog.
//!
//! `ingest` runs the whole pipeline — digest, idempotent blob write,
//! classification, write-once metadata enrichment, catalog row — and the
//! query operations (`describe`, `list`, `fetch_blob_path`,
//! `fetch_cover_path`, `remove`) are each scoped to a caller-supplied owner:
//! no operation returns or acts on another owner's entry.
//!
//! Every operation is specified exactly against `ServiceModel`, the
//! mathematical model of the whole service state.

use crate::config::Config;
use crate::errors::ServiceError;
use crate::extract::{extract_for_type, extraction_succeeds, extractor_result, ExtractedModel};
use crate::filename::{split_filename, split_name};
use crate::hashing::{digest, digest_of};
use crate::registry::{
    classify_model, find_by_id, lemma_classify_registers, normalize_ext, normalize_extension,
    FileTypeModel, FileTypeRecord, FileTypeRegistry, RegistryModel,
};
use crate::store::{
    blob_path_of, cover_path_of, lemma_put_distinct, lemma_put_idempotent,
    lemma_put_preserves_stored, put_model, stored, BlobStore, SlotModel, StoreModel,
};
use vstd::prelude::*;
use vstd::string::StringExecFns;

verus! {

/// One catalog row: a single upload event tying an owner to a stored blob
/// under a display title.  Two uploads of the same bytes give two entries
/// that share one blob.
pub struct CatalogEntry {
    pub id: u64,
    pub owner_id: u64,
    pub title: String,
    pub content_hash: String,
    pub file_type_id: u64,
}

/// The model of a catalog row.
pub ghost struct EntryModel {
    pub id: u64,
    pub owner_id: u64,
    pub title: Seq<char>,
    pub content_hash: Seq<char>,
    pub file_type_id: u64,
}

impl View for CatalogEntry {
    type V = EntryModel;

    open spec fn view(&self) -> EntryModel {
        EntryModel {
            id: self.id,
            owner_id: self.owner_id,
            title: self.title@,
            content_hash: self.content_hash@,
            file_type_id: self.file_type_id,
        }
    }
}

impl CatalogEntry {
    /// A fresh copy of this row.
    pub fn duplicate(&self) -> (r: CatalogEntry)
        ensures
            r@ == self@,
    {
        CatalogEntry {
            id: self.id,
            owner_id: self.owner_id,
            title: self.title.clone(),
            content_hash: self.content_hash.clone(),
            file_type_id: self.file_type_id,
        }
    }
}

/// Extracted metadata for one distinct payload, keyed by content digest so
/// every upload of the same bytes shares it.
pub struct BookMetadata {
    pub book_hash: String,
    pub title: String,
    pub creator: String,
    pub cover_mime: Option<String>,
}

/// The model of a metadata row.
pub ghost struct MetaModel {
    pub book_hash: Seq<char>,
    pub title: Seq<char>,
    pub creator: Seq<char>,
    pub cover_mime: Option<Seq<char>>,
}

impl View for BookMetadata {
    type V = MetaModel;

    open spec fn view(&self) -> MetaModel {
        MetaModel {
            book_hash: self.book_hash@,
            title: self.title@,
            creator: self.creator@,
            cover_mime: match self.cover_mime {
                Some(s) => Some(s@),
                None => None,
            },
        }
    }
}

impl BookMetadata {
    /// A fresh copy of this row.
    pub fn duplicate(&self) -> (r: BookMetadata)
        ensures
            r@ == self@,
    {
        BookMetadata {
            book_hash: self.book_hash.clone(),
            title: self.title.clone(),
            creator: self.creator.clone(),
            cover_mime: match &self.cover_mime {
                Some(s) => Some(s.clone()),
                None => None,
            },
        }
    }
}

/// Everything known about one catalog entry: the row itself, its file type,
/// and the shared metadata row if one was ever extracted.
pub struct FullDescriptor {
    pub entry: CatalogEntry,
    pub file_type: FileTypeRecord,
    pub meta: Option<BookMetadata>,
}

/// The model of a full descriptor.
pub ghost struct DescriptorModel {
    pub entry: EntryModel,
    pub file_type: FileTypeModel,
    pub meta: Option<MetaModel>,
}

impl View for FullDescriptor {
    type V = DescriptorModel;

    open spec fn view(&self) -> DescriptorModel {
        DescriptorModel {
            entry: self.entry@,
            file_type: self.file_type@,
            meta: match self.meta {
                Some(m) => Some(m@),
                None => None,
            },
        }
    }
}

/// The metadata row stored for a digest, if any.
pub open spec fn find_meta(ms: Seq<MetaModel>, h: Seq<char>) -> Option<MetaModel>
    decreases ms.len(),
{
    if ms.len() == 0 {
        None
    } else if ms.last().book_hash == h {
        Some(ms.last())
    } else {
        find_meta(ms.drop_last(), h)
    }
}

/// The catalog row with an id, if any.
pub open spec fn find_entry(es: Seq<EntryModel>, id: u64) -> Option<EntryModel>
    decreases es.len(),
{
    if es.len() == 0 {
        None
    } else if es.last().id == id {
        Some(es.last())
    } else {
        find_entry(es.drop_last(), id)
    }
}

/// The rows an owner may see, in catalog order.
pub open spec fn entries_of(es: Seq<EntryModel>, owner: u64) -> Seq<EntryModel>
    decreases es.len(),
{
    if es.len() == 0 {
        Seq::empty()
    } else {
        let rest = entries_of(es.drop_last(), owner);
        if es.last().owner_id == owner {
            rest.push(es.last())
        } else {
            rest
        }
    }
}

/// The catalog without the row matching both id and owner.
pub open spec fn remove_model(es: Seq<EntryModel>, id: u64, owner: u64) -> Seq<EntryModel>
    decreases es.len(),
{
    if es.len() == 0 {
        Seq::empty()
    } else {
        let rest = remove_model(es.drop_last(), id, owner);
        if es.last().id == id && es.last().owner_id == owner {
            rest
        } else {
            rest.push(es.last())
        }
    }
}

/// A digest matches no metadata row exactly when its lookup fails.
pub proof fn lemma_find_meta_none(ms: Seq<MetaModel>, h: Seq<char>)
    ensures
        (find_meta(ms, h) is None) <==> (forall|i: int|
            0 <= i < ms.len() ==> ms[i].book_hash != h),
    decreases ms.len(),
{
    if ms.len() > 0 {
        lemma_find_meta_none(ms.drop_last(), h);
        if ms.last().book_hash != h && (forall|i: int|
            0 <= i < ms.drop_last().len() ==> ms.drop_last()[i].book_hash != h) {
            assert forall|i: int| 0 <= i < ms.len() implies ms[i].book_hash != h by {
                if i < ms.len() - 1 {
                    assert(ms.drop_last()[i].book_hash != h);
                }
            }
        }
    }
}

/// Under distinct digests, a matching metadata row is the lookup's result.
pub proof fn lemma_find_meta_at(ms: Seq<MetaModel>, h: Seq<char>, i: int)
    requires
        forall|p: int, q: int| 0 <= p < q < ms.len() ==> ms[p].book_hash != ms[q].book_hash,
        0 <= i < ms.len(),
        ms[i].book_hash == h,
    ensures
        find_meta(ms, h) == Some(ms[i]),
    decreases ms.len(),
{
    if i < ms.len() - 1 {
        lemma_find_meta_at(ms.drop_last(), h, i);
    }
}

/// An id matches no catalog row exactly when its lookup fails.
pub proof fn lemma_find_entry_none(es: Seq<EntryModel>, id: u64)
    ensures
        (find_entry(es, id) is None) <==> (forall|i: int| 0 <= i < es.len() ==> es[i].id != id),
    decreases es.len(),
{
    if es.len() > 0 {
        lemma_find_entry_none(es.drop_last(), id);
        if es.last().id != id && (forall|i: int|
            0 <= i < es.drop_last().len() ==> es.drop_last()[i].id != id) {
            assert forall|i: int| 0 <= i < es.len() implies es[i].id != id by {
                if i < es.len() - 1 {
                    assert(es.drop_last()[i].id != id);
                }
            }
        }
    }
}

/// Under distinct ids, a matching catalog row is the lookup's result.
pub proof fn lemma_find_entry_at(es: Seq<EntryModel>, id: u64, i: int)
    requires
        forall|p: int, q: int| 0 <= p < q < es.len() ==> es[p].id != es[q].id,
        0 <= i < es.len(),
        es[i].id == id,
    ensures
        find_entry(es, id) == Some(es[i]),
    decreases es.len(),
{
    if i < es.len() - 1 {
        lemma_find_entry_at(es.drop_last(), id, i);
    }
}

/// The model of the whole service: store, registry, metadata table, catalog
/// and the next fresh entry id.
#[verifier::ext_equal]
pub ghost struct ServiceModel {
    pub store: StoreModel,
    pub registry: RegistryModel,
    pub default_ext: Seq<char>,
    pub metadata: Seq<MetaModel>,
    pub catalog: Seq<EntryModel>,
    pub next_entry_id: u64,
}

impl ServiceModel {
    /// The service invariant: the store and registry are well formed, at
    /// most one metadata row exists per digest, catalog ids are unique and
    /// below the next fresh id, every row's file type is registered, and no
    /// row ever points at a missing blob.
    pub open spec fn wf(self) -> bool {
        &&& self.store.wf()
        &&& self.registry.wf()
        &&& forall|p: int, q: int|
            0 <= p < q < self.metadata.len() ==> self.metadata[p].book_hash
                != self.metadata[q].book_hash
        &&& forall|p: int, q: int|
            0 <= p < q < self.catalog.len() ==> self.catalog[p].id != self.catalog[q].id
        &&& forall|i: int| 0 <= i < self.catalog.len() ==> self.catalog[i].id < self.next_entry_id
        &&& forall|i: int|
            0 <= i < self.catalog.len() ==> find_by_id(
                self.registry.records,
                self.catalog[i].file_type_id,
            ) is Some
        &&& forall|i: int|
            0 <= i < self.catalog.len() ==> stored(
                self.store.blobs,
                self.catalog[i].content_hash,
            )
    }
}

/// The metadata row recorded for a digest after a successful extraction.
pub open spec fn meta_row_of(h: Seq<char>, e: ExtractedModel) -> MetaModel {
    MetaModel {
        book_hash: h,
        title: e.title,
        creator: e.creator,
        cover_mime: match e.cover {
            Some(cv) => Some(cv.1),
            None => None,
        },
    }
}

/// The catalog row one ingest appends.  It depends only on the owner, the
/// filename and the bytes — never on what extraction reported.
pub open spec fn ingest_entry(
    m: ServiceModel,
    owner: u64,
    filename: Seq<char>,
    bytes: Seq<u8>,
) -> EntryModel {
    let split = split_name(filename);
    let key = normalize_ext(split.1, m.default_ext);
    EntryModel {
        id: m.next_entry_id,
        owner_id: owner,
        title: split.0,
        content_hash: digest_of(bytes),
        file_type_id: classify_model(m.registry, key).1,
    }
}

/// One ingest, in order: digest the bytes, store the blob idempotently,
/// classify the filename's extension, enrich the metadata table once per
/// digest, and append the catalog row.  The second component is the row
/// appended.  `cover` is the cover image the parser reported, which the
/// specification does not pin down (see `extract`): every other part of the
/// transition is exact in the inputs.
pub open spec fn ingest_model(
    m: ServiceModel,
    owner: u64,
    filename: Seq<char>,
    bytes: Seq<u8>,
    cover: Option<(Seq<u8>, Seq<char>)>,
) -> (ServiceModel, EntryModel) {
    let h = digest_of(bytes);
    let blobs1 = put_model(m.store.blobs, h, bytes);
    let split = split_name(filename);
    let key = normalize_ext(split.1, m.default_ext);
    let classified = classify_model(m.registry, key);
    let extracted = if find_meta(m.metadata, h) is None {
        extractor_result(key, bytes, cover)
    } else {
        None
    };
    let metadata1 = match extracted {
        Some(e) => m.metadata.push(meta_row_of(h, e)),
        None => m.metadata,
    };
    let covers1 = match extracted {
        Some(e) => match e.cover {
            Some(cv) => put_model(m.store.covers, h, cv.0),
            None => m.store.covers,
        },
        None => m.store.covers,
    };
    let entry = ingest_entry(m, owner, filename, bytes);
    (
        ServiceModel {
            store: StoreModel { root: m.store.root, blobs: blobs1, covers: covers1 },
            registry: classified.0,
            default_ext: m.default_ext,
            metadata: metadata1,
            catalog: m.catalog.push(entry),
            next_entry_id: (m.next_entry_id + 1) as u64,
        },
        entry,
    )
}

/// An ingest preserves the service invariant, whatever cover the parser
/// reported.
pub proof fn lemma_ingest_preserves_wf(
    m: ServiceModel,
    owner: u64,
    filename: Seq<char>,
    bytes: Seq<u8>,
    cover: Option<(Seq<u8>, Seq<char>)>,
)
    requires
        m.wf(),
        m.next_entry_id < u64::MAX,
        m.registry.next_id < u64::MAX,
    ensures
        ingest_model(m, owner, filename, bytes, cover).0.wf(),
{
    let h = digest_of(bytes);
    let split = split_name(filename);
    let key = normalize_ext(split.1, m.default_ext);
    let m1 = ingest_model(m, owner, filename, bytes, cover).0;
    let entry = ingest_model(m, owner, filename, bytes, cover).1;
    lemma_put_distinct(m.store.blobs, h, bytes);
    lemma_classify_registers(m.registry, key);
    let extracted = if find_meta(m.metadata, h) is None {
        extractor_result(key, bytes, cover)
    } else {
        None
    };
    match extracted {
        Some(e) => {
            lemma_find_meta_none(m.metadata, h);
            let ms1 = m.metadata.push(meta_row_of(h, e));
            assert forall|p: int, q: int|
                0 <= p < q < ms1.len() implies ms1[p].book_hash != ms1[q].book_hash by {
                if q < ms1.len() - 1 {
                    assert(m.metadata[p].book_hash != m.metadata[q].book_hash);
                }
            }
            match e.cover {
                Some(cv) => {
                    lemma_put_distinct(m.store.covers, h, cv.0);
                },
                None => {},
            }
        },
        None => {},
    }
    let es1 = m.catalog.push(entry);
    assert forall|p: int, q: int| 0 <= p < q < es1.len() implies es1[p].id != es1[q].id by {
        if q < es1.len() - 1 {
            assert(m.catalog[p].id != m.catalog[q].id);
        }
    }
    assert forall|i: int|
        0 <= i < es1.len() implies find_by_id(m1.registry.records, es1[i].file_type_id) is Some by {
        if i < es1.len() - 1 {
            assert(find_by_id(m.registry.records, m.catalog[i].file_type_id) is Some);
        }
    }
    lemma_put_idempotent(m.store.blobs, h, bytes);
    assert forall|i: int| 0 <= i < es1.len() implies stored(
        m1.store.blobs,
        es1[i].content_hash,
    ) by {
        if i < es1.len() - 1 {
            assert(stored(m.store.blobs, m.catalog[i].content_hash));
            lemma_put_preserves_stored(m.store.blobs, h, bytes, m.catalog[i].content_hash);
        }
    }
}

/// The views of the metadata rows a vector holds.
pub open spec fn metas_view(ms: Seq<BookMetadata>) -> Seq<MetaModel> {
    ms.map_values(|r: BookMetadata| r@)
}

/// The views of the catalog rows a vector holds.
pub open spec fn entries_view(es: Seq<CatalogEntry>) -> Seq<EntryModel> {
    es.map_values(|r: CatalogEntry| r@)
}

/// The index of the metadata row for a digest, if any.
fn find_meta_index(ms: &Vec<BookMetadata>, h: &String) -> (r: Option<usize>)
    ensures
        match r {
            Some(i) => i < ms@.len() && ms@[i as int].book_hash@ == h@,
            None => forall|i: int| 0 <= i < ms@.len() ==> ms@[i].book_hash@ != h@,
        },
{
    let mut i: usize = 0;
    while i < ms.len()
        invariant
            i <= ms@.len(),
            forall|j: int| 0 <= j < i ==> ms@[j].book_hash@ != h@,
        decreases ms@.len() - i,
    {
        if ms[i].book_hash == *h {
            return Some(i);
        }
        i = i + 1;
    }
    None
}

/// The ingestion pipeline and catalog, backed by in-memory tables.
pub struct BookService {
    store: BlobStore,
    registry: FileTypeRegistry,
    default_ext: String,
    metadata: Vec<BookMetadata>,
    catalog: Vec<CatalogEntry>,
    next_entry_id: u64,
}

impl View for BookService {
    type V = ServiceModel;

    closed spec fn view(&self) -> ServiceModel {
        ServiceModel {
            store: self.store@,
            registry: self.registry@,
            default_ext: self.default_ext@,
            metadata: metas_view(self.metadata@),
            catalog: entries_view(self.catalog@),
            next_entry_id: self.next_entry_id,
        }
    }
}

impl BookService {
    /// An empty service rooted at the configured storage path, with the
    /// e-book container format as the default extension.
    pub fn new(config: &Config) -> (r: BookService)
        ensures
            r@.wf(),
            r@.store.root == config.filepath@,
            r@.store.blobs == Seq::<SlotModel>::empty(),
            r@.store.covers == Seq::<SlotModel>::empty(),
            r@.registry.records == Seq::<FileTypeModel>::empty(),
            r@.registry.next_id == 1u64,
            r@.default_ext == "epub"@,
            r@.metadata == Seq::<MetaModel>::empty(),
            r@.catalog == Seq::<EntryModel>::empty(),
            r@.next_entry_id == 1u64,
    {
        let r = BookService {
            store: BlobStore::new(config.filepath.clone()),
            registry: FileTypeRegistry::new(),
            default_ext: "epub".to_owned(),
            metadata: Vec::new(),
            catalog: Vec::new(),
            next_entry_id: 1,
        };
        proof {
            assert(metas_view(r.metadata@) =~= Seq::<MetaModel>::empty());
            assert(entries_view(r.catalog@) =~= Seq::<EntryModel>::empty());
        }
        r
    }

    /// Whether another ingest is within the id space; the embedding
    /// application checks this before calling `ingest`.
    pub fn can_ingest(&self) -> (r: bool)
        ensures
            r == (self@.next_entry_id < u64::MAX && self@.registry.next_id < u64::MAX),
    {
        self.next_entry_id < u64::MAX && self.registry.next_available_id() < u64::MAX
    }

    /// Ingests one upload: digests the bytes, stores the blob idempotently,
    /// classifies the filename's extension, extracts metadata once per
    /// digest (failure of extraction is silent by design), and appends the
    /// catalog row, which is returned.  The whole transition is exact in the
    /// inputs but for the reported cover image, which the model takes as it
    /// came (see `extract`).
    pub fn ingest(&mut self, owner_id: u64, filename: &str, bytes: Vec<u8>) -> (r: CatalogEntry)
        requires
            old(self)@.wf(),
            old(self)@.next_entry_id < u64::MAX,
            old(self)@.registry.next_id < u64::MAX,
        ensures
            final(self)@.wf(),
            r@ == ingest_entry(old(self)@, owner_id, filename@, bytes@),
            exists|cover: Option<(Seq<u8>, Seq<char>)>|
                final(self)@ == ingest_model(old(self)@, owner_id, filename@, bytes@, cover).0,
    {
        let ghost m = self@;
        let ghost mut witness: Option<(Seq<u8>, Seq<char>)> = None;
        let hash = digest(&bytes);
        self.store.put(&hash, &bytes);
        let split = split_filename(filename);
        let stem = split.0;
        let rawext = split.1;
        let key = normalize_extension(rawext.as_str(), self.default_ext.as_str());
        let ftid = self.registry.classify_key(&key);
        let existing = find_meta_index(&self.metadata, &hash);
        proof {
            match existing {
                Some(i) => {
                    lemma_find_meta_at(m.metadata, hash@, i as int);
                },
                None => {
                    lemma_find_meta_none(m.metadata, hash@);
                },
            }
        }
        if existing.is_none() {
            match extract_for_type(&key, &bytes) {
                Some(em) => {
                    proof {
                        witness = em@.cover;
                    }
                    let cover_mime: Option<String> = match em.cover {
                        Some(cv) => {
                            self.store.put_cover(&hash, &cv.0);
                            Some(cv.1)
                        },
                        None => None,
                    };
                    self.metadata.push(
                        BookMetadata {
                            book_hash: hash.clone(),
                            title: em.title,
                            creator: em.creator,
                            cover_mime,
                        },
                    );
                    proof {
                        assert(metas_view(self.metadata@) =~= m.metadata.push(
                            meta_row_of(
                                hash@,
                                extractor_result(key@, bytes@, witness)->0,
                            ),
                        ));
                    }
                },
                None => {},
            }
        }
        let entry = CatalogEntry {
            id: self.next_entry_id,
            owner_id,
            title: stem,
            content_hash: hash,
            file_type_id: ftid,
        };
        let stored_row = entry.duplicate();
        self.catalog.push(stored_row);
        self.next_entry_id = self.next_entry_id + 1;
        proof {
            lemma_ingest_preserves_wf(m, owner_id, filename@, bytes@, witness);
            assert(entries_view(self.catalog@) =~= m.catalog.push(entry@));
            assert(self@ =~~= ingest_model(m, owner_id, filename@, bytes@, witness).0);
        }
        entry
    }

    /// The index of the catalog row with an id, if any.
    fn find_entry_index(&self, id: u64) -> (r: Option<usize>)
        ensures
            match r {
                Some(i) => i < self@.catalog.len() && self@.catalog[i as int].id == id,
                None => forall|i: int| 0 <= i < self@.catalog.len() ==> self@.catalog[i].id != id,
            },
    {
        let mut i: usize = 0;
        while i < self.catalog.len()
            invariant
                i <= self.catalog@.len(),
                forall|j: int| 0 <= j < i ==> self.catalog@[j].id != id,
            decreases self.catalog@.len() - i,
        {
            if self.catalog[i].id == id {
                return Some(i);
            }
            i = i + 1;
        }
        None
    }

    /// Describes one catalog entry for its owner: the row joined with its
    /// file type and, if one was ever extracted, the shared metadata row.
    /// Fails `NotFound` exactly when no entry with that id belongs to the
    /// caller.
    pub fn describe(&self, entry_id: u64, owner_id: u64) -> (r: Result<
        FullDescriptor,
        ServiceError,
    >)
        requires
            self@.wf(),
        ensures
            match r {
                Ok(d) => describe_model(self@, entry_id, owner_id) == Some(d@),
                Err(e) => e == ServiceError::NotFound && describe_model(
                    self@,
                    entry_id,
                    owner_id,
                ) is None,
            },
    {
        match self.find_entry_index(entry_id) {
            Some(i) => {
                proof {
                    lemma_find_entry_at(self@.catalog, entry_id, i as int);
                }
                let entry = self.catalog[i].duplicate();
                if entry.owner_id != owner_id {
                    return Err(ServiceError::NotFound);
                }
                let file_type = match self.registry.get(entry.file_type_id) {
                    Some(ft) => ft,
                    None => {
                        proof {
                            assert(find_by_id(
                                self@.registry.records,
                                self@.catalog[i as int].file_type_id,
                            ) is Some);
                            assert(false);
                        }
                        return Err(ServiceError::NotFound);
                    },
                };
                let meta = match find_meta_index(&self.metadata, &entry.content_hash) {
                    Some(j) => {
                        proof {
                            lemma_find_meta_at(self@.metadata, entry.content_hash@, j as int);
                        }
                        Some(self.metadata[j].duplicate())
                    },
                    None => {
                        proof {
                            lemma_find_meta_none(self@.metadata, entry.content_hash@);
                        }
                        None
                    },
                };
                Ok(FullDescriptor { entry, file_type, meta })
            },
            None => {
                proof {
                    lemma_find_entry_none(self@.catalog, entry_id);
                }
                Err(ServiceError::NotFound)
            },
        }
    }

    /// Lists every catalog row the owner may see, in catalog order.
    pub fn list(&self, owner_id: u64) -> (r: Vec<CatalogEntry>)
        ensures
            entries_view(r@) == entries_of(self@.catalog, owner_id),
    {
        let ghost c = self@.catalog;
        let mut out: Vec<CatalogEntry> = Vec::new();
        let mut i: usize = 0;
        proof {
            assert(c.take(0) =~= Seq::<EntryModel>::empty());
            assert(entries_view(out@) =~= entries_of(c.take(0), owner_id));
        }
        while i < self.catalog.len()
            invariant
                i <= self.catalog@.len(),
                c == self@.catalog,
                self.catalog@.len() == c.len(),
                entries_view(out@) == entries_of(c.take(i as int), owner_id),
            decreases self.catalog@.len() - i,
        {
            let ghost prev = out@;
            if self.catalog[i].owner_id == owner_id {
                out.push(self.catalog[i].duplicate());
            }
            proof {
                assert(c.take(i as int + 1).drop_last() =~= c.take(i as int));
                assert(c.take(i as int + 1).last() == c[i as int]);
                if c[i as int].owner_id == owner_id {
                    assert(entries_view(out@) =~= entries_view(prev).push(c[i as int]));
                }
            }
            i = i + 1;
        }
        proof {
            assert(c.take(c.len() as int) =~= c);
        }
        out
    }

    /// Removes the catalog row matching both the id and the caller, and
    /// reports how many rows went away (at most one).  The blob and the
    /// metadata row stay: other entries and owners may share them.
    pub fn remove(&mut self, entry_id: u64, owner_id: u64) -> (r: u64)
        requires
            old(self)@.wf(),
        ensures
            final(self)@.wf(),
            final(self)@ == (ServiceModel {
                catalog: remove_model(old(self)@.catalog, entry_id, owner_id),
                ..old(self)@
            }),
            r as int == old(self)@.catalog.len() - remove_model(
                old(self)@.catalog,
                entry_id,
                owner_id,
            ).len(),
            r <= 1,
            r == 1 <==> (find_entry(old(self)@.catalog, entry_id) matches Some(e)
                && e.owner_id == owner_id),
    {
        let ghost m = self@;
        let ghost c = m.catalog;
        proof {
            lemma_remove_model_len(c, entry_id, owner_id);
            lemma_remove_model_distinct(c, entry_id, owner_id);
        }
        let mut kept: Vec<CatalogEntry> = Vec::new();
        let mut removed: usize = 0;
        let mut i: usize = 0;
        proof {
            assert(c.take(0) =~= Seq::<EntryModel>::empty());
            assert(entries_view(kept@) =~= remove_model(c.take(0), entry_id, owner_id));
        }
        while i < self.catalog.len()
            invariant
                i <= self.catalog@.len(),
                c == self@.catalog,
                self.catalog@.len() == c.len(),
                entries_view(kept@) == remove_model(c.take(i as int), entry_id, owner_id),
                removed as int == c.take(i as int).len() - remove_model(
                    c.take(i as int),
                    entry_id,
                    owner_id,
                ).len(),
                removed <= i,
            decreases self.catalog@.len() - i,
        {
            let ghost prev = kept@;
            if self.catalog[i].id == entry_id && self.catalog[i].owner_id == owner_id {
                removed = removed + 1;
            } else {
                kept.push(self.catalog[i].duplicate());
            }
            proof {
                assert(c.take(i as int + 1).drop_last() =~= c.take(i as int));
                assert(c.take(i as int + 1).last() == c[i as int]);
                if !(c[i as int].id == entry_id && c[i as int].owner_id == owner_id) {
                    assert(entries_view(kept@) =~= entries_view(prev).push(c[i as int]));
                }
            }
            i = i + 1;
        }
        proof {
            assert(c.take(c.len() as int) =~= c);
        }
        self.catalog = kept;
        proof {
            let res = remove_model(c, entry_id, owner_id);
            assert forall|i2: int| 0 <= i2 < res.len() implies res[i2].id
                < m.next_entry_id by {
                assert(res.contains(res[i2]));
                let j = choose|j: int| 0 <= j < c.len() && c[j] == res[i2];
            }
            assert forall|i2: int| 0 <= i2 < res.len() implies find_by_id(
                m.registry.records,
                res[i2].file_type_id,
            ) is Some by {
                assert(res.contains(res[i2]));
                let j = choose|j: int| 0 <= j < c.len() && c[j] == res[i2];
            }
            assert forall|i2: int| 0 <= i2 < res.len() implies stored(
                m.store.blobs,
                res[i2].content_hash,
            ) by {
                assert(res.contains(res[i2]));
                let j = choose|j: int| 0 <= j < c.len() && c[j] == res[i2];
            }
            assert(self@ =~~= (ServiceModel { catalog: res, ..m }));
        }
        removed as u64
    }

    /// The stored path and download filename (`<title>.<extension>`) of an
    /// owned entry's blob; existence on disk is not checked.  Fails
    /// `NotFound` under the same rule as `describe`.
    pub fn fetch_blob_path(&self, entry_id: u64, owner_id: u64) -> (r: Result<
        (String, String),
        ServiceError,
    >)
        requires
            self@.wf(),
        ensures
            match r {
                Ok(p) => blob_fetch_model(self@, entry_id, owner_id) == Some((p.0@, p.1@)),
                Err(e) => e == ServiceError::NotFound && blob_fetch_model(
                    self@,
                    entry_id,
                    owner_id,
                ) is None,
            },
    {
        match self.find_entry_index(entry_id) {
            Some(i) => {
                proof {
                    lemma_find_entry_at(self@.catalog, entry_id, i as int);
                }
                let entry = self.catalog[i].duplicate();
                if entry.owner_id != owner_id {
                    return Err(ServiceError::NotFound);
                }
                let file_type = match self.registry.get(entry.file_type_id) {
                    Some(ft) => ft,
                    None => {
                        proof {
                            assert(find_by_id(
                                self@.registry.records,
                                self@.catalog[i as int].file_type_id,
                            ) is Some);
                            assert(false);
                        }
                        return Err(ServiceError::NotFound);
                    },
                };
                let path = self.store.blob_path(&entry.content_hash);
                let mut name = entry.title.clone();
                name.append(".");
                name.append(file_type.name.as_str());
                Ok((path, name))
            },
            None => {
                proof {
                    lemma_find_entry_none(self@.catalog, entry_id);
                }
                Err(ServiceError::NotFound)
            },
        }
    }

    /// The stored path, declared mime type and display name
    /// (`<creator> - <title>`) of an owned entry's extracted cover, or
    /// `None` when no metadata or no cover was ever extracted for its
    /// digest.  Fails `NotFound` under the same rule as `describe`.
    pub fn fetch_cover_path(&self, entry_id: u64, owner_id: u64) -> (r: Result<
        Option<(String, String, String)>,
        ServiceError,
    >)
        requires
            self@.wf(),
        ensures
            match r {
                Ok(Some(t)) => cover_fetch_model(self@, entry_id, owner_id) == Some(
                    Some((t.0@, t.1@, t.2@)),
                ),
                Ok(None) => cover_fetch_model(self@, entry_id, owner_id) == Some(
                    None::<(Seq<char>, Seq<char>, Seq<char>)>,
                ),
                Err(e) => e == ServiceError::NotFound && cover_fetch_model(
                    self@,
                    entry_id,
                    owner_id,
                ) is None,
            },
    {
        match self.find_entry_index(entry_id) {
            Some(i) => {
                proof {
                    lemma_find_entry_at(self@.catalog, entry_id, i as int);
                }
                let entry = self.catalog[i].duplicate();
                if entry.owner_id != owner_id {
                    return Err(ServiceError::NotFound);
                }
                match find_meta_index(&self.metadata, &entry.content_hash) {
                    Some(j) => {
                        proof {
                            lemma_find_meta_at(self@.metadata, entry.content_hash@, j as int);
                        }
                        match &self.metadata[j].cover_mime {
                            Some(mime) => {
                                let path = self.store.cover_path(&entry.content_hash);
                                let mut display = self.metadata[j].creator.clone();
                                display.append(" - ");
                                display.append(self.metadata[j].title.as_str());
                                Ok(Some((path, mime.clone(), display)))
                            },
                            None => Ok(None),
                        }
                    },
                    None => {
                        proof {
                            lemma_find_meta_none(self@.metadata, entry.content_hash@);
                        }
                        Ok(None)
                    },
                }
            },
            None => {
                proof {
                    lemma_find_entry_none(self@.catalog, entry_id);
                }
                Err(ServiceError::NotFound)
            },
        }
    }

    /// Reads back the stored payload for a digest.
    pub fn blob_bytes(&self, content_hash: &String) -> (r: Option<&Vec<u8>>)
        requires
            self@.wf(),
        ensures
            match r {
                Some(b) => crate::store::lookup(self@.store.blobs, content_hash@) == Some(b@),
                None => crate::store::lookup(self@.store.blobs, content_hash@) is None,
            },
    {
        self.store.get(content_hash)
    }

    /// Reads back the stored cover image for a digest.
    pub fn cover_bytes(&self, content_hash: &String) -> (r: Option<&Vec<u8>>)
        requires
            self@.wf(),
        ensures
            match r {
                Some(b) => crate::store::lookup(self@.store.covers, content_hash@) == Some(b@),
                None => crate::store::lookup(self@.store.covers, content_hash@) is None,
            },
    {
        self.store.get_cover(content_hash)
    }

    /// How many distinct blobs are stored.
    pub fn blob_count(&self) -> (r: usize)
        ensures
            r == self@.store.blobs.len(),
    {
        self.store.blob_count()
    }

    /// How many cover images are stored.
    pub fn cover_count(&self) -> (r: usize)
        ensures
            r == self@.store.covers.len(),
    {
        self.store.cover_count()
    }

    /// How many metadata rows exist.
    pub fn metadata_count(&self) -> (r: usize)
        ensures
            r == self@.metadata.len(),
    {
        self.metadata.len()
    }

    /// How many catalog rows exist.
    pub fn entry_count(&self) -> (r: usize)
        ensures
            r == self@.catalog.len(),
    {
        self.catalog.len()
    }

    /// How many file types are registered.
    pub fn type_count(&self) -> (r: usize)
        ensures
            r == self@.registry.records.len(),
    {
        self.registry.count()
    }
}

/// What `describe` yields: present exactly when the entry exists and belongs
/// to the caller.
pub open spec fn describe_model(m: ServiceModel, entry_id: u64, owner_id: u64) -> Option<
    DescriptorModel,
> {
    match find_entry(m.catalog, entry_id) {
        Some(e) => if e.owner_id == owner_id {
            Some(
                DescriptorModel {
                    entry: e,
                    file_type: find_by_id(m.registry.records, e.file_type_id)->0,
                    meta: find_meta(m.metadata, e.content_hash),
                },
            )
        } else {
            None
        },
        None => None,
    }
}

/// What `fetch_blob_path` yields for an owned entry: the blob's stored path
/// and its download filename.
pub open spec fn blob_fetch_model(m: ServiceModel, entry_id: u64, owner_id: u64) -> Option<
    (Seq<char>, Seq<char>),
> {
    match find_entry(m.catalog, entry_id) {
        Some(e) => if e.owner_id == owner_id {
            Some(
                (
                    blob_path_of(m.store.root, e.content_hash),
                    e.title + "."@ + find_by_id(m.registry.records, e.file_type_id)->0.name,
                ),
            )
        } else {
            None
        },
        None => None,
    }
}

/// What `fetch_cover_path` yields for an owned entry: the cover's stored
/// path, mime type and display name, or nothing when no cover was ever
/// extracted for the entry's digest.
pub open spec fn cover_fetch_model(m: ServiceModel, entry_id: u64, owner_id: u64) -> Option<
    Option<(Seq<char>, Seq<char>, Seq<char>)>,
> {
    match find_entry(m.catalog, entry_id) {
        Some(e) => if e.owner_id == owner_id {
            Some(
                match find_meta(m.metadata, e.content_hash) {
                    Some(meta) => match meta.cover_mime {
                        Some(mime) => Some(
                            (
                                cover_path_of(m.store.root, e.content_hash),
                                mime,
                                meta.creator + " - "@ + meta.title,
                            ),
                        ),
                        None => None,
                    },
                    None => None,
                },
            )
        } else {
            None
        },
        None => None,
    }
}

/// Removal takes away at most one row: exactly one when a row matches both
/// the id and the owner, none otherwise.
pub proof fn lemma_remove_model_len(es: Seq<EntryModel>, id: u64, owner: u64)
    requires
        forall|p: int, q: int| 0 <= p < q < es.len() ==> es[p].id != es[q].id,
    ensures
        remove_model(es, id, owner).len() <= es.len(),
        es.len() - remove_model(es, id, owner).len() <= 1,
        (es.len() - remove_model(es, id, owner).len() == 1) <==> (find_entry(es, id) matches Some(
            e,
        ) && e.owner_id == owner),
    decreases es.len(),
{
    if es.len() > 0 {
        let d = es.drop_last();
        lemma_remove_model_len(d, id, owner);
        if es.last().id == id {
            lemma_find_entry_none(d, id);
            assert forall|i: int| 0 <= i < d.len() implies d[i].id != id by {
                assert(es[i].id != es[es.len() - 1].id);
            }
        }
    }
}

/// Removal keeps only rows of the original catalog and keeps ids distinct.
pub proof fn lemma_remove_model_distinct(es: Seq<EntryModel>, id: u64, owner: u64)
    requires
        forall|p: int, q: int| 0 <= p < q < es.len() ==> es[p].id != es[q].id,
    ensures
        ({
            let res = remove_model(es, id, owner);
            &&& forall|x: EntryModel| res.contains(x) ==> es.contains(x)
            &&& forall|p: int, q: int| 0 <= p < q < res.len() ==> res[p].id != res[q].id
        }),
    decreases es.len(),
{
    if es.len() > 0 {
        let d = es.drop_last();
        lemma_remove_model_distinct(d, id, owner);
        let rest = remove_model(d, id, owner);
        assert forall|x: EntryModel| d.contains(x) implies es.contains(x) by {
            let k = choose|k: int| 0 <= k < d.len() && d[k] == x;
            assert(es[k] == x);
        }
        let res = remove_model(es, id, owner);
        if !(es.last().id == id && es.last().owner_id == owner) {
            assert(res == rest.push(es.last()));
            assert forall|x: EntryModel| res.contains(x) implies es.contains(x) by {
                let k = choose|k: int| 0 <= k < res.len() && res[k] == x;
                if k == res.len() - 1 {
                    assert(es[es.len() - 1] == x);
                } else {
                    assert(rest.contains(x));
                }
            }
            assert forall|p: int, q: int|
                0 <= p < q < res.len() implies res[p].id != res[q].id by {
                if q == res.len() - 1 {
                    assert(rest.contains(res[p]));
                    assert(d.contains(res[p]));
                    let j = choose|j: int| 0 <= j < d.len() && d[j] == res[p];
                    assert(es[j].id != es[es.len() - 1].id);
                }
            }
        }
    }
}

/// Every row an owner lists is that owner's.
pub proof fn lemma_list_owned(es: Seq<EntryModel>, owner: u64)
    ensures
        forall|i: int|
            0 <= i < entries_of(es, owner).len() ==> entries_of(es, owner)[i].owner_id == owner,
    decreases es.len(),
{
    if es.len() > 0 {
        lemma_list_owned(es.drop_last(), owner);
        let rest = entries_of(es.drop_last(), owner);
        let res = entries_of(es, owner);
        assert forall|i: int| 0 <= i < res.len() implies res[i].owner_id == owner by {
            if i < rest.len() {
                assert(rest[i].owner_id == owner);
            }
        }
    }
}

/// Dedup of content: ingesting the same bytes twice — any owners, any
/// filenames, whatever covers the parser reported — appends two catalog
/// rows that share one digest, stores the blob's payload at most once and
/// never twice, adds at most one metadata row altogether, and when the
/// first ingest extracted metadata the second performs no enrichment at all
/// (write-once semantics).
pub proof fn lemma_ingest_dedup(
    m: ServiceModel,
    o1: u64,
    o2: u64,
    f1: Seq<char>,
    f2: Seq<char>,
    bytes: Seq<u8>,
    cover1: Option<(Seq<u8>, Seq<char>)>,
    cover2: Option<(Seq<u8>, Seq<char>)>,
)
    requires
        m.wf(),
        m.next_entry_id + 1 < u64::MAX,
        m.registry.next_id + 1 < u64::MAX,
    ensures
        ({
            let first = ingest_model(m, o1, f1, bytes, cover1);
            let second = ingest_model(first.0, o2, f2, bytes, cover2);
            &&& second.0.catalog.len() == m.catalog.len() + 2
            &&& first.1.content_hash == second.1.content_hash
            &&& second.0.store.blobs == first.0.store.blobs
            &&& first.0.store.blobs.len() <= m.store.blobs.len() + 1
            &&& stored(first.0.store.blobs, digest_of(bytes))
            &&& second.0.metadata.len() <= m.metadata.len() + 1
            &&& (first.0.metadata.len() > m.metadata.len() ==> second.0.metadata
                == first.0.metadata && second.0.store.covers == first.0.store.covers)
        }),
{
    let h = digest_of(bytes);
    lemma_put_idempotent(m.store.blobs, h, bytes);
    let first = ingest_model(m, o1, f1, bytes, cover1);
    let m1 = first.0;
    if m1.metadata.len() > m.metadata.len() {
        assert(m1.metadata.last().book_hash == h);
        assert(find_meta(m1.metadata, h) is Some);
    }
}

/// Extraction fault tolerance: when the bytes are no recognizable container
/// — the parse yields no usable metadata — the ingest still goes through in
/// full: the catalog row is appended exactly as always, and the metadata
/// table and cover store are untouched.
pub proof fn lemma_extraction_failure_is_harmless(
    m: ServiceModel,
    owner: u64,
    filename: Seq<char>,
    bytes: Seq<u8>,
    cover: Option<(Seq<u8>, Seq<char>)>,
)
    requires
        m.wf(),
        m.next_entry_id < u64::MAX,
        m.registry.next_id < u64::MAX,
        !extraction_succeeds(bytes),
    ensures
        ({
            let r = ingest_model(m, owner, filename, bytes, cover);
            &&& r.0.wf()
            &&& r.0.catalog == m.catalog.push(r.1)
            &&& r.0.metadata == m.metadata
            &&& r.0.store.covers == m.store.covers
            &&& r.1.owner_id == owner
            &&& r.1.content_hash == digest_of(bytes)
        }),
{
    lemma_ingest_preserves_wf(m, owner, filename, bytes, cover);
}

/// Ownership isolation: an entry that exists but belongs to another owner
/// is not described — the caller sees the same failure as for an absent id.
pub proof fn lemma_ownership_isolation(m: ServiceModel, entry_id: u64, owner_a: u64)
    requires
        find_entry(m.catalog, entry_id) is Some,
        find_entry(m.catalog, entry_id)->0.owner_id != owner_a,
    ensures
        describe_model(m, entry_id, owner_a) is None,
{
}

} // verus!

