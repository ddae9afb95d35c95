//! The file-type registry: lookup-or-create classification of extensions.
//!
//! An extension is normalized — lowercased, with an empty or missing
//! extension replaced by the configured default — before it is looked up, so
//! differently-cased spellings resolve to one record.  A normalized extension
//! seen for the first time is registered under a fresh id; classification
//! never fails merely because a type is novel.

use vstd::prelude::*;

verus! {

/// The lowercase form of a string, as `str::to_lowercase` computes it: a
/// function of the characters alone.
pub uninterp spec fn lower_of(s: Seq<char>) -> Seq<char>;

/// Relies on `str::to_lowercase`: the result depends on the characters
/// alone.
#[verifier::external_body]
fn lowercase(s: &str) -> (r: String)
    ensures
        r@ == lower_of(s@),
{
    s.to_lowercase()
}

/// The key an extension is classified under: the default for an absent
/// extension, its lowercase form otherwise.
pub open spec fn normalize_ext(raw: Seq<char>, default: Seq<char>) -> Seq<char> {
    if raw.len() == 0 {
        default
    } else {
        lower_of(raw)
    }
}

/// Normalizes a raw extension against the configured default.
pub fn normalize_extension(raw: &str, default: &str) -> (r: String)
    ensures
        r@ == normalize_ext(raw@, default@),
{
    if raw.is_empty() {
        default.to_owned()
    } else {
        lowercase(raw)
    }
}

/// One registered file type: a canonical extension under a stable id.
pub struct FileTypeRecord {
    pub id: u64,
    pub name: String,
}

/// The model of a registered file type.
pub ghost struct FileTypeModel {
    pub id: u64,
    pub name: Seq<char>,
}

impl View for FileTypeRecord {
    type V = FileTypeModel;

    open spec fn view(&self) -> FileTypeModel {
        FileTypeModel { id: self.id, name: self.name@ }
    }
}

/// The record registered under a canonical extension, if any.
pub open spec fn find_by_name(rs: Seq<FileTypeModel>, name: Seq<char>) -> Option<FileTypeModel>
    decreases rs.len(),
{
    if rs.len() == 0 {
        None
    } else if rs.last().name == name {
        Some(rs.last())
    } else {
        find_by_name(rs.drop_last(), name)
    }
}

/// The record registered under an id, if any.
pub open spec fn find_by_id(rs: Seq<FileTypeModel>, id: u64) -> Option<FileTypeModel>
    decreases rs.len(),
{
    if rs.len() == 0 {
        None
    } else if rs.last().id == id {
        Some(rs.last())
    } else {
        find_by_id(rs.drop_last(), id)
    }
}

/// An extension matches no record exactly when its lookup fails.
pub proof fn lemma_find_by_name_none(rs: Seq<FileTypeModel>, name: Seq<char>)
    ensures
        (find_by_name(rs, name) is None) <==> (forall|i: int|
            0 <= i < rs.len() ==> rs[i].name != name),
    decreases rs.len(),
{
    if rs.len() > 0 {
        lemma_find_by_name_none(rs.drop_last(), name);
        if rs.last().name != name && (forall|i: int|
            0 <= i < rs.drop_last().len() ==> rs.drop_last()[i].name != name) {
            assert forall|i: int| 0 <= i < rs.len() implies rs[i].name != name by {
                if i < rs.len() - 1 {
                    assert(rs.drop_last()[i].name != name);
                }
            }
        }
    }
}

/// Under distinct extensions, a matching record is the lookup's result.
pub proof fn lemma_find_by_name_at(rs: Seq<FileTypeModel>, name: Seq<char>, i: int)
    requires
        forall|p: int, q: int| 0 <= p < q < rs.len() ==> rs[p].name != rs[q].name,
        0 <= i < rs.len(),
        rs[i].name == name,
    ensures
        find_by_name(rs, name) == Some(rs[i]),
    decreases rs.len(),
{
    if i < rs.len() - 1 {
        lemma_find_by_name_at(rs.drop_last(), name, i);
    }
}

/// An id matches no record exactly when its lookup fails.
pub proof fn lemma_find_by_id_none(rs: Seq<FileTypeModel>, id: u64)
    ensures
        (find_by_id(rs, id) is None) <==> (forall|i: int| 0 <= i < rs.len() ==> rs[i].id != id),
    decreases rs.len(),
{
    if rs.len() > 0 {
        lemma_find_by_id_none(rs.drop_last(), id);
        if rs.last().id != id && (forall|i: int|
            0 <= i < rs.drop_last().len() ==> rs.drop_last()[i].id != id) {
            assert forall|i: int| 0 <= i < rs.len() implies rs[i].id != id by {
                if i < rs.len() - 1 {
                    assert(rs.drop_last()[i].id != id);
                }
            }
        }
    }
}

/// Under distinct ids, a matching record is the lookup's result.
pub proof fn lemma_find_by_id_at(rs: Seq<FileTypeModel>, id: u64, i: int)
    requires
        forall|p: int, q: int| 0 <= p < q < rs.len() ==> rs[p].id != rs[q].id,
        0 <= i < rs.len(),
        rs[i].id == id,
    ensures
        find_by_id(rs, id) == Some(rs[i]),
    decreases rs.len(),
{
    if i < rs.len() - 1 {
        lemma_find_by_id_at(rs.drop_last(), id, i);
    }
}

/// The model of the registry: the records seen so far and the next fresh id.
#[verifier::ext_equal]
pub ghost struct RegistryModel {
    pub records: Seq<FileTypeModel>,
    pub next_id: u64,
}

impl RegistryModel {
    /// Extensions are unique, ids are unique, and every id is below the next
    /// fresh one.
    pub open spec fn wf(self) -> bool {
        &&& forall|p: int, q: int|
            0 <= p < q < self.records.len() ==> self.records[p].name != self.records[q].name
        &&& forall|p: int, q: int|
            0 <= p < q < self.records.len() ==> self.records[p].id != self.records[q].id
        &&& forall|i: int| 0 <= i < self.records.len() ==> self.records[i].id < self.next_id
    }
}

/// Lookup-or-create: an extension already registered keeps its record; a
/// novel one is registered under the next fresh id.
pub open spec fn classify_model(m: RegistryModel, key: Seq<char>) -> (RegistryModel, u64) {
    match find_by_name(m.records, key) {
        Some(r) => (m, r.id),
        None => (
            RegistryModel {
                records: m.records.push(FileTypeModel { id: m.next_id, name: key }),
                next_id: (m.next_id + 1) as u64,
            },
            m.next_id,
        ),
    }
}

/// Classification returns an id the registry then holds, under the looked-up
/// extension, and registers nothing else.
pub proof fn lemma_classify_registers(m: RegistryModel, key: Seq<char>)
    requires
        m.wf(),
        m.next_id < u64::MAX,
    ensures
        ({
            let (m1, id) = classify_model(m, key);
            &&& m1.wf()
            &&& find_by_name(m1.records, key) is Some
            &&& find_by_name(m1.records, key)->0.id == id
            &&& find_by_id(m1.records, id) == find_by_name(m1.records, key)
            &&& forall|other: u64|
                find_by_id(m.records, other) is Some ==> find_by_id(m1.records, other) == find_by_id(
                    m.records,
                    other,
                )
        }),
{
    let (m1, id) = classify_model(m, key);
    match find_by_name(m.records, key) {
        Some(r) => {
            lemma_find_exists(m.records, key);
            let j = choose|j: int| 0 <= j < m.records.len() && m.records[j].name == key;
            lemma_find_by_name_at(m.records, key, j);
            lemma_find_by_id_at(m.records, r.id, j);
        },
        None => {
            let fresh = FileTypeModel { id: m.next_id, name: key };
            let rs1 = m1.records;
            lemma_find_by_name_none(m.records, key);
            assert(rs1.last() == fresh);
            assert(rs1.drop_last() =~= m.records);
            assert forall|other: u64| find_by_id(m.records, other) is Some implies find_by_id(
                rs1,
                other,
            ) == find_by_id(m.records, other) by {
                if other == m.next_id {
                    lemma_find_by_id_some_bound(m.records, other);
                }
            }
        },
    }
}

/// A found record sits at some index.
pub proof fn lemma_find_exists(rs: Seq<FileTypeModel>, name: Seq<char>)
    requires
        find_by_name(rs, name) is Some,
    ensures
        exists|i: int| 0 <= i < rs.len() && rs[i].name == name,
    decreases rs.len(),
{
    if rs.len() > 0 && rs.last().name != name {
        lemma_find_exists(rs.drop_last(), name);
        let i = choose|i: int| 0 <= i < rs.drop_last().len() && rs.drop_last()[i].name == name;
        assert(rs[i].name == name);
    }
}

/// A found id belongs to some record.
pub proof fn lemma_find_by_id_some_bound(rs: Seq<FileTypeModel>, id: u64)
    requires
        find_by_id(rs, id) is Some,
    ensures
        exists|i: int| 0 <= i < rs.len() && rs[i].id == id,
    decreases rs.len(),
{
    if rs.len() > 0 && rs.last().id != id {
        lemma_find_by_id_some_bound(rs.drop_last(), id);
        let i = choose|i: int|
            0 <= i < rs.drop_last().len() && rs.drop_last()[i].id == id;
        assert(rs[i].id == id);
    }
}

/// Extension normalization: two classifications whose keys normalize alike
/// resolve to the same record, and the second one changes nothing.
pub proof fn lemma_extension_normalization(
    m: RegistryModel,
    raw1: Seq<char>,
    raw2: Seq<char>,
    default: Seq<char>,
)
    requires
        m.wf(),
        m.next_id < u64::MAX,
        normalize_ext(raw1, default) == normalize_ext(raw2, default),
    ensures
        ({
            let (m1, id1) = classify_model(m, normalize_ext(raw1, default));
            let (m2, id2) = classify_model(m1, normalize_ext(raw2, default));
            &&& m2 == m1
            &&& id2 == id1
        }),
{
    let key = normalize_ext(raw1, default);
    lemma_classify_registers(m, key);
    let (m1, id1) = classify_model(m, key);
    lemma_find_exists(m1.records, key);
    let j = choose|j: int| 0 <= j < m1.records.len() && m1.records[j].name == key;
    lemma_find_by_name_at(m1.records, key, j);
}

/// The registry of file types.
pub struct FileTypeRegistry {
    records: Vec<FileTypeRecord>,
    next_id: u64,
}

/// The views of the records a vector holds.
pub open spec fn records_view(rs: Seq<FileTypeRecord>) -> Seq<FileTypeModel> {
    rs.map_values(|r: FileTypeRecord| r@)
}

impl View for FileTypeRegistry {
    type V = RegistryModel;

    closed spec fn view(&self) -> RegistryModel {
        RegistryModel { records: records_view(self.records@), next_id: self.next_id }
    }
}

impl FileTypeRegistry {
    /// An empty registry; the first registered type receives id 1.
    pub fn new() -> (r: FileTypeRegistry)
        ensures
            r@.wf(),
            r@.records == Seq::<FileTypeModel>::empty(),
            r@.next_id == 1u64,
    {
        let r = FileTypeRegistry { records: Vec::new(), next_id: 1 };
        proof {
            assert(records_view(r.records@) =~= Seq::<FileTypeModel>::empty());
        }
        r
    }

    /// Classifies an already-normalized key: the registered id if the key is
    /// known, a fresh registration otherwise.
    pub fn classify_key(&mut self, key: &String) -> (id: u64)
        requires
            old(self)@.wf(),
            old(self)@.next_id < u64::MAX,
        ensures
            final(self)@.wf(),
            (final(self)@, id) == classify_model(old(self)@, key@),
    {
        let ghost m = self@;
        proof {
            lemma_classify_registers(m, key@);
        }
        let mut i: usize = 0;
        while i < self.records.len()
            invariant
                i <= self.records@.len(),
                forall|j: int| 0 <= j < i ==> self.records@[j].name@ != key@,
                self@ == m,
                m.wf(),
                m.next_id < u64::MAX,
            decreases self.records@.len() - i,
        {
            if self.records[i].name == *key {
                proof {
                    lemma_find_by_name_at(m.records, key@, i as int);
                }
                return self.records[i].id;
            }
            i = i + 1;
        }
        proof {
            lemma_find_by_name_none(m.records, key@);
        }
        let id = self.next_id;
        self.records.push(FileTypeRecord { id, name: key.clone() });
        self.next_id = self.next_id + 1;
        proof {
            assert(records_view(self.records@) =~= m.records.push(
                FileTypeModel { id, name: key@ },
            ));
        }
        id
    }

    /// Classifies a raw extension after normalizing it against the default.
    pub fn classify_by_extension(&mut self, raw_ext: &str, default_ext: &str) -> (id: u64)
        requires
            old(self)@.wf(),
            old(self)@.next_id < u64::MAX,
        ensures
            final(self)@.wf(),
            (final(self)@, id) == classify_model(
                old(self)@,
                normalize_ext(raw_ext@, default_ext@),
            ),
    {
        let key = normalize_extension(raw_ext, default_ext);
        self.classify_key(&key)
    }

    /// The record registered under an id, as a fresh copy.
    pub fn get(&self, id: u64) -> (r: Option<FileTypeRecord>)
        requires
            self@.wf(),
        ensures
            match r {
                Some(rec) => find_by_id(self@.records, id) == Some(rec@),
                None => find_by_id(self@.records, id) is None,
            },
    {
        let mut i: usize = 0;
        while i < self.records.len()
            invariant
                i <= self.records@.len(),
                forall|j: int| 0 <= j < i ==> self.records@[j].id != id,
                self@.wf(),
            decreases self.records@.len() - i,
        {
            if self.records[i].id == id {
                proof {
                    lemma_find_by_id_at(self@.records, id, i as int);
                }
                return Some(
                    FileTypeRecord { id: self.records[i].id, name: self.records[i].name.clone() },
                );
            }
            i = i + 1;
        }
        proof {
            lemma_find_by_id_none(self@.records, id);
        }
        None
    }

    /// The id the next novel extension would be registered under.
    pub fn next_available_id(&self) -> (r: u64)
        ensures
            r == self@.next_id,
    {
        self.next_id
    }

    /// How many file types are registered.
    pub fn count(&self) -> (r: usize)
        ensures
            r == self@.records.len(),
    {
        self.records.len()
    }
}

} // verus!
