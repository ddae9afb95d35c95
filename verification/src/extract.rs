//! Best-effort metadata extraction from uploaded bytes.
//!
//! The bytes of an upload are untrusted: the parse may fail in any way, and
//! every failure means "no metadata" — extraction never stops an ingest.  An
//! extractor is selected by the normalized extension; the e-book container
//! format has a real one, everything else a no-op fallback.  A parse counts
//! as metadata only when it yields both a title and a creator.
//!
//! The title and creator a parse reports are a function of the bytes alone
//! and are named as such.  The declared cover image is not: which resource a
//! container yields as its cover may depend on the parser's internal
//! iteration order, so the contracts only pass the reported cover along and
//! never pin it down.

use crate::container::{container_root_is_safe, container_root_safe};
use vstd::prelude::*;

verus! {

/// What the container parser hands back before the library decides whether
/// it is usable: each field is best-effort.
pub struct RawExtraction {
    pub title: Option<String>,
    pub creator: Option<String>,
    pub cover: Option<(Vec<u8>, String)>,
}

/// The model of a raw parse result.
pub ghost struct RawExtractionModel {
    pub title: Option<Seq<char>>,
    pub creator: Option<Seq<char>>,
    pub cover: Option<(Seq<u8>, Seq<char>)>,
}

impl View for RawExtraction {
    type V = RawExtractionModel;

    open spec fn view(&self) -> RawExtractionModel {
        RawExtractionModel {
            title: match self.title {
                Some(t) => Some(t@),
                None => None,
            },
            creator: match self.creator {
                Some(c) => Some(c@),
                None => None,
            },
            cover: match self.cover {
                Some(cv) => Some((cv.0@, cv.1@)),
                None => None,
            },
        }
    }
}

/// The model of an optional raw parse result.
pub open spec fn raw_opt_view(r: Option<RawExtraction>) -> Option<RawExtractionModel> {
    match r {
        Some(x) => Some(x@),
        None => None,
    }
}

/// The title and creator fields the `epub` crate's parse of the given bytes
/// reports — `None` when the parse fails, and each field separately optional
/// when it succeeds.  Both come from the package metadata in document order,
/// so they are a function of the bytes alone.
pub uninterp spec fn epub_fields_of(bytes: Seq<u8>) -> Option<
    (Option<Seq<char>>, Option<Seq<char>>),
>;

/// The raw bytes of the archive's container declaration file, as the `epub`
/// crate reads them out of the zip — `None` when the archive cannot be
/// opened or holds no such file.  A function of the bytes alone.
pub uninterp spec fn epub_container_of(bytes: Seq<u8>) -> Option<Seq<u8>>;

/// Relies on `epub::archive::EpubArchive::from_reader` and
/// `EpubArchive::get_container_file`: reads the container declaration file
/// out of the zip archive, deterministically in the bytes, without parsing
/// it.
#[verifier::external_body]
fn container_file_of(bytes: &Vec<u8>) -> (r: Option<Vec<u8>>)
    ensures
        match r {
            Some(c) => epub_container_of(bytes@) == Some(c@),
            None => epub_container_of(bytes@) is None,
        },
{
    match epub::archive::EpubArchive::from_reader(std::io::Cursor::new(bytes.clone())) {
        Ok(mut archive) => archive.get_container_file().ok(),
        Err(_) => None,
    }
}

/// The inputs the parser is run on at all: archives without a container
/// declaration (the parse then merely fails), and archives whose container
/// declaration passes the verified root-path guard.
pub open spec fn parse_admitted(bytes: Seq<u8>) -> bool {
    match epub_container_of(bytes) {
        Some(c) => container_root_is_safe(c),
        None => true,
    }
}

/// Whether a parse of the bytes yields usable metadata: the container
/// declaration passes the root-path guard, and the parse succeeds with both
/// a title and a creator.
pub open spec fn extraction_succeeds(bytes: Seq<u8>) -> bool {
    parse_admitted(bytes) && match epub_fields_of(bytes) {
        Some(f) => f.0 is Some && f.1 is Some,
        None => false,
    }
}

/// Relies on `epub::doc::EpubDoc::from_reader`, `EpubDoc::mdata` and
/// `EpubDoc::get_cover`: a best-effort parse of untrusted bytes.  The
/// reported title and creator are the first such entries of the package
/// metadata, a function of the bytes; the reported cover is passed along
/// with nothing claimed of it.  `from_reader` unwraps the parent of the
/// root path the container declares, so a container that could declare a
/// parentless root would make it panic: the `requires` leaves those inputs
/// out, and `extract` screens them first with the verified guard.
#[verifier::external_body]
fn epub_parse(bytes: &Vec<u8>) -> (r: Option<RawExtraction>)
    requires
        parse_admitted(bytes@),
    ensures
        match r {
            Some(raw) => epub_fields_of(bytes@) == Some((raw@.title, raw@.creator)),
            None => epub_fields_of(bytes@) is None,
        },
{
    match epub::doc::EpubDoc::from_reader(std::io::Cursor::new(bytes.clone())) {
        Ok(mut doc) => {
            let title = doc.mdata("title").map(|m| m.value.clone());
            let creator = doc.mdata("creator").map(|m| m.value.clone());
            let cover = doc.get_cover();
            Some(RawExtraction { title, creator, cover })
        },
        Err(_) => None,
    }
}

/// Successfully extracted metadata: title and creator present, cover
/// optional.
pub struct ExtractedMetadata {
    pub title: String,
    pub creator: String,
    pub cover: Option<(Vec<u8>, String)>,
}

/// The model of successfully extracted metadata.
pub ghost struct ExtractedModel {
    pub title: Seq<char>,
    pub creator: Seq<char>,
    pub cover: Option<(Seq<u8>, Seq<char>)>,
}

impl View for ExtractedMetadata {
    type V = ExtractedModel;

    open spec fn view(&self) -> ExtractedModel {
        ExtractedModel {
            title: self.title@,
            creator: self.creator@,
            cover: match self.cover {
                Some(cv) => Some((cv.0@, cv.1@)),
                None => None,
            },
        }
    }
}

/// The model of an optional extraction.
pub open spec fn extracted_opt_view(r: Option<ExtractedMetadata>) -> Option<ExtractedModel> {
    match r {
        Some(x) => Some(x@),
        None => None,
    }
}

/// The interpretation rule: a raw parse counts as metadata only when both a
/// title and a creator came back.
pub open spec fn interpret_model(raw: Option<RawExtractionModel>) -> Option<ExtractedModel> {
    match raw {
        Some(r) => match (r.title, r.creator) {
            (Some(t), Some(c)) => Some(ExtractedModel { title: t, creator: c, cover: r.cover }),
            _ => None,
        },
        None => None,
    }
}

/// What extraction yields for the recognized container format, given the
/// cover the parser reported: nothing for an input the guard rejects.
pub open spec fn extraction_of(bytes: Seq<u8>, cover: Option<(Seq<u8>, Seq<char>)>) -> Option<
    ExtractedModel,
> {
    if parse_admitted(bytes) {
        match epub_fields_of(bytes) {
            Some(f) => match (f.0, f.1) {
                (Some(t), Some(c)) => Some(ExtractedModel { title: t, creator: c, cover }),
                _ => None,
            },
            None => None,
        }
    } else {
        None
    }
}

/// What the extractor selected by a normalized extension yields, given the
/// reported cover: the recognized container format has a real extractor,
/// everything else a no-op fallback.
pub open spec fn extractor_result(
    ext_key: Seq<char>,
    bytes: Seq<u8>,
    cover: Option<(Seq<u8>, Seq<char>)>,
) -> Option<ExtractedModel> {
    if ext_key == "epub"@ {
        extraction_of(bytes, cover)
    } else {
        None
    }
}

/// Decides whether a raw parse result counts as extracted metadata; total
/// over every possible parse outcome.
pub fn interpret_extraction(raw: Option<RawExtraction>) -> (r: Option<ExtractedMetadata>)
    ensures
        extracted_opt_view(r) == interpret_model(raw_opt_view(raw)),
{
    match raw {
        Some(x) => match (x.title, x.creator) {
            (Some(t), Some(c)) => Some(
                ExtractedMetadata { title: t, creator: c, cover: x.cover },
            ),
            _ => None,
        },
        None => None,
    }
}

/// Extracts metadata from the bytes of a recognized container: best-effort
/// and total — malformed, truncated or hostile input yields `None`, never a
/// failure.  The container declaration is screened by the verified guard
/// before the parser runs; metadata comes back exactly when the guard
/// admits the input and the parse succeeds with both a title and a creator.
pub fn extract(bytes: &Vec<u8>) -> (r: Option<ExtractedMetadata>)
    ensures
        match r {
            Some(em) => extracted_opt_view(r) == extraction_of(bytes@, em@.cover),
            None => !extraction_succeeds(bytes@),
        },
        (r is Some) == extraction_succeeds(bytes@),
{
    let admitted: bool = match container_file_of(bytes) {
        Some(c) => container_root_safe(&c),
        None => true,
    };
    if admitted {
        interpret_extraction(epub_parse(bytes))
    } else {
        None
    }
}

/// Runs the extractor selected by the normalized extension.
pub fn extract_for_type(ext_key: &String, bytes: &Vec<u8>) -> (r: Option<ExtractedMetadata>)
    ensures
        match r {
            Some(em) => extracted_opt_view(r) == extractor_result(ext_key@, bytes@, em@.cover),
            None => forall|cover: Option<(Seq<u8>, Seq<char>)>|
                extractor_result(ext_key@, bytes@, cover) is None,
        },
{
    let container: String = "epub".to_owned();
    if *ext_key == container {
        extract(bytes)
    } else {
        None
    }
}

} // verus!
