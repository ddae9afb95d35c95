use ksync::config::{Config, DBConfig, JWTConfig};
use ksync::extract::extract;
use ksync::hashing::digest;
use ksync::service::BookService;

/// CRC-32 (IEEE) of a byte slice, as the zip format requires.
fn crc32(data: &[u8]) -> u32 {
    let mut table = [0u32; 256];
    for (i, slot) in table.iter_mut().enumerate() {
        let mut c = i as u32;
        for _ in 0..8 {
            c = if c & 1 != 0 { 0xEDB88320 ^ (c >> 1) } else { c >> 1 };
        }
        *slot = c;
    }
    let mut crc: u32 = 0xFFFFFFFF;
    for &b in data {
        crc = table[((crc ^ b as u32) & 0xFF) as usize] ^ (crc >> 8);
    }
    crc ^ 0xFFFFFFFF
}

fn push_u16(out: &mut Vec<u8>, v: u16) {
    out.extend_from_slice(&v.to_le_bytes());
}

fn push_u32(out: &mut Vec<u8>, v: u32) {
    out.extend_from_slice(&v.to_le_bytes());
}

/// Builds a zip archive of uncompressed ("stored") entries.
fn build_zip(entries: &[(&str, &[u8])]) -> Vec<u8> {
    let mut out: Vec<u8> = Vec::new();
    let mut central: Vec<u8> = Vec::new();
    for (name, data) in entries {
        let offset = out.len() as u32;
        let crc = crc32(data);
        let name_bytes = name.as_bytes();
        // local file header
        push_u32(&mut out, 0x04034b50);
        push_u16(&mut out, 20); // version needed
        push_u16(&mut out, 0); // flags
        push_u16(&mut out, 0); // method: stored
        push_u16(&mut out, 0); // mod time
        push_u16(&mut out, 0); // mod date
        push_u32(&mut out, crc);
        push_u32(&mut out, data.len() as u32);
        push_u32(&mut out, data.len() as u32);
        push_u16(&mut out, name_bytes.len() as u16);
        push_u16(&mut out, 0); // extra len
        out.extend_from_slice(name_bytes);
        out.extend_from_slice(data);
        // central directory entry
        push_u32(&mut central, 0x02014b50);
        push_u16(&mut central, 20); // version made by
        push_u16(&mut central, 20); // version needed
        push_u16(&mut central, 0);
        push_u16(&mut central, 0);
        push_u16(&mut central, 0);
        push_u16(&mut central, 0);
        push_u32(&mut central, crc);
        push_u32(&mut central, data.len() as u32);
        push_u32(&mut central, data.len() as u32);
        push_u16(&mut central, name_bytes.len() as u16);
        push_u16(&mut central, 0); // extra
        push_u16(&mut central, 0); // comment
        push_u16(&mut central, 0); // disk
        push_u16(&mut central, 0); // internal attrs
        push_u32(&mut central, 0); // external attrs
        push_u32(&mut central, offset);
        central.extend_from_slice(name_bytes);
    }
    let cd_offset = out.len() as u32;
    let cd_size = central.len() as u32;
    out.extend_from_slice(&central);
    // end of central directory
    push_u32(&mut out, 0x06054b50);
    push_u16(&mut out, 0);
    push_u16(&mut out, 0);
    push_u16(&mut out, entries.len() as u16);
    push_u16(&mut out, entries.len() as u16);
    push_u32(&mut out, cd_size);
    push_u32(&mut out, cd_offset);
    push_u16(&mut out, 0);
    out
}

const COVER_BYTES: &[u8] = &[0x89, 0x50, 0x4E, 0x47, 0x0D, 0x0A, 0x1A, 0x0A, 1, 2, 3, 4];

/// A minimal valid e-book container with title "Alpha", creator "Bob" and a
/// declared cover image.
fn minimal_epub() -> Vec<u8> {
    let container_xml = "<?xml version=\"1.0\" encoding=\"UTF-8\"?>
<container version=\"1.0\" xmlns=\"urn:oasis:names:tc:opendocument:xmlns:container\">
  <rootfiles>
    <rootfile full-path=\"OEBPS/content.opf\" media-type=\"application/oebps-package+xml\"/>
  </rootfiles>
</container>
";
    let content_opf = "<?xml version=\"1.0\" encoding=\"UTF-8\"?>
<package xmlns=\"http://www.idpf.org/2007/opf\" xmlns:dc=\"http://purl.org/dc/elements/1.1/\" version=\"2.0\" unique-identifier=\"bookid\">
  <metadata>
    <dc:identifier id=\"bookid\">urn:uuid:0001</dc:identifier>
    <dc:title>Alpha</dc:title>
    <dc:creator>Bob</dc:creator>
    <meta name=\"cover\" content=\"cover-img\"/>
  </metadata>
  <manifest>
    <item id=\"cover-img\" href=\"cover.png\" media-type=\"image/png\"/>
    <item id=\"page\" href=\"page.xhtml\" media-type=\"application/xhtml+xml\"/>
  </manifest>
  <spine>
    <itemref idref=\"page\"/>
  </spine>
</package>
";
    let page = "<?xml version=\"1.0\" encoding=\"UTF-8\"?>
<html xmlns=\"http://www.w3.org/1999/xhtml\"><body>hello</body></html>
";
    build_zip(&[
        ("mimetype", b"application/epub+zip"),
        ("META-INF/container.xml", container_xml.as_bytes()),
        ("OEBPS/content.opf", content_opf.as_bytes()),
        ("OEBPS/cover.png", COVER_BYTES),
        ("OEBPS/page.xhtml", page.as_bytes()),
    ])
}

fn test_config() -> Config {
    Config {
        address: "127.0.0.1".to_string(),
        filepath: "/srv/books".to_string(),
        port: 8080,
        jwt: JWTConfig {
            valid_for: 24,
            private_key: "private.pem".to_string(),
            public_key: "public.pem".to_string(),
        },
        cors: None,
        db: DBConfig { connection_string: "sqlite::memory:".to_string(), connections: 4 },
    }
}

#[test]
fn fixture_parses_with_epub_crate() {
    let bytes = minimal_epub();
    let mut doc = epub::doc::EpubDoc::from_reader(std::io::Cursor::new(bytes)).unwrap();
    assert_eq!(doc.mdata("title").map(|m| m.value.clone()), Some("Alpha".to_string()));
    assert_eq!(doc.mdata("creator").map(|m| m.value.clone()), Some("Bob".to_string()));
    let (cover, mime) = doc.get_cover().unwrap();
    assert_eq!(cover, COVER_BYTES.to_vec());
    assert_eq!(mime, "image/png");
}

#[test]
fn extractor_reads_title_creator_and_cover() {
    let bytes = minimal_epub();
    let meta = extract(&bytes).unwrap();
    assert_eq!(meta.title, "Alpha");
    assert_eq!(meta.creator, "Bob");
    let (cover, mime) = meta.cover.unwrap();
    assert_eq!(cover, COVER_BYTES.to_vec());
    assert_eq!(mime, "image/png");
}

#[test]
fn end_to_end_scenario() {
    let bytes = minimal_epub();
    let d = digest(&bytes);
    let mut svc = BookService::new(&test_config());

    let e1 = svc.ingest(1, "book.epub", bytes.clone());
    assert_eq!(e1.title, "book");
    assert_eq!(e1.owner_id, 1);
    assert_eq!(e1.content_hash, d);

    let desc = svc.describe(e1.id, 1).unwrap();
    assert_eq!(desc.file_type.name, "epub");
    let meta = desc.meta.unwrap();
    assert_eq!(meta.book_hash, d);
    assert_eq!(meta.title, "Alpha");
    assert_eq!(meta.creator, "Bob");
    assert_eq!(meta.cover_mime, Some("image/png".to_string()));

    let cover = svc.fetch_cover_path(e1.id, 1).unwrap().unwrap();
    assert_eq!(cover.0, format!("/srv/books/{}-cover.bin", d));
    assert!(!cover.0.is_empty());
    assert_eq!(cover.1, "image/png");
    assert_eq!(cover.2, "Bob - Alpha");

    assert_eq!(svc.blob_count(), 1);
    assert_eq!(svc.cover_count(), 1);
    assert_eq!(svc.metadata_count(), 1);

    // Re-upload of the identical bytes by another owner: a second catalog
    // entry with the same hash, still one blob and one metadata row.
    let e2 = svc.ingest(2, "other-name.epub", bytes.clone());
    assert_eq!(e2.content_hash, e1.content_hash);
    assert_ne!(e2.id, e1.id);
    assert_eq!(svc.entry_count(), 2);
    assert_eq!(svc.blob_count(), 1);
    assert_eq!(svc.metadata_count(), 1);
    assert_eq!(svc.cover_count(), 1);

    let desc2 = svc.describe(e2.id, 2).unwrap();
    let meta2 = desc2.meta.unwrap();
    assert_eq!(meta2.title, "Alpha");
    assert_eq!(meta2.creator, "Bob");
}

#[test]
fn metadata_extracted_once_per_digest() {
    let bytes = minimal_epub();
    let mut svc = BookService::new(&test_config());
    let e1 = svc.ingest(1, "book.epub", bytes.clone());
    let _e2 = svc.ingest(1, "book.epub", bytes.clone());
    let _e3 = svc.ingest(3, "book.epub", bytes);
    assert_eq!(svc.entry_count(), 3);
    assert_eq!(svc.metadata_count(), 1);
    assert_eq!(svc.blob_count(), 1);
    let d = svc.describe(e1.id, 1).unwrap();
    assert!(d.meta.is_some());
}

#[test]
fn epub_without_creator_yields_no_metadata() {
    let container_xml = "<?xml version=\"1.0\" encoding=\"UTF-8\"?>
<container version=\"1.0\" xmlns=\"urn:oasis:names:tc:opendocument:xmlns:container\">
  <rootfiles>
    <rootfile full-path=\"content.opf\" media-type=\"application/oebps-package+xml\"/>
  </rootfiles>
</container>
";
    let content_opf = "<?xml version=\"1.0\" encoding=\"UTF-8\"?>
<package xmlns=\"http://www.idpf.org/2007/opf\" xmlns:dc=\"http://purl.org/dc/elements/1.1/\" version=\"2.0\">
  <metadata>
    <dc:title>Untitled</dc:title>
  </metadata>
  <manifest/>
  <spine/>
</package>
";
    let bytes = build_zip(&[
        ("mimetype", b"application/epub+zip"),
        ("META-INF/container.xml", container_xml.as_bytes()),
        ("content.opf", content_opf.as_bytes()),
    ]);
    assert!(extract(&bytes).is_none());
    let mut svc = BookService::new(&test_config());
    let e = svc.ingest(1, "partial.epub", bytes);
    assert_eq!(svc.metadata_count(), 0);
    assert!(svc.describe(e.id, 1).unwrap().meta.is_none());
}

fn zip_with_container(container_xml: &str) -> Vec<u8> {
    build_zip(&[
        ("mimetype", b"application/epub+zip"),
        ("META-INF/container.xml", container_xml.as_bytes()),
    ])
}

#[test]
fn parentless_root_declaration_is_harmless() {
    // A container declaring an empty or bare-root package path is hostile
    // input: extraction must yield no metadata and ingestion must still
    // succeed, without any failure escaping the extractor.
    let empty_root = zip_with_container(
        "<?xml version=\"1.0\"?>\n<container version=\"1.0\" xmlns=\"urn:oasis:names:tc:opendocument:xmlns:container\">\n  <rootfiles>\n    <rootfile full-path=\"\" media-type=\"application/oebps-package+xml\"/>\n  </rootfiles>\n</container>\n",
    );
    let slash_root = zip_with_container(
        "<?xml version=\"1.0\"?>\n<container version=\"1.0\" xmlns=\"urn:oasis:names:tc:opendocument:xmlns:container\">\n  <rootfiles>\n    <rootfile full-path=\"/\" media-type=\"application/oebps-package+xml\"/>\n  </rootfiles>\n</container>\n",
    );
    let entity_root = zip_with_container(
        "<?xml version=\"1.0\"?>\n<container version=\"1.0\" xmlns=\"urn:oasis:names:tc:opendocument:xmlns:container\">\n  <rootfiles>\n    <rootfile full-path=\"&#47;\" media-type=\"application/oebps-package+xml\"/>\n  </rootfiles>\n</container>\n",
    );
    let mut svc = BookService::new(&test_config());
    for (n, bytes) in [empty_root, slash_root, entity_root].into_iter().enumerate() {
        assert!(extract(&bytes).is_none());
        let e = svc.ingest(1, "hostile.epub", bytes);
        assert!(svc.describe(e.id, 1).unwrap().meta.is_none());
        assert_eq!(svc.entry_count(), n + 1);
        assert_eq!(svc.metadata_count(), 0);
    }
}

#[test]
fn multibyte_container_yields_no_metadata() {
    // A container opening with a UTF-16 byte-order mark is screened out:
    // the guard cannot read it byte for byte, so extraction declines.
    let mut utf16 = vec![0xFFu8, 0xFE];
    for b in "<container/>".bytes() {
        utf16.push(b);
        utf16.push(0);
    }
    let mut content: Vec<u8> = Vec::new();
    content.extend_from_slice(&utf16);
    let bytes = build_zip(&[
        ("mimetype", b"application/epub+zip"),
        ("META-INF/container.xml", &content),
    ]);
    assert!(extract(&bytes).is_none());
    let mut svc = BookService::new(&test_config());
    let e = svc.ingest(1, "strange.epub", bytes);
    assert!(svc.describe(e.id, 1).unwrap().meta.is_none());
}

#[test]
fn cover_bytes_reads_back_stored_cover() {
    let bytes = minimal_epub();
    let mut svc = BookService::new(&test_config());
    let e = svc.ingest(1, "book.epub", bytes);
    assert_eq!(svc.cover_bytes(&e.content_hash), Some(&COVER_BYTES.to_vec()));
    assert_eq!(svc.cover_bytes(&"unknown".to_string()), None);
}
