use std::collections::HashMap;

use chorus::archive::{
    valid_namespace, ArchiveError, ArchiveObjectRef, ReadBuffer, FANOUT,
};
use chorus::catalog::{check_page, check_root, page_object, ArchiveRoot, ArchivedSegment, Page};
use chorus::prepare::{ArchiveCatalog, CatalogStep};

/// Pages and objects in memory.
struct MemoryArchive {
    pages: HashMap<String, (Vec<u8>, Page)>,
    reads: usize,
    widest: usize,
    longest: usize,
}

fn copy_page(page: &Page) -> Page {
    match page {
        Page::Leaf(entries) => Page::Leaf(entries.iter().map(|entry| entry.clone()).collect()),
        Page::Branch(children) => {
            Page::Branch(children.iter().map(|child| child.clone()).collect())
        }
    }
}

impl MemoryArchive {
    fn new() -> MemoryArchive {
        MemoryArchive { pages: HashMap::new(), reads: 0, widest: 0, longest: 0 }
    }

    fn load(&mut self, root: &ArchiveRoot) -> Result<Page, ArchiveError> {
        check_root(root)?;
        self.reads += 1;
        match self.pages.get(&root.object.key) {
            None => Err(ArchiveError::NotFound(root.object.key.clone())),
            Some((bytes, page)) => {
                let mut buffer = ReadBuffer::new();
                buffer.accept(&root.object, bytes)?;
                buffer.finish(&root.object)?;
                Ok(copy_page(page))
            }
        }
    }

    fn write(&mut self, page: Page, height: u32) -> Result<ArchiveObjectRef, ArchiveError> {
        let bytes = format!("{page:?}").into_bytes();
        let object = page_object(&bytes, height)?;
        self.pages.insert(object.key.clone(), (bytes, page));
        Ok(object)
    }

    fn append(
        &mut self,
        previous: Option<&ArchiveRoot>,
        entry: ArchivedSegment,
    ) -> Result<ArchiveRoot, ArchiveError> {
        let catalog = ArchiveCatalog::new();
        let (mut append, mut step) = catalog.prepare_append(previous.cloned(), entry)?;
        let mut operations = 0;
        loop {
            operations += 1;
            self.longest = self.longest.max(operations - 1);
            step = match step {
                CatalogStep::Load(root) => {
                    let page = self.load(&root)?;
                    append.loaded(page)?
                }
                CatalogStep::Write { page, height } => {
                    let object = self.write(page, height)?;
                    append.written(object)
                }
                CatalogStep::Done(root) => return Ok(root),
            };
        }
    }

    fn scan(&mut self, root: ArchiveRoot, start: u64) -> Result<Vec<ArchivedSegment>, ArchiveError> {
        let catalog = ArchiveCatalog::new();
        let mut scan = catalog.scan_from(root, start);
        let mut found = Vec::new();
        while let Some(root) = scan.next()? {
            self.widest = self.widest.max(scan.stack.len());
            let page = self.load(&root)?;
            found.extend(scan.loaded(&root, page)?);
        }
        Ok(found)
    }
}

fn entry(index: u64) -> ArchivedSegment {
    ArchivedSegment {
        id: index.to_string(),
        start: index * 2,
        end: index * 2 + 2,
        crc32c: 0,
        object: ArchiveObjectRef::for_bytes("segments", &index.to_be_bytes()),
    }
}

fn same(a: &ArchivedSegment, b: &ArchivedSegment) -> bool {
    a.id == b.id
        && a.start == b.start
        && a.end == b.end
        && a.crc32c == b.crc32c
        && a.object.key == b.object.key
        && a.object.byte_len == b.object.byte_len
        && a.object.sha256 == b.object.sha256
}

#[test]
fn archive_catalog_splits_seek_lazily_and_preserves_old_roots() {
    let mut store = MemoryArchive::new();
    let mut root: Option<ArchiveRoot> = None;
    let mut old = None;
    for i in 0..1100 {
        root = Some(store.append(root.as_ref(), entry(i)).unwrap());
        if i == 20 {
            old = root.clone();
        }
    }
    let root = root.unwrap();
    assert_eq!(root.height, 2);
    assert_eq!((root.start, root.end), (0, 2200));
    assert!(store.longest <= 3 * 3);
    store.reads = 0;
    let mut unread = ArchiveCatalog::new().scan_from(root.clone(), 2198);
    assert_eq!(store.reads, 0);
    assert!(unread.next().unwrap().is_some());
    assert_eq!(store.reads, 0);
    let found = store.scan(root.clone(), 2198).unwrap();
    assert_eq!(found.len(), 1);
    assert!(same(&found[0], &entry(1099)));
    assert_eq!(store.reads, 3);
    let historical = store.scan(old.unwrap(), 0).unwrap();
    assert_eq!(historical.len(), 21);
    let all = store.scan(root, 0).unwrap();
    assert_eq!(all.len(), 1100);
    assert!(store.widest <= FANOUT * 3);
    for i in 0..1100u64 {
        assert!(same(&all[i as usize], &entry(i)));
    }
}

#[test]
fn archive_catalog_rejects_gaps_corruption_and_missing_pages() {
    let mut store = MemoryArchive::new();
    let root = store.append(None, entry(0)).unwrap();
    assert!(store.append(Some(&root), entry(2)).is_err());
    let (_, page) = store.pages.remove(&root.object.key).unwrap();
    store.pages.insert(root.object.key.clone(), (b"corrupt".to_vec(), page));
    assert!(matches!(store.scan(root.clone(), 0), Err(ArchiveError::Corrupt(_))));
    store.pages.remove(&root.object.key);
    assert!(matches!(store.scan(root, 0), Err(ArchiveError::NotFound(_))));
}

#[test]
fn a_page_must_fit_its_reference() {
    let mut store = MemoryArchive::new();
    let root = store.append(None, entry(0)).unwrap();
    assert_eq!((root.format, root.height, root.start, root.end), (1, 0, 0, 2));
    assert!(check_page(&root, &Page::Leaf(vec![entry(0)])).is_ok());
    assert!(matches!(
        check_page(&root, &Page::Branch(Vec::new())),
        Err(ArchiveError::Corrupt(reason)) if reason == "catalog height mismatch"
    ));
    assert!(matches!(
        check_page(&root, &Page::Leaf(vec![entry(0), entry(2)])),
        Err(ArchiveError::Corrupt(reason)) if reason == "noncontiguous archive leaf"
    ));
    assert!(matches!(
        check_page(&root, &Page::Leaf(Vec::new())),
        Err(ArchiveError::Corrupt(reason)) if reason == "invalid catalog page bounds"
    ));
    let mut high = root.clone();
    high.height = 1;
    let mut child = root.clone();
    child.format = 2;
    assert!(matches!(
        check_page(&high, &Page::Branch(vec![child])),
        Err(ArchiveError::Corrupt(reason)) if reason == "invalid archive branch"
    ));
    let mut bad = root.clone();
    bad.format = 7;
    assert!(matches!(
        check_root(&bad),
        Err(ArchiveError::Corrupt(reason)) if reason == "invalid catalog root"
    ));
    assert!(matches!(
        page_object(&vec![0u8; 65537], 0),
        Err(ArchiveError::Backend(reason)) if reason == "archive catalog page limit"
    ));
}

#[test]
fn references_name_the_digest_of_their_bytes() {
    let empty = ArchiveObjectRef::for_bytes("segments", b"");
    assert_eq!(
        empty.key,
        "segments/e3b0c44298fc1c149afbf4c8996fb92427ae41e4649b934ca495991b7852b855"
    );
    let object = ArchiveObjectRef::for_bytes("segments", b"abc");
    assert_eq!(
        object.key,
        "segments/ba7816bf8f01cfea414140de5dae2223b00361a396177a9cb410ff61f20015ad"
    );
    assert_eq!(object.byte_len, 3);
    assert!(object.verify(b"abc").is_ok());
    assert!(matches!(
        object.verify(b"abd"),
        Err(ArchiveError::Corrupt(key)) if key == object.key
    ));
    assert!(matches!(object.verify(b"ab"), Err(ArchiveError::Corrupt(_))));
    assert!(object.verify_digest(3, &object.sha256).is_ok());
    assert!(object.verify_digest(4, &object.sha256).is_err());
}

#[test]
fn a_read_never_exceeds_its_reference() {
    let object = ArchiveObjectRef::for_bytes("segments", b"immutable");
    let mut buffer = ReadBuffer::new();
    buffer.accept(&object, b"immu").unwrap();
    buffer.accept(&object, b"table").unwrap();
    assert!(matches!(buffer.accept(&object, b"!"), Err(ArchiveError::Corrupt(_))));
    assert_eq!(buffer.finish(&object).unwrap(), b"immutable");
    let mut short = ReadBuffer::new();
    short.accept(&object, b"immu").unwrap();
    assert!(matches!(short.finish(&object), Err(ArchiveError::Corrupt(_))));
}

#[test]
fn a_namespace_counts_in_its_serialized_form() {
    assert!(valid_namespace("projects/_/buckets/archive/wal"));
    assert!(!valid_namespace(""));
    assert!(valid_namespace(&"a".repeat(512)));
    assert!(!valid_namespace(&"a".repeat(513)));
    assert!(valid_namespace(&"\u{1}".repeat(85)));
    assert!(!valid_namespace(&"\u{1}".repeat(86)));
    for short in ["\"", "\\", "\u{8}", "\t", "\n", "\u{c}", "\r"] {
        assert!(valid_namespace(&short.repeat(256)));
        assert!(!valid_namespace(&short.repeat(257)));
    }
    assert!(valid_namespace(&"\u{1f}".repeat(85)));
    assert!(!valid_namespace(&"\u{1f}".repeat(86)));
    assert!(valid_namespace(&"/\u{7f}".repeat(256)));
    assert!(valid_namespace(&"\u{e9}".repeat(256)));
    assert!(!valid_namespace(&"\u{e9}".repeat(257)));
    assert!(valid_namespace(&"\u{1f980}".repeat(128)));
    assert!(!valid_namespace(&"\u{1f980}".repeat(129)));
}
