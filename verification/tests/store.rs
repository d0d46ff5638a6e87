use chorus::archive::{ArchiveError, ArchiveObjectRef, ReadBuffer};
use chorus::auth::{
    token_refresh_timeout, validate_token, AccessTokenSource, BearerAuth, RefreshingAuthConfig,
};
use chorus::directory::{directory_has_room_for, gcs_segment_directory_has_room};
use chorus::error::{Error, ManifestStoreError};
use chorus::store::{
    archive_error, archive_message, check_object_size, manifest_read_error, manifest_stat_failed,
    put_error, put_step, read_plan, status_error, update_generation, valid_key, write_refused,
    write_without_resource, GcsArchiveStore, GcsBodyManifestStore, PutStep, RangeRead, Upload,
    WriteError,
};
use chorus::time::Span;
use chorus::transport::MetadataEntry;

#[test]
fn archive_upload_lost_response_retries_identical_content() {
    let bytes = b"immutable";
    let object = ArchiveObjectRef::for_bytes("segments", bytes);
    let lost = write_without_resource();
    assert!(matches!(
        put_step(Err(lost)),
        PutStep::Done(Err(ArchiveError::Unavailable(message)))
            if message == "write response omitted object identity"
    ));
    // The object exists now: the retry reads it and finds its own bytes.
    assert!(matches!(put_step(Err(WriteError::Conflict)), PutStep::VerifyExisting));
    assert!(check_object_size(&object, 9).is_ok());
    assert!(object.verify(bytes).is_ok());
    let mut read = ReadBuffer::new();
    read.accept(&object, bytes).unwrap();
    assert_eq!(read.finish(&object).unwrap(), bytes);
    assert!(object.verify(b"different").is_err());
    let mut upload = Upload::new();
    upload.chunk(&object, b"different");
    assert!(upload.finish(&object).is_err());
    let mut different = ArchiveObjectRef::for_bytes("segments", b"different");
    different.key = object.key.clone();
    assert!(different.verify(bytes).is_err());
    assert!(matches!(put_step(Ok(())), PutStep::Done(Ok(()))));
}

#[test]
fn uploads_are_split_and_checked_against_the_reference() {
    let bytes = vec![37u8; 700_000];
    let object = ArchiveObjectRef::for_bytes("segments", &bytes);
    let mut upload = Upload::new();
    let plan = upload.chunk(&object, &bytes);
    let pieces = plan.pieces;
    assert_eq!(plan.offset, 0);
    assert!(plan.refused.is_none());
    assert_eq!(pieces.len(), 3);
    assert_eq!((pieces[0].start, pieces[0].end), (0, 262_144));
    assert_eq!((pieces[2].start, pieces[2].end), (524_288, 700_000));
    assert_eq!(pieces[2].crc32c, crc32c::crc32c(&bytes[524_288..]));
    assert!(matches!(
        upload.chunk(&object, b"x").refused,
        Some(ArchiveError::Corrupt(reason)) if reason == "upload exceeds reference length"
    ));
    assert_eq!(upload.finish(&object).unwrap(), 700_000);
    // The digest does not depend on how the bytes were cut into chunks.
    let mut parts = Upload::new();
    for part in bytes.chunks(99_991) {
        assert!(parts.chunk(&object, part).refused.is_none());
    }
    assert_eq!(parts.finish(&object).unwrap(), 700_000);
    let mut altered = bytes.clone();
    altered[5] = 0;
    let mut wrong = Upload::new();
    assert!(wrong.chunk(&object, &altered).refused.is_none());
    assert!(wrong.finish(&object).is_err());
    // Whole messages that still fit go out before the upload is refused.
    let longer = vec![37u8; 800_000];
    let mut exceeding = Upload::new();
    let plan = exceeding.chunk(&object, &longer);
    assert_eq!(plan.pieces.len(), 2);
    assert_eq!(plan.pieces[1].end, 524_288);
    assert!(plan.refused.is_some());
    assert_eq!(exceeding.sent, 524_288);
    let mut short = Upload::new();
    assert!(short.chunk(&object, &bytes[..10]).refused.is_none());
    let plan = short.chunk(&object, b"");
    assert_eq!((plan.offset, plan.pieces.len()), (10, 0));
    assert!(plan.refused.is_none());
    assert!(matches!(
        short.finish(&object),
        Err(ArchiveError::Corrupt(reason)) if reason == "upload does not match reference"
    ));
}

#[test]
fn ranged_reads_deliver_exactly_their_range() {
    assert_eq!(read_plan(700_000, 123, 456).unwrap(), Some((123, 333)));
    assert_eq!(read_plan(10, 10, 10).unwrap(), None);
    for (size, start, end) in [(10, 4, 3), (10, 0, 11), (-1, 0, 0)] {
        assert!(matches!(
            read_plan(size, start, end),
            Err(ArchiveError::Backend(reason)) if reason == "invalid object byte range"
        ));
    }
    let mut read = RangeRead::new(5);
    read.accept(b"abc", Some(crc32c::crc32c(b"abc"))).unwrap();
    assert!(matches!(
        read.accept(b"de", Some(1)),
        Err(ArchiveError::Corrupt(reason)) if reason == "archive response checksum"
    ));
    assert!(matches!(
        read.finish(),
        Err(ArchiveError::Corrupt(reason)) if reason == "short archive read"
    ));
    assert!(matches!(
        read.accept(b"def", None),
        Err(ArchiveError::Corrupt(reason)) if reason == "archive response overrun"
    ));
    read.accept(b"de", None).unwrap();
    assert!(read.finish().is_ok());
    let mut full = RangeRead { expected: u64::MAX, received: u64::MAX };
    assert!(matches!(
        full.accept(b"x", None),
        Err(ArchiveError::Corrupt(reason)) if reason == "archive length overflow"
    ));
}

#[test]
fn statuses_become_archive_and_manifest_failures() {
    assert!(matches!(status_error(5, "s".into()), ArchiveError::NotFound(_)));
    for code in [14, 4, 8, 10, 9] {
        assert!(matches!(status_error(code, "s".into()), ArchiveError::Unavailable(_)));
    }
    assert!(matches!(status_error(15, "s".into()), ArchiveError::Corrupt(_)));
    assert!(matches!(status_error(7, "s".into()), ArchiveError::Backend(_)));
    assert!(matches!(archive_error("x".into()), ArchiveError::Backend(text) if text == "x"));
    assert_eq!(
        archive_message(&ArchiveError::Corrupt("key".into())),
        "archive integrity or immutable-key conflict: key"
    );
    assert_eq!(
        archive_message(&ArchiveError::NotFound("key".into())),
        "archive object not found: key"
    );
    assert_eq!(archive_message(&ArchiveError::Unavailable("z".into())), "archive unavailable: z");
    assert!(matches!(
        manifest_read_error(ArchiveError::NotFound("gone".into())),
        ManifestStoreError::Unavailable(text) if text == "gone"
    ));
    assert!(matches!(
        manifest_read_error(ArchiveError::Backend("no".into())),
        ManifestStoreError::Backend(text) if text == "archive backend: no"
    ));
    assert!(manifest_stat_failed(5, "gone".into()).is_ok());
    assert!(matches!(
        manifest_stat_failed(14, "down".into()),
        Err(ManifestStoreError::Unavailable(text)) if text == "down"
    ));
    assert!(matches!(write_refused(6, "s".into()), WriteError::Conflict));
    assert!(matches!(write_refused(9, "s".into()), WriteError::Conflict));
    assert!(matches!(
        write_refused(15, "s".into()),
        WriteError::Archive(ArchiveError::Corrupt(_))
    ));
    assert!(matches!(put_error(0, WriteError::Conflict), ManifestStoreError::AlreadyExists));
    assert!(matches!(put_error(3, WriteError::Conflict), ManifestStoreError::Conflict));
    assert!(matches!(
        put_error(3, WriteError::Archive(ArchiveError::Unavailable("u".into()))),
        ManifestStoreError::Unavailable(text) if text == "u"
    ));
}

#[test]
fn keys_stay_within_their_prefix() {
    for key in ["segments/abc", "a", "a/b..c/d", "..."] {
        assert!(valid_key(key), "{key}");
    }
    for key in ["", "/a", "a/", "a//b", "..", "a/..", "../a", "a/../b"] {
        assert!(!valid_key(key), "{key}");
    }
    let store = GcsArchiveStore::new("projects/_/buckets/archive", "/wal/").unwrap();
    assert_eq!(store.namespace, "projects/_/buckets/archive/wal");
    let object = ArchiveObjectRef::for_bytes("segments", b"abc");
    assert_eq!(store.object_name(&object).unwrap(), format!("wal/{}", object.key));
    let mut upwards = object.clone();
    upwards.key = "../other".into();
    assert!(matches!(
        store.object_name(&upwards),
        Err(ArchiveError::Backend(reason)) if reason == "invalid archive object reference"
    ));
    let mut huge = object.clone();
    huge.byte_len = u64::MAX;
    assert!(store.object_name(&huge).is_err());
    assert!(matches!(
        GcsArchiveStore::new("b", "//"),
        Err(Error::InvalidConfig("archive prefix must not be empty"))
    ));
    assert!(matches!(
        GcsArchiveStore::new("b", &"p".repeat(600)),
        Err(Error::InvalidConfig("archive namespace exceeds its encoded byte limit"))
    ));
    assert!(matches!(
        check_object_size(&object, 4),
        Err(ArchiveError::Corrupt(key)) if key == object.key
    ));
    assert!(check_object_size(&object, -1).is_err());
}

#[test]
fn body_manifests_are_bounded_and_replace_their_generation() {
    let manifest = GcsBodyManifestStore::new("manifest".into(), 100_000).unwrap();
    assert_eq!(manifest.max_body_bytes(), 616_384);
    assert!(manifest.check_body(616_384).is_ok());
    assert!(matches!(
        manifest.check_body(616_385),
        Err(ManifestStoreError::Backend(reason)) if reason == "manifest body exceeds configured limit"
    ));
    assert!(manifest.check_body(-1).is_err());
    let huge = GcsBodyManifestStore::new("manifest".into(), usize::MAX).unwrap();
    assert_eq!(huge.max_body_bytes(), i64::MAX as u64);
    assert!(matches!(
        GcsBodyManifestStore::new("".into(), 1),
        Err(Error::InvalidConfig("body manifest requires an object and nonzero capacity"))
    ));
    assert!(GcsBodyManifestStore::new("m".into(), 0).is_err());
    assert_eq!(update_generation(7).unwrap(), 7);
    assert!(matches!(update_generation(0), Err(ManifestStoreError::Conflict)));
    assert!(matches!(
        update_generation(u64::MAX),
        Err(ManifestStoreError::Backend(reason)) if reason == "invalid GCS generation"
    ));
}

#[test]
fn the_directory_keeps_its_byte_budget() {
    assert!(gcs_segment_directory_has_room("", 115));
    assert!(!gcs_segment_directory_has_room("", 116));
    assert!(gcs_segment_directory_has_room(&"x".repeat(7168), 0));
    assert!(!gcs_segment_directory_has_room(&"x".repeat(7168), 1));
    assert!(!directory_has_room_for(10, usize::MAX, 100));
    assert!(directory_has_room_for(38, 1, 100));
    assert!(!directory_has_room_for(39, 1, 100));
}

struct FixedSource(Result<String, Error>);

impl AccessTokenSource for FixedSource {
    fn access_token(&self) -> Result<String, Error> {
        match &self.0 {
            Ok(token) => Ok(token.clone()),
            Err(error) => Err(error.clone()),
        }
    }
}

#[test]
fn tokens_must_fit_the_authorization_header() {
    assert!(validate_token("token-0").is_ok());
    assert!(validate_token("with\ttab").is_ok());
    assert!(validate_token("beyond-ascii-\u{e9}").is_ok());
    for token in ["", "line\nbreak", "nul\0", "\u{7f}"] {
        assert!(matches!(validate_token(token), Err(Error::InvalidToken)));
    }
    let auth = BearerAuth::static_token("token-0".into());
    assert!(!auth.refreshing);
    assert_eq!(auth.authorization_header().unwrap(), "Bearer token-0");
    let broken = BearerAuth::static_token("line\nbreak".into());
    assert!(matches!(broken.authorization_header(), Err(Error::InvalidToken)));
    let empty = BearerAuth::static_token("".into());
    assert_eq!(empty.authorization_header().unwrap(), "Bearer ");
}

#[test]
fn refreshing_keeps_the_last_valid_token() {
    let config = RefreshingAuthConfig::default();
    assert_eq!(config.refresh_interval, Span::from_secs(30));
    assert_eq!(config.retry_interval, Span::from_secs(5));
    assert_eq!(token_refresh_timeout(), Span::from_secs(30));
    let source = FixedSource(Ok("token-0".into()));
    let mut auth = BearerAuth::refreshing(&source, &config).unwrap();
    assert_eq!(auth.authorization_header().unwrap(), "Bearer token-0");
    assert_eq!(auth.refreshed(&config, Some(Ok("token-1".into()))), Span::from_secs(30));
    assert_eq!(auth.token, "token-1");
    assert_eq!(auth.refreshed(&config, Some(Ok("".into()))), Span::from_secs(5));
    assert_eq!(auth.refreshed(&config, Some(Err(Error::InvalidToken))), Span::from_secs(5));
    assert_eq!(auth.refreshed(&config, None), Span::from_secs(5));
    assert_eq!(auth.token, "token-1");
    let zero = RefreshingAuthConfig { refresh_interval: Span::from_secs(0), ..config };
    assert!(matches!(
        BearerAuth::refreshing(&source, &zero),
        Err(Error::InvalidRefreshInterval)
    ));
    let failing = FixedSource(Err(Error::TokenSource("no identity".into())));
    assert!(matches!(
        BearerAuth::refreshing(&failing, &config),
        Err(Error::TokenSource(reason)) if reason == "no identity"
    ));
    assert!(matches!(
        BearerAuth::first_token(&config, Ok("".into())),
        Err(Error::InvalidToken)
    ));
}

fn field(key: &str, value: &str) -> MetadataEntry {
    MetadataEntry { key: key.to_string(), value: value.to_string() }
}

#[test]
fn registers_read_back_what_was_written() {
    let register = GcsBodyManifestStore::new("manifest".into(), 100_000).unwrap();
    let fields = vec![field("payload", &"x".repeat(9000)), field("quote\"", "line\n\u{1f980}")];
    let body = register.encode(&fields).unwrap();
    let mut read: Vec<(String, String)> = register
        .decode(&body)
        .unwrap()
        .into_iter()
        .map(|entry| (entry.key, entry.value))
        .collect();
    read.sort();
    assert_eq!(read.len(), 2);
    assert_eq!(read[0], ("payload".to_string(), "x".repeat(9000)));
    assert_eq!(read[1], ("quote\"".to_string(), "line\n\u{1f980}".to_string()));
    assert_eq!(register.encode(&Vec::new()).unwrap(), b"{}");
    assert_eq!(
        register.encode(&vec![field("a", "b")]).unwrap(),
        b"{\"a\":\"b\"}"
    );
    let small = GcsBodyManifestStore::new("manifest".into(), 1).unwrap();
    assert!(matches!(
        small.encode(&vec![field("payload", &"x".repeat(20_000))]),
        Err(ManifestStoreError::Backend(reason))
            if reason == "manifest body exceeds configured limit"
    ));
    for broken in ["", "[]", "{\"a\":1}", "{\"a\":\"b\"} c"] {
        assert!(matches!(
            register.decode(broken.as_bytes()),
            Err(ManifestStoreError::Backend(_))
        ));
    }
}
