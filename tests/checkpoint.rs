use libsql_sync::record::{encode_record, marker_from_member, parse_record};
use libsql_sync::sync::{LoadFault, SyncContext, SyncError, DEFAULT_MAX_RETRIES};

fn open(bytes: Option<&[u8]>) -> Result<SyncContext, SyncError> {
    SyncContext::new(
        "libsql://example.turso.io".to_string(),
        Some("token".to_string()),
        "data/local.db".to_string(),
        bytes,
    )
}

fn advance(ctx: &mut SyncContext, file: &mut Vec<u8>, n: u32) {
    let record = SyncContext::metadata_record(n);
    *file = record;
    assert_eq!(ctx.set_max_frame_no(n, true), Ok(()));
}

#[test]
fn record_round_trip_for_many_markers() {
    for n in [0u32, 1, 9, 10, 99, 100, 12345, u32::MAX - 1, u32::MAX] {
        let bytes = SyncContext::metadata_record(n);
        let ctx = open(Some(&bytes)).unwrap();
        assert_eq!(ctx.max_frame_no(), n);
    }
}

#[test]
fn record_bytes_are_compact_json() {
    assert_eq!(SyncContext::metadata_record(0), b"{\"max_frame_no\":0}".to_vec());
    assert_eq!(SyncContext::metadata_record(250), b"{\"max_frame_no\":250}".to_vec());
    assert_eq!(
        encode_record(4294967295),
        b"{\"max_frame_no\":4294967295}".to_vec()
    );
}

#[test]
fn record_with_spacing_and_extra_fields_loads() {
    let text = b"{ \"version\": [1, 2], \"max_frame_no\" : 42 ,\n \"note\": \"x\" }";
    let ctx = open(Some(text)).unwrap();
    assert_eq!(ctx.max_frame_no(), 42);
}

#[test]
fn new_keeps_settings() {
    let bytes = SyncContext::metadata_record(7);
    let ctx = open(Some(&bytes)).unwrap();
    assert_eq!(ctx.sync_url, "libsql://example.turso.io");
    assert_eq!(ctx.auth_token, Some("token".to_string()));
    assert_eq!(ctx.max_retries, DEFAULT_MAX_RETRIES);
    assert_eq!(ctx.max_retries, 5);
    assert_eq!(ctx.durable_frame_num, 0);
}

#[test]
fn metadata_path_appends_suffix() {
    let bytes = SyncContext::metadata_record(7);
    let ctx = open(Some(&bytes)).unwrap();
    assert_eq!(ctx.metadata_path(), "data/local.db-info");
}

#[test]
fn missing_file_fails_to_load() {
    assert!(matches!(
        open(None),
        Err(SyncError::CheckpointLoad(LoadFault::Missing))
    ));
}

#[test]
fn malformed_records_fail_to_load() {
    let cases: [&[u8]; 8] = [
        b"",
        b"not json",
        b"{\"max_frame_no\":",
        b"{}",
        b"{\"max_frame_no\":-1}",
        b"{\"max_frame_no\":4294967296}",
        b"{\"max_frame_no\":\"12\"}",
        b"[12]",
    ];
    for text in cases {
        assert!(matches!(
            open(Some(text)),
            Err(SyncError::CheckpointLoad(LoadFault::Malformed))
        ));
    }
}

#[test]
fn persist_then_reload() {
    let mut file = SyncContext::metadata_record(3);
    let mut ctx = open(Some(&file)).unwrap();
    advance(&mut ctx, &mut file, 77);
    drop(ctx);
    let reloaded = open(Some(&file)).unwrap();
    assert_eq!(reloaded.max_frame_no(), 77);
}

#[test]
fn interrupted_advance_keeps_old_marker() {
    let file = SyncContext::metadata_record(40);
    let mut ctx = open(Some(&file)).unwrap();
    let _pending = SyncContext::metadata_record(90);
    assert_eq!(
        ctx.set_max_frame_no(90, false),
        Err(SyncError::CheckpointPersist)
    );
    assert_eq!(ctx.max_frame_no(), 40);
    let reloaded = open(Some(&file)).unwrap();
    assert_eq!(reloaded.max_frame_no(), 40);
}

#[test]
fn advancing_twice_is_idempotent() {
    let mut file = SyncContext::metadata_record(0);
    let mut ctx = open(Some(&file)).unwrap();
    advance(&mut ctx, &mut file, 55);
    let first = file.clone();
    advance(&mut ctx, &mut file, 55);
    assert_eq!(ctx.max_frame_no(), 55);
    assert_eq!(file, first);
}

#[test]
fn monotonic_use_scenario() {
    let mut file = SyncContext::metadata_record(0);
    let mut ctx = open(Some(&file)).unwrap();
    assert_eq!(ctx.max_frame_no(), 0);
    advance(&mut ctx, &mut file, 100);
    assert_eq!(ctx.max_frame_no(), 100);
    advance(&mut ctx, &mut file, 250);
    assert_eq!(ctx.max_frame_no(), 250);
    let reloaded = open(Some(&file)).unwrap();
    assert_eq!(reloaded.max_frame_no(), 250);
}

#[test]
fn smaller_marker_is_accepted() {
    let mut file = SyncContext::metadata_record(500);
    let mut ctx = open(Some(&file)).unwrap();
    advance(&mut ctx, &mut file, 20);
    assert_eq!(ctx.max_frame_no(), 20);
}

#[test]
fn failed_load_leaves_store_unchanged() {
    let bytes = SyncContext::metadata_record(8);
    let mut ctx = open(Some(&bytes)).unwrap();
    assert_eq!(
        ctx.read_and_update_metadata(b"{\"max_frame_no\":true}"),
        Err(SyncError::CheckpointLoad(LoadFault::Malformed))
    );
    assert_eq!(ctx.max_frame_no(), 8);
    assert_eq!(ctx.read_and_update_metadata(b"{\"max_frame_no\":9}"), Ok(()));
    assert_eq!(ctx.max_frame_no(), 9);
}

#[test]
fn member_to_marker() {
    assert_eq!(marker_from_member(None), None);
    assert_eq!(marker_from_member(Some(0)), Some(0));
    assert_eq!(marker_from_member(Some(4294967295)), Some(u32::MAX));
    assert_eq!(marker_from_member(Some(4294967296)), None);
}

#[test]
fn parse_record_reads_member() {
    assert_eq!(parse_record(b"{\"max_frame_no\":31}"), Some(31));
    assert_eq!(parse_record(b"{\"max_frame_no\":31.5}"), None);
    assert_eq!(parse_record(b"{\"other\":31}"), None);
}
