use chdr::discovery::{Discovery, DiscoveryStep, MetadataStatus};
use chdr::metadata::{CDROM_TRACK_METADATA2_TAG, CDROM_TRACK_METADATA_TAG};
use chdr::ChdError;

fn found(record: &[u8]) -> MetadataStatus {
    let mut bytes = record.to_vec();
    bytes.push(0);
    MetadataStatus::Found(bytes)
}

#[test]
fn test_discovery_starts_with_current_tag_index_zero() {
    let d = Discovery::new();
    assert_eq!(d.next_query(), (CDROM_TRACK_METADATA2_TAG, 0));
}

#[test]
fn test_discovery_no_track_metadata() {
    // Not-found under the current tag at index 0, then not-found under the
    // legacy tag at index 0: no usable track table.
    let d = Discovery::new();
    let d = match d.on_metadata(MetadataStatus::NotFound) {
        DiscoveryStep::Continue(d) => d,
        other => panic!("expected legacy retry, got {:?}", other),
    };
    assert_eq!(d.next_query(), (CDROM_TRACK_METADATA_TAG, 0));
    match d.on_metadata(MetadataStatus::NotFound) {
        DiscoveryStep::Fail(e) => assert_eq!(e, ChdError::NoCdromMetadata),
        other => panic!("expected NoCdromMetadata, got {:?}", other),
    }
}

#[test]
fn test_discovery_never_queries_legacy_after_current_record() {
    // One current-format record, then not-found: discovery ends the table
    // without ever consulting the legacy tag, and with no legacy query made.
    let rec = b"TRACK:1 TYPE:MODE2_RAW SUBTYPE:NONE FRAMES:68352 PREGAP:0 PGTYPE:MODE1 PGSUB:NONE POSTGAP:0";
    let mut legacy_queries = 0;
    let d = Discovery::new();
    assert_eq!(d.next_query().0, CDROM_TRACK_METADATA2_TAG);
    let d = match d.on_metadata(found(rec)) {
        DiscoveryStep::Continue(d) => d,
        other => panic!("expected another query, got {:?}", other),
    };
    let (tag, index) = d.next_query();
    if tag == CDROM_TRACK_METADATA_TAG {
        legacy_queries += 1;
    }
    assert_eq!(index, 1);
    let tracks = match d.on_metadata(MetadataStatus::NotFound) {
        DiscoveryStep::Done(tracks) => tracks,
        other => panic!("expected end of table, got {:?}", other),
    };
    assert_eq!(legacy_queries, 0);
    assert_eq!(tracks.len(), 1);
    assert_eq!(tracks[0].track_no, 1);
    assert_eq!(tracks[0].pregap, Some(0));
}

#[test]
fn test_discovery_legacy_fallback() {
    // No current-format record at all: discovery retries index 0 under the
    // legacy tag and parses records with the legacy grammar.
    let rec = b"TRACK:1 TYPE:MODE2_RAW SUBTYPE:NONE FRAMES:68352";
    let d = Discovery::new();
    let d = match d.on_metadata(MetadataStatus::NotFound) {
        DiscoveryStep::Continue(d) => d,
        other => panic!("expected legacy retry, got {:?}", other),
    };
    assert_eq!(d.next_query(), (CDROM_TRACK_METADATA_TAG, 0));
    let d = match d.on_metadata(found(rec)) {
        DiscoveryStep::Continue(d) => d,
        other => panic!("expected another query, got {:?}", other),
    };
    assert_eq!(d.next_query(), (CDROM_TRACK_METADATA_TAG, 1));
    let tracks = match d.on_metadata(MetadataStatus::NotFound) {
        DiscoveryStep::Done(tracks) => tracks,
        other => panic!("expected end of table, got {:?}", other),
    };
    assert_eq!(tracks.len(), 1);
    assert_eq!(tracks[0].track_no, 1);
    assert_eq!(tracks[0].track_type, "MODE2_RAW");
    assert_eq!(tracks[0].pregap, None);
    assert_eq!(tracks[0].pgtype, None);
    assert_eq!(tracks[0].pgsub, None);
    assert_eq!(tracks[0].postgap, None);
}

#[test]
fn test_discovery_engine_failure_aborts() {
    let d = Discovery::new();
    match d.on_metadata(MetadataStatus::Failure(7)) {
        DiscoveryStep::Fail(e) => assert_eq!(e, ChdError::ChdrCError(7)),
        other => panic!("expected engine failure, got {:?}", other),
    }
}

#[test]
fn test_discovery_parse_failure_aborts() {
    let rec = b"TRACK:1 TYPE:MODE2_RAW FRAMES:68352";
    let d = Discovery::new();
    match d.on_metadata(found(rec)) {
        DiscoveryStep::Fail(e) => assert_eq!(e, ChdError::MetadataTextParseError),
        other => panic!("expected parse failure, got {:?}", other),
    }
}

#[test]
fn test_discovery_two_tracks_in_order() {
    let rec1 = b"TRACK:1 TYPE:MODE2_RAW SUBTYPE:NONE FRAMES:100 PREGAP:0 PGTYPE:MODE1 PGSUB:NONE POSTGAP:0";
    let rec2 = b"TRACK:2 TYPE:AUDIO SUBTYPE:NONE FRAMES:200 PREGAP:150 PGTYPE:AUDIO PGSUB:NONE POSTGAP:0";
    let d = Discovery::new();
    let d = match d.on_metadata(found(rec1)) {
        DiscoveryStep::Continue(d) => d,
        other => panic!("expected another query, got {:?}", other),
    };
    let d = match d.on_metadata(found(rec2)) {
        DiscoveryStep::Continue(d) => d,
        other => panic!("expected another query, got {:?}", other),
    };
    assert_eq!(d.next_query(), (CDROM_TRACK_METADATA2_TAG, 2));
    let tracks = match d.on_metadata(MetadataStatus::NotFound) {
        DiscoveryStep::Done(tracks) => tracks,
        other => panic!("expected end of table, got {:?}", other),
    };
    assert_eq!(tracks.len(), 2);
    assert_eq!(tracks[0].track_no, 1);
    assert_eq!(tracks[0].track_type, "MODE2_RAW");
    assert_eq!(tracks[1].track_no, 2);
    assert_eq!(tracks[1].track_type, "AUDIO");
    assert_eq!(tracks[1].pregap, Some(150));
}
