use chdr::metadata::{CdTrackInfo, CDROM_TRACK_METADATA2_TAG, CDROM_TRACK_METADATA_TAG};
use chdr::ChdError;

#[test]
fn test_from_old_metadata() {
    let s = b"TRACK:1 TYPE:MODE2_RAW SUBTYPE:NONE FRAMES:68352";

    let info = CdTrackInfo::from_old_metadata(s).unwrap();

    assert_eq!(info.track_no, 1);
    assert_eq!(info.track_type, "MODE2_RAW");
    assert_eq!(info.sub_type, "NONE");
    assert_eq!(info.frames, 68352);
    assert_eq!(info.pregap, None);
    assert_eq!(info.pgtype, None);
    assert_eq!(info.pgsub, None);
    assert_eq!(info.postgap, None);
}

#[test]
fn test_from_metadata() {
    let s = b"TRACK:1 TYPE:MODE2_RAW SUBTYPE:NONE FRAMES:68352 PREGAP:0 PGTYPE:MODE1 PGSUB:NONE POSTGAP:0";

    let info = CdTrackInfo::from_metadata(s).unwrap();

    assert_eq!(info.track_no, 1);
    assert_eq!(info.track_type, "MODE2_RAW");
    assert_eq!(info.sub_type, "NONE");
    assert_eq!(info.frames, 68352);
    assert_eq!(info.pregap.unwrap(), 0);
    assert_eq!(info.pgtype.unwrap(), "MODE1");
    assert_eq!(info.pgsub.unwrap(), "NONE");
    assert_eq!(info.postgap.unwrap(), 0);
}

#[test]
fn test_missing_subtype_is_parse_error() {
    let s = b"TRACK:1 TYPE:MODE2_RAW FRAMES:68352";
    assert_eq!(
        CdTrackInfo::from_old_metadata(s).unwrap_err(),
        ChdError::MetadataTextParseError
    );
    assert_eq!(
        CdTrackInfo::from_metadata(s).unwrap_err(),
        ChdError::MetadataTextParseError
    );
}

#[test]
fn test_old_grammar_rejects_current_record() {
    let s = b"TRACK:1 TYPE:MODE2_RAW SUBTYPE:NONE FRAMES:68352 PREGAP:0 PGTYPE:MODE1 PGSUB:NONE POSTGAP:0";
    assert!(CdTrackInfo::from_old_metadata(s).is_err());
}

#[test]
fn test_current_grammar_rejects_old_record() {
    let s = b"TRACK:1 TYPE:MODE2_RAW SUBTYPE:NONE FRAMES:68352";
    assert!(CdTrackInfo::from_metadata(s).is_err());
}

#[test]
fn test_trailing_whitespace_and_nul_tolerated() {
    let s = b"TRACK:2 TYPE:MODE1 SUBTYPE:NONE FRAMES:1234 \0\0";
    let info = CdTrackInfo::from_old_metadata(s).unwrap();
    assert_eq!(info.track_no, 2);
    assert_eq!(info.track_type, "MODE1");
    assert_eq!(info.frames, 1234);
}

#[test]
fn test_out_of_order_fields_rejected() {
    let s = b"TYPE:MODE1 TRACK:1 SUBTYPE:NONE FRAMES:1234";
    assert!(CdTrackInfo::from_old_metadata(s).is_err());
}

#[test]
fn test_track_number_overflow_rejected() {
    let s = b"TRACK:256 TYPE:MODE1 SUBTYPE:NONE FRAMES:1234";
    assert!(CdTrackInfo::from_old_metadata(s).is_err());
}

#[test]
fn test_frames_overflow_rejected() {
    let s = b"TRACK:1 TYPE:MODE1 SUBTYPE:NONE FRAMES:4294967296";
    assert!(CdTrackInfo::from_old_metadata(s).is_err());
}

#[test]
fn test_frames_at_limit_accepted() {
    let s = b"TRACK:1 TYPE:MODE1 SUBTYPE:NONE FRAMES:4294967295";
    let info = CdTrackInfo::from_old_metadata(s).unwrap();
    assert_eq!(info.frames, u32::MAX);
}

#[test]
fn test_nondigit_number_rejected() {
    let s = b"TRACK:1 TYPE:MODE1 SUBTYPE:NONE FRAMES:12x4";
    assert!(CdTrackInfo::from_old_metadata(s).is_err());
    let neg = b"TRACK:1 TYPE:MODE1 SUBTYPE:NONE FRAMES:-12";
    assert!(CdTrackInfo::from_old_metadata(neg).is_err());
}

#[test]
fn test_empty_value_rejected() {
    let s = b"TRACK:1 TYPE: SUBTYPE:NONE FRAMES:1234";
    assert!(CdTrackInfo::from_old_metadata(s).is_err());
}

#[test]
fn test_empty_record_rejected() {
    assert!(CdTrackInfo::from_old_metadata(b"").is_err());
    assert!(CdTrackInfo::from_metadata(b"").is_err());
}

#[test]
fn test_trailing_garbage_field_rejected() {
    let s = b"TRACK:1 TYPE:MODE1 SUBTYPE:NONE FRAMES:1234 EXTRA:1";
    assert!(CdTrackInfo::from_old_metadata(s).is_err());
}

#[test]
fn test_tag_constants() {
    let legacy = (b'C' as u32) << 24 | (b'H' as u32) << 16 | (b'T' as u32) << 8 | (b'R' as u32);
    let current = (b'C' as u32) << 24 | (b'H' as u32) << 16 | (b'T' as u32) << 8 | (b'2' as u32);
    assert_eq!(CDROM_TRACK_METADATA_TAG, legacy);
    assert_eq!(CDROM_TRACK_METADATA2_TAG, current);
}
