use camera_backup::date::{Date, DateError};
use camera_backup::transfer::{
    validate_send, ChunkMsg, ProtocolError, WireDate,
};

/// A minimal TIFF container with one primary-IFD `DateTime` field
/// holding the given 19-character value.
fn exif_tiff(datetime: &str) -> Vec<u8> {
    assert_eq!(datetime.len(), 19);
    let mut b: Vec<u8> = vec![0x49, 0x49, 0x2A, 0x00, 0x08, 0x00, 0x00, 0x00];
    b.extend_from_slice(&[0x01, 0x00]); // one IFD entry
    b.extend_from_slice(&[0x32, 0x01]); // tag 0x0132, DateTime
    b.extend_from_slice(&[0x02, 0x00]); // type ASCII
    b.extend_from_slice(&[0x14, 0x00, 0x00, 0x00]); // twenty bytes
    b.extend_from_slice(&[0x1A, 0x00, 0x00, 0x00]); // stored at offset 26
    b.extend_from_slice(&[0x00, 0x00, 0x00, 0x00]); // no next IFD
    b.extend_from_slice(datetime.as_bytes());
    b.push(0);
    b
}

/// A TIFF whose `DateTime` field has a non-ASCII type.
fn exif_tiff_short_datetime() -> Vec<u8> {
    let mut b: Vec<u8> = vec![0x49, 0x49, 0x2A, 0x00, 0x08, 0x00, 0x00, 0x00];
    b.extend_from_slice(&[0x01, 0x00]);
    b.extend_from_slice(&[0x32, 0x01]);
    b.extend_from_slice(&[0x03, 0x00]); // type SHORT
    b.extend_from_slice(&[0x01, 0x00, 0x00, 0x00]);
    b.extend_from_slice(&[0x07, 0x00, 0x00, 0x00]); // inline value
    b.extend_from_slice(&[0x00, 0x00, 0x00, 0x00]);
    b
}

/// A TIFF whose `DateTime` field is ASCII but carries no value.
fn exif_tiff_empty_datetime() -> Vec<u8> {
    let mut b: Vec<u8> = vec![0x49, 0x49, 0x2A, 0x00, 0x08, 0x00, 0x00, 0x00];
    b.extend_from_slice(&[0x01, 0x00]);
    b.extend_from_slice(&[0x32, 0x01]);
    b.extend_from_slice(&[0x02, 0x00]);
    b.extend_from_slice(&[0x00, 0x00, 0x00, 0x00]); // zero bytes
    b.extend_from_slice(&[0x00, 0x00, 0x00, 0x00]);
    b.extend_from_slice(&[0x00, 0x00, 0x00, 0x00]);
    b
}

/// A TIFF with a field other than `DateTime`.
fn exif_tiff_no_datetime() -> Vec<u8> {
    let mut b: Vec<u8> = vec![0x49, 0x49, 0x2A, 0x00, 0x08, 0x00, 0x00, 0x00];
    b.extend_from_slice(&[0x01, 0x00]);
    b.extend_from_slice(&[0x0F, 0x01]); // tag 0x010F, Make
    b.extend_from_slice(&[0x02, 0x00]);
    b.extend_from_slice(&[0x02, 0x00, 0x00, 0x00]);
    b.extend_from_slice(&[0x58, 0x00, 0x00, 0x00]); // "X\0" inline
    b.extend_from_slice(&[0x00, 0x00, 0x00, 0x00]);
    b
}

#[test]
fn exif_date_is_read_from_the_container() {
    let bytes = exif_tiff("2024:03:01 12:00:00");
    assert_eq!(Date::from_file_exif(bytes), Ok(Date::new(2024, 3).unwrap()));
}

#[test]
fn exif_failures_are_told_apart() {
    assert_eq!(
        Date::from_file_exif(b"not an image at all".to_vec()),
        Err(DateError::BadContainer)
    );
    assert_eq!(
        Date::from_file_exif(exif_tiff_no_datetime()),
        Err(DateError::MissingDateTimeField)
    );
    assert_eq!(Date::from_file_exif(exif_tiff_short_datetime()), Err(DateError::NotAscii));
    assert_eq!(Date::from_file_exif(exif_tiff_empty_datetime()), Err(DateError::EmptyDateTime));
    assert_eq!(
        Date::from_file_exif(exif_tiff("    :  :     :  :  ")),
        Err(DateError::BadDateTimeFormat)
    );
    assert_eq!(
        Date::from_file_exif(exif_tiff("2024-03-01 12:00:00")),
        Err(DateError::BadDateTimeFormat)
    );
    assert_eq!(Date::from_file_exif(exif_tiff("2024:13:01 12:00:00")), Err(DateError::InvalidMonth));
}

#[test]
fn stream_file_chunks_in_order() {
    let contents = exif_tiff("2024:03:01 12:00:00");
    let total = contents.len();
    let msgs = camera_backup::transfer::stream_file(String::from("A.jpg"), contents.clone(), 20)
        .unwrap();
    assert_eq!(msgs.len(), (total + 19) / 20);
    assert_eq!(msgs[0].filename.as_deref(), Some("A.jpg"));
    assert_eq!(msgs[0].created, Some(WireDate { year: 2024, month: 3 }));
    let mut rebuilt: Vec<u8> = Vec::new();
    for (i, m) in msgs.iter().enumerate() {
        if i > 0 {
            assert!(m.filename.is_none());
            assert!(m.created.is_none());
        }
        assert!(!m.contents.is_empty());
        assert!(m.contents.len() <= 20);
        rebuilt.extend_from_slice(&m.contents);
    }
    assert_eq!(rebuilt, contents);
}

#[test]
fn stream_file_single_chunk_when_small_enough() {
    let contents = exif_tiff("2023:11:30 01:02:03");
    let msgs =
        camera_backup::transfer::stream_file(String::from("B.jpg"), contents.clone(), 4096)
            .unwrap();
    assert_eq!(msgs.len(), 1);
    assert_eq!(msgs[0].contents, contents);
    assert_eq!(msgs[0].created, Some(WireDate { year: 2023, month: 11 }));
}

#[test]
fn stream_file_rejects_an_empty_file() {
    assert_eq!(
        camera_backup::transfer::stream_file(String::from("A.jpg"), Vec::new(), 16),
        Err(ProtocolError::EmptyFile)
    );
}

#[test]
fn stream_file_propagates_date_failures() {
    assert_eq!(
        camera_backup::transfer::stream_file(String::from("A.jpg"), vec![1, 2, 3], 16),
        Err(ProtocolError::Date(DateError::BadContainer))
    );
}

fn first_msg(filename: Option<&str>, created: Option<WireDate>) -> ChunkMsg {
    ChunkMsg {
        filename: filename.map(String::from),
        created,
        contents: vec![1, 2, 3],
    }
}

#[test]
fn validate_send_accepts_a_proper_first_message() {
    let msgs = vec![first_msg(Some("A.jpg"), Some(WireDate { year: 2024, month: 3 }))];
    let (name, date) = validate_send(&msgs).unwrap();
    assert_eq!(name, "A.jpg");
    assert_eq!(date, Date::new(2024, 3).unwrap());
}

#[test]
fn validate_send_rejections() {
    let none: Vec<ChunkMsg> = Vec::new();
    assert_eq!(validate_send(&none).unwrap_err(), ProtocolError::NoInitialMessage);
    let msgs = vec![first_msg(None, Some(WireDate { year: 2024, month: 3 }))];
    assert_eq!(validate_send(&msgs).unwrap_err(), ProtocolError::FilenameUnset);
    let msgs = vec![first_msg(Some(""), Some(WireDate { year: 2024, month: 3 }))];
    assert_eq!(validate_send(&msgs).unwrap_err(), ProtocolError::FilenameEmpty);
    let msgs = vec![first_msg(Some("A.jpg"), None)];
    assert_eq!(validate_send(&msgs).unwrap_err(), ProtocolError::CreatedUnset);
    let msgs = vec![first_msg(Some("A.jpg"), Some(WireDate { year: 2024, month: 13 }))];
    assert_eq!(
        validate_send(&msgs).unwrap_err(),
        ProtocolError::Date(DateError::InvalidMonth)
    );
    let msgs = vec![first_msg(Some("A.jpg"), Some(WireDate { year: 100_000, month: 3 }))];
    assert_eq!(
        validate_send(&msgs).unwrap_err(),
        ProtocolError::Date(DateError::YearOutOfRange)
    );
}

#[test]
fn wire_round_trip() {
    let d = Date::new(2024, 3).unwrap();
    let w = d.to_wire();
    assert_eq!(w, WireDate { year: 2024, month: 3 });
    assert_eq!(Date::from_wire(w), Ok(d));
    assert_eq!(
        Date::from_wire(WireDate { year: 2024, month: 0 }),
        Err(DateError::InvalidMonth)
    );
}
