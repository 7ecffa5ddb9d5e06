use camera_backup::date::{Date, DateError};
use camera_backup::scan::WalkEntry;
use camera_backup::server::{ServerIndex, ServerState};
use camera_backup::transfer::{stream_file, ChunkMsg, ProtocolError, WireDate};

fn entry(path: &str, is_file: bool) -> WalkEntry {
    WalkEntry { path: String::from(path), is_file }
}

/// A minimal TIFF container with one primary-IFD `DateTime` field.
fn exif_tiff(datetime: &str) -> Vec<u8> {
    assert_eq!(datetime.len(), 19);
    let mut b: Vec<u8> = vec![0x49, 0x49, 0x2A, 0x00, 0x08, 0x00, 0x00, 0x00];
    b.extend_from_slice(&[0x01, 0x00]);
    b.extend_from_slice(&[0x32, 0x01]);
    b.extend_from_slice(&[0x02, 0x00]);
    b.extend_from_slice(&[0x14, 0x00, 0x00, 0x00]);
    b.extend_from_slice(&[0x1A, 0x00, 0x00, 0x00]);
    b.extend_from_slice(&[0x00, 0x00, 0x00, 0x00]);
    b.extend_from_slice(datetime.as_bytes());
    b.push(0);
    b
}

#[test]
fn index_records_and_answers() {
    let mut index = ServerIndex::new();
    let name = String::from("IMG_6812.jpg");
    assert!(!index.contains(&name));
    assert_eq!(index.get(&name), None);
    index.insert(name.clone(), Date::new(2024, 3).unwrap());
    assert!(index.contains(&name));
    assert_eq!(index.get(&name), Some(Date::new(2024, 3).unwrap()));
    assert!(!index.contains(&String::from("other.jpg")));
}

#[test]
fn index_last_write_wins() {
    let mut index = ServerIndex::new();
    let name = String::from("IMG_6812.jpg");
    index.insert(name.clone(), Date::new(2023, 11).unwrap());
    index.insert(name.clone(), Date::new(2024, 3).unwrap());
    assert_eq!(index.get(&name), Some(Date::new(2024, 3).unwrap()));
}

#[test]
fn startup_walk_builds_the_index() {
    let entries = vec![
        entry("dest/2024/03/A.jpg", true),
        entry("dest/2024/03", false),
        entry("dest/2023/11/B.CR2", true),
        entry("dest/2023/11/notes.txt", true),
    ];
    let state = ServerState::init_from_directory_tree(String::from("dest"), &entries).unwrap();
    assert!(state.index.contains(&String::from("A.jpg")));
    assert_eq!(state.index.get(&String::from("B.CR2")), Some(Date::new(2023, 11).unwrap()));
    assert!(!state.index.contains(&String::from("notes.txt")));
}

#[test]
fn startup_walk_aborts_on_a_bad_layout() {
    let entries = vec![
        entry("dest/2024/03/A.jpg", true),
        entry("dest/oops/B.jpg", true),
    ];
    let r = ServerState::init_from_directory_tree(String::from("dest"), &entries);
    assert_eq!(r.err(), Some(DateError::UnparsableYear));
}

#[test]
fn exists_tracks_sends() {
    let mut server = ServerState::new(String::from("dest"));
    let name = String::from("A.jpg");
    assert!(!server.handle_exists(&name).exists);
    let msgs = vec![ChunkMsg {
        filename: Some(name.clone()),
        created: Some(WireDate { year: 2024, month: 3 }),
        contents: vec![9, 9, 9],
    }];
    let pending = server.prepare_send(&msgs).unwrap();
    assert!(!server.handle_exists(&name).exists);
    server.record_send(pending.filename, pending.date);
    assert!(server.handle_exists(&name).exists);
}

#[test]
fn prepare_send_lays_out_the_write() {
    let server = ServerState::new(String::from("dest"));
    let msgs = vec![
        ChunkMsg {
            filename: Some(String::from("A.jpg")),
            created: Some(WireDate { year: 2024, month: 3 }),
            contents: vec![1, 2],
        },
        ChunkMsg { filename: None, created: None, contents: vec![3] },
        ChunkMsg { filename: None, created: None, contents: vec![4, 5] },
    ];
    let pending = server.prepare_send(&msgs).unwrap();
    assert_eq!(pending.path, "dest/2024/03/A.jpg");
    assert_eq!(pending.contents, vec![1, 2, 3, 4, 5]);
    assert_eq!(pending.date, Date::new(2024, 3).unwrap());
}

#[test]
fn rejected_sends_update_nothing() {
    let mut server = ServerState::new(String::from("dest"));
    let no_msgs: Vec<ChunkMsg> = Vec::new();
    assert_eq!(server.prepare_send(&no_msgs).unwrap_err(), ProtocolError::NoInitialMessage);
    let unnamed = vec![ChunkMsg {
        filename: None,
        created: Some(WireDate { year: 2024, month: 3 }),
        contents: vec![1],
    }];
    assert_eq!(server.prepare_send(&unnamed).unwrap_err(), ProtocolError::FilenameUnset);
    let undated = vec![ChunkMsg {
        filename: Some(String::from("A.jpg")),
        created: None,
        contents: vec![1],
    }];
    assert_eq!(server.prepare_send(&undated).unwrap_err(), ProtocolError::CreatedUnset);
    assert!(!server.handle_exists(&String::from("A.jpg")).exists);
    let _ = &mut server;
}

#[test]
fn end_to_end_two_files_then_dedup() {
    // Source tree: A.jpg taken 2024-03, B.jpg taken 2023-11; empty
    // destination.
    let a_bytes = exif_tiff("2024:03:09 10:00:00");
    let b_bytes = exif_tiff("2023:11:05 20:30:00");
    let mut server = ServerState::new(String::from("dest"));

    // First run: nothing exists, both stream over and are recorded.
    for (name, bytes) in [("A.jpg", &a_bytes), ("B.jpg", &b_bytes)] {
        assert!(!server.handle_exists(&String::from(name)).exists);
        let msgs = stream_file(String::from(name), bytes.clone(), 16).unwrap();
        let pending = server.prepare_send(&msgs).unwrap();
        assert_eq!(pending.contents, *bytes);
        server.record_send(pending.filename, pending.date);
    }
    assert_eq!(
        server.index.get(&String::from("A.jpg")),
        Some(Date::new(2024, 3).unwrap())
    );
    assert_eq!(
        server.index.get(&String::from("B.jpg")),
        Some(Date::new(2023, 11).unwrap())
    );
    // The destination layout the writes used.
    let a_date = server.index.get(&String::from("A.jpg")).unwrap();
    assert_eq!(a_date.to_output_file(&String::from("dest"), "A.jpg"), "dest/2024/03/A.jpg");
    let b_date = server.index.get(&String::from("B.jpg")).unwrap();
    assert_eq!(b_date.to_output_file(&String::from("dest"), "B.jpg"), "dest/2023/11/B.jpg");

    // Second run: both exist, nothing is uploaded.
    let mut uploads = 0;
    for name in ["A.jpg", "B.jpg"] {
        if !server.handle_exists(&String::from(name)).exists {
            uploads += 1;
        }
    }
    assert_eq!(uploads, 0);

    // A server restarted over the written tree answers the same.
    let entries = vec![
        entry("dest/2024/03/A.jpg", true),
        entry("dest/2023/11/B.jpg", true),
    ];
    let restarted =
        ServerState::init_from_directory_tree(String::from("dest"), &entries).unwrap();
    assert!(restarted.handle_exists(&String::from("A.jpg")).exists);
    assert!(restarted.handle_exists(&String::from("B.jpg")).exists);
}
