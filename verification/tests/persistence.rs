use celrix::persistence::aof::{AofConfig, AofEntry, AofOpType, AofSyncMode, AofWriter};
use celrix::persistence::snapshot::{Snapshot, SnapshotConfig, SnapshotEntry, SnapshotError};

#[test]
fn test_aof_write() {
    let config = AofConfig::default().with_path("test.aof");
    let mut aof = AofWriter::new(config);

    let mut file: Vec<u8> = Vec::new();
    let written = aof.log_set(b"key1".to_vec(), b"value1".to_vec(), None);
    file.extend_from_slice(&written.bytes);
    let written = aof.log_del(b"key1".to_vec());
    file.extend_from_slice(&written.bytes);

    assert_eq!(aof.entry_count(), 2);
    // two frames: a set of 4 + 6 bytes, a delete of 4 bytes
    assert_eq!(file.len(), (4 + 25 + 4 + 6) + (4 + 25 + 4));
}

#[test]
fn test_aof_entry_encode() {
    let entry = AofEntry::set(b"key".to_vec(), b"value".to_vec(), Some(60000));
    let encoded = entry.encode();
    assert!(!encoded.is_empty());
    assert_eq!(encoded[0], AofOpType::SetKey.code());
}

#[test]
fn aof_bytes_are_little_endian() {
    let entry = AofEntry::set_at(b"k".to_vec(), b"vw".to_vec(), Some(0x0102), 0x0A0B0C0D);
    assert_eq!(
        entry.encode(),
        vec![
            1, // op
            0x0D, 0x0C, 0x0B, 0x0A, 0, 0, 0, 0, // time
            1, 0, 0, 0, b'k', // key
            2, 0, 0, 0, b'v', b'w', // value
            0x02, 0x01, 0, 0, 0, 0, 0, 0, // ttl
        ]
    );
    let del = AofEntry::del_at(b"k".to_vec(), 1);
    assert_eq!(
        del.frame(),
        vec![
            26, 0, 0, 0, // total length
            2, 1, 0, 0, 0, 0, 0, 0, 0, 1, 0, 0, 0, b'k', 0, 0, 0, 0, 0, 0, 0, 0, 0, 0, 0, 0,
        ]
    );
    assert_eq!(AofOpType::Del.code(), 2);
}

#[test]
fn aof_writer_says_when_to_flush_and_rewrite() {
    let config = AofConfig { rewrite_threshold: 2, ..AofConfig::default() };
    assert_eq!(config.sync_mode, AofSyncMode::EverySecond);
    let mut lazy = AofWriter::new(config.clone());
    assert!(!lazy.append(&AofEntry::del_at(vec![], 0)).flush);
    assert!(!lazy.needs_rewrite());
    lazy.append(&AofEntry::del_at(vec![], 0));
    assert!(lazy.needs_rewrite());
    let mut eager = AofWriter::new(config.with_sync_mode(AofSyncMode::Always));
    assert!(eager.log_del(vec![]).flush);
    assert!(eager.log_set(vec![], vec![], Some(1)).flush);
    assert_eq!(eager.entry_count(), 2);
}

#[test]
fn test_snapshot_save_load() {
    let config = SnapshotConfig::default().with_dir("snapshots");
    let snapshot = Snapshot::new(config);

    let entries = vec![
        SnapshotEntry { key: b"key1".to_vec(), value: b"value1".to_vec(), expires_at_ms: None },
        SnapshotEntry { key: b"key2".to_vec(), value: b"value2".to_vec(), expires_at_ms: Some(1234567890000) },
    ];

    let bytes = snapshot.save(&entries, 1700000000000);
    let loaded = snapshot.load(&bytes).unwrap();

    assert_eq!(loaded.len(), 2);
    assert_eq!(loaded[0].key, b"key1".to_vec());
    assert_eq!(loaded[1].expires_at_ms, Some(1234567890000));
}

#[test]
fn snapshot_layout_is_bit_exact() {
    let snapshot = Snapshot::new(SnapshotConfig::default());
    let entries = vec![SnapshotEntry { key: b"k".to_vec(), value: b"vw".to_vec(), expires_at_ms: Some(0x0102) }];
    let bytes = snapshot.save(&entries, 0x0A0B);
    assert_eq!(
        bytes,
        vec![
            b'C', b'E', b'L', b'S', 1, // magic, version
            0x0B, 0x0A, 0, 0, 0, 0, 0, 0, // time
            1, 0, 0, 0, // count
            1, 0, 0, 0, b'k', 2, 0, 0, 0, b'v', b'w', 0x02, 0x01, 0, 0, 0, 0, 0, 0,
        ]
    );
    assert_eq!(snapshot.load(&bytes), Ok(entries));
    assert_eq!(snapshot.save(&vec![], 0).len(), 17);
    assert_eq!(snapshot.load(&snapshot.save(&vec![], 0)), Ok(vec![]));
    assert_eq!(snapshot.snapshot_filename(1700000000000), "snapshot_1700000000000.cel");
}

#[test]
fn snapshot_errors() {
    let snapshot = Snapshot::new(SnapshotConfig::default().with_interval(60));
    assert_eq!(snapshot.config().interval_secs, 60);
    assert_eq!(snapshot.config().max_snapshots, 5);
    let good = snapshot.save(
        &vec![SnapshotEntry { key: b"key".to_vec(), value: b"value".to_vec(), expires_at_ms: None }],
        5,
    );
    assert_eq!(snapshot.load(&vec![]), Err(SnapshotError::Truncated));
    assert_eq!(snapshot.load(&b"CEL".to_vec()), Err(SnapshotError::Truncated));
    assert_eq!(snapshot.load(&b"CELX\x01".to_vec()), Err(SnapshotError::InvalidMagic));
    assert_eq!(snapshot.load(&b"CELS".to_vec()), Err(SnapshotError::Truncated));
    assert_eq!(snapshot.load(&b"CELS\x02".to_vec()), Err(SnapshotError::UnsupportedVersion(2)));
    for cut in 5..good.len() {
        assert_eq!(snapshot.load(&good[..cut].to_vec()), Err(SnapshotError::Truncated), "{}", cut);
    }
    let mut longer = good.clone();
    longer.push(0);
    assert!(snapshot.load(&longer).is_ok());
    // an expiry of zero reads as none
    let zero = snapshot.save(
        &vec![SnapshotEntry { key: vec![], value: vec![], expires_at_ms: Some(0) }],
        5,
    );
    assert_eq!(snapshot.load(&zero).unwrap()[0].expires_at_ms, None);
}

#[test]
fn the_latest_snapshot_file_is_chosen() {
    let files = vec![
        ("a.cel".to_string(), 10, true),
        ("b.txt".to_string(), 99, false),
        ("c.cel".to_string(), 30, true),
        ("d.cel".to_string(), 30, true),
        ("e.cel".to_string(), 20, true),
    ];
    assert_eq!(Snapshot::latest_of(&files), Some(2));
    assert_eq!(Snapshot::latest_of(&vec![("x".to_string(), 1, false)]), None);
    assert_eq!(Snapshot::latest_of(&vec![]), None);
}

#[test]
fn the_oldest_snapshot_files_are_surplus() {
    let files = vec![
        ("a.cel".to_string(), 10, true),
        ("b.txt".to_string(), 99, false),
        ("c.cel".to_string(), 30, true),
        ("d.cel".to_string(), 30, true),
        ("e.cel".to_string(), 20, true),
        ("f.cel".to_string(), 5, true),
    ];
    // newest first: c, d, e, a, f
    assert_eq!(Snapshot::surplus_of(&files, 0), vec![2, 3, 4, 0, 5]);
    assert_eq!(Snapshot::surplus_of(&files, 1), vec![3, 4, 0, 5]);
    assert_eq!(Snapshot::surplus_of(&files, 3), vec![0, 5]);
    assert_eq!(Snapshot::surplus_of(&files, 4), vec![5]);
    assert_eq!(Snapshot::surplus_of(&files, 5), Vec::<usize>::new());
    assert_eq!(Snapshot::surplus_of(&files, usize::MAX), Vec::<usize>::new());
    assert_eq!(Snapshot::surplus_of(&vec![], 0), Vec::<usize>::new());
    // what the standard stable sort gives
    let mut order: Vec<usize> = (0..files.len()).filter(|i| files[*i].2).collect();
    order.sort_by(|a, b| files[*b].1.cmp(&files[*a].1));
    let expected: Vec<usize> = order.into_iter().skip(2).collect();
    assert_eq!(Snapshot::surplus_of(&files, 2), expected);
}
