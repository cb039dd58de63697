use easy_fs::efs::EasyFileSystem;
use easy_fs::links::LinkTable;

#[test]
fn create_write_read_round_trip() {
    let mut fs = EasyFileSystem::new(64);
    let root = fs.root_inode();
    let file = root.create(&mut fs, b"hello").expect("fresh name must create");
    let payload = b"some bytes worth keeping";
    let n = file.write_at(&mut fs, 0, payload);
    assert_eq!(n, payload.len());
    let mut buf = vec![0u8; payload.len()];
    let m = file.read_at(&fs, 0, &mut buf);
    assert_eq!(m, payload.len());
    assert_eq!(&buf[..], &payload[..]);
}

#[test]
fn round_trip_spans_blocks() {
    let mut fs = EasyFileSystem::new(64);
    let root = fs.root_inode();
    let file = root.create(&mut fs, b"big").expect("fresh name must create");
    let payload: Vec<u8> = (0..1500u32).map(|i| (i % 251) as u8).collect();
    let n = file.write_at(&mut fs, 0, &payload);
    assert_eq!(n, 1500);
    let mut buf = vec![0u8; 1500];
    let m = file.read_at(&fs, 0, &mut buf);
    assert_eq!(m, 1500);
    assert_eq!(buf, payload);
}

#[test]
fn create_twice_second_fails_find_still_resolves() {
    let mut fs = EasyFileSystem::new(64);
    let root = fs.root_inode();
    let first = root.create(&mut fs, b"once");
    assert!(first.is_some());
    let second = root.create(&mut fs, b"once");
    assert!(second.is_none());
    let found = root.find(&fs, b"once");
    assert!(found.is_some());
    assert_eq!(
        found.unwrap().inode_id(&fs),
        first.unwrap().inode_id(&fs)
    );
}

#[test]
fn link_accounting() {
    let mut fs = EasyFileSystem::new(64);
    let mut table = LinkTable::new();
    let root = fs.root_inode();
    let a = root.create(&mut fs, b"a").expect("fresh name must create");
    let id_a = a.inode_id(&fs);
    assert_eq!(table.nlink(id_a as usize), 1);

    root.hard_link(&mut fs, b"b", id_a, &mut table);
    let b = root.find(&fs, b"b").expect("b must resolve after link");
    assert_eq!(b.inode_id(&fs), id_a);
    assert_eq!(table.nlink(id_a as usize), 2);

    root.unlink(&mut fs, b"a", &mut table);
    assert!(root.find(&fs, b"a").is_none());
    assert_eq!(table.nlink(id_a as usize), 1);
    let b_again = root.find(&fs, b"b").expect("b must still resolve");
    assert_eq!(b_again.inode_id(&fs), id_a);
}

#[test]
fn tombstone_slot_stays_in_listing() {
    let mut fs = EasyFileSystem::new(64);
    let mut table = LinkTable::new();
    let root = fs.root_inode();
    root.create(&mut fs, b"first").expect("fresh name must create");
    root.create(&mut fs, b"second").expect("fresh name must create");
    let before = root.ls(&fs);
    assert_eq!(before.len(), 2);
    assert_eq!(before[0], b"first".to_vec());
    assert_eq!(before[1], b"second".to_vec());

    root.unlink(&mut fs, b"first", &mut table);
    assert!(root.find(&fs, b"first").is_none());
    let after = root.ls(&fs);
    assert_eq!(after.len(), 2, "slots are never compacted");
    assert_eq!(after[0], Vec::<u8>::new(), "tombstoned slot lists an empty name");
    assert_eq!(after[1], b"second".to_vec());
}

#[test]
fn recreate_after_unlink_appends_a_new_slot() {
    let mut fs = EasyFileSystem::new(64);
    let mut table = LinkTable::new();
    let root = fs.root_inode();
    root.create(&mut fs, b"gone").expect("fresh name must create");
    root.unlink(&mut fs, b"gone", &mut table);
    assert!(root.find(&fs, b"gone").is_none());
    // the tombstone freed the name but not the slot: recreation appends
    let again = root.create(&mut fs, b"gone");
    assert!(again.is_some());
    let names = root.ls(&fs);
    assert_eq!(names.len(), 2, "the tombstoned slot is never reused");
    assert_eq!(names[0], Vec::<u8>::new());
    assert_eq!(names[1], b"gone".to_vec());
}

#[test]
fn write_beyond_size_extends_file() {
    let mut fs = EasyFileSystem::new(64);
    let root = fs.root_inode();
    let file = root.create(&mut fs, b"sparse").expect("fresh name must create");
    let payload = b"tail";
    let n = file.write_at(&mut fs, 600, payload);
    assert_eq!(n, 4);
    let mut whole = vec![0u8; 700];
    let m = file.read_at(&fs, 0, &mut whole);
    assert_eq!(m, 604, "file now covers offset + length bytes");
    let mut tail = vec![0u8; 4];
    let t = file.read_at(&fs, 600, &mut tail);
    assert_eq!(t, 4);
    assert_eq!(&tail[..], b"tail");
}

#[test]
fn clear_frees_blocks_implied_by_size() {
    let mut fs = EasyFileSystem::new(64);
    let root = fs.root_inode();
    let before_any = fs.available_data_blocks();
    let file = root.create(&mut fs, b"bulk").expect("fresh name must create");
    let after_create = fs.available_data_blocks();
    let payload = vec![7u8; 1025];
    file.write_at(&mut fs, 0, &payload);
    // 1025 bytes need three 512-byte blocks
    assert_eq!(fs.available_data_blocks(), after_create - 3);
    file.clear(&mut fs);
    assert_eq!(
        fs.available_data_blocks(),
        after_create,
        "clear returns exactly the blocks the old size implied"
    );
    let mut buf = vec![0u8; 16];
    assert_eq!(file.read_at(&fs, 0, &mut buf), 0, "a cleared file reads zero bytes");
    // the directory slot itself stays allocated
    assert_eq!(before_any - after_create, 1);
}

#[test]
fn read_past_end_is_empty_and_short_reads_truncate() {
    let mut fs = EasyFileSystem::new(64);
    let root = fs.root_inode();
    let file = root.create(&mut fs, b"short").expect("fresh name must create");
    file.write_at(&mut fs, 0, b"abc");
    let mut buf = vec![9u8; 8];
    assert_eq!(file.read_at(&fs, 5, &mut buf), 0);
    let m = file.read_at(&fs, 1, &mut buf);
    assert_eq!(m, 2);
    assert_eq!(&buf[..2], b"bc");
    assert_eq!(&buf[2..], &[9u8; 6], "bytes past the transfer keep their values");
}

#[test]
fn find_on_empty_directory_is_none() {
    let fs = EasyFileSystem::new(8);
    let root = fs.root_inode();
    assert!(root.find(&fs, b"nothing").is_none());
    assert!(root.is_dir(&fs));
    assert!(!root.is_file(&fs));
    assert_eq!(root.ls(&fs).len(), 0);
}

#[test]
fn create_fails_when_allocator_is_exhausted() {
    // one data block: the first create uses it for the directory slot
    let mut fs = EasyFileSystem::new(1);
    let root = fs.root_inode();
    assert!(root.create(&mut fs, b"fits").is_some());
    // slots 2..16 still fit in the first block, so these succeed
    for i in 0..15u8 {
        let name = vec![b'f', b'0' + i];
        assert!(root.create(&mut fs, &name).is_some());
    }
    // the 17th slot needs a second block that the allocator cannot give
    assert!(root.create(&mut fs, b"overflow").is_none());
}

#[test]
fn created_inode_is_a_file() {
    let mut fs = EasyFileSystem::new(16);
    let root = fs.root_inode();
    let f = root.create(&mut fs, b"plain").expect("fresh name must create");
    assert!(f.is_file(&fs));
    assert!(!f.is_dir(&fs));
    assert_ne!(f.inode_id(&fs), root.inode_id(&fs));
}

#[test]
fn first_match_decides_even_against_later_duplicates() {
    // resolution takes the first slot bearing the name; a tombstone that
    // happens to bear the empty name shadows a later, live empty-named file
    let mut fs = EasyFileSystem::new(64);
    let mut table = LinkTable::new();
    let root = fs.root_inode();
    root.create(&mut fs, b"x").expect("fresh name must create");
    let empty_named = root.create(&mut fs, b"").expect("the empty name is storable");
    assert!(root.find(&fs, b"").is_some());
    assert_eq!(root.find(&fs, b"").unwrap().inode_id(&fs), empty_named.inode_id(&fs));
    root.unlink(&mut fs, b"x", &mut table);
    assert!(
        root.find(&fs, b"").is_none(),
        "the tombstone in slot 0 now bears the empty name and shadows slot 1"
    );
}
