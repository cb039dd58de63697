use easy_fs::efs::EasyFileSystem;
use easy_fs::links::LinkTable;
use easy_fs::osfile::{
    self, OpenFlags, StatMode, CREATE, RDWR, TRUNC, WRONLY,
};

#[test]
fn flags_read_write_pairs() {
    assert_eq!(OpenFlags { bits: 0 }.read_write(), (true, false));
    assert_eq!(OpenFlags { bits: WRONLY }.read_write(), (false, true));
    assert_eq!(OpenFlags { bits: RDWR }.read_write(), (true, true));
    assert_eq!(OpenFlags { bits: CREATE }.read_write(), (true, true));
    assert_eq!(OpenFlags { bits: CREATE | WRONLY }.read_write(), (false, true));
}

#[test]
fn flags_from_bits_refuses_unknown() {
    assert!(OpenFlags::from_bits(CREATE | TRUNC | RDWR).is_some());
    assert!(OpenFlags::from_bits(1 << 20).is_none());
    assert_eq!(OpenFlags::from_bits(WRONLY).unwrap().bits, WRONLY);
}

#[test]
fn stat_mode_bits() {
    assert_eq!(StatMode::Null.bits(), 0);
    assert_eq!(StatMode::Dir.bits(), 0o040000);
    assert_eq!(StatMode::File.bits(), 0o100000);
}

#[test]
fn open_missing_without_create_fails() {
    let mut fs = EasyFileSystem::new(16);
    let r = osfile::open_file(&mut fs, b"absent", OpenFlags { bits: RDWR });
    assert!(r.is_none());
}

#[test]
fn open_with_create_then_reopen_truncates() {
    let mut fs = EasyFileSystem::new(16);
    let mut f = osfile::open_file(&mut fs, b"log", OpenFlags { bits: CREATE | RDWR })
        .expect("CREATE must create a missing file");
    assert!(f.readable() && f.writable());
    assert_eq!(f.write(&mut fs, b"content"), 7);

    // a second CREATE open truncates the existing file
    let mut again = osfile::open_file(&mut fs, b"log", OpenFlags { bits: CREATE | RDWR })
        .expect("CREATE must reopen an existing file");
    let data = again.read_all(&fs);
    assert!(data.is_empty(), "CREATE truncates what the name held");
    assert_eq!(f.inode_id(&fs), again.inode_id(&fs));
}

#[test]
fn open_trunc_clears_existing() {
    let mut fs = EasyFileSystem::new(16);
    let mut f = osfile::open_file(&mut fs, b"data", OpenFlags { bits: CREATE | RDWR })
        .expect("CREATE must create a missing file");
    f.write(&mut fs, b"0123456789");
    let mut r = osfile::open_file(&mut fs, b"data", OpenFlags { bits: TRUNC })
        .expect("TRUNC open of an existing name succeeds");
    assert!(r.readable() && r.writable());
    assert!(r.read_all(&fs).is_empty());
}

#[test]
fn read_all_from_cursor_to_end() {
    let mut fs = EasyFileSystem::new(32);
    let mut f = osfile::open_file(&mut fs, b"tome", OpenFlags { bits: CREATE | RDWR })
        .expect("CREATE must create a missing file");
    let payload: Vec<u8> = (0..1300u32).map(|i| (i % 253) as u8).collect();
    assert_eq!(f.write(&mut fs, &payload), 1300);

    let mut reader = osfile::open_file(&mut fs, b"tome", OpenFlags { bits: 0 })
        .expect("plain open of an existing name succeeds");
    let all = reader.read_all(&fs);
    assert_eq!(all, payload);
    assert!(reader.read_all(&fs).is_empty(), "the cursor now sits at the end");
}

#[test]
fn two_opens_have_independent_cursors() {
    let mut fs = EasyFileSystem::new(16);
    let mut w = osfile::open_file(&mut fs, b"shared", OpenFlags { bits: CREATE | RDWR })
        .expect("CREATE must create a missing file");
    w.write(&mut fs, b"abcdef");
    let mut r1 = osfile::open_file(&mut fs, b"shared", OpenFlags { bits: 0 }).unwrap();
    let mut r2 = osfile::open_file(&mut fs, b"shared", OpenFlags { bits: 0 }).unwrap();
    let mut buf = vec![0u8; 3];
    assert_eq!(r1.read(&fs, &mut buf), 3);
    assert_eq!(&buf[..], b"abc");
    let mut buf2 = vec![0u8; 6];
    assert_eq!(r2.read(&fs, &mut buf2), 6, "the second open still reads from 0");
    assert_eq!(&buf2[..], b"abcdef");
}

#[test]
fn link_unlink_through_name_layer() {
    let mut fs = EasyFileSystem::new(16);
    let mut table = LinkTable::new();
    let mut f = osfile::open_file(&mut fs, b"orig", OpenFlags { bits: CREATE | RDWR })
        .expect("CREATE must create a missing file");
    f.write(&mut fs, b"payload");
    let id = osfile::find_inode(&fs, b"orig").unwrap().inode_id(&fs);

    osfile::link(&mut fs, &mut table, b"alias", id);
    assert_eq!(osfile::nlink(&table, id as usize), 2);
    let via_alias = osfile::find_inode(&fs, b"alias").unwrap();
    assert_eq!(via_alias.inode_id(&fs), id);
    let mut buf = vec![0u8; 7];
    assert_eq!(via_alias.read_at(&fs, 0, &mut buf), 7);
    assert_eq!(&buf[..], b"payload");

    osfile::unlink(&mut fs, &mut table, b"orig");
    assert!(osfile::find_inode(&fs, b"orig").is_none());
    assert_eq!(osfile::nlink(&table, id as usize), 1);
    assert!(osfile::find_inode(&fs, b"alias").is_some());
}

#[test]
fn unlink_of_never_linked_name_records_zero() {
    let mut fs = EasyFileSystem::new(16);
    let mut table = LinkTable::new();
    osfile::open_file(&mut fs, b"lonely", OpenFlags { bits: CREATE })
        .expect("CREATE must create a missing file");
    let id = osfile::find_inode(&fs, b"lonely").unwrap().inode_id(&fs);
    assert_eq!(osfile::nlink(&table, id as usize), 1, "absent entry answers one");
    osfile::unlink(&mut fs, &mut table, b"lonely");
    assert_eq!(
        osfile::nlink(&table, id as usize),
        0,
        "an id the table never saw is seeded with zero on unlink"
    );
}

#[test]
fn file_mode_reports_type() {
    let mut fs = EasyFileSystem::new(16);
    let f = osfile::open_file(&mut fs, b"typed", OpenFlags { bits: CREATE })
        .expect("CREATE must create a missing file");
    assert_eq!(f.mode(&fs), StatMode::File);
}
