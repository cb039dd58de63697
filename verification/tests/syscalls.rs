use easy_fs::efs::EasyFileSystem;
use easy_fs::links::LinkTable;
use easy_fs::osfile::{StatMode, CREATE, RDWR, WRONLY};
use easy_fs::syscall::{
    sys_close, sys_fstat, sys_linkat, sys_mmap, sys_munmap, sys_open, sys_read, sys_sbrk,
    sys_unlinkat, sys_write, ProcessState, TimeVal, PAGE_SIZE,
};

fn fresh() -> (ProcessState, EasyFileSystem, LinkTable) {
    (ProcessState::new(0x1_0000), EasyFileSystem::new(64), LinkTable::new())
}

#[test]
fn open_write_read_close_flow() {
    let (mut proc, mut fs, _table) = fresh();
    let fd = sys_open(&mut proc, &mut fs, b"notes", CREATE | RDWR);
    assert_eq!(fd, 0, "the first descriptor is 0");
    assert_eq!(sys_write(&mut proc, &mut fs, fd as usize, b"dear diary"), 10);
    assert_eq!(sys_close(&mut proc, fd as usize), 0);

    let fd2 = sys_open(&mut proc, &mut fs, b"notes", 0);
    assert_eq!(fd2, 0, "a freed descriptor is reused first");
    let mut buf = vec![0u8; 10];
    assert_eq!(sys_read(&mut proc, &fs, fd2 as usize, &mut buf), 10);
    assert_eq!(&buf[..], b"dear diary");
    assert_eq!(sys_read(&mut proc, &fs, fd2 as usize, &mut buf), 0, "cursor is at the end");
}

#[test]
fn write_errors() {
    let (mut proc, mut fs, _table) = fresh();
    assert_eq!(sys_write(&mut proc, &mut fs, 3, b"x"), -1, "fd out of range");
    let fd = sys_open(&mut proc, &mut fs, b"ro", CREATE);
    assert_eq!(sys_close(&mut proc, fd as usize), 0);
    let fd = sys_open(&mut proc, &mut fs, b"ro", 0);
    assert_eq!(sys_write(&mut proc, &mut fs, fd as usize, b"x"), -1, "not writable");
    assert_eq!(sys_close(&mut proc, fd as usize), 0);
    assert_eq!(sys_write(&mut proc, &mut fs, fd as usize, b"x"), -1, "closed fd");
}

#[test]
fn read_errors() {
    let (mut proc, mut fs, _table) = fresh();
    let mut buf = vec![0u8; 4];
    assert_eq!(sys_read(&mut proc, &fs, 0, &mut buf), -1, "fd out of range");
    let fd = sys_open(&mut proc, &mut fs, b"wo", CREATE | WRONLY);
    assert_eq!(sys_read(&mut proc, &fs, fd as usize, &mut buf), -1, "not readable");
}

#[test]
fn close_errors() {
    let (mut proc, mut fs, _table) = fresh();
    assert_eq!(sys_close(&mut proc, 0), -1, "nothing open");
    let fd = sys_open(&mut proc, &mut fs, b"f", CREATE);
    assert_eq!(sys_close(&mut proc, fd as usize), 0);
    assert_eq!(sys_close(&mut proc, fd as usize), -1, "double close");
}

#[test]
fn open_missing_fails() {
    let (mut proc, mut fs, _table) = fresh();
    assert_eq!(sys_open(&mut proc, &mut fs, b"ghost", RDWR), -1);
}

#[test]
fn fstat_reports_ino_mode_nlink() {
    let (mut proc, mut fs, mut table) = fresh();
    let fd = sys_open(&mut proc, &mut fs, b"target", CREATE | RDWR);
    let st = sys_fstat(&proc, &fs, &table, fd as usize).expect("open fd must stat");
    assert_eq!(st.dev, 0);
    assert_eq!(st.mode, StatMode::File);
    assert_eq!(st.nlink, 1);
    assert_eq!(st.pad, [0u64; 7]);

    assert_eq!(sys_linkat(&mut fs, &mut table, b"target", b"twin"), 0);
    let st2 = sys_fstat(&proc, &fs, &table, fd as usize).unwrap();
    assert_eq!(st2.nlink, 2);
    assert_eq!(st2.ino, st.ino);

    assert!(sys_fstat(&proc, &fs, &table, 9).is_none(), "fd out of range");
}

#[test]
fn linkat_errors() {
    let (mut proc, mut fs, mut table) = fresh();
    assert_eq!(sys_linkat(&mut fs, &mut table, b"no_such", b"new"), -1);
    sys_open(&mut proc, &mut fs, b"one", CREATE);
    sys_open(&mut proc, &mut fs, b"two", CREATE);
    assert_eq!(sys_linkat(&mut fs, &mut table, b"one", b"two"), -1, "new name taken");
    assert_eq!(sys_linkat(&mut fs, &mut table, b"one", b"three"), 0);
}

#[test]
fn unlinkat_missing_fails() {
    let (_proc, mut fs, mut table) = fresh();
    assert_eq!(sys_unlinkat(&mut fs, &mut table, b"void"), -1);
}

#[test]
fn unlinkat_last_link_clears_content() {
    let (mut proc, mut fs, mut table) = fresh();
    let fd = sys_open(&mut proc, &mut fs, b"doomed", CREATE | RDWR);
    assert_eq!(sys_write(&mut proc, &mut fs, fd as usize, &vec![1u8; 600]), 600);
    let free_before = fs.available_data_blocks();
    assert_eq!(sys_unlinkat(&mut fs, &mut table, b"doomed"), 0);
    assert_eq!(
        fs.available_data_blocks(),
        free_before + 2,
        "the last unlink clears the file's two data blocks"
    );
    // the still-open descriptor now reads an empty file
    let mut buf = vec![0u8; 4];
    let fd2 = sys_open(&mut proc, &mut fs, b"probe", CREATE | RDWR);
    assert!(fd2 >= 0);
    assert_eq!(sys_read(&mut proc, &fs, fd as usize, &mut buf), 0);
}

#[test]
fn unlinkat_keeps_content_while_links_remain() {
    let (mut proc, mut fs, mut table) = fresh();
    let fd = sys_open(&mut proc, &mut fs, b"kept", CREATE | RDWR);
    assert_eq!(sys_write(&mut proc, &mut fs, fd as usize, b"alive"), 5);
    assert_eq!(sys_linkat(&mut fs, &mut table, b"kept", b"other"), 0);
    assert_eq!(sys_unlinkat(&mut fs, &mut table, b"kept"), 0);
    let fd2 = sys_open(&mut proc, &mut fs, b"other", 0);
    assert!(fd2 >= 0);
    let mut buf = vec![0u8; 5];
    assert_eq!(sys_read(&mut proc, &fs, fd2 as usize, &mut buf), 5);
    assert_eq!(&buf[..], b"alive");
}

#[test]
fn mmap_checks_and_overlap() {
    let (mut proc, _fs, _table) = fresh();
    assert_eq!(sys_mmap(&mut proc, 123, PAGE_SIZE, 1), -1, "misaligned start");
    assert_eq!(sys_mmap(&mut proc, 0, PAGE_SIZE, 8), -1, "bits beyond 0x7");
    assert_eq!(sys_mmap(&mut proc, 0, PAGE_SIZE, 0), -1, "no permission at all");
    assert_eq!(sys_mmap(&mut proc, 0, 3 * PAGE_SIZE, 3), 0);
    assert_eq!(
        sys_mmap(&mut proc, 2 * PAGE_SIZE, PAGE_SIZE, 1),
        -1,
        "overlaps an existing mapping"
    );
    assert_eq!(sys_mmap(&mut proc, 3 * PAGE_SIZE, PAGE_SIZE, 1), 0);
}

#[test]
fn munmap_requires_full_coverage() {
    let (mut proc, _fs, _table) = fresh();
    assert_eq!(sys_mmap(&mut proc, 0, 2 * PAGE_SIZE, 3), 0);
    assert_eq!(sys_munmap(&mut proc, 5, PAGE_SIZE), -1, "misaligned start");
    assert_eq!(sys_munmap(&mut proc, 0, 3 * PAGE_SIZE), -1, "range not fully mapped");
    assert_eq!(sys_munmap(&mut proc, 0, 2 * PAGE_SIZE), 0);
    assert_eq!(sys_mmap(&mut proc, 0, 2 * PAGE_SIZE, 3), 0, "pages are free again");
}

#[test]
fn sbrk_moves_and_refuses_underflow() {
    let (mut proc, _fs, _table) = fresh();
    let base = 0x1_0000;
    assert_eq!(sys_sbrk(&mut proc, 4096), base as isize, "returns the old break");
    assert_eq!(sys_sbrk(&mut proc, 0), (base + 4096) as isize);
    assert_eq!(sys_sbrk(&mut proc, -4096), (base + 4096) as isize);
    assert_eq!(sys_sbrk(&mut proc, -1), -1, "cannot sink below the heap bottom");
}

#[test]
fn time_val_from_micros() {
    let t = TimeVal::from_micros(3_250_000);
    assert_eq!(t.sec, 3);
    assert_eq!(t.usec, 250_000);
    let z = TimeVal::from_micros(0);
    assert_eq!((z.sec, z.usec), (0, 0));
}
