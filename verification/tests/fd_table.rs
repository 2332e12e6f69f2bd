use linux_raw_sys::general as g;
use starry_api::abi::OpenFlagBits;
use starry_api::errno::Errno;
use starry_api::fd_ops::{dup_fd, sys_close, sys_dup, sys_dup2, sys_fcntl, FcntlAction};
use starry_api::fd_table::{FdTable, FD_LIMIT};

/// The open-flag bits of the build target, from its kernel headers.
fn host_bits() -> OpenFlagBits {
    use_bits(
        g::O_RDONLY, g::O_WRONLY, g::O_CREAT, g::O_TRUNC, g::O_APPEND, g::O_NONBLOCK,
        g::O_DIRECTORY, g::O_PATH,
    )
}

fn use_bits(
    rdonly: u32, wronly: u32, creat: u32, trunc: u32, append: u32, nonblock: u32,
    directory: u32, path: u32,
) -> OpenFlagBits {
    OpenFlagBits { rdonly, wronly, creat, trunc, append, nonblock, directory, path }
}

fn table_with(handles: &[u64]) -> FdTable {
    let mut t = FdTable::new();
    for (i, h) in handles.iter().enumerate() {
        assert_eq!(t.add_file_like(*h), Ok(i as i32));
    }
    t
}

#[test]
fn new_table_has_nothing_open() {
    let t = FdTable::new();
    for fd in [-1, 0, 1, 2, 1023, 1024] {
        assert_eq!(t.get_file_like(fd), Err(Errno::EBADF));
    }
}

#[test]
fn add_takes_the_lowest_free_descriptor() {
    let mut t = table_with(&[10, 11, 12, 13]);
    assert_eq!(t.close_file_like(1), Ok(11));
    assert_eq!(t.add_file_like(20), Ok(1));
    assert_eq!(t.add_file_like(21), Ok(4));
    assert_eq!(t.get_file_like(1), Ok(20));
}

#[test]
fn add_fails_with_emfile_when_full() {
    let mut t = FdTable::new();
    for i in 0..FD_LIMIT {
        assert_eq!(t.add_file_like(i as u64), Ok(i as i32));
    }
    assert_eq!(t.add_file_like(7777), Err(Errno::EMFILE));
    assert_eq!(sys_dup(&mut t, 3), Err(Errno::EMFILE));
    assert_eq!(t.get_file_like(1023), Ok(1023));
}

#[test]
fn close_open_and_unopened() {
    let mut t = table_with(&[5, 6]);
    assert_eq!(sys_close(&mut t, 1), Ok(0));
    assert_eq!(t.get_file_like(1), Err(Errno::EBADF));
    assert_eq!(t.get_file_like(0), Ok(5));
    assert_eq!(sys_close(&mut t, 1), Err(Errno::EBADF));
    assert_eq!(sys_close(&mut t, -3), Err(Errno::EBADF));
    assert_eq!(sys_close(&mut t, 5000), Err(Errno::EBADF));
}

#[test]
fn dup_shares_the_file_on_lowest_descriptor() {
    let mut t = table_with(&[100, 101, 102]);
    assert_eq!(sys_dup(&mut t, 1), Ok(3));
    assert_eq!(t.get_file_like(3), Ok(101));
    assert_eq!(t.get_file_like(1), Ok(101));
    assert_eq!(dup_fd(&mut t, 9), Err(Errno::EBADF));
    assert_eq!(dup_fd(&mut t, -1), Err(Errno::EBADF));
}

#[test]
fn law_close_undoes_dup() {
    let mut t = table_with(&[1, 2, 3]);
    let fd = sys_dup(&mut t, 0).unwrap() as i32;
    assert_eq!(sys_close(&mut t, fd), Ok(0));
    for (i, h) in [1u64, 2, 3].iter().enumerate() {
        assert_eq!(t.get_file_like(i as i32), Ok(*h));
    }
    assert_eq!(t.get_file_like(3), Err(Errno::EBADF));
}

#[test]
fn dup2_replaces_target() {
    let mut t = table_with(&[7, 8, 9]);
    assert_eq!(sys_dup2(&mut t, 0, 2), Ok(2));
    assert_eq!(t.get_file_like(2), Ok(7));
    assert_eq!(t.get_file_like(0), Ok(7));
    assert_eq!(t.get_file_like(1), Ok(8));
    assert_eq!(sys_dup2(&mut t, 1, 600), Ok(600));
    assert_eq!(t.get_file_like(600), Ok(8));
}

#[test]
fn dup2_bad_source_changes_nothing() {
    let mut t = table_with(&[7]);
    assert_eq!(sys_dup2(&mut t, 4, 0), Err(Errno::EBADF));
    assert_eq!(t.get_file_like(0), Ok(7));
    assert_eq!(sys_dup2(&mut t, -1, 2000), Err(Errno::EBADF));
}

#[test]
fn law_dup2_onto_itself_changes_nothing() {
    let mut t = table_with(&[7, 8]);
    assert_eq!(sys_dup2(&mut t, 1, 1), Ok(1));
    assert_eq!(t.get_file_like(0), Ok(7));
    assert_eq!(t.get_file_like(1), Ok(8));
    assert_eq!(t.get_file_like(2), Err(Errno::EBADF));
}

#[test]
fn fcntl_duplicates() {
    let mut t = table_with(&[40, 41]);
    assert_eq!(sys_fcntl(&mut t, 1, 0, 0, &host_bits()), Ok(FcntlAction::Return(2)));
    assert_eq!(sys_fcntl(&mut t, 0, 1030, 0, &host_bits()), Ok(FcntlAction::Return(3)));
    assert_eq!(t.get_file_like(3), Ok(40));
    assert_eq!(sys_fcntl(&mut t, 9, 0, 0, &host_bits()), Err(Errno::EBADF));
}

#[test]
fn fcntl_setfl() {
    let mut t = table_with(&[40, 41, 42, 43]);
    assert_eq!(sys_fcntl(&mut t, 1, 4, g::O_NONBLOCK as usize, &host_bits()), Ok(FcntlAction::Return(0)));
    assert_eq!(
        sys_fcntl(&mut t, 3, 4, g::O_NONBLOCK as usize | 1, &host_bits()),
        Ok(FcntlAction::SetNonblocking { handle: 43, nonblocking: true })
    );
    assert_eq!(
        sys_fcntl(&mut t, 3, 4, 1, &host_bits()),
        Ok(FcntlAction::SetNonblocking { handle: 43, nonblocking: false })
    );
    assert_eq!(sys_fcntl(&mut t, 8, 4, g::O_NONBLOCK as usize, &host_bits()), Err(Errno::EBADF));
}

#[test]
fn fcntl_getters_and_unknown() {
    let mut t = table_with(&[40]);
    assert_eq!(sys_fcntl(&mut t, 0, 1, 0, &host_bits()), Ok(FcntlAction::Return(1)));
    assert_eq!(sys_fcntl(&mut t, 0, 3, 0, &host_bits()), Ok(FcntlAction::Return(g::O_NONBLOCK as isize)));
    assert_eq!(sys_fcntl(&mut t, 0, 99, 0, &host_bits()), Ok(FcntlAction::Return(0)));
    assert_eq!(sys_fcntl(&mut t, 77, -1, 0, &host_bits()), Ok(FcntlAction::Return(0)));
    assert_eq!(t.get_file_like(1), Err(Errno::EBADF));
}

#[test]
fn referenced_handles() {
    let mut t = table_with(&[70, 71]);
    assert!(t.is_referenced(70));
    assert!(!t.is_referenced(72));
    assert_eq!(sys_dup(&mut t, 0), Ok(2));
    assert_eq!(sys_close(&mut t, 0), Ok(0));
    assert!(t.is_referenced(70));
    assert_eq!(sys_close(&mut t, 2), Ok(0));
    assert!(!t.is_referenced(70));
}
