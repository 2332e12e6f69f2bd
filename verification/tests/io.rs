use starry_api::errno::Errno;
use starry_api::fd_ops::{seek_from_whence, SeekFrom};
use starry_api::io::{check_iov_count, IoStep, SendStep, Sendfile, VectoredIo, SENDFILE_CHUNK};

/// Runs a vectored transfer where buffer `i` moves `moved[i]` bytes.
fn run(lens: &[usize], moved: &[usize]) -> (isize, Vec<usize>) {
    let mut v = VectoredIo::new(lens.to_vec());
    let mut touched = Vec::new();
    loop {
        match v.next_step() {
            IoStep::Transfer { index, len } => {
                assert_eq!(len, lens[index]);
                touched.push(index);
                v.complete(moved[index]);
            }
            IoStep::Finish(t) => return (t, touched),
            IoStep::Fail(e) => panic!("unexpected failure {:?}", e),
        }
    }
}

#[test]
fn iov_count_limit() {
    assert_eq!(check_iov_count(0), Ok(()));
    assert_eq!(check_iov_count(1024), Ok(()));
    assert_eq!(check_iov_count(1025), Err(Errno::EINVAL));
}

#[test]
fn vectored_full_transfers_sum_up() {
    assert_eq!(run(&[3, 4, 5], &[3, 4, 5]), (12, vec![0, 1, 2]));
}

#[test]
fn vectored_skips_empty_buffers() {
    assert_eq!(run(&[0, 4, 0, 2, 0], &[0, 4, 0, 2, 0]), (6, vec![1, 3]));
    assert_eq!(run(&[], &[]), (0, vec![]));
    assert_eq!(run(&[0, 0], &[0, 0]), (0, vec![]));
}

#[test]
fn vectored_stops_after_short_transfer() {
    assert_eq!(run(&[3, 4, 5], &[3, 1, 5]), (4, vec![0, 1]));
    assert_eq!(run(&[3, 4, 5], &[0, 4, 5]), (0, vec![0]));
}

/// Runs sendfile where the source holds `src` bytes and each write moves
/// at most `write_cap` bytes.
fn sendfile(offset: Option<u64>, src: usize, write_cap: usize) -> (usize, Option<u64>, usize) {
    let mut s = Sendfile::new(offset);
    let mut left = src;
    let mut writes = 0;
    loop {
        match s.next_step() {
            SendStep::Read { max, .. } => {
                assert_eq!(max, SENDFILE_CHUNK);
                let n = left.min(max);
                left -= n;
                s.read_done(n);
            }
            SendStep::Write { len } => {
                writes += 1;
                s.write_done(len.min(write_cap));
            }
            SendStep::Finish(total) => return (total, s.offset(), writes),
            SendStep::Fail(e) => panic!("unexpected failure {:?}", e),
        }
    }
}

#[test]
fn sendfile_copies_in_chunks() {
    assert_eq!(sendfile(None, 40000, usize::MAX), (40000, None, 3));
    assert_eq!(sendfile(Some(100), 40000, usize::MAX), (40000, Some(40100), 3));
    assert_eq!(sendfile(Some(7), 0, usize::MAX), (0, Some(7), 0));
}

#[test]
fn sendfile_stops_at_short_write_without_counting_it() {
    assert_eq!(sendfile(Some(0), 40000, 1000), (0, Some(16384), 1));
}

#[test]
fn sendfile_reads_at_its_offset() {
    let mut s = Sendfile::new(Some(5));
    assert_eq!(s.next_step(), SendStep::Read { offset: Some(5), max: 0x4000 });
    s.read_done(10);
    assert_eq!(s.next_step(), SendStep::Write { len: 10 });
    s.write_done(10);
    assert_eq!(s.next_step(), SendStep::Read { offset: Some(15), max: 0x4000 });
}

#[test]
fn seek_whence() {
    assert_eq!(seek_from_whence(10, 0), Ok(SeekFrom::Start(10)));
    assert_eq!(seek_from_whence(-1, 0), Ok(SeekFrom::Start(u64::MAX)));
    assert_eq!(seek_from_whence(-5, 1), Ok(SeekFrom::Current(-5)));
    assert_eq!(seek_from_whence(7, 2), Ok(SeekFrom::End(7)));
    assert_eq!(seek_from_whence(7, 3), Err(Errno::EINVAL));
    assert_eq!(seek_from_whence(7, -1), Err(Errno::EINVAL));
}

#[test]
fn law_unstopped_call_moves_every_buffer() {
    let lens = [5, 0, 9, 1];
    let (total, touched) = run(&lens, &lens);
    assert_eq!(total, 15);
    assert_eq!(touched, vec![0, 2, 3]);
}

#[test]
fn vectored_counts_what_moved_even_if_more_than_asked() {
    assert_eq!(run(&[2, 2], &[3, 2]), (5, vec![0, 1]));
}

#[test]
fn sendfile_start_needs_a_regular_file_for_an_offset() {
    assert!(matches!(Sendfile::start(Some(3), false), Err(Errno::ESPIPE)));
    let s = Sendfile::start(Some(3), true).unwrap();
    assert_eq!(s.next_step(), SendStep::Read { offset: Some(3), max: SENDFILE_CHUNK });
    let s = Sendfile::start(None, false).unwrap();
    assert_eq!(s.next_step(), SendStep::Read { offset: None, max: SENDFILE_CHUNK });
}

#[test]
fn law_total_bounded_by_buffers() {
    let lens = [4, 0, 6, 3];
    let (total, _) = run(&lens, &[4, 0, 2, 3]);
    assert!(total as usize <= 4 + 6);
    assert_eq!(total, 6);
}

#[test]
fn vectored_failure_ends_the_call_with_its_error() {
    let mut v = VectoredIo::new(vec![3, 4, 5]);
    assert_eq!(v.next_step(), IoStep::Transfer { index: 0, len: 3 });
    v.complete(3);
    assert_eq!(v.next_step(), IoStep::Transfer { index: 1, len: 4 });
    v.fail(Errno::Other(14));
    assert_eq!(v.next_step(), IoStep::Fail(Errno::Other(14)));
    assert_eq!(v.next_step(), IoStep::Fail(Errno::Other(14)));
}

#[test]
fn sendfile_failure_ends_the_copy_with_its_error() {
    let mut s = Sendfile::new(Some(0));
    s.read_done(10);
    assert_eq!(s.next_step(), SendStep::Write { len: 10 });
    s.fail(Errno::Other(32));
    assert_eq!(s.next_step(), SendStep::Fail(Errno::Other(32)));
    let mut s = Sendfile::new(None);
    s.fail(Errno::EBADF);
    assert_eq!(s.next_step(), SendStep::Fail(Errno::EBADF));
}
