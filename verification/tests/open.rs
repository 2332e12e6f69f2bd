use linux_raw_sys::general as g;
use starry_api::abi::OpenFlagBits;
use starry_api::errno::Errno;
use starry_api::open::{
    flags_to_options, openat_after_file, openat_plan, path_base, FileAttempt, OpenOptions,
    PathBase,
};

/// The open-flag bits of the build target, from its kernel headers.
fn host_bits() -> OpenFlagBits {
    use_bits(
        g::O_RDONLY, g::O_WRONLY, g::O_CREAT, g::O_TRUNC, g::O_APPEND, g::O_NONBLOCK,
        g::O_DIRECTORY, g::O_PATH,
    )
}

fn use_bits(
    rdonly: u32, wronly: u32, creat: u32, trunc: u32, append: u32, nonblock: u32,
    directory: u32, path: u32,
) -> OpenFlagBits {
    OpenFlagBits { rdonly, wronly, creat, trunc, append, nonblock, directory, path }
}

const NONE: OpenOptions = OpenOptions {
    read: false,
    write: false,
    append: false,
    truncate: false,
    create: false,
    execute: false,
    directory: false,
};

#[test]
fn access_modes() {
    assert_eq!(flags_to_options(0, 0, &host_bits()), OpenOptions { read: true, ..NONE });
    assert_eq!(flags_to_options(1, 0, &host_bits()), OpenOptions { write: true, ..NONE });
    assert_eq!(flags_to_options(2, 0, &host_bits()), OpenOptions { read: true, write: true, ..NONE });
    assert_eq!(flags_to_options(3, 0, &host_bits()), OpenOptions { read: true, write: true, ..NONE });
}

#[test]
fn each_flag_sets_its_option() {
    let o = flags_to_options((g::O_WRONLY | g::O_CREAT | g::O_TRUNC | g::O_APPEND) as i32, 0o644, &host_bits());
    assert_eq!(
        o,
        OpenOptions { write: true, create: true, truncate: true, append: true, ..NONE }
    );
    let o = flags_to_options((g::O_DIRECTORY | g::O_PATH) as i32, 0, &host_bits());
    assert_eq!(o, OpenOptions { read: true, directory: true, execute: true, ..NONE });
}

#[test]
fn law_open_asks_for_access() {
    for f in [0, 1, 2, 3, -1, i32::MIN, 0x7fff_fffc] {
        let o = flags_to_options(f, 0, &host_bits());
        assert!(o.read || o.write);
    }
    assert_eq!(flags_to_options(-1, 0, &host_bits()), OpenOptions {
        read: true, write: true, append: true, truncate: true, create: true,
        execute: true, directory: true,
    });
}

#[test]
fn path_bases() {
    assert_eq!(path_base(5, "/etc/passwd"), PathBase::CurrentDir);
    assert_eq!(path_base(-100, "a/b"), PathBase::CurrentDir);
    assert_eq!(path_base(5, "a/b"), PathBase::Directory(5));
    assert_eq!(path_base(5, ""), PathBase::Directory(5));
}

#[test]
fn openat_plans() {
    let p = openat_plan(3, "x", 0, 0, &host_bits());
    assert_eq!(p.base, PathBase::Directory(3));
    assert!(p.try_file);
    let p = openat_plan(-100, "x", g::O_DIRECTORY as i32, 0, &host_bits());
    assert_eq!(p.base, PathBase::CurrentDir);
    assert!(!p.try_file);
    assert!(p.options.directory);
}

#[test]
fn after_file_attempt() {
    assert_eq!(openat_after_file(Ok(42)), FileAttempt::Install(42));
    assert_eq!(openat_after_file(Err(Errno::EISDIR)), FileAttempt::OpenDirectory);
    assert_eq!(openat_after_file(Err(Errno::Other(2))), FileAttempt::Fail(Errno::Other(2)));
    assert_eq!(openat_after_file(Err(Errno::EACCES)), FileAttempt::Fail(Errno::EACCES));
}

#[test]
fn directory_flag_follows_the_target_layout() {
    let aarch64 = use_bits(0, 1, 0o100, 0o1000, 0o2000, 0o4000, 0o40000, 0o10000000);
    let x86_64 = use_bits(0, 1, 0o100, 0o1000, 0o2000, 0o4000, 0o200000, 0o10000000);
    assert!(flags_to_options(0o40000, 0, &aarch64).directory);
    assert!(!flags_to_options(0o40000, 0, &x86_64).directory);
    assert!(flags_to_options(0o200000, 0, &x86_64).directory);
    assert!(!flags_to_options(0o200000, 0, &aarch64).directory);
}
