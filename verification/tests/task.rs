use starry_api::errno::Errno;
use starry_api::task::{arch_prctl_op, ArchPrctlCode};

#[test]
fn arch_prctl_codes_decode() {
    assert_eq!(ArchPrctlCode::try_from_code(0x1001), Some(ArchPrctlCode::ArchSetGs));
    assert_eq!(ArchPrctlCode::try_from_code(0x1002), Some(ArchPrctlCode::ArchSetFs));
    assert_eq!(ArchPrctlCode::try_from_code(0x1003), Some(ArchPrctlCode::ArchGetFs));
    assert_eq!(ArchPrctlCode::try_from_code(0x1004), Some(ArchPrctlCode::ArchGetGs));
    assert_eq!(ArchPrctlCode::try_from_code(0x1011), Some(ArchPrctlCode::ArchGetCpuid));
    assert_eq!(ArchPrctlCode::try_from_code(0x1012), Some(ArchPrctlCode::ArchSetCpuid));
    assert_eq!(ArchPrctlCode::try_from_code(0x1005), None);
}

#[test]
fn arch_prctl_serves_segment_bases_only() {
    assert_eq!(arch_prctl_op(0x1002), Ok(ArchPrctlCode::ArchSetFs));
    assert_eq!(arch_prctl_op(0x1003), Ok(ArchPrctlCode::ArchGetFs));
    assert_eq!(arch_prctl_op(0x1001), Ok(ArchPrctlCode::ArchSetGs));
    assert_eq!(arch_prctl_op(0x1004), Ok(ArchPrctlCode::ArchGetGs));
    assert_eq!(arch_prctl_op(0x1011), Err(Errno::ENOSYS));
    assert_eq!(arch_prctl_op(0x1012), Err(Errno::ENOSYS));
    assert_eq!(arch_prctl_op(0), Err(Errno::ENOSYS));
}
