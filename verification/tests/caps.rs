use sunrise_core::capabilities::decode;
use sunrise_core::capabilities::Capability;
use sunrise_core::capabilities::ProcessCapabilities;
use sunrise_core::caps::application_type;
use sunrise_core::caps::debug_flags;
use sunrise_core::caps::handle_table_size;
use sunrise_core::caps::ioport;
use sunrise_core::caps::irq_pair;
use sunrise_core::caps::kernel_flags;
use sunrise_core::caps::kernel_release_version;
use sunrise_core::caps::map_normal_page;
use sunrise_core::caps::syscall_mask;
use sunrise_core::error::KernelError;

fn blob(descs: &[u32]) -> Vec<u8> {
    descs.iter().flat_map(|d| d.to_le_bytes()).collect()
}

#[test]
fn kernel_flags_layout() {
    assert_eq!(kernel_flags(0, 0, 0, 0), 0b111);
    assert_eq!(kernel_flags(1, 2, 3, 4), 0b111 | (1 << 4) | (2 << 10) | (3 << 16) | (4 << 24));
    // priorities keep six bits
    assert_eq!(kernel_flags(0x7F, 0xFF, 0xFF, 0xFF), 0b111 | (0x3F << 4) | (0x3F << 10) | (0xFF << 16) | (0xFF << 24));
}

#[test]
fn map_normal_page_layout() {
    assert_eq!(map_normal_page(0), 0x7F);
    assert_eq!(map_normal_page(0x1234), 0x7F | (0x1234 << 8));
}

#[test]
fn ioport_layout() {
    assert_eq!(ioport(0x60), 0x3FF | (0x60 << 11));
    assert_eq!(ioport(0xFFFF), 0x3FF | (0xFFFF << 11));
}

#[test]
fn irq_pair_layout() {
    assert_eq!(irq_pair(1, 0x3FF), 0x7FF | (1 << 12) | (0x3FF << 22));
    assert_eq!(irq_pair(0xFFFF, 0), 0x7FF | (0x3FF << 12));
}

#[test]
fn application_type_layout() {
    assert_eq!(application_type(0), 0x1FFF);
    assert_eq!(application_type(1), 0x1FFF | (1 << 14));
    assert_eq!(application_type(2), 0x1FFF | (2 << 14));
    // the type keeps three bits
    assert_eq!(application_type(0xFFFF_FFFF), 0x1FFF | (7 << 14));
    assert_eq!(application_type(8), 0x1FFF);
}

#[test]
fn kernel_release_version_layout() {
    assert_eq!(kernel_release_version(0), 0x3FFF);
    assert_eq!(kernel_release_version(5), 0x3FFF | (5 << 15));
}

#[test]
fn handle_table_size_layout() {
    assert_eq!(handle_table_size(0), 0x7FFF);
    assert_eq!(handle_table_size(256), 0x7FFF | (256 << 16));
    assert_eq!(handle_table_size(0x3FF), 0x7FFF | (0x1FF << 16));
}

#[test]
fn debug_flags_layout() {
    assert_eq!(debug_flags(false, false), 0xFFFF);
    assert_eq!(debug_flags(true, false), 0xFFFF | (1 << 17));
    assert_eq!(debug_flags(false, true), 0xFFFF | (1 << 18));
    assert_eq!(debug_flags(true, true), 0xFFFF | (3 << 17));
}

#[test]
fn syscall_mask_layout() {
    assert_eq!(syscall_mask(0, 0), 0b1111);
    assert_eq!(syscall_mask(5, 1), 0b1111 | (1 << 5) | (5 << 29));
    assert_eq!(syscall_mask(1, 0xFFFF_FFFF), 0b1111 | (0xFF_FFFF << 5) | (1 << 29));
}

#[test]
fn descriptors_read_back() {
    assert_eq!(
        decode(kernel_flags(1, 2, 3, 4)),
        Ok(Capability::KernelFlags { lowest_prio: 1, highest_prio: 2, lowest_cpuid: 3, highest_cpuid: 4 })
    );
    assert_eq!(decode(syscall_mask(3, 0x80_0001)), Ok(Capability::SyscallMask { bank: 3, mask: 0x80_0001 }));
    assert_eq!(decode(map_normal_page(0x42)), Ok(Capability::MapNormalPage { page: 0x42 }));
    assert_eq!(decode(ioport(0x64)), Ok(Capability::IoPort { port: 0x64 }));
    assert_eq!(decode(irq_pair(1, 0x3FF)), Ok(Capability::IrqPair { irq1: 1, irq2: 0x3FF }));
    assert_eq!(decode(application_type(1)), Ok(Capability::ApplicationType { app_type: 1 }));
    assert_eq!(decode(application_type(2)), Ok(Capability::ApplicationType { app_type: 2 }));
    assert_eq!(decode(kernel_release_version(7)), Ok(Capability::KernelReleaseVersion { version: 7 }));
    assert_eq!(decode(handle_table_size(128)), Ok(Capability::HandleTableSize { size: 128 }));
    assert_eq!(
        decode(debug_flags(true, false)),
        Ok(Capability::DebugFlags { can_be_debugged: true, can_debug_others: false })
    );
}

#[test]
fn unknown_descriptors_are_refused() {
    // no ones at all, and all ones
    assert_eq!(decode(0), Err(KernelError::InvalidKernelCaps { kcap: 0 }));
    assert_eq!(decode(0xFFFF_FFFF), Err(KernelError::InvalidKernelCaps { kcap: 0xFFFF_FFFF }));
    // five ones name nothing
    assert_eq!(decode(0b011111), Err(KernelError::InvalidKernelCaps { kcap: 0b011111 }));
}

#[test]
fn parse_ors_syscall_masks_bank_by_bank() {
    let kacs = blob(&[
        syscall_mask(0, 0b0101),
        syscall_mask(0, 0b0011),
        syscall_mask(2, 1 << 23),
        ioport(0x60),
        irq_pair(1, 0x3FF),
    ]);
    let caps = ProcessCapabilities::parse_kcaps(&kacs).unwrap();
    assert!(caps.is_syscall_allowed(0));
    assert!(caps.is_syscall_allowed(1));
    assert!(caps.is_syscall_allowed(2));
    assert!(!caps.is_syscall_allowed(3));
    assert!(!caps.is_syscall_allowed(24));
    assert!(caps.is_syscall_allowed(2 * 24 + 23));
    assert!(!caps.is_syscall_allowed(2 * 24 + 22));
    assert!(!caps.is_syscall_allowed(6 * 24));
    assert!(!caps.is_syscall_allowed(usize::MAX));
    assert_eq!(caps.declared_count(), 2);
    assert_eq!(caps.declared_at(0), Capability::IoPort { port: 0x60 });
    assert_eq!(caps.declared_at(1), Capability::IrqPair { irq1: 1, irq2: 0x3FF });
}

#[test]
fn parse_refuses_bad_blobs() {
    assert_eq!(
        ProcessCapabilities::parse_kcaps(&[0u8, 1, 2]).unwrap_err(),
        KernelError::InvalidSize { size: 3 }
    );
    let kacs = blob(&[ioport(1), 0, syscall_mask(7, 1)]);
    assert_eq!(
        ProcessCapabilities::parse_kcaps(&kacs).unwrap_err(),
        KernelError::InvalidKernelCaps { kcap: 0 }
    );
    // banks six and seven do not exist
    let kacs = blob(&[ioport(1), syscall_mask(6, 1)]);
    assert_eq!(
        ProcessCapabilities::parse_kcaps(&kacs).unwrap_err(),
        KernelError::InvalidKernelCaps { kcap: syscall_mask(6, 1) }
    );
}

#[test]
fn empty_blob_allows_nothing_and_default_allows_everything() {
    let none = ProcessCapabilities::parse_kcaps(&[]).unwrap();
    assert!(!none.is_syscall_allowed(0));
    assert_eq!(none.declared_count(), 0);
    let all = ProcessCapabilities::default_capabilities();
    for nr in 0..144 {
        assert!(all.is_syscall_allowed(nr));
    }
    assert!(!all.is_syscall_allowed(144));
}
