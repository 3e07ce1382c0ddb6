//! Kernel capability descriptors.
//!
//! A program declares what it wants to be allowed to do as a list of 32-bit
//! descriptors. The low bits of a descriptor are a run of ones closed by a
//! zero; the length of that run tells the kind, the bits above it hold the
//! payload. The functions of this module build such descriptors;
//! [`crate::capabilities`] reads them back.

use crate::capabilities::decoded;
use crate::capabilities::Capability;
use vstd::prelude::*;

verus! {

/// The kernel flags descriptor: three ones and a zero in bits 0 to 3, the
/// low six bits of the lowest priority in bits 4 to 9, those of the highest
/// in bits 10 to 15, the lowest CPU in bits 16 to 23, the highest in bits 24
/// to 31.
pub open spec fn kernel_flags_word(
    lowest_prio: u32,
    highest_prio: u32,
    lowest_cpuid: u8,
    highest_cpuid: u8,
) -> u32 {
    0b111u32 | ((lowest_prio & 0x3F) << 4) | ((highest_prio & 0x3F) << 10) | ((lowest_cpuid as u32)
        << 16) | ((highest_cpuid as u32) << 24)
}

/// The page mapping descriptor: seven ones and a zero in bits 0 to 7, the
/// low 24 bits of the page number above them.
pub open spec fn map_normal_page_word(page: u32) -> u32 {
    0b1111111u32 | (page << 8)
}

/// The I/O port descriptor: ten ones and a zero in bits 0 to 10, the port in
/// bits 11 to 26.
pub open spec fn ioport_word(port: u16) -> u32 {
    0b1111111111u32 | ((port as u32) << 11)
}

/// The interrupt pair descriptor: eleven ones and a zero in bits 0 to 11,
/// the low ten bits of the first line in bits 12 to 21, those of the second
/// in bits 22 to 31.
pub open spec fn irq_pair_word(irq1: u16, irq2: u16) -> u32 {
    0b11111111111u32 | (((irq1 as u32) & 0x3FF) << 12) | (((irq2 as u32) & 0x3FF) << 22)
}

/// The application type descriptor: thirteen ones and a zero in bits 0 to
/// 13, the low three bits of the type in bits 14 to 16.
pub open spec fn application_type_word(app_type: u32) -> u32 {
    0b1111111111111u32 | ((app_type & 0b111) << 14)
}

/// The kernel version descriptor: fourteen ones and a zero in bits 0 to 14,
/// the low 17 bits of the version above them.
pub open spec fn kernel_release_version_word(version: u32) -> u32 {
    0b11111111111111u32 | (version << 15)
}

/// The handle table size descriptor: fifteen ones and a zero in bits 0 to
/// 15, the low nine bits of the size in bits 16 to 24.
pub open spec fn handle_table_size_word(size: u32) -> u32 {
    0b111111111111111u32 | ((size & 0x1FF) << 16)
}

/// The debug flags descriptor: sixteen ones and a zero in bits 0 to 16,
/// whether the process can be debugged in bit 17, whether it can debug
/// others in bit 18.
pub open spec fn debug_flags_word(can_be_debugged: bool, can_debug_others: bool) -> u32 {
    0b1111111111111111u32 | ((if can_be_debugged {
        1u32
    } else {
        0u32
    }) << 17) | ((if can_debug_others {
        1u32
    } else {
        0u32
    }) << 18)
}

/// The system call mask descriptor: four ones and a zero in bits 0 to 4, the
/// low 24 bits of the mask in bits 5 to 28, the low three bits of the bank
/// in bits 29 to 31.
pub open spec fn syscall_mask_word(bank: u32, mask: u32) -> u32 {
    0b1111u32 | ((mask & 0xFF_FFFF) << 5) | ((bank & 0x7) << 29)
}

/// A kernel flags descriptor: the lowest and highest priority the process
/// may take and the lowest and highest CPU it may run on. Priorities keep
/// their low six bits.
pub fn kernel_flags(lowest_prio: u32, highest_prio: u32, lowest_cpuid: u8, highest_cpuid: u8) -> (r:
    u32)
    ensures
        r == kernel_flags_word(lowest_prio, highest_prio, lowest_cpuid, highest_cpuid),
        decoded(r) == Some(Capability::KernelFlags {
                lowest_prio: lowest_prio & 0x3F,
                highest_prio: highest_prio & 0x3F,
                lowest_cpuid: lowest_cpuid as u32,
                highest_cpuid: highest_cpuid as u32,
            }),
{
    proof {
        law_kernel_flags_reads_back(lowest_prio, highest_prio, lowest_cpuid, highest_cpuid);
    }
    0b111 | ((lowest_prio & 0x3F) << 4) | ((highest_prio & 0x3F) << 10) | ((lowest_cpuid as u32)
        << 16) | ((highest_cpuid as u32) << 24)
}

/// A descriptor that maps the given physical page into the process at
/// start. The page number keeps its low 24 bits.
pub fn map_normal_page(page: u32) -> (r: u32)
    ensures
        r == map_normal_page_word(page),
        decoded(r) == Some(Capability::MapNormalPage { page: page & 0xFF_FFFF }),
{
    proof {
        law_map_normal_page_reads_back(page);
    }
    0b1111111 | (page << 8)
}

/// A descriptor that lets the process use the given I/O port directly.
pub fn ioport(port: u16) -> (r: u32)
    ensures
        r == ioport_word(port),
        decoded(r) == Some(Capability::IoPort { port: port as u32 }),
{
    proof {
        law_ioport_reads_back(port);
    }
    0b1111111111 | ((port as u32) << 11)
}

/// A descriptor that lets the process create events for two interrupt
/// lines. Each keeps its low ten bits; `0x3FF` stands for no line.
pub fn irq_pair(irq1: u16, irq2: u16) -> (r: u32)
    ensures
        r == irq_pair_word(irq1, irq2),
        decoded(r) == Some(Capability::IrqPair { irq1: (irq1 as u32) & 0x3FF, irq2: (irq2 as u32) & 0x3FF }),
{
    proof {
        law_irq_pair_reads_back(irq1, irq2);
    }
    0b11111111111 | (((irq1 as u32) & 0x3FF) << 12) | (((irq2 as u32) & 0x3FF) << 22)
}

/// A descriptor that declares the type of the application: 0 is a system
/// module, 1 an application, 2 an applet. The type keeps its low three
/// bits.
pub fn application_type(app_type: u32) -> (r: u32)
    ensures
        r == application_type_word(app_type),
        decoded(r) == Some(Capability::ApplicationType { app_type: app_type & 0b111 }),
{
    proof {
        law_application_type_reads_back(app_type);
    }
    0b1111111111111 | ((app_type & 0b111) << 14)
}

/// A descriptor that declares the lowest kernel version the process
/// expects. The version keeps its low 17 bits.
pub fn kernel_release_version(version: u32) -> (r: u32)
    ensures
        r == kernel_release_version_word(version),
        decoded(r) == Some(Capability::KernelReleaseVersion { version: version & 0x1_FFFF }),
{
    proof {
        law_kernel_release_version_reads_back(version);
    }
    0b11111111111111 | (version << 15)
}

/// A descriptor that declares how many handles the process may hold at
/// once. The size keeps its low nine bits.
pub fn handle_table_size(size: u32) -> (r: u32)
    ensures
        r == handle_table_size_word(size),
        decoded(r) == Some(Capability::HandleTableSize { size: size & 0x1FF }),
{
    proof {
        law_handle_table_size_reads_back(size);
    }
    0b111111111111111 | ((size & 0x1FF) << 16)
}

/// A descriptor that declares whether the process can be debugged and
/// whether it can debug others.
pub fn debug_flags(can_be_debugged: bool, can_debug_others: bool) -> (r: u32)
    ensures
        r == debug_flags_word(can_be_debugged, can_debug_others),
        decoded(r) == Some(Capability::DebugFlags { can_be_debugged, can_debug_others }),
{
    proof {
        law_debug_flags_reads_back(can_be_debugged, can_debug_others);
    }
    let debugged: u32 = if can_be_debugged {
        1
    } else {
        0
    };
    let others: u32 = if can_debug_others {
        1
    } else {
        0
    };
    0b1111111111111111 | (debugged << 17) | (others << 18)
}

/// A descriptor that allows the system calls of one bank: bit `i` of `mask`
/// stands for system call `24 * bank + i`. The mask keeps its low 24 bits,
/// the bank its low three.
pub fn syscall_mask(bank: u32, mask: u32) -> (r: u32)
    ensures
        r == syscall_mask_word(bank, mask),
        decoded(r) == Some(Capability::SyscallMask { bank: bank & 0x7, mask: mask & 0xFF_FFFF }),
{
    proof {
        law_syscall_mask_reads_back(bank, mask);
    }
    0b1111 | ((mask & 0xFF_FFFF) << 5) | ((bank & 0x7) << 29)
}

/// A kernel flags descriptor reads back as the flags it was built from.
pub proof fn law_kernel_flags_reads_back(lowest_prio: u32, highest_prio: u32, lowest: u8, highest: u8)
    ensures
        decoded(kernel_flags_word(lowest_prio, highest_prio, lowest, highest)) == Some(
            Capability::KernelFlags {
                lowest_prio: lowest_prio & 0x3F,
                highest_prio: highest_prio & 0x3F,
                lowest_cpuid: lowest as u32,
                highest_cpuid: highest as u32,
            },
        ),
{
    let lc: u32 = lowest as u32;
    let hc: u32 = highest as u32;
    let w: u32 = 0b111u32 | ((lowest_prio & 0x3F) << 4) | ((highest_prio & 0x3F) << 10) | (lc << 16) | (
    hc << 24);
    assert(w & 0xF == 0x7 && (w >> 4) & 0x3F == lowest_prio & 0x3F && (w >> 10) & 0x3F
        == highest_prio & 0x3F && (w >> 16) & 0xFF == lc && w >> 24 == hc) by (bit_vector)
        requires
            lc < 256,
            hc < 256,
            w == 0b111u32 | ((lowest_prio & 0x3F) << 4) | ((highest_prio & 0x3F) << 10) | (lc << 16)
                | (hc << 24),
    ;
}

/// A system call mask descriptor reads back as its bank and mask.
pub proof fn law_syscall_mask_reads_back(bank: u32, mask: u32)
    ensures
        decoded(syscall_mask_word(bank, mask)) == Some(
            Capability::SyscallMask { bank: bank & 0x7, mask: mask & 0xFF_FFFF },
        ),
{
    let w: u32 = 0b1111u32 | ((mask & 0xFF_FFFF) << 5) | ((bank & 0x7) << 29);
    assert(w & 0xF != 0x7 && w & 0x1F == 0xF && w >> 29 == bank & 0x7 && (w >> 5) & 0xFF_FFFF == mask
        & 0xFF_FFFF) by (bit_vector)
        requires
            w == 0b1111u32 | ((mask & 0xFF_FFFF) << 5) | ((bank & 0x7) << 29),
    ;
}

/// A page mapping descriptor reads back as the low 24 bits of its page.
pub proof fn law_map_normal_page_reads_back(page: u32)
    ensures
        decoded(map_normal_page_word(page)) == Some(
            Capability::MapNormalPage { page: page & 0xFF_FFFF },
        ),
{
    let w: u32 = 0b1111111u32 | (page << 8);
    assert(w & 0xF != 0x7 && w & 0x1F != 0xF && w & 0xFF == 0x7F && w >> 8 == page & 0xFF_FFFF)
        by (bit_vector)
        requires
            w == 0b1111111u32 | (page << 8),
    ;
}

/// An I/O port descriptor reads back as its port.
pub proof fn law_ioport_reads_back(port: u16)
    ensures
        decoded(ioport_word(port)) == Some(Capability::IoPort { port: port as u32 }),
{
    let p: u32 = port as u32;
    let w: u32 = 0b1111111111u32 | (p << 11);
    assert(w & 0xF != 0x7 && w & 0x1F != 0xF && w & 0xFF != 0x7F && w & 0x7FF == 0x3FF && (w >> 11)
        & 0xFFFF == p) by (bit_vector)
        requires
            p < 0x1_0000,
            w == 0b1111111111u32 | (p << 11),
    ;
}

/// An interrupt pair descriptor reads back as the low ten bits of each
/// line.
pub proof fn law_irq_pair_reads_back(irq1: u16, irq2: u16)
    ensures
        decoded(irq_pair_word(irq1, irq2)) == Some(
            Capability::IrqPair { irq1: (irq1 as u32) & 0x3FF, irq2: (irq2 as u32) & 0x3FF },
        ),
{
    let a: u32 = irq1 as u32;
    let b: u32 = irq2 as u32;
    let w: u32 = 0b11111111111u32 | ((a & 0x3FF) << 12) | ((b & 0x3FF) << 22);
    assert(w & 0xF != 0x7 && w & 0x1F != 0xF && w & 0xFF != 0x7F && w & 0x7FF != 0x3FF && w & 0xFFF
        == 0x7FF && (w >> 12) & 0x3FF == a & 0x3FF && w >> 22 == b & 0x3FF) by (bit_vector)
        requires
            w == 0b11111111111u32 | ((a & 0x3FF) << 12) | ((b & 0x3FF) << 22),
    ;
}

/// An application type descriptor reads back as the low three bits of its
/// type.
pub proof fn law_application_type_reads_back(app_type: u32)
    ensures
        decoded(application_type_word(app_type)) == Some(
            Capability::ApplicationType { app_type: app_type & 0b111 },
        ),
{
    let w: u32 = 0b1111111111111u32 | ((app_type & 0b111) << 14);
    assert(w & 0xF != 0x7 && w & 0x1F != 0xF && w & 0xFF != 0x7F && w & 0x7FF != 0x3FF && w & 0xFFF
        != 0x7FF && w & 0x3FFF == 0x1FFF && (w >> 14) & 0x7 == app_type & 0x7) by (bit_vector)
        requires
            w == 0b1111111111111u32 | ((app_type & 0b111) << 14),
    ;
}

/// A kernel version descriptor reads back as the low 17 bits of its
/// version.
pub proof fn law_kernel_release_version_reads_back(version: u32)
    ensures
        decoded(kernel_release_version_word(version)) == Some(
            Capability::KernelReleaseVersion { version: version & 0x1_FFFF },
        ),
{
    let w: u32 = 0b11111111111111u32 | (version << 15);
    assert(w & 0xF != 0x7 && w & 0x1F != 0xF && w & 0xFF != 0x7F && w & 0x7FF != 0x3FF && w & 0xFFF
        != 0x7FF && w & 0x3FFF != 0x1FFF && w & 0x7FFF == 0x3FFF && w >> 15 == version & 0x1_FFFF)
        by (bit_vector)
        requires
            w == 0b11111111111111u32 | (version << 15),
    ;
}

/// A handle table size descriptor reads back as the low nine bits of its
/// size.
pub proof fn law_handle_table_size_reads_back(size: u32)
    ensures
        decoded(handle_table_size_word(size)) == Some(
            Capability::HandleTableSize { size: size & 0x1FF },
        ),
{
    let w: u32 = 0b111111111111111u32 | ((size & 0x1FF) << 16);
    assert(w & 0xF != 0x7 && w & 0x1F != 0xF && w & 0xFF != 0x7F && w & 0x7FF != 0x3FF && w & 0xFFF
        != 0x7FF && w & 0x3FFF != 0x1FFF && w & 0x7FFF != 0x3FFF && w & 0xFFFF == 0x7FFF && (w >> 16)
        & 0x3FF == size & 0x1FF) by (bit_vector)
        requires
            w == 0b111111111111111u32 | ((size & 0x1FF) << 16),
    ;
}

/// A debug flags descriptor reads back as its two flags.
pub proof fn law_debug_flags_reads_back(can_be_debugged: bool, can_debug_others: bool)
    ensures
        decoded(debug_flags_word(can_be_debugged, can_debug_others)) == Some(
            Capability::DebugFlags { can_be_debugged, can_debug_others },
        ),
{
    let d: u32 = if can_be_debugged {
        1u32
    } else {
        0u32
    };
    let o: u32 = if can_debug_others {
        1u32
    } else {
        0u32
    };
    let w: u32 = 0b1111111111111111u32 | (d << 17) | (o << 18);
    assert(w & 0xF != 0x7 && w & 0x1F != 0xF && w & 0xFF != 0x7F && w & 0x7FF != 0x3FF && w & 0xFFF
        != 0x7FF && w & 0x3FFF != 0x1FFF && w & 0x7FFF != 0x3FFF && w & 0xFFFF != 0x7FFF && w
        & 0x1_FFFF == 0xFFFF && (w >> 17) & 1 == d && (w >> 18) & 1 == o) by (bit_vector)
        requires
            d <= 1,
            o <= 1,
            w == 0b1111111111111111u32 | (d << 17) | (o << 18),
    ;
}

} // verus!
