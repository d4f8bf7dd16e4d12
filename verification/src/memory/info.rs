//! The bootloader's memory map and what it adds up to.

use vstd::prelude::*;

verus! {

pub const MEMMAP_USABLE: u64 = 0;
pub const MEMMAP_RESERVED: u64 = 1;
pub const MEMMAP_ACPI_RECLAIMABLE: u64 = 2;
pub const MEMMAP_ACPI_NVS: u64 = 3;
pub const MEMMAP_BAD_MEMORY: u64 = 4;
pub const MEMMAP_BOOTLOADER_RECLAIMABLE: u64 = 5;
pub const MEMMAP_KERNEL_AND_MODULES: u64 = 6;
pub const MEMMAP_FRAMEBUFFER: u64 = 7;

/// One region of the memory map: its base address, its length in bytes
/// and its type.
#[derive(Clone, Copy, PartialEq, Eq, Structural)]
pub struct MemmapEntry {
    pub base: u64,
    pub length: u64,
    pub kind: u64,
}

/// Byte totals of the memory map by type.
#[derive(Clone, Copy, PartialEq, Eq, Structural)]
pub struct MemoryInfo {
    pub total_ram_bytes: u64,
    pub usable_bytes: u64,
    pub reserved_bytes: u64,
    pub bootloader_reclaimable_bytes: u64,
    pub kernel_and_modules_bytes: u64,
    pub framebuffer_bytes: u64,
    pub acpi_reclaimable_bytes: u64,
    pub acpi_nvs_bytes: u64,
    pub bad_memory_bytes: u64,
    pub entry_count: usize,
}

pub open spec fn empty_info() -> MemoryInfo {
    MemoryInfo {
        total_ram_bytes: 0,
        usable_bytes: 0,
        reserved_bytes: 0,
        bootloader_reclaimable_bytes: 0,
        kernel_and_modules_bytes: 0,
        framebuffer_bytes: 0,
        acpi_reclaimable_bytes: 0,
        acpi_nvs_bytes: 0,
        bad_memory_bytes: 0,
        entry_count: 0,
    }
}

/// `a + b`, stopping at the largest `u64`.
pub open spec fn sat_add(a: u64, b: u64) -> u64 {
    if a + b > u64::MAX {
        u64::MAX
    } else {
        (a + b) as u64
    }
}

/// The totals after one more entry. Usable and bootloader-reclaimable
/// memory count as usable; kernel, framebuffer, ACPI and bad memory as
/// reserved; all of these as RAM. Plain reserved regions (MMIO) and
/// unknown types count only as entries.
pub open spec fn add_entry(info: MemoryInfo, e: MemmapEntry) -> MemoryInfo {
    let l = e.length;
    let i = MemoryInfo { entry_count: (info.entry_count + 1) as usize, ..info };
    let ram = sat_add(i.total_ram_bytes, l);
    if e.kind == MEMMAP_USABLE {
        MemoryInfo { usable_bytes: sat_add(i.usable_bytes, l), total_ram_bytes: ram, ..i }
    } else if e.kind == MEMMAP_BOOTLOADER_RECLAIMABLE {
        MemoryInfo {
            bootloader_reclaimable_bytes: sat_add(i.bootloader_reclaimable_bytes, l),
            usable_bytes: sat_add(i.usable_bytes, l),
            total_ram_bytes: ram,
            ..i
        }
    } else if e.kind == MEMMAP_KERNEL_AND_MODULES {
        MemoryInfo {
            kernel_and_modules_bytes: sat_add(i.kernel_and_modules_bytes, l),
            reserved_bytes: sat_add(i.reserved_bytes, l),
            total_ram_bytes: ram,
            ..i
        }
    } else if e.kind == MEMMAP_FRAMEBUFFER {
        MemoryInfo {
            framebuffer_bytes: sat_add(i.framebuffer_bytes, l),
            reserved_bytes: sat_add(i.reserved_bytes, l),
            total_ram_bytes: ram,
            ..i
        }
    } else if e.kind == MEMMAP_ACPI_RECLAIMABLE {
        MemoryInfo {
            acpi_reclaimable_bytes: sat_add(i.acpi_reclaimable_bytes, l),
            reserved_bytes: sat_add(i.reserved_bytes, l),
            total_ram_bytes: ram,
            ..i
        }
    } else if e.kind == MEMMAP_ACPI_NVS {
        MemoryInfo {
            acpi_nvs_bytes: sat_add(i.acpi_nvs_bytes, l),
            reserved_bytes: sat_add(i.reserved_bytes, l),
            total_ram_bytes: ram,
            ..i
        }
    } else if e.kind == MEMMAP_BAD_MEMORY {
        MemoryInfo {
            bad_memory_bytes: sat_add(i.bad_memory_bytes, l),
            reserved_bytes: sat_add(i.reserved_bytes, l),
            total_ram_bytes: ram,
            ..i
        }
    } else {
        i
    }
}

/// The totals of a memory map, entry by entry.
pub open spec fn info_of(entries: Seq<MemmapEntry>) -> MemoryInfo
    decreases entries.len(),
{
    if entries.len() == 0 {
        empty_info()
    } else {
        add_entry(info_of(entries.drop_last()), entries.last())
    }
}

impl MemoryInfo {
    /// All totals zero.
    pub fn empty() -> (r: Self)
        ensures
            r == empty_info(),
    {
        MemoryInfo {
            total_ram_bytes: 0,
            usable_bytes: 0,
            reserved_bytes: 0,
            bootloader_reclaimable_bytes: 0,
            kernel_and_modules_bytes: 0,
            framebuffer_bytes: 0,
            acpi_reclaimable_bytes: 0,
            acpi_nvs_bytes: 0,
            bad_memory_bytes: 0,
            entry_count: 0,
        }
    }

    pub fn total_mib(&self) -> (r: u64)
        ensures
            r == self.total_ram_bytes / 1024 / 1024,
    {
        self.total_ram_bytes / 1024 / 1024
    }

    pub fn usable_mib(&self) -> (r: u64)
        ensures
            r == self.usable_bytes / 1024 / 1024,
    {
        self.usable_bytes / 1024 / 1024
    }

    pub fn reserved_mib(&self) -> (r: u64)
        ensures
            r == self.reserved_bytes / 1024 / 1024,
    {
        self.reserved_bytes / 1024 / 1024
    }

    pub fn bootloader_reclaimable_mib(&self) -> (r: u64)
        ensures
            r == self.bootloader_reclaimable_bytes / 1024 / 1024,
    {
        self.bootloader_reclaimable_bytes / 1024 / 1024
    }

    pub fn kernel_and_modules_mib(&self) -> (r: u64)
        ensures
            r == self.kernel_and_modules_bytes / 1024 / 1024,
    {
        self.kernel_and_modules_bytes / 1024 / 1024
    }

    pub fn framebuffer_kib(&self) -> (r: u64)
        ensures
            r == self.framebuffer_bytes / 1024,
    {
        self.framebuffer_bytes / 1024
    }
}

/// Sums a memory map by type. The totals keep RAM at least as large as
/// usable and as reserved memory.
pub fn memory_info(entries: &[MemmapEntry]) -> (r: MemoryInfo)
    ensures
        r == info_of(entries@),
        r.entry_count == entries@.len(),
        r.usable_bytes <= r.total_ram_bytes,
        r.reserved_bytes <= r.total_ram_bytes,
{
    let mut info = MemoryInfo::empty();
    let mut i: usize = 0;
    while i < entries.len()
        invariant
            i <= entries@.len(),
            info == info_of(entries@.subrange(0, i as int)),
            info.entry_count == i,
            info.usable_bytes <= info.total_ram_bytes,
            info.reserved_bytes <= info.total_ram_bytes,
        decreases entries@.len() - i,
    {
        let entry = entries[i];
        let length = entry.length;
        let kind = entry.kind;
        assert(entries@.subrange(0, i + 1).drop_last() =~= entries@.subrange(0, i as int));
        info.entry_count += 1;
        if kind == MEMMAP_USABLE {
            info.usable_bytes = info.usable_bytes.saturating_add(length);
            info.total_ram_bytes = info.total_ram_bytes.saturating_add(length);
        } else if kind == MEMMAP_BOOTLOADER_RECLAIMABLE {
            info.bootloader_reclaimable_bytes = info.bootloader_reclaimable_bytes.saturating_add(length);
            info.usable_bytes = info.usable_bytes.saturating_add(length);
            info.total_ram_bytes = info.total_ram_bytes.saturating_add(length);
        } else if kind == MEMMAP_KERNEL_AND_MODULES {
            info.kernel_and_modules_bytes = info.kernel_and_modules_bytes.saturating_add(length);
            info.reserved_bytes = info.reserved_bytes.saturating_add(length);
            info.total_ram_bytes = info.total_ram_bytes.saturating_add(length);
        } else if kind == MEMMAP_FRAMEBUFFER {
            info.framebuffer_bytes = info.framebuffer_bytes.saturating_add(length);
            info.reserved_bytes = info.reserved_bytes.saturating_add(length);
            info.total_ram_bytes = info.total_ram_bytes.saturating_add(length);
        } else if kind == MEMMAP_ACPI_RECLAIMABLE {
            info.acpi_reclaimable_bytes = info.acpi_reclaimable_bytes.saturating_add(length);
            info.reserved_bytes = info.reserved_bytes.saturating_add(length);
            info.total_ram_bytes = info.total_ram_bytes.saturating_add(length);
        } else if kind == MEMMAP_ACPI_NVS {
            info.acpi_nvs_bytes = info.acpi_nvs_bytes.saturating_add(length);
            info.reserved_bytes = info.reserved_bytes.saturating_add(length);
            info.total_ram_bytes = info.total_ram_bytes.saturating_add(length);
        } else if kind == MEMMAP_BAD_MEMORY {
            info.bad_memory_bytes = info.bad_memory_bytes.saturating_add(length);
            info.reserved_bytes = info.reserved_bytes.saturating_add(length);
            info.total_ram_bytes = info.total_ram_bytes.saturating_add(length);
        }
        i += 1;
    }
    assert(entries@.subrange(0, i as int) =~= entries@);
    info
}

/// The display name of a memory map type.
pub open spec fn memory_type_spec(kind: u64) -> &'static str {
    if kind == MEMMAP_USABLE {
        "Usable"
    } else if kind == MEMMAP_RESERVED {
        "Reserved/MMIO"
    } else if kind == MEMMAP_ACPI_RECLAIMABLE {
        "ACPI reclaimable"
    } else if kind == MEMMAP_ACPI_NVS {
        "ACPI NVS"
    } else if kind == MEMMAP_BAD_MEMORY {
        "Bad memory"
    } else if kind == MEMMAP_BOOTLOADER_RECLAIMABLE {
        "Bootloader reclaimable"
    } else if kind == MEMMAP_KERNEL_AND_MODULES {
        "Kernel/modules"
    } else if kind == MEMMAP_FRAMEBUFFER {
        "Framebuffer"
    } else {
        "Unknown"
    }
}

pub fn memory_type_name(type_: u64) -> (r: &'static str)
    ensures
        r == memory_type_spec(type_),
{
    if type_ == MEMMAP_USABLE {
        "Usable"
    } else if type_ == MEMMAP_RESERVED {
        "Reserved/MMIO"
    } else if type_ == MEMMAP_ACPI_RECLAIMABLE {
        "ACPI reclaimable"
    } else if type_ == MEMMAP_ACPI_NVS {
        "ACPI NVS"
    } else if type_ == MEMMAP_BAD_MEMORY {
        "Bad memory"
    } else if type_ == MEMMAP_BOOTLOADER_RECLAIMABLE {
        "Bootloader reclaimable"
    } else if type_ == MEMMAP_KERNEL_AND_MODULES {
        "Kernel/modules"
    } else if type_ == MEMMAP_FRAMEBUFFER {
        "Framebuffer"
    } else {
        "Unknown"
    }
}

} // verus!
