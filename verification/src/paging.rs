//! User page permissions and their encoding as x86-64 page-table entry flags.
use vstd::prelude::*;

verus! {

/// Present bit of a page-table entry.
pub const PTE_PRESENT: u64 = 1;

/// Writable bit of a page-table entry.
pub const PTE_WRITABLE: u64 = 2;

/// User-accessible bit of a page-table entry.
pub const PTE_USER_ACCESSIBLE: u64 = 4;

/// No-execute bit of a page-table entry.
pub const PTE_NO_EXECUTE: u64 = 0x8000_0000_0000_0000;

/// Kernel mapping request: the page is writable.
pub const MAPPING_WRITABLE: u8 = 1;

/// Kernel mapping request: the page is executable.
pub const MAPPING_EXECUTABLE: u8 = 2;

/// Kernel mapping request: the page is reachable from user mode.
pub const MAPPING_USER: u8 = 4;

/// Kernel mapping request: the page is uncacheable.
pub const MAPPING_UNCACHEABLE: u8 = 8;

#[derive(Clone, Copy, Debug, PartialEq, Eq)]
pub enum PagePermissions {
    ReadOnly,
    ReadWrite,
    ReadExecute,
}

#[derive(Clone, Copy, Debug, PartialEq, Eq)]
pub enum MappingError {
    OutOfMemory,
    AlreadyMapped,
    NotMapped,
    InvalidHierarchy,
}

pub open spec fn has_bit(flags: u64, bit: u64) -> bool {
    flags & bit != 0
}

/// The leaf flags of a user page with the given permissions: present, user-accessible, writable
/// only for read-write, and no-execute unless read-execute (W^X).
pub open spec fn spec_user_page_flags(permissions: PagePermissions) -> u64 {
    match permissions {
        PagePermissions::ReadOnly => PTE_PRESENT | PTE_USER_ACCESSIBLE | PTE_NO_EXECUTE,
        PagePermissions::ReadWrite => PTE_PRESENT | PTE_USER_ACCESSIBLE | PTE_WRITABLE
            | PTE_NO_EXECUTE,
        PagePermissions::ReadExecute => PTE_PRESENT | PTE_USER_ACCESSIBLE,
    }
}

/// The permissions a set of leaf flags grants to user mode, or the error for a leaf that is not
/// a valid user mapping (not user-accessible, or writable and executable at once).
pub open spec fn spec_decode_user_permissions(flags: u64) -> Result<PagePermissions, MappingError> {
    if !has_bit(flags, PTE_USER_ACCESSIBLE) || (has_bit(flags, PTE_WRITABLE) && !has_bit(
        flags,
        PTE_NO_EXECUTE,
    )) {
        Err(MappingError::InvalidHierarchy)
    } else if has_bit(flags, PTE_WRITABLE) {
        Ok(PagePermissions::ReadWrite)
    } else if has_bit(flags, PTE_NO_EXECUTE) {
        Ok(PagePermissions::ReadOnly)
    } else {
        Ok(PagePermissions::ReadExecute)
    }
}

pub fn user_page_flags(permissions: PagePermissions) -> (flags: u64)
    ensures
        flags == spec_user_page_flags(permissions),
{
    let mut flags = PTE_PRESENT | PTE_USER_ACCESSIBLE;
    if matches!(permissions, PagePermissions::ReadWrite) {
        flags = flags | PTE_WRITABLE;
    }
    if !matches!(permissions, PagePermissions::ReadExecute) {
        flags = flags | PTE_NO_EXECUTE;
    }
    proof {
        assert((1u64 | 4u64) | 2u64 == (1u64 | 4u64 | 2u64)) by (bit_vector);
    }
    flags
}

pub fn decode_user_permissions(flags: u64) -> (result: Result<PagePermissions, MappingError>)
    ensures
        result == spec_decode_user_permissions(flags),
{
    let user = flags & PTE_USER_ACCESSIBLE != 0;
    let writable = flags & PTE_WRITABLE != 0;
    let no_execute = flags & PTE_NO_EXECUTE != 0;
    if !user || writable && !no_execute {
        return Err(MappingError::InvalidHierarchy);
    }
    if writable {
        Ok(PagePermissions::ReadWrite)
    } else if no_execute {
        Ok(PagePermissions::ReadOnly)
    } else {
        Ok(PagePermissions::ReadExecute)
    }
}

/// Decoding the flags of a user page gives back the permissions it was encoded from.
pub proof fn lemma_user_permissions_round_trip(permissions: PagePermissions)
    ensures
        spec_decode_user_permissions(spec_user_page_flags(permissions)) == Ok::<
            PagePermissions,
            MappingError,
        >(permissions),
{
    assert((1u64 | 4u64 | 0x8000_0000_0000_0000u64) & 4 != 0) by (bit_vector);
    assert((1u64 | 4u64 | 0x8000_0000_0000_0000u64) & 2 == 0) by (bit_vector);
    assert((1u64 | 4u64 | 0x8000_0000_0000_0000u64) & 0x8000_0000_0000_0000 != 0) by (bit_vector);
    assert((1u64 | 4u64 | 2u64 | 0x8000_0000_0000_0000u64) & 4 != 0) by (bit_vector);
    assert((1u64 | 4u64 | 2u64 | 0x8000_0000_0000_0000u64) & 2 != 0) by (bit_vector);
    assert((1u64 | 4u64 | 2u64 | 0x8000_0000_0000_0000u64) & 0x8000_0000_0000_0000 != 0)
        by (bit_vector);
    assert((1u64 | 4u64) & 4 != 0) by (bit_vector);
    assert((1u64 | 4u64) & 2 == 0) by (bit_vector);
    assert((1u64 | 4u64) & 0x8000_0000_0000_0000 == 0) by (bit_vector);
}

/// Every user page flag set is present and user-accessible, and never writable and executable.
pub proof fn lemma_user_page_flags_write_xor_execute(permissions: PagePermissions)
    ensures
        has_bit(spec_user_page_flags(permissions), PTE_PRESENT),
        has_bit(spec_user_page_flags(permissions), PTE_USER_ACCESSIBLE),
        !(has_bit(spec_user_page_flags(permissions), PTE_WRITABLE) && !has_bit(
            spec_user_page_flags(permissions),
            PTE_NO_EXECUTE,
        )),
{
    assert((1u64 | 4u64 | 0x8000_0000_0000_0000u64) & 1 != 0) by (bit_vector);
    assert((1u64 | 4u64 | 0x8000_0000_0000_0000u64) & 4 != 0) by (bit_vector);
    assert((1u64 | 4u64 | 0x8000_0000_0000_0000u64) & 2 == 0) by (bit_vector);
    assert((1u64 | 4u64 | 2u64 | 0x8000_0000_0000_0000u64) & 1 != 0) by (bit_vector);
    assert((1u64 | 4u64 | 2u64 | 0x8000_0000_0000_0000u64) & 4 != 0) by (bit_vector);
    assert((1u64 | 4u64 | 2u64 | 0x8000_0000_0000_0000u64) & 0x8000_0000_0000_0000 != 0)
        by (bit_vector);
    assert((1u64 | 4u64) & 1 != 0) by (bit_vector);
    assert((1u64 | 4u64) & 4 != 0) by (bit_vector);
    assert((1u64 | 4u64) & 2 == 0) by (bit_vector);
}

pub open spec fn has_mapping_bit(flags: u8, bit: u8) -> bool {
    flags & bit != 0
}

/// The leaf flags of a kernel mapping: always present; writable, user-accessible as requested;
/// no-execute unless executable was requested.
pub fn page_table_flags(flags: u8) -> (page_flags: u64)
    ensures
        has_bit(page_flags, PTE_PRESENT),
        has_bit(page_flags, PTE_WRITABLE) == has_mapping_bit(flags, MAPPING_WRITABLE),
        has_bit(page_flags, PTE_NO_EXECUTE) == !has_mapping_bit(flags, MAPPING_EXECUTABLE),
        has_bit(page_flags, PTE_USER_ACCESSIBLE) == has_mapping_bit(flags, MAPPING_USER),
        page_flags & !(PTE_PRESENT | PTE_WRITABLE | PTE_USER_ACCESSIBLE | PTE_NO_EXECUTE) == 0,
{
    let writable: u64 = if flags & MAPPING_WRITABLE != 0 { PTE_WRITABLE } else { 0 };
    let no_execute: u64 = if flags & MAPPING_EXECUTABLE != 0 { 0 } else { PTE_NO_EXECUTE };
    let user: u64 = if flags & MAPPING_USER != 0 { PTE_USER_ACCESSIBLE } else { 0 };
    let page_flags = PTE_PRESENT | writable | no_execute | user;
    assert(page_flags & 1 != 0 && (page_flags & 2 != 0) == (writable == 2) && (page_flags & 4 != 0)
        == (user == 4) && (page_flags & 0x8000_0000_0000_0000 != 0) == (no_execute
        == 0x8000_0000_0000_0000) && page_flags & !(1u64 | 2u64 | 4u64 | 0x8000_0000_0000_0000u64)
        == 0) by (bit_vector)
        requires
            page_flags == 1u64 | writable | no_execute | user,
            writable == 0 || writable == 2,
            no_execute == 0 || no_execute == 0x8000_0000_0000_0000,
            user == 0 || user == 4,
    ;
    page_flags
}

/// Why the page-table walker refused to create a mapping.
#[derive(Clone, Copy, Debug, PartialEq, Eq)]
pub enum MapFailure {
    FrameAllocationFailed,
    PageAlreadyMapped,
    ParentEntryHugePage,
}

/// Why the page-table walker refused to remove a mapping.
#[derive(Clone, Copy, Debug, PartialEq, Eq)]
pub enum UnmapFailure {
    PageNotMapped,
    ParentEntryHugePage,
    InvalidFrameAddress,
}

/// Why the page-table walker refused to change a mapping's flags.
#[derive(Clone, Copy, Debug, PartialEq, Eq)]
pub enum FlagUpdateFailure {
    PageNotMapped,
    ParentEntryHugePage,
}

pub fn map_error(error: MapFailure) -> (mapped: MappingError)
    ensures
        mapped == (match error {
            MapFailure::FrameAllocationFailed => MappingError::OutOfMemory,
            MapFailure::PageAlreadyMapped => MappingError::AlreadyMapped,
            MapFailure::ParentEntryHugePage => MappingError::InvalidHierarchy,
        }),
{
    match error {
        MapFailure::FrameAllocationFailed => MappingError::OutOfMemory,
        MapFailure::PageAlreadyMapped => MappingError::AlreadyMapped,
        MapFailure::ParentEntryHugePage => MappingError::InvalidHierarchy,
    }
}

pub fn unmap_error(error: UnmapFailure) -> (mapped: MappingError)
    ensures
        mapped == (match error {
            UnmapFailure::PageNotMapped => MappingError::NotMapped,
            _ => MappingError::InvalidHierarchy,
        }),
{
    match error {
        UnmapFailure::PageNotMapped => MappingError::NotMapped,
        UnmapFailure::ParentEntryHugePage | UnmapFailure::InvalidFrameAddress => {
            MappingError::InvalidHierarchy
        },
    }
}

pub fn flag_error(error: FlagUpdateFailure) -> (mapped: MappingError)
    ensures
        mapped == (match error {
            FlagUpdateFailure::PageNotMapped => MappingError::NotMapped,
            FlagUpdateFailure::ParentEntryHugePage => MappingError::InvalidHierarchy,
        }),
{
    match error {
        FlagUpdateFailure::PageNotMapped => MappingError::NotMapped,
        FlagUpdateFailure::ParentEntryHugePage => MappingError::InvalidHierarchy,
    }
}

} // verus!
