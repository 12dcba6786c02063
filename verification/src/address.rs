//! Physical, virtual and user address values and page alignment.
use vstd::prelude::*;

verus! {

pub const PAGE_SIZE: u64 = 4096;

pub const USER_ADDRESS_MIN: u64 = 0x0000_0000_0001_0000;

pub const USER_ADDRESS_MAX: u64 = 0x0000_7fff_ffff_f000;

/// Physical addresses are limited to 52 bits.
pub open spec fn is_physical(value: u64) -> bool {
    value < 0x10_0000_0000_0000
}

/// A canonical x86-64 virtual address: bits 48..63 all equal bit 47.
pub open spec fn is_canonical(value: u64) -> bool {
    value < 0x0000_8000_0000_0000 || value >= 0xffff_8000_0000_0000
}

pub open spec fn is_user(value: u64) -> bool {
    USER_ADDRESS_MIN <= value <= USER_ADDRESS_MAX
}

#[derive(Clone, Copy, Debug, PartialEq, Eq, PartialOrd, Ord)]
pub struct PhysicalAddress(u64);

#[derive(Clone, Copy, Debug, PartialEq, Eq, PartialOrd, Ord)]
pub struct VirtualAddress(u64);

#[derive(Clone, Copy, Debug, PartialEq, Eq, PartialOrd, Ord)]
pub struct UserAddress(u64);

impl PhysicalAddress {
    pub closed spec fn value(self) -> u64 {
        self.0
    }

    #[verifier::type_invariant]
    closed spec fn inv(self) -> bool {
        is_physical(self.0)
    }

    pub fn new(value: u64) -> (result: Option<Self>)
        ensures
            result is Some <==> is_physical(value),
            result matches Some(address) ==> address.value() == value,
    {
        if value < (1u64 << 52u64) {
            assert(1u64 << 52u64 == 0x10_0000_0000_0000u64) by (bit_vector);
            Some(PhysicalAddress(value))
        } else {
            assert(1u64 << 52u64 == 0x10_0000_0000_0000u64) by (bit_vector);
            None
        }
    }

    pub fn as_u64(self) -> (value: u64)
        ensures
            value == self.value(),
            is_physical(value),
    {
        proof {
            use_type_invariant(&self);
        }
        self.0
    }

    pub fn checked_add(self, offset: u64) -> (result: Option<Self>)
        ensures
            result is Some <==> self.value() + offset <= u64::MAX && is_physical(
                (self.value() + offset) as u64,
            ),
            result matches Some(address) ==> address.value() == self.value() + offset,
    {
        match self.0.checked_add(offset) {
            Some(value) => Self::new(value),
            None => None,
        }
    }
}

impl VirtualAddress {
    pub closed spec fn value(self) -> u64 {
        self.0
    }

    #[verifier::type_invariant]
    closed spec fn inv(self) -> bool {
        is_canonical(self.0)
    }

    pub fn new(value: u64) -> (result: Option<Self>)
        ensures
            result is Some <==> is_canonical(value),
            result matches Some(address) ==> address.value() == value,
    {
        let sign = (value >> 47u64) & 1;
        let upper = value >> 48u64;
        assert((sign == 0 && upper == 0) <==> value < 0x0000_8000_0000_0000u64) by (bit_vector)
            requires
                sign == (value >> 47u64) & 1,
                upper == value >> 48u64,
        ;
        assert((sign == 1 && upper == 0xffff) <==> value >= 0xffff_8000_0000_0000u64)
            by (bit_vector)
            requires
                sign == (value >> 47u64) & 1,
                upper == value >> 48u64,
        ;
        if (sign == 0 && upper == 0) || (sign == 1 && upper == 0xffff) {
            Some(VirtualAddress(value))
        } else {
            None
        }
    }

    pub fn as_u64(self) -> (value: u64)
        ensures
            value == self.value(),
            is_canonical(value),
    {
        proof {
            use_type_invariant(&self);
        }
        self.0
    }

    pub fn checked_add(self, offset: u64) -> (result: Option<Self>)
        ensures
            result is Some <==> self.value() + offset <= u64::MAX && is_canonical(
                (self.value() + offset) as u64,
            ),
            result matches Some(address) ==> address.value() == self.value() + offset,
    {
        match self.0.checked_add(offset) {
            Some(value) => Self::new(value),
            None => None,
        }
    }
}

impl UserAddress {
    pub closed spec fn value(self) -> u64 {
        self.0
    }

    #[verifier::type_invariant]
    closed spec fn inv(self) -> bool {
        is_user(self.0)
    }

    pub fn new(value: u64) -> (result: Option<Self>)
        ensures
            result is Some <==> is_user(value),
            result matches Some(address) ==> address.value() == value,
    {
        if value >= USER_ADDRESS_MIN && value <= USER_ADDRESS_MAX {
            Some(UserAddress(value))
        } else {
            None
        }
    }

    pub fn as_u64(self) -> (value: u64)
        ensures
            value == self.value(),
            is_user(value),
    {
        proof {
            use_type_invariant(&self);
        }
        self.0
    }

    pub fn checked_add(self, offset: u64) -> (result: Option<Self>)
        ensures
            result is Some <==> self.value() + offset <= u64::MAX && is_user(
                (self.value() + offset) as u64,
            ),
            result matches Some(address) ==> address.value() == self.value() + offset,
    {
        match self.0.checked_add(offset) {
            Some(value) => Self::new(value),
            None => None,
        }
    }
}

/// A page-aligned user address.
#[derive(Clone, Copy, Debug, PartialEq, Eq)]
pub struct UserPage(UserAddress);

impl UserPage {
    pub closed spec fn start(self) -> u64 {
        self.0.value()
    }

    #[verifier::type_invariant]
    closed spec fn inv(self) -> bool {
        self.0.value() % PAGE_SIZE == 0
    }

    pub fn new(address: UserAddress) -> (result: Option<Self>)
        ensures
            result is Some <==> address.value() % PAGE_SIZE == 0,
            result matches Some(page) ==> page.start() == address.value(),
    {
        if address.as_u64() % PAGE_SIZE == 0 {
            Some(UserPage(address))
        } else {
            None
        }
    }

    pub fn start_address(self) -> (address: UserAddress)
        ensures
            address.value() == self.start(),
            address.value() % PAGE_SIZE == 0,
    {
        proof {
            use_type_invariant(&self);
        }
        self.0
    }
}

/// The largest page boundary at or below `value`.
pub open spec fn spec_align_down(value: u64) -> u64 {
    (value - value % PAGE_SIZE) as u64
}

pub fn align_down(value: u64) -> (aligned: u64)
    ensures
        aligned == spec_align_down(value),
        aligned % PAGE_SIZE == 0,
        aligned <= value < aligned + PAGE_SIZE,
{
    let aligned = value & !(PAGE_SIZE - 1);
    assert(value & !4095u64 == value - value % 4096) by (bit_vector);
    aligned
}

/// The smallest page boundary at or above `value`, when it fits in 64 bits.
pub fn align_up(value: u64) -> (aligned: Option<u64>)
    ensures
        aligned is Some <==> value + (PAGE_SIZE - 1) <= u64::MAX,
        aligned matches Some(a) ==> a == spec_align_down((value + (PAGE_SIZE - 1)) as u64)
            && a % PAGE_SIZE == 0 && value <= a < value + PAGE_SIZE,
{
    match value.checked_add(PAGE_SIZE - 1) {
        Some(value) => Some(align_down(value)),
        None => None,
    }
}

} // verus!
