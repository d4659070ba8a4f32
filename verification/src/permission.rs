//! POSIX permission bits and the mapping from a numeric mode to a permission
//! value. The mapping is bit-for-bit: one flag per rwx bit of the owner, group
//! and others triplets.

use vstd::prelude::*;

verus! {

/// Owner may read.
pub const OWNER_READ: u32 = 0o400;

/// Owner may write.
pub const OWNER_WRITE: u32 = 0o200;

/// Owner may execute.
pub const OWNER_EXEC: u32 = 0o100;

/// Group may read.
pub const GROUP_READ: u32 = 0o040;

/// Group may write.
pub const GROUP_WRITE: u32 = 0o020;

/// Group may execute.
pub const GROUP_EXEC: u32 = 0o010;

/// Others may read.
pub const OTHERS_READ: u32 = 0o004;

/// Others may write.
pub const OTHERS_WRITE: u32 = 0o002;

/// Others may execute.
pub const OTHERS_EXEC: u32 = 0o001;

/// A set of POSIX access permission flags, stored as the standard mode bits.
#[derive(Clone, Copy, Debug, PartialEq, Eq, Structural)]
pub struct Permission {
    /// The raw permission bits, a union of the flag constants of this module.
    pub bits: u32,
}

impl Permission {
    /// The empty permission set: nobody may do anything.
    pub fn none() -> (p: Permission)
        ensures
            p.bits == 0,
    {
        Permission { bits: 0 }
    }

    /// Returns the raw bits of this permission set.
    pub fn bits(&self) -> (b: u32)
        ensures
            b == self.bits,
    {
        self.bits
    }

    /// Returns the union of two permission sets.
    pub fn union(self, other: Permission) -> (p: Permission)
        ensures
            p.bits == self.bits | other.bits,
    {
        Permission { bits: self.bits | other.bits }
    }

    /// Returns whether every flag of `mask` is present in this permission set.
    pub fn has(self, mask: u32) -> (r: bool)
        ensures
            r == (self.bits & mask == mask),
    {
        self.bits & mask == mask
    }
}

/// The permission bits that a numeric mode maps to: its nine rwx bits.
pub open spec fn permission_bits_of_mode(mode: u16) -> u32 {
    (mode as u32) & 0o777
}

/// Maps POSIX mode bits to a [`Permission`], testing each of the nine rwx bits
/// of the mode separately. The result carries exactly the rwx bits of the mode.
pub fn mode_to_permission(mode: u16) -> (p: Permission)
    ensures
        p.bits == permission_bits_of_mode(mode),
        p.bits & OWNER_READ != 0 <==> mode & 0o400 != 0,
        p.bits & OWNER_WRITE != 0 <==> mode & 0o200 != 0,
        p.bits & OWNER_EXEC != 0 <==> mode & 0o100 != 0,
        p.bits & GROUP_READ != 0 <==> mode & 0o040 != 0,
        p.bits & GROUP_WRITE != 0 <==> mode & 0o020 != 0,
        p.bits & GROUP_EXEC != 0 <==> mode & 0o010 != 0,
        p.bits & OTHERS_READ != 0 <==> mode & 0o004 != 0,
        p.bits & OTHERS_WRITE != 0 <==> mode & 0o002 != 0,
        p.bits & OTHERS_EXEC != 0 <==> mode & 0o001 != 0,
{
    let m: u32 = mode as u32;
    let r0: u32 = 0;
    let r1: u32 = if m & 0o400 != 0 { r0 | OWNER_READ } else { r0 };
    let r2: u32 = if m & 0o200 != 0 { r1 | OWNER_WRITE } else { r1 };
    let r3: u32 = if m & 0o100 != 0 { r2 | OWNER_EXEC } else { r2 };
    let r4: u32 = if m & 0o040 != 0 { r3 | GROUP_READ } else { r3 };
    let r5: u32 = if m & 0o020 != 0 { r4 | GROUP_WRITE } else { r4 };
    let r6: u32 = if m & 0o010 != 0 { r5 | GROUP_EXEC } else { r5 };
    let r7: u32 = if m & 0o004 != 0 { r6 | OTHERS_READ } else { r6 };
    let r8: u32 = if m & 0o002 != 0 { r7 | OTHERS_WRITE } else { r7 };
    let r9: u32 = if m & 0o001 != 0 { r8 | OTHERS_EXEC } else { r8 };
    proof {
        assert(r9 == m & 0o777) by (bit_vector)
            requires
                r0 == 0u32,
                (m & 0o400 != 0 ==> r1 == r0 | 0o400) && (m & 0o400 == 0 ==> r1 == r0),
                (m & 0o200 != 0 ==> r2 == r1 | 0o200) && (m & 0o200 == 0 ==> r2 == r1),
                (m & 0o100 != 0 ==> r3 == r2 | 0o100) && (m & 0o100 == 0 ==> r3 == r2),
                (m & 0o040 != 0 ==> r4 == r3 | 0o040) && (m & 0o040 == 0 ==> r4 == r3),
                (m & 0o020 != 0 ==> r5 == r4 | 0o020) && (m & 0o020 == 0 ==> r5 == r4),
                (m & 0o010 != 0 ==> r6 == r5 | 0o010) && (m & 0o010 == 0 ==> r6 == r5),
                (m & 0o004 != 0 ==> r7 == r6 | 0o004) && (m & 0o004 == 0 ==> r7 == r6),
                (m & 0o002 != 0 ==> r8 == r7 | 0o002) && (m & 0o002 == 0 ==> r8 == r7),
                (m & 0o001 != 0 ==> r9 == r8 | 0o001) && (m & 0o001 == 0 ==> r9 == r8),
        ;
        lemma_mode_bit_equivalences(mode, m);
    }
    Permission { bits: r9 }
}

/// Each rwx bit of the widened mode agrees with the same bit of the mode, and
/// masking with `0o777` keeps exactly those bits.
proof fn lemma_mode_bit_equivalences(mode: u16, m: u32)
    requires
        m == mode as u32,
    ensures
        (m & 0o777) & 0o400 != 0 <==> mode & 0o400 != 0,
        (m & 0o777) & 0o200 != 0 <==> mode & 0o200 != 0,
        (m & 0o777) & 0o100 != 0 <==> mode & 0o100 != 0,
        (m & 0o777) & 0o040 != 0 <==> mode & 0o040 != 0,
        (m & 0o777) & 0o020 != 0 <==> mode & 0o020 != 0,
        (m & 0o777) & 0o010 != 0 <==> mode & 0o010 != 0,
        (m & 0o777) & 0o004 != 0 <==> mode & 0o004 != 0,
        (m & 0o777) & 0o002 != 0 <==> mode & 0o002 != 0,
        (m & 0o777) & 0o001 != 0 <==> mode & 0o001 != 0,
{
    assert((m & 0o777) & 0o400 != 0 <==> m & 0o400 != 0) by (bit_vector);
    assert((m & 0o777) & 0o200 != 0 <==> m & 0o200 != 0) by (bit_vector);
    assert((m & 0o777) & 0o100 != 0 <==> m & 0o100 != 0) by (bit_vector);
    assert((m & 0o777) & 0o040 != 0 <==> m & 0o040 != 0) by (bit_vector);
    assert((m & 0o777) & 0o020 != 0 <==> m & 0o020 != 0) by (bit_vector);
    assert((m & 0o777) & 0o010 != 0 <==> m & 0o010 != 0) by (bit_vector);
    assert((m & 0o777) & 0o004 != 0 <==> m & 0o004 != 0) by (bit_vector);
    assert((m & 0o777) & 0o002 != 0 <==> m & 0o002 != 0) by (bit_vector);
    assert((m & 0o777) & 0o001 != 0 <==> m & 0o001 != 0) by (bit_vector);
    assert(m & 0o400 != 0 <==> mode & 0o400 != 0) by (bit_vector)
        requires m == mode as u32;
    assert(m & 0o200 != 0 <==> mode & 0o200 != 0) by (bit_vector)
        requires m == mode as u32;
    assert(m & 0o100 != 0 <==> mode & 0o100 != 0) by (bit_vector)
        requires m == mode as u32;
    assert(m & 0o040 != 0 <==> mode & 0o040 != 0) by (bit_vector)
        requires m == mode as u32;
    assert(m & 0o020 != 0 <==> mode & 0o020 != 0) by (bit_vector)
        requires m == mode as u32;
    assert(m & 0o010 != 0 <==> mode & 0o010 != 0) by (bit_vector)
        requires m == mode as u32;
    assert(m & 0o004 != 0 <==> mode & 0o004 != 0) by (bit_vector)
        requires m == mode as u32;
    assert(m & 0o002 != 0 <==> mode & 0o002 != 0) by (bit_vector)
        requires m == mode as u32;
    assert(m & 0o001 != 0 <==> mode & 0o001 != 0) by (bit_vector)
        requires m == mode as u32;
}

/// A permission built from mode bits converts back to exactly the rwx bits of
/// that mode: storing `mode_to_permission(m).bits()` as a mode keeps `m`'s nine
/// permission bits and nothing else.
pub proof fn lemma_mode_permission_roundtrip(mode: u16)
    ensures
        permission_bits_of_mode(mode) as u16 == mode & 0o777,
        permission_bits_of_mode(mode & 0o777) == permission_bits_of_mode(mode),
{
    let m: u32 = mode as u32;
    assert((m & 0o777) as u16 == mode & 0o777) by (bit_vector)
        requires m == mode as u32;
    assert(((mode & 0o777) as u32) & 0o777 == m & 0o777) by (bit_vector)
        requires m == mode as u32;
}

} // verus!
