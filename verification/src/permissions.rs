//! Permission labels derived from a read-only flag and POSIX mode bits.
//!
//! The classification is deliberately coarse: the owner, group and other
//! classes of a mode are collapsed into one label per capability.

use vstd::prelude::*;

verus! {

/// The execute bits of a POSIX mode: owner, group and other.
pub const EXECUTE_BITS: u32 = 0o111;

/// One permission label of an entry.
#[derive(Debug, Clone, Copy, PartialEq, Eq, Structural)]
pub enum FilePermissions {
    Read,
    Write,
    Executable,
}

/// Whether a mode grants execution to anyone.
pub open spec fn spec_is_executable(mode: u32) -> bool {
    mode & EXECUTE_BITS != 0
}

/// The three permission slots of an entry, in the order read, write, executable.
/// Reading is always granted, writing unless the entry is read-only, and
/// execution where the mode has an execute bit.
pub open spec fn spec_permissions(readonly: bool, mode: u32) -> Seq<Option<FilePermissions>> {
    seq![
        Some(FilePermissions::Read),
        if readonly { None } else { Some(FilePermissions::Write) },
        if spec_is_executable(mode) { Some(FilePermissions::Executable) } else { None },
    ]
}

/// Each slot is empty or holds the label that belongs to its position.
pub open spec fn slots_in_order(slots: Seq<Option<FilePermissions>>) -> bool {
    &&& slots.len() == 3
    &&& slots[0] is None || slots[0] == Some(FilePermissions::Read)
    &&& slots[1] is None || slots[1] == Some(FilePermissions::Write)
    &&& slots[2] is None || slots[2] == Some(FilePermissions::Executable)
}

/// The text of a label.
pub open spec fn permission_label(permission: FilePermissions) -> Seq<char> {
    match permission {
        FilePermissions::Read => "Read"@,
        FilePermissions::Write => "Write"@,
        FilePermissions::Executable => "Executable"@,
    }
}

impl FilePermissions {
    /// Classifies an entry by its read-only flag and its mode bits.
    pub fn new(readonly: bool, mode: u32) -> (slots: [Option<FilePermissions>; 3])
        ensures
            slots@ == spec_permissions(readonly, mode),
    {
        let write = if readonly { None } else { Some(FilePermissions::Write) };
        let execute = if Self::is_executable(mode) {
            Some(FilePermissions::Executable)
        } else {
            None
        };
        let slots = [Some(FilePermissions::Read), write, execute];
        assert(slots@ =~= spec_permissions(readonly, mode));
        slots
    }

    /// Tells whether any of the owner, group or other execute bits of `value` is set.
    pub fn is_executable(value: u32) -> (executable: bool)
        ensures
            executable == spec_is_executable(value),
    {
        value & EXECUTE_BITS != 0
    }

    /// The label as text.
    pub fn to_string(&self) -> (label: String)
        ensures
            label@ == permission_label(*self),
    {
        match self {
            FilePermissions::Read => "Read".to_owned(),
            FilePermissions::Write => "Write".to_owned(),
            FilePermissions::Executable => "Executable".to_owned(),
        }
    }
}

/// A mode is executable exactly when the owner's, the group's or the others'
/// execute bit is set; no other bit of the mode matters.
pub proof fn lemma_executable_bits(mode: u32)
    ensures
        spec_is_executable(mode) <==> (mode & 0o100 != 0 || mode & 0o010 != 0 || mode & 0o001
            != 0),
        spec_is_executable(mode) == spec_is_executable(mode & 0o777),
{
    assert((mode & 0o111 != 0) <==> (mode & 0o100 != 0 || mode & 0o010 != 0 || mode & 0o001 != 0))
        by (bit_vector);
    assert((mode & 0o111 != 0) == ((mode & 0o777) & 0o111 != 0)) by (bit_vector);
}

/// The classification always has its three slots in the fixed order, with
/// reading granted, writing granted exactly when the entry is not read-only, and
/// execution exactly when the mode is executable.
pub proof fn lemma_permission_slots(readonly: bool, mode: u32)
    ensures
        slots_in_order(spec_permissions(readonly, mode)),
        spec_permissions(readonly, mode)[0] == Some(FilePermissions::Read),
        spec_permissions(readonly, mode)[1] is Some <==> !readonly,
        spec_permissions(readonly, mode)[2] is Some <==> spec_is_executable(mode),
{
}

} // verus!
