//! The kind of a file-system entry.

use vstd::prelude::*;

verus! {

/// What the operating system reports about the type of an entry.
#[derive(Debug, Clone, Copy, PartialEq, Eq, Structural)]
pub struct TypeFlags {
    pub is_file: bool,
    pub is_dir: bool,
    pub is_symlink: bool,
}

/// The kind of an entry.
#[derive(Debug, Clone, Copy, PartialEq, Eq, Structural)]
pub enum FileKind {
    Regular,
    Folder,
    Symlink,
}

/// The entry is none of a regular file, a folder or a symbolic link: a
/// device, a socket or a pipe, for instance.
#[derive(Debug, Clone, Copy, PartialEq, Eq, Structural)]
pub struct UnclassifiableKind;

/// The kind that the flags stand for, if any. A regular file is recognised
/// before a folder, and a folder before a symbolic link.
pub open spec fn spec_kind(flags: TypeFlags) -> Option<FileKind> {
    if flags.is_file {
        Some(FileKind::Regular)
    } else if flags.is_dir {
        Some(FileKind::Folder)
    } else if flags.is_symlink {
        Some(FileKind::Symlink)
    } else {
        None
    }
}

/// The text of a kind.
pub open spec fn kind_label(kind: FileKind) -> Seq<char> {
    match kind {
        FileKind::Regular => "Regular"@,
        FileKind::Folder => "Folder"@,
        FileKind::Symlink => "Symlink"@,
    }
}

impl FileKind {
    /// Classifies an entry by its type flags. Fails exactly when no flag is set.
    pub fn from(value: TypeFlags) -> (kind: Result<FileKind, UnclassifiableKind>)
        ensures
            kind is Ok <==> (value.is_file || value.is_dir || value.is_symlink),
            kind matches Ok(k) ==> spec_kind(value) == Some(k),
            kind is Err <==> spec_kind(value) is None,
    {
        if value.is_file {
            Ok(FileKind::Regular)
        } else if value.is_dir {
            Ok(FileKind::Folder)
        } else if value.is_symlink {
            Ok(FileKind::Symlink)
        } else {
            Err(UnclassifiableKind)
        }
    }

    /// The kind as text.
    pub fn to_string(&self) -> (label: String)
        ensures
            label@ == kind_label(*self),
    {
        match self {
            FileKind::Regular => "Regular".to_owned(),
            FileKind::Folder => "Folder".to_owned(),
            FileKind::Symlink => "Symlink".to_owned(),
        }
    }
}

/// With exactly one flag set, the kind is the one that the flag names.
pub proof fn lemma_kind_of_single_flag(flags: TypeFlags)
    ensures
        flags.is_file && !flags.is_dir && !flags.is_symlink ==> spec_kind(flags) == Some(
            FileKind::Regular,
        ),
        !flags.is_file && flags.is_dir && !flags.is_symlink ==> spec_kind(flags) == Some(
            FileKind::Folder,
        ),
        !flags.is_file && !flags.is_dir && flags.is_symlink ==> spec_kind(flags) == Some(
            FileKind::Symlink,
        ),
        !flags.is_file && !flags.is_dir && !flags.is_symlink <==> spec_kind(flags) is None,
{
}

} // verus!
