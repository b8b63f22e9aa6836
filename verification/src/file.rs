//! The report on one file-system entry.

use crate::date::{shows_optional, FileDate, FileDateView, Timestamp};
use crate::kind::{spec_kind, FileKind, TypeFlags, UnclassifiableKind};
use crate::path::{entry_name, file_name};
use crate::permissions::{slots_in_order, spec_permissions, FilePermissions};
use crate::size::{push_decimal, push_fraction, scaled_value, size_text, spec_unit, SizeUnit};
use crate::text::UNKNOWN;
use vstd::prelude::*;
use vstd::string::StringExecFns;

verus! {

/// What the operating system tells about an entry.
#[derive(Debug, Clone, Copy, PartialEq, Eq, Structural)]
pub struct EntryMetadata {
    /// The length of the entry in bytes.
    pub len: u64,
    /// Whether the entry refuses writes.
    pub readonly: bool,
    /// The POSIX mode bits of the entry.
    pub mode: u32,
    /// The type of the entry.
    pub file_type: TypeFlags,
    /// When the entry was created, where the file system records it.
    pub created: Option<Timestamp>,
    /// When the entry was last modified, where the file system records it.
    pub modified: Option<Timestamp>,
    /// When the entry was last accessed, where the file system records it.
    pub accessed: Option<Timestamp>,
}

/// The report on one entry: every field is computed when the report is made
/// and ready to be shown.
#[derive(Debug, Clone)]
pub struct File {
    name: String,
    size: String,
    permissions: [Option<FilePermissions>; 3],
    kind: FileKind,
    date: FileDate,
}

/// What a report holds.
pub struct FileView {
    pub name: Seq<char>,
    pub size: Seq<char>,
    pub permissions: Seq<Option<FilePermissions>>,
    pub kind: FileKind,
    pub date: FileDateView,
}

impl View for File {
    type V = FileView;

    closed spec fn view(&self) -> FileView {
        FileView {
            name: self.name@,
            size: self.size@,
            permissions: self.permissions@,
            kind: self.kind,
            date: self.date@,
        }
    }
}

impl File {
    /// A report is well formed when each of its three permission slots is
    /// empty or holds the label of its position.
    pub open spec fn wf(&self) -> bool {
        slots_in_order(self@.permissions)
    }

    /// Makes the report on the entry that `arg` leads to, from what the
    /// operating system tells about it. Fails exactly when the entry is none of
    /// a regular file, a folder or a symbolic link.
    pub fn new(arg: &str, metadata: &EntryMetadata) -> (report: Result<File, UnclassifiableKind>)
        ensures
            report is Ok <==> spec_kind(metadata.file_type) is Some,
            report matches Ok(file) ==> {
                &&& file.wf()
                &&& file@.name == entry_name(arg@)
                &&& file@.size == size_text(metadata.len as nat)
                &&& file@.permissions == spec_permissions(metadata.readonly, metadata.mode)
                &&& Some(file@.kind) == spec_kind(metadata.file_type)
                &&& shows_optional(metadata.created, file@.date.created)
                &&& shows_optional(metadata.modified, file@.date.modified)
                &&& shows_optional(metadata.accessed, file@.date.accessed)
            },
    {
        let kind = match FileKind::from(metadata.file_type) {
            Ok(kind) => kind,
            Err(error) => {
                return Err(error);
            },
        };
        let name = match file_name(arg) {
            Some(name) => name,
            None => UNKNOWN.to_owned(),
        };
        let size = Self::determine_size(metadata.len);
        let permissions = FilePermissions::new(metadata.readonly, metadata.mode);
        let date = FileDate::from(metadata.created, metadata.modified, metadata.accessed);
        Ok(File { name, size, permissions, kind, date })
    }

    /// Writes a byte count in the largest unit that it reaches, as the exact
    /// quotient followed by the unit's name.
    pub fn determine_size(value: u64) -> (text: String)
        ensures
            text@ == size_text(value as nat),
    {
        let unit = SizeUnit::of(value);
        let divisor: u64 = unit.divisor();
        let mut text = String::new();
        push_decimal(&mut text, value / divisor);
        let rest: u64 = value % divisor;
        if rest != 0 {
            text.push('.');
            push_fraction(&mut text, rest, divisor, unit.places());
        }
        assert(text@ =~= scaled_value(value as nat, spec_unit(value as nat)));
        text.push(' ');
        text.append(unit.suffix());
        text
    }

    /// The name of the entry.
    pub fn name(&self) -> (name: &str)
        ensures
            name@ == self@.name,
    {
        self.name.as_str()
    }

    /// The size of the entry, scaled to its unit.
    pub fn size(&self) -> (size: &str)
        ensures
            size@ == self@.size,
    {
        self.size.as_str()
    }

    /// The permission slots of the entry, in the order read, write, executable.
    pub fn permissions(&self) -> (slots: [Option<FilePermissions>; 3])
        ensures
            slots@ == self@.permissions,
    {
        self.permissions
    }

    /// The kind of the entry.
    pub fn kind(&self) -> (kind: FileKind)
        ensures
            kind == self@.kind,
    {
        self.kind
    }

    /// The timestamps of the entry.
    pub fn date(&self) -> (date: &FileDate)
        ensures
            date@ == self@.date,
    {
        &self.date
    }
}

} // verus!
