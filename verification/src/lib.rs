//! Reports on file-system entries: each entry's name, scaled size, permission
//! labels, kind and timestamps, laid out as a fixed-width bordered panel.

pub mod date;
pub mod file;
pub mod kind;
pub mod panel;
pub mod path;
pub mod permissions;
pub mod size;
pub mod text;
