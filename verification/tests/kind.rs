use informer::kind::{FileKind, TypeFlags, UnclassifiableKind};

fn flags(is_file: bool, is_dir: bool, is_symlink: bool) -> TypeFlags {
    TypeFlags { is_file, is_dir, is_symlink }
}

#[test]
fn regular_file_is_regular() {
    assert_eq!(FileKind::from(flags(true, false, false)), Ok(FileKind::Regular));
}

#[test]
fn directory_is_folder() {
    assert_eq!(FileKind::from(flags(false, true, false)), Ok(FileKind::Folder));
}

#[test]
fn symbolic_link_is_symlink() {
    assert_eq!(FileKind::from(flags(false, false, true)), Ok(FileKind::Symlink));
}

#[test]
fn socket_or_pipe_is_unclassifiable() {
    assert_eq!(FileKind::from(flags(false, false, false)), Err(UnclassifiableKind));
}

#[test]
fn earlier_flag_wins_where_several_are_set() {
    assert_eq!(FileKind::from(flags(true, true, true)), Ok(FileKind::Regular));
    assert_eq!(FileKind::from(flags(true, false, true)), Ok(FileKind::Regular));
    assert_eq!(FileKind::from(flags(false, true, true)), Ok(FileKind::Folder));
}

#[test]
fn kind_labels() {
    assert_eq!(FileKind::Regular.to_string(), "Regular");
    assert_eq!(FileKind::Folder.to_string(), "Folder");
    assert_eq!(FileKind::Symlink.to_string(), "Symlink");
}
