use informer::date::Timestamp;
use informer::file::{EntryMetadata, File};
use informer::kind::TypeFlags;
use informer::panel::join_permissions;
use informer::permissions::FilePermissions::{Executable, Read, Write};

fn regular(len: u64, readonly: bool, mode: u32) -> EntryMetadata {
    EntryMetadata {
        len,
        readonly,
        mode,
        file_type: TypeFlags { is_file: true, is_dir: false, is_symlink: false },
        created: None,
        modified: None,
        accessed: None,
    }
}

/// The panel as the standard formatter lays it out, for fields that fit their lines.
fn laid_out(name: &str, size: &str, permissions: &str, kind: &str, dates: [&str; 3]) -> String {
    let rule = "─".repeat(65);
    [
        format!("╭{rule}╮"),
        format!("│ {name:^63.63} │"),
        format!("├{rule}┤"),
        format!("│ Size: {size:<57.57} │"),
        format!("│ Permissions: {permissions:<50.50} │"),
        format!("│ Type: {kind:<57.57} │"),
        format!("│ Created: {:<54.54} │", dates[0]),
        format!("│ Modified: {:<53.53} │", dates[1]),
        format!("│ Accessed: {:<53.53} │", dates[2]),
        format!("╰{rule}╯"),
    ]
    .join("\n")
}

#[test]
fn panel_of_a_small_file() {
    let file = File::new("notes.txt", &regular(1536, false, 0o644)).unwrap();
    let expected = "\
╭─────────────────────────────────────────────────────────────────╮
│                            notes.txt                            │
├─────────────────────────────────────────────────────────────────┤
│ Size: 1.5 KB                                                    │
│ Permissions: Read+Write                                         │
│ Type: Regular                                                   │
│ Created: unknown                                                │
│ Modified: unknown                                               │
│ Accessed: unknown                                               │
╰─────────────────────────────────────────────────────────────────╯";
    assert_eq!(file.to_string(), expected);
}

#[test]
fn panel_agrees_with_the_standard_formatter() {
    let unknown = ["unknown"; 3];
    let file = File::new("/usr/bin/env", &regular(0, true, 0o555)).unwrap();
    assert_eq!(
        file.to_string(),
        laid_out("env", "0 bytes", "Read+Executable", "Regular", unknown)
    );
    let file = File::new("ab", &regular(u64::MAX, false, 0o777)).unwrap();
    assert_eq!(
        file.to_string(),
        laid_out(
            "ab",
            "16777215.9999999999990905052982270717620849609375 TB",
            "Read+Write+Executable",
            "Regular",
            unknown
        )
    );
}

#[test]
fn every_line_has_the_same_width() {
    let long = "x".repeat(200);
    for name in ["a", "ab", "notes.txt", long.as_str(), "日本語のファイル名", "/"] {
        for len in [0, 1, 1023, u64::MAX, (1 << 40) - 1] {
            let file = File::new(name, &regular(len, false, 0o755)).unwrap();
            let text = file.to_string();
            let lines: Vec<&str> = text.split('\n').collect();
            assert_eq!(lines.len(), 10);
            for line in lines {
                assert_eq!(line.chars().count(), 67, "{line}");
            }
            assert_eq!(text.chars().count(), 10 * 67 + 9);
        }
    }
}

#[test]
fn long_name_is_cut_not_wrapped() {
    let name: String = ('a'..='z').cycle().take(100).collect();
    let file = File::new(&name, &regular(0, false, 0o644)).unwrap();
    assert_eq!(file.name(), name);
    let text = file.to_string();
    let second = text.split('\n').nth(1).unwrap();
    let kept: String = name.chars().take(63).collect();
    assert_eq!(second, format!("│ {kept} │"));
    assert_eq!(text.split('\n').count(), 10);
    assert!(!text.contains(&name[..64]));
}

#[test]
fn name_that_just_fits_is_not_cut() {
    let name = "n".repeat(63);
    let file = File::new(&name, &regular(0, false, 0o644)).unwrap();
    let text = file.to_string();
    assert_eq!(text.split('\n').nth(1).unwrap(), format!("│ {name} │"));
}

#[test]
fn odd_space_goes_to_the_right_of_the_name() {
    let file = File::new("ab", &regular(0, false, 0o644)).unwrap();
    let text = file.to_string();
    let second = text.split('\n').nth(1).unwrap();
    assert_eq!(second, format!("│ {}ab{} │", " ".repeat(30), " ".repeat(31)));
    let file = File::new("abc", &regular(0, false, 0o644)).unwrap();
    let text = file.to_string();
    let second = text.split('\n').nth(1).unwrap();
    assert_eq!(second, format!("│ {}abc{} │", " ".repeat(30), " ".repeat(30)));
}

#[test]
fn width_counts_characters_not_bytes() {
    let file = File::new("dir/ファイル", &regular(0, false, 0o644)).unwrap();
    let text = file.to_string();
    let second = text.split('\n').nth(1).unwrap();
    assert_eq!(second, format!("│ {:^63} │", "ファイル"));
    assert_eq!(second.chars().count(), 67);
}

#[test]
fn dates_are_shown_on_their_lines() {
    let stamp = |seconds| Some(Timestamp { seconds, nanoseconds: 0 });
    let metadata = EntryMetadata {
        created: stamp(1_000_000_000),
        modified: stamp(1_200_000_000),
        accessed: stamp(1_400_000_000),
        ..regular(2048, false, 0o644)
    };
    let file = File::new("dated", &metadata).unwrap();
    let date = file.date();
    assert!(date.modified() == "unknown" || date.modified() != date.accessed());
    assert_eq!(
        file.to_string(),
        laid_out(
            "dated",
            "2 KB",
            "Read+Write",
            "Regular",
            [date.created(), date.modified(), date.accessed()]
        )
    );
}

#[test]
fn filled_slots_are_joined_with_plus_signs() {
    assert_eq!(
        join_permissions(&[Some(Read), Some(Write), Some(Executable)]),
        "Read+Write+Executable"
    );
    assert_eq!(join_permissions(&[Some(Read), Some(Write), None]), "Read+Write");
    assert_eq!(join_permissions(&[Some(Read), None, Some(Executable)]), "Read+Executable");
    assert_eq!(join_permissions(&[Some(Read), None, None]), "Read");
    assert_eq!(join_permissions(&[None, Some(Write), Some(Executable)]), "Write+Executable");
    assert_eq!(join_permissions(&[None, None, Some(Executable)]), "Executable");
    assert_eq!(join_permissions(&[None, None, None]), "");
}

#[test]
fn folder_and_symlink_panels_name_their_kind() {
    let mut metadata = regular(4096, false, 0o755);
    metadata.file_type = TypeFlags { is_file: false, is_dir: true, is_symlink: false };
    let text = File::new("/home/", &metadata).unwrap().to_string();
    assert_eq!(text.split('\n').nth(5).unwrap(), format!("│ Type: {:<57} │", "Folder"));
    metadata.file_type = TypeFlags { is_file: false, is_dir: false, is_symlink: true };
    let text = File::new("link", &metadata).unwrap().to_string();
    assert_eq!(text.split('\n').nth(5).unwrap(), format!("│ Type: {:<57} │", "Symlink"));
}
