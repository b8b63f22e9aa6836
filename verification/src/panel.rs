//! The bordered panel in which a report is shown.
//!
//! The panel is ten lines of equal width: a frame of box-drawing characters,
//! the centered name, and one labelled line for each other field. A field
//! that is too long for its line is cut; nothing wraps.

use crate::file::{File, FileView};
use crate::kind::kind_label;
use crate::permissions::{
    permission_label, spec_is_executable, spec_permissions, FilePermissions,
};
use crate::text::{
    centered, free_of, joined, left_aligned, lemma_aligned_free_of, lemma_aligned_len,
    lemma_aligned_long, lemma_free_of_concat, lemma_lines_of_joined, lines_of, push_centered,
    push_left_aligned, push_repeated, repeated,
};
use vstd::prelude::*;
use vstd::string::StringExecFns;

verus! {

/// The number of characters of a line between its two border characters.
pub const INNER_WIDTH: usize = 65;

/// The number of characters of a line, borders included.
pub const LINE_WIDTH: usize = 67;

/// The number of characters between the spaces that line the borders.
pub const CONTENT_WIDTH: usize = 63;

/// The number of characters that a label and its value share, the colon and
/// the space between them apart.
pub const LABELLED_WIDTH: usize = 61;

/// The number of lines of a panel.
pub const PANEL_LINES: usize = 10;

/// A horizontal rule between two corner or junction characters.
pub open spec fn rule(left: char, right: char) -> Seq<char> {
    seq![left] + repeated('─', INNER_WIDTH as nat) + seq![right]
}

/// The line that shows the name, centered between the borders.
pub open spec fn name_line(name: Seq<char>) -> Seq<char> {
    seq!['│', ' '] + centered(name, CONTENT_WIDTH as nat) + seq![' ', '│']
}

/// A line that shows a value behind its label; the value takes what the label
/// leaves of the line.
pub open spec fn labelled_line(label: Seq<char>, value: Seq<char>) -> Seq<char> {
    seq!['│', ' '] + label + seq![':', ' '] + left_aligned(
        value,
        (LABELLED_WIDTH - label.len()) as nat,
    ) + seq![' ', '│']
}

/// The labels of the slots that are filled, in their order, with a plus sign
/// between each two.
pub open spec fn permissions_text(slots: Seq<Option<FilePermissions>>) -> Seq<char>
    decreases slots.len(),
{
    if slots.len() == 0 {
        Seq::empty()
    } else {
        let before = permissions_text(slots.drop_last());
        match slots.last() {
            None => before,
            Some(permission) => if before.len() == 0 {
                permission_label(permission)
            } else {
                before + seq!['+'] + permission_label(permission)
            },
        }
    }
}

/// The ten lines of the panel of a report.
pub open spec fn panel_lines(file: FileView) -> Seq<Seq<char>> {
    seq![
        rule('╭', '╮'),
        name_line(file.name),
        rule('├', '┤'),
        labelled_line("Size"@, file.size),
        labelled_line("Permissions"@, permissions_text(file.permissions)),
        labelled_line("Type"@, kind_label(file.kind)),
        labelled_line("Created"@, file.date.created),
        labelled_line("Modified"@, file.date.modified),
        labelled_line("Accessed"@, file.date.accessed),
        rule('╰', '╯'),
    ]
}

/// The panel of a report as one text: its lines, each but the last ended by a
/// line feed.
pub open spec fn panel_text(file: FileView) -> Seq<char> {
    joined(panel_lines(file), '\n')
}

/// Appends a horizontal rule to `out`.
fn push_rule(out: &mut String, left: char, right: char)
    ensures
        final(out)@ == old(out)@ + rule(left, right),
{
    out.push(left);
    push_repeated(out, '─', INNER_WIDTH);
    out.push(right);
    assert(out@ =~= old(out)@ + rule(left, right));
}

/// Appends the line that shows the name to `out`.
fn push_name_line(out: &mut String, name: &str)
    ensures
        final(out)@ == old(out)@ + name_line(name@),
{
    out.push('│');
    out.push(' ');
    push_centered(out, name, CONTENT_WIDTH);
    out.push(' ');
    out.push('│');
    assert(out@ =~= old(out)@ + name_line(name@));
}

/// Appends a line that shows `value` behind `label` to `out`.
fn push_labelled_line(out: &mut String, label: &str, value: &str)
    requires
        label@.len() <= LABELLED_WIDTH,
    ensures
        final(out)@ == old(out)@ + labelled_line(label@, value@),
{
    out.push('│');
    out.push(' ');
    out.append(label);
    out.push(':');
    out.push(' ');
    let width: usize = LABELLED_WIDTH - label.unicode_len();
    push_left_aligned(out, value, width);
    out.push(' ');
    out.push('│');
    assert(out@ =~= old(out)@ + labelled_line(label@, value@));
}

/// Joins the labels of the filled slots with plus signs.
pub fn join_permissions(slots: &[Option<FilePermissions>; 3]) -> (text: String)
    ensures
        text@ == permissions_text(slots@),
{
    let mut text = String::new();
    let mut i: usize = 0;
    while i < 3
        invariant
            i <= 3,
            slots@.len() == 3,
            text@ == permissions_text(slots@.take(i as int)),
        decreases 3 - i,
    {
        assert(slots@.take(i + 1).drop_last() =~= slots@.take(i as int));
        if let Some(permission) = slots[i] {
            if !text.as_str().is_empty() {
                text.push('+');
            }
            let label = permission.to_string();
            text.append(label.as_str());
        }
        i += 1;
        assert(text@ =~= permissions_text(slots@.take(i as int)));
    }
    assert(slots@.take(3) =~= slots@);
    text
}

impl File {
    /// Lays the report out as a panel.
    pub fn to_string(&self) -> (text: String)
        ensures
            text@ == panel_text(self@),
    {
        proof {
            reveal_strlit("Size");
            reveal_strlit("Permissions");
            reveal_strlit("Type");
            reveal_strlit("Created");
            reveal_strlit("Modified");
            reveal_strlit("Accessed");
        }
        let slots = self.permissions();
        let permissions = join_permissions(&slots);
        let kind = self.kind().to_string();
        let date = self.date();
        let mut text = String::new();
        push_rule(&mut text, '╭', '╮');
        text.push('\n');
        push_name_line(&mut text, self.name());
        text.push('\n');
        push_rule(&mut text, '├', '┤');
        text.push('\n');
        push_labelled_line(&mut text, "Size", self.size());
        text.push('\n');
        push_labelled_line(&mut text, "Permissions", permissions.as_str());
        text.push('\n');
        push_labelled_line(&mut text, "Type", kind.as_str());
        text.push('\n');
        push_labelled_line(&mut text, "Created", date.created());
        text.push('\n');
        push_labelled_line(&mut text, "Modified", date.modified());
        text.push('\n');
        push_labelled_line(&mut text, "Accessed", date.accessed());
        text.push('\n');
        push_rule(&mut text, '╰', '╯');
        proof {
            lemma_joined_ten(panel_lines(self@), '\n');
            assert(text@ =~= panel_text(self@));
        }
        text
    }
}

/// Ten joined lines, written out.
proof fn lemma_joined_ten(lines: Seq<Seq<char>>, separator: char)
    requires
        lines.len() == 10,
    ensures
        joined(lines, separator) == lines[0] + seq![separator] + lines[1] + seq![separator]
            + lines[2] + seq![separator] + lines[3] + seq![separator] + lines[4] + seq![separator]
            + lines[5] + seq![separator] + lines[6] + seq![separator] + lines[7] + seq![separator]
            + lines[8] + seq![separator] + lines[9],
{
    let l9 = lines.drop_last();
    let l8 = l9.drop_last();
    let l7 = l8.drop_last();
    let l6 = l7.drop_last();
    let l5 = l6.drop_last();
    let l4 = l5.drop_last();
    let l3 = l4.drop_last();
    let l2 = l3.drop_last();
    let l1 = l2.drop_last();
    assert(joined(l1, separator) == lines[0]);
    assert(joined(l2, separator) == joined(l1, separator) + seq![separator] + lines[1]);
    assert(joined(l3, separator) == joined(l2, separator) + seq![separator] + lines[2]);
    assert(joined(l4, separator) == joined(l3, separator) + seq![separator] + lines[3]);
    assert(joined(l5, separator) == joined(l4, separator) + seq![separator] + lines[4]);
    assert(joined(l6, separator) == joined(l5, separator) + seq![separator] + lines[5]);
    assert(joined(l7, separator) == joined(l6, separator) + seq![separator] + lines[6]);
    assert(joined(l8, separator) == joined(l7, separator) + seq![separator] + lines[7]);
    assert(joined(l9, separator) == joined(l8, separator) + seq![separator] + lines[8]);
    assert(joined(lines, separator) == joined(l9, separator) + seq![separator] + lines[9]);
}

/// A value behind its label fills the line exactly, whatever the value holds.
pub proof fn lemma_labelled_line_len(label: Seq<char>, value: Seq<char>)
    requires
        label.len() <= LABELLED_WIDTH,
    ensures
        labelled_line(label, value).len() == LINE_WIDTH,
{
    lemma_aligned_len(value, (LABELLED_WIDTH - label.len()) as nat);
}

/// Every line of a panel has the same width, whatever the report holds.
pub proof fn lemma_line_widths(file: FileView)
    ensures
        panel_lines(file).len() == PANEL_LINES,
        forall|i: int|
            0 <= i < PANEL_LINES ==> (#[trigger] panel_lines(file)[i]).len() == LINE_WIDTH,
{
    reveal_strlit("Size");
    reveal_strlit("Permissions");
    reveal_strlit("Type");
    reveal_strlit("Created");
    reveal_strlit("Modified");
    reveal_strlit("Accessed");
    lemma_aligned_len(file.name, CONTENT_WIDTH as nat);
    lemma_labelled_line_len("Size"@, file.size);
    lemma_labelled_line_len("Permissions"@, permissions_text(file.permissions));
    lemma_labelled_line_len("Type"@, kind_label(file.kind));
    lemma_labelled_line_len("Created"@, file.date.created);
    lemma_labelled_line_len("Modified"@, file.date.modified);
    lemma_labelled_line_len("Accessed"@, file.date.accessed);
}

/// A panel is ten full lines and the nine line feeds between them.
pub proof fn lemma_panel_text_len(file: FileView)
    ensures
        panel_text(file).len() == PANEL_LINES * LINE_WIDTH + (PANEL_LINES - 1),
{
    lemma_line_widths(file);
    let lines = panel_lines(file);
    lemma_joined_ten(lines, '\n');
    assert(lines[0].len() == LINE_WIDTH);
    assert(lines[1].len() == LINE_WIDTH);
    assert(lines[2].len() == LINE_WIDTH);
    assert(lines[3].len() == LINE_WIDTH);
    assert(lines[4].len() == LINE_WIDTH);
    assert(lines[5].len() == LINE_WIDTH);
    assert(lines[6].len() == LINE_WIDTH);
    assert(lines[7].len() == LINE_WIDTH);
    assert(lines[8].len() == LINE_WIDTH);
    assert(lines[9].len() == LINE_WIDTH);
}

/// A name that is longer than the line has room for is cut to that room: the
/// line shows its first characters and nothing else between the borders.
pub proof fn lemma_long_name_is_cut(name: Seq<char>)
    requires
        name.len() >= CONTENT_WIDTH,
    ensures
        name_line(name) == seq!['│', ' '] + name.take(CONTENT_WIDTH as int) + seq![' ', '│'],
        name_line(name).len() == LINE_WIDTH,
{
    lemma_aligned_long(name, CONTENT_WIDTH as nat);
    lemma_aligned_len(name, CONTENT_WIDTH as nat);
}

/// A value that is longer than its label leaves room for is cut to that room.
pub proof fn lemma_long_value_is_cut(label: Seq<char>, value: Seq<char>)
    requires
        label.len() <= LABELLED_WIDTH,
        value.len() >= LABELLED_WIDTH - label.len(),
    ensures
        labelled_line(label, value) == seq!['│', ' '] + label + seq![':', ' '] + value.take(
            LABELLED_WIDTH - label.len(),
        ) + seq![' ', '│'],
{
    lemma_aligned_long(value, (LABELLED_WIDTH - label.len()) as nat);
}

/// The permissions of an entry read `Read`, then `Write` unless the entry is
/// read-only, then `Executable` where its mode is executable, with a plus sign
/// between each two.
pub proof fn lemma_permissions_text(readonly: bool, mode: u32)
    ensures
        permissions_text(spec_permissions(readonly, mode)) == "Read"@ + (if readonly {
            Seq::<char>::empty()
        } else {
            seq!['+'] + "Write"@
        }) + (if spec_is_executable(mode) {
            seq!['+'] + "Executable"@
        } else {
            Seq::<char>::empty()
        }),
{
    reveal_strlit("Read");
    reveal_strlit("Write");
    reveal_strlit("Executable");
    let slots = spec_permissions(readonly, mode);
    let two = slots.drop_last();
    let one = two.drop_last();
    assert(one.drop_last() =~= Seq::<Option<FilePermissions>>::empty());
    assert(permissions_text(one.drop_last()) =~= Seq::<char>::empty());
    assert(permissions_text(one) =~= "Read"@);
    assert(permissions_text(two) =~= "Read"@ + (if readonly {
        Seq::<char>::empty()
    } else {
        seq!['+'] + "Write"@
    }));
    assert(permissions_text(two).len() > 0);
    assert(permissions_text(slots) =~= "Read"@ + (if readonly {
        Seq::<char>::empty()
    } else {
        seq!['+'] + "Write"@
    }) + (if spec_is_executable(mode) {
        seq!['+'] + "Executable"@
    } else {
        Seq::<char>::empty()
    }));
}

/// The characters that frame a line are no line feeds.
proof fn lemma_labelled_line_free_of(label: Seq<char>, value: Seq<char>)
    requires
        label.len() <= LABELLED_WIDTH,
        free_of(label, '\n'),
        free_of(value, '\n'),
    ensures
        free_of(labelled_line(label, value), '\n'),
{
    let field = left_aligned(value, (LABELLED_WIDTH - label.len()) as nat);
    lemma_aligned_free_of(value, (LABELLED_WIDTH - label.len()) as nat, '\n');
    let line = labelled_line(label, value);
    assert forall|i: int| 0 <= i < line.len() implies line[i] != '\n' by {
        if i < 2 {
        } else if i < 2 + label.len() {
            assert(line[i] == label[i - 2]);
        } else if i < 4 + label.len() {
        } else if i < 4 + label.len() + field.len() {
            assert(line[i] == field[i - 4 - label.len()]);
        } else {
        }
    }
}

/// The joined permission labels hold no line feed.
proof fn lemma_permissions_text_free_of(slots: Seq<Option<FilePermissions>>)
    ensures
        free_of(permissions_text(slots), '\n'),
    decreases slots.len(),
{
    reveal_strlit("Read");
    reveal_strlit("Write");
    reveal_strlit("Executable");
    if slots.len() > 0 {
        let before = permissions_text(slots.drop_last());
        lemma_permissions_text_free_of(slots.drop_last());
        if let Some(permission) = slots.last() {
            let label = permission_label(permission);
            assert(free_of(label, '\n'));
            lemma_free_of_concat(before, seq!['+'], '\n');
            lemma_free_of_concat(before + seq!['+'], label, '\n');
        }
    }
}

/// Where no text of a report holds a line feed, the panel read line by line
/// is the ten lines it was made of: every line of the text has the same width.
pub proof fn lemma_panel_splits_into_lines(file: FileView)
    requires
        free_of(file.name, '\n'),
        free_of(file.size, '\n'),
        free_of(file.date.created, '\n'),
        free_of(file.date.modified, '\n'),
        free_of(file.date.accessed, '\n'),
    ensures
        lines_of(panel_text(file), '\n') == panel_lines(file),
        lines_of(panel_text(file), '\n').len() == PANEL_LINES,
        forall|i: int|
            0 <= i < PANEL_LINES ==> (#[trigger] lines_of(panel_text(file), '\n')[i]).len()
                == LINE_WIDTH,
{
    reveal_strlit("Size");
    reveal_strlit("Permissions");
    reveal_strlit("Type");
    reveal_strlit("Created");
    reveal_strlit("Modified");
    reveal_strlit("Accessed");
    reveal_strlit("Regular");
    reveal_strlit("Folder");
    reveal_strlit("Symlink");
    let lines = panel_lines(file);
    lemma_line_widths(file);
    lemma_aligned_free_of(file.name, CONTENT_WIDTH as nat, '\n');
    let name = centered(file.name, CONTENT_WIDTH as nat);
    assert forall|i: int| 0 <= i < name_line(file.name).len() implies name_line(file.name)[i]
        != '\n' by {
        if 2 <= i < 2 + name.len() {
            assert(name_line(file.name)[i] == name[i - 2]);
        }
    }
    lemma_permissions_text_free_of(file.permissions);
    assert(free_of(kind_label(file.kind), '\n'));
    lemma_labelled_line_free_of("Size"@, file.size);
    lemma_labelled_line_free_of("Permissions"@, permissions_text(file.permissions));
    lemma_labelled_line_free_of("Type"@, kind_label(file.kind));
    lemma_labelled_line_free_of("Created"@, file.date.created);
    lemma_labelled_line_free_of("Modified"@, file.date.modified);
    lemma_labelled_line_free_of("Accessed"@, file.date.accessed);
    assert(free_of(rule('╭', '╮'), '\n'));
    assert(free_of(rule('├', '┤'), '\n'));
    assert(free_of(rule('╰', '╯'), '\n'));
    assert forall|i: int| 0 <= i < lines.len() implies free_of(#[trigger] lines[i], '\n') by {}
    lemma_lines_of_joined(lines, '\n');
}

} // verus!
