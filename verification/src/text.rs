//! Building blocks for fixed-width text.

use vstd::prelude::*;

verus! {

/// `String::push` of the standard library appends one character at the end.
pub assume_specification[ String::push ](s: &mut String, ch: char)
    ensures
        final(s)@ == old(s)@.push(ch),
;

/// What is shown in place of a text that cannot be had.
pub const UNKNOWN: &'static str = "unknown";

/// A run of `n` copies of one character.
pub open spec fn repeated(ch: char, n: nat) -> Seq<char> {
    Seq::new(n, |i: int| ch)
}

/// Appends `n` copies of `ch` to `out`.
pub fn push_repeated(out: &mut String, ch: char, n: usize)
    ensures
        final(out)@ == old(out)@ + repeated(ch, n as nat),
{
    let mut i: usize = 0;
    while i < n
        invariant
            i <= n,
            out@ == old(out)@ + repeated(ch, i as nat),
        decreases n - i,
    {
        out.push(ch);
        i += 1;
        assert(out@ =~= old(out)@ + repeated(ch, i as nat));
    }
}

/// The characters of `s`, in order.
pub fn chars_of(s: &str) -> (v: Vec<char>)
    ensures
        v@ == s@,
{
    let mut v: Vec<char> = Vec::new();
    for c in it: s.chars()
        invariant
            v@ == it.seq().take(it.index() as int),
    {
        v.push(c);
    }
    v
}

/// `s` cut down to its first `width` characters; unchanged when it is no longer than that.
pub open spec fn truncated(s: Seq<char>, width: nat) -> Seq<char> {
    if s.len() <= width {
        s
    } else {
        s.take(width as int)
    }
}

/// `s` in a field of exactly `width` characters: cut at `width`, then filled
/// with spaces on the right.
pub open spec fn left_aligned(s: Seq<char>, width: nat) -> Seq<char> {
    let kept = truncated(s, width);
    kept + repeated(' ', (width - kept.len()) as nat)
}

/// `s` in a field of exactly `width` characters: cut at `width`, then filled
/// with spaces on both sides, the odd space going to the right.
pub open spec fn centered(s: Seq<char>, width: nat) -> Seq<char> {
    let kept = truncated(s, width);
    let fill = (width - kept.len()) as nat;
    repeated(' ', fill / 2) + kept + repeated(' ', (fill - fill / 2) as nat)
}

/// Appends the first `width` characters of `chars` (all of them, where there are fewer)
/// and returns how many were appended.
fn push_truncated(out: &mut String, chars: &Vec<char>, width: usize) -> (kept: usize)
    ensures
        final(out)@ == old(out)@ + truncated(chars@, width as nat),
        kept == truncated(chars@, width as nat).len(),
        kept <= width,
{
    let kept: usize = if chars.len() <= width { chars.len() } else { width };
    let mut i: usize = 0;
    while i < kept
        invariant
            i <= kept <= chars.len(),
            out@ == old(out)@ + chars@.take(i as int),
        decreases kept - i,
    {
        out.push(chars[i]);
        i += 1;
        assert(out@ =~= old(out)@ + chars@.take(i as int));
    }
    assert(chars@.take(chars@.len() as int) =~= chars@);
    kept
}

/// Appends `value` to `out` as a left-aligned field of `width` characters.
pub fn push_left_aligned(out: &mut String, value: &str, width: usize)
    ensures
        final(out)@ == old(out)@ + left_aligned(value@, width as nat),
{
    let chars = chars_of(value);
    let kept: usize = push_truncated(out, &chars, width);
    push_repeated(out, ' ', width - kept);
    assert(out@ =~= old(out)@ + left_aligned(value@, width as nat));
}

/// Appends `value` to `out` as a centered field of `width` characters.
pub fn push_centered(out: &mut String, value: &str, width: usize)
    ensures
        final(out)@ == old(out)@ + centered(value@, width as nat),
{
    let chars = chars_of(value);
    let kept: usize = if chars.len() <= width { chars.len() } else { width };
    let fill: usize = width - kept;
    let left: usize = fill / 2;
    push_repeated(out, ' ', left);
    push_truncated(out, &chars, width);
    push_repeated(out, ' ', fill - left);
    assert(out@ =~= old(out)@ + centered(value@, width as nat));
}

/// A field has the width that was asked for, whatever it holds.
pub proof fn lemma_aligned_len(s: Seq<char>, width: nat)
    ensures
        truncated(s, width).len() <= width,
        left_aligned(s, width).len() == width,
        centered(s, width).len() == width,
{
}

/// A text longer than the field is cut, and its kept characters fill the field.
pub proof fn lemma_aligned_long(s: Seq<char>, width: nat)
    requires
        s.len() >= width,
    ensures
        left_aligned(s, width) == s.take(width as int),
        centered(s, width) == s.take(width as int),
{
    assert(s.take(s.len() as int) =~= s);
    assert(left_aligned(s, width) =~= s.take(width as int));
    assert(centered(s, width) =~= s.take(width as int));
}

/// The lines one after another, with `separator` between each two.
pub open spec fn joined(lines: Seq<Seq<char>>, separator: char) -> Seq<char>
    decreases lines.len(),
{
    if lines.len() == 0 {
        Seq::empty()
    } else if lines.len() == 1 {
        lines[0]
    } else {
        joined(lines.drop_last(), separator) + seq![separator] + lines.last()
    }
}

/// The lines of a text: what stands between its separators. A text without
/// a separator is one line, and a text that ends with one has an empty last line.
pub open spec fn lines_of(text: Seq<char>, separator: char) -> Seq<Seq<char>>
    decreases text.len(),
{
    if text.len() == 0 {
        seq![Seq::empty()]
    } else {
        let before = lines_of(text.drop_last(), separator);
        if text.last() == separator {
            before.push(Seq::empty())
        } else {
            before.drop_last().push(before.last().push(text.last()))
        }
    }
}

/// Whether a text holds no occurrence of a character.
pub open spec fn free_of(text: Seq<char>, ch: char) -> bool {
    forall|i: int| 0 <= i < text.len() ==> text[i] != ch
}

/// A text is free of a character exactly when its parts are.
pub proof fn lemma_free_of_concat(a: Seq<char>, b: Seq<char>, ch: char)
    ensures
        free_of(a + b, ch) <==> free_of(a, ch) && free_of(b, ch),
{
    let all = a + b;
    if free_of(all, ch) {
        assert forall|i: int| 0 <= i < a.len() implies a[i] != ch by {
            assert(all[i] == a[i]);
        }
        assert forall|i: int| 0 <= i < b.len() implies b[i] != ch by {
            assert(all[a.len() + i] == b[i]);
        }
    }
}

/// Cutting and filling a text brings in nothing but spaces.
pub proof fn lemma_aligned_free_of(s: Seq<char>, width: nat, ch: char)
    requires
        free_of(s, ch),
        ch != ' ',
    ensures
        free_of(truncated(s, width), ch),
        free_of(left_aligned(s, width), ch),
        free_of(centered(s, width), ch),
{
    let kept = truncated(s, width);
    let fill = (width - kept.len()) as nat;
    lemma_free_of_concat(kept, repeated(' ', fill), ch);
    lemma_free_of_concat(repeated(' ', fill / 2), kept, ch);
    lemma_free_of_concat(
        repeated(' ', fill / 2) + kept,
        repeated(' ', (fill - fill / 2) as nat),
        ch,
    );
}

/// A line behind a text and a separator is one more line of the whole.
pub proof fn lemma_lines_of_append(text: Seq<char>, line: Seq<char>, separator: char)
    requires
        free_of(line, separator),
    ensures
        lines_of(text + seq![separator] + line, separator) == lines_of(text, separator).push(line),
    decreases line.len(),
{
    let all = text + seq![separator] + line;
    if line.len() == 0 {
        assert(all.drop_last() =~= text);
        assert(line =~= Seq::<char>::empty());
    } else {
        let shorter = line.drop_last();
        lemma_lines_of_append(text, shorter, separator);
        assert(all.drop_last() =~= text + seq![separator] + shorter);
        assert(all.last() == line.last());
        let before = lines_of(all.drop_last(), separator);
        assert(before.drop_last() =~= lines_of(text, separator));
        assert(before.last().push(line.last()) =~= line);
    }
}

/// A text without a separator is its own single line.
pub proof fn lemma_lines_of_single(line: Seq<char>, separator: char)
    requires
        free_of(line, separator),
    ensures
        lines_of(line, separator) == seq![line],
    decreases line.len(),
{
    if line.len() > 0 {
        let shorter = line.drop_last();
        lemma_lines_of_single(shorter, separator);
        let before = lines_of(shorter, separator);
        assert(before.drop_last() =~= Seq::<Seq<char>>::empty());
        assert(before.last().push(line.last()) =~= line);
        assert(lines_of(line, separator) =~= seq![line]);
    } else {
        assert(line =~= Seq::<char>::empty());
    }
}

/// Joining lines and splitting the text again gives the lines back, where
/// there is at least one line and none of them holds the separator.
pub proof fn lemma_lines_of_joined(lines: Seq<Seq<char>>, separator: char)
    requires
        lines.len() > 0,
        forall|i: int| 0 <= i < lines.len() ==> free_of(#[trigger] lines[i], separator),
    ensures
        lines_of(joined(lines, separator), separator) == lines,
    decreases lines.len(),
{
    if lines.len() == 1 {
        lemma_lines_of_single(lines[0], separator);
        assert(seq![lines[0]] =~= lines);
    } else {
        let fewer = lines.drop_last();
        assert forall|i: int| 0 <= i < fewer.len() implies free_of(
            #[trigger] fewer[i],
            separator,
        ) by {
            assert(fewer[i] == lines[i]);
        }
        lemma_lines_of_joined(fewer, separator);
        lemma_lines_of_append(joined(fewer, separator), lines.last(), separator);
        assert(fewer.push(lines.last()) =~= lines);
    }
}

} // verus!
