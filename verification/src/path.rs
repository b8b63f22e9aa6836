//! The name of an entry, taken from the path that leads to it.
//!
//! Paths are read as POSIX paths: components separated by `/`, where empty
//! components and `.` stand for nothing and `..` names no entry of its own.

use crate::text::{chars_of, UNKNOWN};
use vstd::prelude::*;

verus! {

/// The character between the components of a path.
pub const SEPARATOR: char = '/';

/// Where the last component of `path` begins: behind its last separator, or
/// at the start of a path that holds none.
pub open spec fn component_start(path: Seq<char>) -> nat
    decreases path.len(),
{
    if path.len() == 0 || path.last() == SEPARATOR {
        path.len()
    } else {
        component_start(path.drop_last())
    }
}

/// The text behind the last separator of `path`.
pub open spec fn last_component(path: Seq<char>) -> Seq<char> {
    path.skip(component_start(path) as int)
}

/// Whether `path` ends with a component that is a single dot.
pub open spec fn ends_with_dot_component(path: Seq<char>) -> bool {
    &&& path.len() > 0
    &&& path.last() == '.'
    &&& (path.len() == 1 || path[path.len() - 2] == SEPARATOR)
}

/// The final component of a path: the last one that is neither empty nor a
/// single dot. There is none where the path has no such component, as the
/// root has none, nor where that component is `..`.
pub open spec fn final_component(path: Seq<char>) -> Option<Seq<char>>
    decreases path.len(),
{
    if path.len() == 0 {
        None
    } else if path.last() == SEPARATOR || ends_with_dot_component(path) {
        final_component(path.drop_last())
    } else if last_component(path) == seq!['.', '.'] {
        None
    } else {
        Some(last_component(path))
    }
}

/// The name of the entry that `path` leads to: its final component, or
/// `unknown` where it has none.
pub open spec fn entry_name(path: Seq<char>) -> Seq<char> {
    match final_component(path) {
        Some(component) => component,
        None => UNKNOWN@,
    }
}

/// Finds the final component of `path`.
pub fn file_name(path: &str) -> (component: Option<String>)
    ensures
        component matches Some(name) ==> final_component(path@) == Some(name@),
        component is None ==> final_component(path@) is None,
{
    let chars = chars_of(path);
    let mut end: usize = chars.len();
    assert(chars@.take(end as int) =~= chars@);
    loop
        invariant
            end <= chars.len(),
            chars@ == path@,
            final_component(path@) == final_component(chars@.take(end as int)),
        ensures
            0 < end <= chars.len(),
            chars@ == path@,
            final_component(path@) == final_component(chars@.take(end as int)),
            chars[end - 1] != SEPARATOR,
            !ends_with_dot_component(chars@.take(end as int)),
        decreases end,
    {
        if end == 0 {
            return None;
        }
        let last = chars[end - 1];
        let skip = last == SEPARATOR || (last == '.' && (end == 1 || chars[end - 2]
            == SEPARATOR));
        if !skip {
            break ;
        }
        assert(chars@.take(end as int).drop_last() =~= chars@.take(end - 1));
        end -= 1;
    }
    let ghost prefix = chars@.take(end as int);
    let mut start: usize = end;
    while start > 0 && chars[start - 1] != SEPARATOR
        invariant
            start <= end <= chars.len(),
            prefix == chars@.take(end as int),
            component_start(prefix) == component_start(chars@.take(start as int)),
        decreases start,
    {
        assert(chars@.take(start as int).drop_last() =~= chars@.take(start - 1));
        start -= 1;
    }
    assert(component_start(prefix) == start);
    assert(last_component(prefix) =~= chars@.subrange(start as int, end as int));
    if end - start == 2 && chars[start] == '.' && chars[start + 1] == '.' {
        assert(last_component(prefix) =~= seq!['.', '.']);
        return None;
    }
    let mut name = String::new();
    let mut i: usize = start;
    while i < end
        invariant
            start <= i <= end <= chars.len(),
            name@ == chars@.subrange(start as int, i as int),
        decreases end - i,
    {
        name.push(chars[i]);
        i += 1;
        assert(name@ =~= chars@.subrange(start as int, i as int));
    }
    Some(name)
}

/// The last component holds no separator and begins at the start of the path
/// or right behind a separator.
pub proof fn lemma_last_component(path: Seq<char>)
    ensures
        component_start(path) <= path.len(),
        component_start(path) == 0 || path[component_start(path) - 1] == SEPARATOR,
        forall|i: int| component_start(path) <= i < path.len() ==> path[i] != SEPARATOR,
        !last_component(path).contains(SEPARATOR),
    decreases path.len(),
{
    let start = component_start(path) as int;
    if path.len() != 0 && path.last() != SEPARATOR {
        let shorter = path.drop_last();
        lemma_last_component(shorter);
        assert forall|i: int| start <= i < path.len() implies path[i] != SEPARATOR by {
            if i < shorter.len() {
                assert(path[i] == shorter[i]);
            }
        }
    }
    let component = last_component(path);
    assert forall|i: int| 0 <= i < component.len() implies component[i] != SEPARATOR by {
        assert(component[i] == path[start + i]);
    }
}

/// Whether `name` is the component of `path` that begins at `start`, with
/// nothing but separators and single dots behind it.
pub open spec fn stands_last_at(path: Seq<char>, name: Seq<char>, start: int) -> bool {
    &&& 0 <= start <= path.len() - name.len()
    &&& path.subrange(start, start + name.len()) == name
    &&& (start == 0 || path[start - 1] == SEPARATOR)
    &&& forall|i: int|
        start + name.len() <= i < path.len() ==> path[i] == SEPARATOR || path[i] == '.'
}

/// A final component is a name: it is not empty, holds no separator, and is
/// neither `.` nor `..`. It stands in the path where a component stands, and
/// only separators and single dots follow it.
pub proof fn lemma_final_component_is_name(path: Seq<char>)
    ensures
        final_component(path) matches Some(name) ==> {
            &&& name.len() > 0
            &&& !name.contains(SEPARATOR)
            &&& name != seq!['.']
            &&& name != seq!['.', '.']
            &&& exists|start: int| #[trigger] stands_last_at(path, name, start)
        },
    decreases path.len(),
{
    if path.len() == 0 {
    } else if path.last() == SEPARATOR || ends_with_dot_component(path) {
        let shorter = path.drop_last();
        lemma_final_component_is_name(shorter);
        if let Some(name) = final_component(shorter) {
            let start = choose|start: int| #[trigger] stands_last_at(shorter, name, start);
            assert(path.subrange(start, start + name.len()) =~= shorter.subrange(
                start,
                start + name.len(),
            ));
            assert forall|i: int| start + name.len() <= i < path.len() implies path[i]
                == SEPARATOR || path[i] == '.' by {
                if i < shorter.len() {
                    assert(path[i] == shorter[i]);
                }
            }
            assert(stands_last_at(path, name, start));
        }
    } else {
        lemma_last_component(path);
        let name = last_component(path);
        let start = component_start(path) as int;
        assert(path.subrange(start, start + name.len()) =~= name);
        assert(name.len() > 0);
        assert(name.last() == path.last());
        if name.len() == 1 && name[0] == '.' {
            assert(ends_with_dot_component(path));
        }
        assert(name != seq!['.']) by {
            if name == seq!['.'] {
                assert(name.len() == 1 && name[0] == '.');
            }
        }
        assert(stands_last_at(path, name, start));
    }
}

} // verus!
