//! Finding a todo by its number, and how many screen lines a text takes.
use vstd::prelude::*;
use crate::filestorage::{capture_u32, captured_u32, views, FileStorage};
use crate::paths::{join, join_path};
use crate::text::{lines, split_lines, string_from, to_chars};

verus! {

// ---------------------------------------------------------------------------
// Display width (unicode-width crate)
// ---------------------------------------------------------------------------

/// The number of terminal columns that `unicode_width::UnicodeWidthStr::width`
/// gives for a text.
pub uninterp spec fn display_width(s: Seq<char>) -> nat;

/// `UnicodeWidthStr::width` of `s`: its displayed width in columns. The
/// contract ties the result to the name `display_width` of the text.
#[verifier::external_body]
pub(crate) fn str_width(s: &str) -> (r: usize)
    ensures
        r as nat == display_width(s@),
{
    unicode_width::UnicodeWidthStr::width(s)
}

/// The screen lines that the text lines `ls` take when wrapped at `width`
/// columns: each line takes one line per full `width` columns, plus one.
pub open spec fn wrapped_lines(ls: Seq<Seq<char>>, width: nat) -> nat
    decreases ls.len(),
{
    if ls.len() == 0 {
        0
    } else {
        wrapped_lines(ls.drop_last(), width) + display_width(ls.last()) / width + 1
    }
}

/// How many screen lines `text` takes at `width` columns (at least one);
/// with no width, the number of its lines.
pub open spec fn display_line_count(text: Seq<char>, width: nat) -> nat {
    if width == 0 {
        lines(text).len()
    } else {
        let n = wrapped_lines(lines(text), width);
        if n == 0 {
            1
        } else {
            n
        }
    }
}

/// `n` capped at the largest `usize`.
pub open spec fn cap_usize(n: nat) -> usize {
    if n <= usize::MAX {
        n as usize
    } else {
        usize::MAX
    }
}

/// The number of screen lines `text` takes when wrapped at
/// `available_width` columns. The count is capped at `usize::MAX`, which a
/// text held in memory cannot reach.
pub fn count_display_lines_with_wrapping(text: &str, available_width: usize) -> (r: usize)
    ensures
        r == cap_usize(display_line_count(text@, available_width as nat)),
{
    let chars = to_chars(text);
    let ls = split_lines(chars.as_slice());
    let ghost all = lines(text@);
    if available_width == 0 {
        return ls.len();
    }
    let mut total: usize = 0;
    let mut i: usize = 0;
    assert(all.take(0) =~= Seq::<Seq<char>>::empty());
    while i < ls.len()
        invariant
            i <= ls.len(),
            available_width > 0,
            all == lines(text@),
            ls@.len() == all.len(),
            forall|k: int| 0 <= k < ls@.len() ==> (#[trigger] ls@[k])@ == all[k],
            total == cap_usize(wrapped_lines(all.take(i as int), available_width as nat)),
        decreases ls.len() - i,
    {
        let line = string_from(ls[i].as_slice());
        let w = str_width(line.as_str());
        let step = (w / available_width).saturating_add(1);
        proof {
            assert(all.take(i + 1).drop_last() =~= all.take(i as int));
            assert(all.take(i + 1).last() == all[i as int]);
            assert(ls@[i as int]@ == all[i as int]);
        }
        total = total.saturating_add(step);
        i = i + 1;
    }
    assert(all.take(i as int) =~= all);
    if total == 0 {
        1
    } else {
        total
    }
}

// ---------------------------------------------------------------------------
// Finding a todo by number
// ---------------------------------------------------------------------------

/// Todo file names as the lookup by number reads them: upper-case letters,
/// the number, `_`.
pub open spec fn lookup_pattern() -> Seq<char> {
    "^[A-Z]+(\\d+)_"@
}

/// The number in a todo file name, as the lookup by number reads it.
pub fn extract_id_from_filename(filename: &str) -> (r: Option<u32>)
    ensures
        r == captured_u32(lookup_pattern(), filename@),
{
    capture_u32("^[A-Z]+(\\d+)_", filename)
}

/// The index of the first of `names` whose number is `id_num`, or
/// `names.len()` when there is none.
pub open spec fn first_with_id(names: Seq<Seq<char>>, id_num: u32) -> nat
    decreases names.len(),
{
    if names.len() == 0 {
        0
    } else if captured_u32(lookup_pattern(), names[0]) == Some(id_num) {
        0
    } else {
        1 + first_with_id(names.drop_first(), id_num)
    }
}

proof fn lemma_first_with_id_bound(names: Seq<Seq<char>>, id_num: u32)
    ensures
        first_with_id(names, id_num) <= names.len(),
    decreases names.len(),
{
    if names.len() > 0 {
        lemma_first_with_id_bound(names.drop_first(), id_num);
    }
}

fn find_in(names: &Vec<String>, id_num: u32) -> (r: usize)
    ensures
        r == first_with_id(views(names@), id_num),
        r <= names@.len(),
{
    let mut i: usize = 0;
    assert(views(names@).skip(0) =~= views(names@));
    while i < names.len()
        invariant
            i <= names.len(),
            first_with_id(views(names@), id_num) == i + first_with_id(
                views(names@).skip(i as int),
                id_num,
            ),
        decreases names.len() - i,
    {
        let ghost rest = views(names@).skip(i as int);
        assert(rest[0] == names@[i as int]@);
        assert(rest.drop_first() =~= views(names@).skip(i + 1));
        if extract_id_from_filename(names[i].as_str()) == Some(id_num) {
            return i;
        }
        i = i + 1;
    }
    assert(views(names@).skip(i as int) =~= Seq::<Seq<char>>::empty());
    i
}

/// The path of the todo numbered `id_num`: the first such file among the
/// `todo_names` in the todos directory, else among the `done_names` in the
/// done directory.
pub fn find_file_by_id(
    storage: &FileStorage,
    todo_names: &Vec<String>,
    done_names: &Vec<String>,
    id_num: u32,
) -> (r: Option<String>)
    ensures
        ({
            let t = first_with_id(views(todo_names@), id_num);
            let d = first_with_id(views(done_names@), id_num);
            if t < todo_names@.len() {
                r matches Some(p) && p@ == join_path(
                    join_path(storage.root(), "todos"@),
                    todo_names@[t as int]@,
                )
            } else if d < done_names@.len() {
                r matches Some(p) && p@ == join_path(
                    join_path(storage.root(), "done"@),
                    done_names@[d as int]@,
                )
            } else {
                r is None
            }
        }),
{
    let t = find_in(todo_names, id_num);
    if t < todo_names.len() {
        let dir = storage.get_todos_dir();
        return Some(join(dir.as_str(), todo_names[t].as_str()));
    }
    let d = find_in(done_names, id_num);
    if d < done_names.len() {
        let dir = storage.get_done_dir();
        return Some(join(dir.as_str(), done_names[d].as_str()));
    }
    None
}

} // verus!
