//! Reading back a written todo file: the reader recovers what the writer
//! put into it.
use vstd::prelude::*;
use crate::filestorage::{
    clean_field_value, formatted_project_id, frontmatter_field, frontmatter_field_in, heading_info,
    heading_text, project_file_text, project_heading, project_id, project_info, project_info_in, views,
};
use crate::markdown::{body_text, frontmatter_text, markdown_text, optional_line, tasks_text, TodoData};
use crate::parser::{
    empty_todo, parse_todo, read_frontmatter_line, read_line, read_lines, unescape,
    ReadState, Section,
    TaskView, TodoView,
};
use crate::text::{
    all_ascii_digits, index_of, is_ascii_digit, lemma_decimal_digits, padded_decimal, is_whitespace, join, lemma_join_lines, no_crlf, lemma_lines_append, lemma_lines_single,
    lemma_lines_trailing_break, lines, starts_with, strip_cr, strip_prefix, trim, trim_by,
    trim_char, trim_end_by, trim_start_by, trim_start_matches, CharPattern, pattern_matches,
};

verus! {

// ---------------------------------------------------------------------------
// Texts made of whole lines
// ---------------------------------------------------------------------------

/// A text in the form the writer uses for a multi-line field: no carriage
/// return just before a line break, no leading or trailing white space.
pub open spec fn field_text(x: Seq<char>) -> bool {
    no_crlf(x) && trim(x) == x
}

proof fn lemma_trim_ends(x: Seq<char>)
    requires
        trim(x) == x,
        x.len() > 0,
    ensures
        !is_whitespace(x[0]),
        !is_whitespace(x.last()),
{
    let p = CharPattern::Whitespace;
    if is_whitespace(x[0]) {
        lemma_trim_start_shorter(x, p);
        lemma_trim_end_shorter(trim_start_by(x, p), p);
    }
    if is_whitespace(x.last()) {
        lemma_trim_start_shorter(x, p);
        lemma_trim_end_last(trim_start_by(x, p), p);
    }
}

proof fn lemma_trim_start_shorter(s: Seq<char>, p: CharPattern)
    ensures
        trim_start_by(s, p).len() <= s.len(),
        s.len() > 0 && pattern_matches(p, s[0]) ==> trim_start_by(s, p).len() < s.len(),
        trim_start_by(s, p).len() > 0 ==> trim_start_by(s, p).last() == s.last()
            && trim_start_by(s, p) == s.skip(s.len() - trim_start_by(s, p).len()),
    decreases s.len(),
{
    if s.len() > 0 && pattern_matches(p, s[0]) {
        lemma_trim_start_shorter(s.drop_first(), p);
        let t = trim_start_by(s.drop_first(), p);
        if t.len() > 0 {
            assert(s.drop_first().skip(s.drop_first().len() - t.len()) =~= s.skip(s.len() - t.len()));
        }
    } else {
        assert(s.skip(0) =~= s);
    }
}

proof fn lemma_trim_end_shorter(s: Seq<char>, p: CharPattern)
    ensures
        trim_end_by(s, p).len() <= s.len(),
        trim_end_by(s, p) == s.take(trim_end_by(s, p).len() as int),
    decreases s.len(),
{
    if s.len() > 0 && pattern_matches(p, s.last()) {
        lemma_trim_end_shorter(s.drop_last(), p);
        let t = trim_end_by(s.drop_last(), p);
        assert(s.drop_last().take(t.len() as int) =~= s.take(t.len() as int));
    } else {
        assert(s.take(s.len() as int) =~= s);
    }
}

proof fn lemma_trim_end_last(s: Seq<char>, p: CharPattern)
    ensures
        trim_end_by(s, p).len() > 0 ==> !pattern_matches(p, trim_end_by(s, p).last()),
    decreases s.len(),
{
    if s.len() > 0 && pattern_matches(p, s.last()) {
        lemma_trim_end_last(s.drop_last(), p);
    }
}

// ---------------------------------------------------------------------------
// The lines of a written file
// ---------------------------------------------------------------------------

/// Empty, or ending with a line break.
pub open spec fn ends_line(x: Seq<char>) -> bool {
    x.len() == 0 || x.last() == '\n'
}

proof fn lemma_ends_line_concat(a: Seq<char>, b: Seq<char>)
    requires
        ends_line(a),
        ends_line(b),
    ensures
        ends_line(a + b),
{
    if b.len() > 0 {
        assert((a + b).last() == b.last());
    } else {
        assert(a + b =~= a);
    }
}

/// A single line: no line break in it, and it does not end with a carriage
/// return.
pub open spec fn one_line(x: Seq<char>) -> bool {
    !x.contains('\n') && strip_cr(x) == x
}

proof fn lemma_line_of(x: Seq<char>)
    requires
        one_line(x),
    ensures
        lines(x + seq!['\n']) == seq![x],
        ends_line(x + seq!['\n']),
{
    lemma_lines_single(x);
}

/// A task line as the writer puts it: `- ` before the task.
pub open spec fn dash(t: Seq<char>) -> Seq<char> {
    seq!['-', ' '] + t
}

/// The task lines as the writer puts them.
pub open spec fn dashed(ts: Seq<Seq<char>>) -> Seq<Seq<char>> {
    ts.map_values(|t: Seq<char>| dash(t))
}

proof fn lemma_dash_one_line(t: Seq<char>)
    requires
        one_line(t),
    ensures
        one_line(dash(t)),
{
    let line = dash(t);
    if line.contains('\n') {
        let k = choose|k: int| 0 <= k < line.len() && line[k] == '\n';
        assert(t[k - 2] == '\n');
        assert(t.contains('\n'));
    }
    if t.len() > 0 {
        assert(line.last() == t.last());
    }
}

proof fn lemma_tasks_text_lines(ts: Seq<Seq<char>>)
    requires
        forall|i: int| 0 <= i < ts.len() ==> one_line(#[trigger] ts[i]),
    ensures
        lines(tasks_text(ts)) == dashed(ts),
        ends_line(tasks_text(ts)),
    decreases ts.len(),
{
    if ts.len() > 0 {
        let init = ts.drop_last();
        assert forall|i: int| 0 <= i < init.len() implies one_line(#[trigger] init[i]) by {
            assert(init[i] == ts[i]);
        }
        lemma_tasks_text_lines(init);
        let t = ts.last();
        assert(one_line(ts[ts.len() - 1]));
        lemma_dash_one_line(t);
        let piece = dash(t) + seq!['\n'];
        lemma_line_of(dash(t));
        assert(tasks_text(ts) =~= tasks_text(init) + piece);
        lemma_lines_append(tasks_text(init), piece);
        lemma_ends_line_concat(tasks_text(init), piece);
        assert(dashed(ts) =~= dashed(init) + seq![dash(t)]);
    }
}

/// The lines of a multi-line field as the writer puts it.
proof fn lemma_optional_line_lines(x: Seq<char>)
    requires
        field_text(x),
    ensures
        lines(optional_line(x)) == lines(x),
        ends_line(optional_line(x)),
{
    if x.len() > 0 {
        lemma_trim_ends(x);
        assert(x.last() != '\n' && x.last() != '\r') by {
            assert(is_whitespace('\n') && is_whitespace('\r'));
        }
        lemma_lines_trailing_break(x);
    }
}

proof fn lemma_append_piece(x: Seq<char>, p: Seq<char>)
    requires
        ends_line(x),
        ends_line(p),
    ensures
        lines(x + p) == lines(x) + lines(p),
        ends_line(x + p),
{
    lemma_lines_append(x, p);
    lemma_ends_line_concat(x, p);
}

/// The front matter's `completed:` line.
pub open spec fn completed_line(c: Option<String>) -> Seq<char> {
    match c {
        Some(x) => "completed: "@ + x@,
        None => "completed: null"@,
    }
}

/// The front matter's lines as the writer puts them.
pub open spec fn frontmatter_lines(d: TodoData, id: Seq<char>, created: Seq<char>) -> Seq<Seq<char>> {
    seq![
        "---"@,
        completed_line(d.completed),
        "created: "@ + created,
        "id: "@ + id,
        "info: '"@ + d.info@ + "'"@,
        "project_id: "@ + formatted_project_id(d.project_id@),
        "tags: []"@,
        "---"@,
    ]
}

/// Whether the written front matter lines are single lines.
pub open spec fn frontmatter_single(d: TodoData, id: Seq<char>, created: Seq<char>) -> bool {
    &&& one_line(completed_line(d.completed))
    &&& one_line("created: "@ + created)
    &&& one_line("id: "@ + id)
    &&& one_line("info: '"@ + d.info@ + "'"@)
    &&& one_line("project_id: "@ + formatted_project_id(d.project_id@))
}

/// Whether the written body lines are single lines, and the multi-line
/// fields are in the form the writer expects.
pub open spec fn body_single(d: TodoData) -> bool {
    &&& one_line(seq!['#', ' '] + d.name@)
    &&& forall|i: int| 0 <= i < d.tasks@.len() ==> one_line(#[trigger] d.tasks@[i]@)
    &&& field_text(d.goal@)
    &&& field_text(d.note@)
    &&& field_text(d.history@)
}

proof fn lemma_literal_line(x: Seq<char>, with_break: Seq<char>)
    requires
        with_break == x + seq!['\n'],
        one_line(x),
    ensures
        lines(with_break) == seq![x],
        ends_line(with_break),
{
    lemma_line_of(x);
}

/// The lines of the body as the writer puts them.
pub open spec fn body_lines(d: TodoData) -> Seq<Seq<char>> {
    seq![seq!['#', ' '] + d.name@] + lines(d.goal@) + seq!["# Tasks "@] + dashed(views(d.tasks@))
        + seq!["# note"@] + lines(d.note@) + seq!["# History "@] + lines(d.history@)
}

proof fn lemma_frontmatter_lines(d: TodoData, id: Seq<char>, created: Seq<char>)
    requires
        frontmatter_single(d, id, created),
    ensures
        lines(frontmatter_text(d, id, created)) == frontmatter_lines(d, id, created),
        ends_line(frontmatter_text(d, id, created)),
{
    reveal_strlit("---");
    reveal_strlit("---\n");
    reveal_strlit("completed: null");
    reveal_strlit("completed: null\n");
    reveal_strlit("tags: []");
    reveal_strlit("tags: []\n");
    reveal_strlit("'");
    reveal_strlit("'\n");
    let nl = seq!['\n'];
    let f1 = "---\n"@;
    let f2 = completed_line(d.completed) + nl;
    let f3 = "created: "@ + created + nl;
    let f4 = "id: "@ + id + nl;
    let f5 = "info: '"@ + d.info@ + "'"@ + nl;
    let f6 = "project_id: "@ + formatted_project_id(d.project_id@) + nl;
    let f7 = "tags: []\n"@;
    let f8 = "---\n"@;
    assert(f2 =~= match d.completed {
        Some(c) => "completed: "@ + c@ + seq!['\n'],
        None => "completed: null\n"@,
    });
    assert(frontmatter_text(d, id, created) =~= f1 + f2 + f3 + f4 + f5 + f6 + f7 + f8);
    assert(f1 =~= "---"@ + nl);
    assert(f7 =~= "tags: []"@ + nl);
    lemma_literal_line("---"@, f1);
    lemma_literal_line(completed_line(d.completed), f2);
    lemma_literal_line("created: "@ + created, f3);
    lemma_literal_line("id: "@ + id, f4);
    lemma_literal_line("info: '"@ + d.info@ + "'"@, f5);
    lemma_literal_line("project_id: "@ + formatted_project_id(d.project_id@), f6);
    lemma_literal_line("tags: []"@, f7);
    let x1 = f1 + f2;
    lemma_append_piece(f1, f2);
    let x2 = x1 + f3;
    lemma_append_piece(x1, f3);
    let x3 = x2 + f4;
    lemma_append_piece(x2, f4);
    let x4 = x3 + f5;
    lemma_append_piece(x3, f5);
    let x5 = x4 + f6;
    lemma_append_piece(x4, f6);
    let x6 = x5 + f7;
    lemma_append_piece(x5, f7);
    lemma_append_piece(x6, f8);
    assert(lines(x6 + f8) =~= frontmatter_lines(d, id, created));
}

proof fn lemma_body_lines(d: TodoData)
    requires
        body_single(d),
    ensures
        lines(body_text(d)) == body_lines(d),
        ends_line(body_text(d)),
{
    reveal_strlit("# Tasks ");
    reveal_strlit("# Tasks \n");
    reveal_strlit("# note");
    reveal_strlit("# note\n");
    reveal_strlit("# History ");
    reveal_strlit("# History \n");
    let nl = seq!['\n'];
    let b1 = seq!['#', ' '] + d.name@ + nl;
    let b2 = optional_line(d.goal@);
    let b3 = "# Tasks \n"@;
    let b4 = tasks_text(views(d.tasks@));
    let b5 = "# note\n"@;
    let b6 = optional_line(d.note@);
    let b7 = "# History \n"@;
    let b8 = optional_line(d.history@);
    assert(body_text(d) =~= b1 + b2 + b3 + b4 + b5 + b6 + b7 + b8);
    assert(b3 =~= "# Tasks "@ + nl);
    assert(b5 =~= "# note"@ + nl);
    assert(b7 =~= "# History "@ + nl);
    lemma_literal_line(seq!['#', ' '] + d.name@, b1);
    lemma_optional_line_lines(d.goal@);
    lemma_literal_line("# Tasks "@, b3);
    assert forall|i: int| 0 <= i < views(d.tasks@).len() implies one_line(
        #[trigger] views(d.tasks@)[i],
    ) by {
        assert(views(d.tasks@)[i] == d.tasks@[i]@);
    }
    lemma_tasks_text_lines(views(d.tasks@));
    lemma_literal_line("# note"@, b5);
    lemma_optional_line_lines(d.note@);
    lemma_literal_line("# History "@, b7);
    lemma_optional_line_lines(d.history@);
    let x1 = b1 + b2;
    lemma_append_piece(b1, b2);
    let x2 = x1 + b3;
    lemma_append_piece(x1, b3);
    let x3 = x2 + b4;
    lemma_append_piece(x2, b4);
    let x4 = x3 + b5;
    lemma_append_piece(x3, b5);
    let x5 = x4 + b6;
    lemma_append_piece(x4, b6);
    let x6 = x5 + b7;
    lemma_append_piece(x5, b7);
    lemma_append_piece(x6, b8);
    assert(lines(x6 + b8) =~= body_lines(d));
}

/// The writer's text splits into the lines `file_lines`.
proof fn lemma_markdown_lines(d: TodoData, id: Seq<char>, created: Seq<char>)
    requires
        frontmatter_single(d, id, created),
        body_single(d),
    ensures
        lines(markdown_text(d, id, created)) == frontmatter_lines(d, id, created) + body_lines(d),
{
    lemma_frontmatter_lines(d, id, created);
    lemma_body_lines(d);
    lemma_append_piece(frontmatter_text(d, id, created), body_text(d));
}

// ---------------------------------------------------------------------------
// Trimming the written values
// ---------------------------------------------------------------------------

proof fn lemma_trim_by_noop(s: Seq<char>, p: CharPattern)
    requires
        s.len() == 0 || (!pattern_matches(p, s[0]) && !pattern_matches(p, s.last())),
    ensures
        trim_by(s, p) == s,
{
}

proof fn lemma_trim_start_drops(c: char, s: Seq<char>, p: CharPattern)
    requires
        pattern_matches(p, c),
    ensures
        trim_start_by(seq![c] + s, p) == trim_start_by(s, p),
{
    assert((seq![c] + s).drop_first() =~= s);
}

proof fn lemma_trim_end_drops(s: Seq<char>, c: char, p: CharPattern)
    requires
        pattern_matches(p, c),
    ensures
        trim_end_by(s + seq![c], p) == trim_end_by(s, p),
{
    assert((s + seq![c]).drop_last() =~= s);
}

/// Trimming keeps the characters up to a position `k` when the first and
/// the `k`-th are kept.
proof fn lemma_trim_keeps_prefix(s: Seq<char>, k: int, p: CharPattern)
    requires
        0 <= k < s.len(),
        !pattern_matches(p, s[0]),
        !pattern_matches(p, s[k]),
    ensures
        trim_by(s, p).len() > k,
        trim_by(s, p).take(k + 1) == s.take(k + 1),
{
    assert(trim_start_by(s, p) == s);
    lemma_trim_end_keeps(s, k, p);
    lemma_trim_end_shorter(s, p);
    let t = trim_end_by(s, p);
    assert(t.take(k + 1) =~= s.take(k + 1));
}

proof fn lemma_trim_end_keeps(s: Seq<char>, k: int, p: CharPattern)
    requires
        0 <= k < s.len(),
        !pattern_matches(p, s[k]),
    ensures
        trim_end_by(s, p).len() > k,
    decreases s.len(),
{
    if pattern_matches(p, s.last()) {
        assert(k < s.len() - 1);
        assert(s.drop_last()[k] == s[k]);
        lemma_trim_end_keeps(s.drop_last(), k, p);
    }
}

/// A leading space goes under trimming.
proof fn lemma_trim_leading_space(x: Seq<char>)
    ensures
        trim(seq![' '] + x) == trim(x),
{
    assert(is_whitespace(' '));
    lemma_trim_start_drops(' ', x, CharPattern::Whitespace);
}

/// Without backslashes there is nothing to unescape.
proof fn lemma_unescape_plain(x: Seq<char>)
    requires
        !x.contains('\\'),
    ensures
        unescape(x) == x,
    decreases x.len(),
{
    if x.len() > 0 {
        assert(x[0] != '\\') by {
            if x[0] == '\\' {
                assert(x.contains('\\'));
            }
        }
        assert(!x.drop_first().contains('\\')) by {
            if x.drop_first().contains('\\') {
                let k = choose|k: int| 0 <= k < x.drop_first().len() && x.drop_first()[k] == '\\';
                assert(x[k + 1] == '\\');
            }
        }
        lemma_unescape_plain(x.drop_first());
        assert(seq![x[0]] + x.drop_first() =~= x);
    }
}

/// `x` does not start or end with `q`.
pub open spec fn unquoted(x: Seq<char>, q: char) -> bool {
    x.len() == 0 || (x[0] != q && x.last() != q)
}

/// A single line with nothing to trim.
pub open spec fn plain(x: Seq<char>) -> bool {
    !x.contains('\n') && trim(x) == x
}

// ---------------------------------------------------------------------------
// Reading line after line
// ---------------------------------------------------------------------------

/// The reader's state after the lines `ls`, read from state `st`.
pub open spec fn read_from(st: ReadState, ls: Seq<Seq<char>>) -> ReadState
    decreases ls.len(),
{
    if ls.len() == 0 {
        st
    } else {
        read_from(read_line(st, ls[0]), ls.drop_first())
    }
}

proof fn lemma_read_from_push(st: ReadState, ls: Seq<Seq<char>>, l: Seq<char>)
    ensures
        read_from(st, ls.push(l)) == read_line(read_from(st, ls), l),
    decreases ls.len(),
{
    if ls.len() == 0 {
        assert(ls.push(l).drop_first() =~= Seq::<Seq<char>>::empty());
        assert(ls.push(l)[0] == l);
        assert(read_from(read_line(st, l), Seq::<Seq<char>>::empty()) == read_line(st, l));
        assert(read_from(st, ls) == st);
    } else {
        assert(ls.push(l).drop_first() =~= ls.drop_first().push(l));
        assert(ls.push(l)[0] == ls[0]);
        lemma_read_from_push(read_line(st, ls[0]), ls.drop_first(), l);
    }
}

/// The state before the first line.
pub open spec fn start_state() -> ReadState {
    ReadState { section: Section::Initial, found_heading: false, todo: empty_todo() }
}

proof fn lemma_read_lines_from_start(ls: Seq<Seq<char>>)
    ensures
        read_lines(ls) == read_from(start_state(), ls),
    decreases ls.len(),
{
    if ls.len() > 0 {
        lemma_read_lines_from_start(ls.drop_last());
        lemma_read_from_push(start_state(), ls.drop_last(), ls.last());
        assert(ls.drop_last().push(ls.last()) =~= ls);
    }
}

proof fn lemma_read_from_concat(st: ReadState, a: Seq<Seq<char>>, b: Seq<Seq<char>>)
    ensures
        read_from(st, a + b) == read_from(read_from(st, a), b),
    decreases a.len(),
{
    if a.len() == 0 {
        assert(a + b =~= b);
    } else {
        assert((a + b).drop_first() =~= a.drop_first() + b);
        assert((a + b)[0] == a[0]);
        lemma_read_from_concat(read_line(st, a[0]), a.drop_first(), b);
    }
}

proof fn lemma_read_one(st: ReadState, l: Seq<char>)
    ensures
        read_from(st, seq![l]) == read_line(st, l),
{
    assert(seq![l].drop_first() =~= Seq::<Seq<char>>::empty());
    assert(read_from(read_line(st, l), Seq::<Seq<char>>::empty()) == read_line(st, l));
}

/// `line` does not start with `p`: they differ at position `k`.
proof fn lemma_differs(line: Seq<char>, p: Seq<char>, k: int)
    requires
        0 <= k < p.len(),
        k < line.len(),
        line[k] != p[k],
    ensures
        !starts_with(line, p),
        strip_prefix(line, p) is None,
{
    if p.len() <= line.len() {
        assert(line.take(p.len() as int)[k] != p[k]);
    }
}

/// `lit + v` starts with `lit`, and what follows it is `v`.
proof fn lemma_strips(lit: Seq<char>, v: Seq<char>)
    ensures
        strip_prefix(lit + v, lit) == Some(v),
{
    assert((lit + v).take(lit.len() as int) =~= lit);
    assert((lit + v).skip(lit.len() as int) =~= v);
}

/// A line whose first character is neither white space nor `-` is no
/// front matter fence.
proof fn lemma_not_fence(line: Seq<char>)
    requires
        line.len() > 0,
        !is_whitespace(line[0]),
        line[0] != '-',
    ensures
        trim(line) != "---"@,
{
    reveal_strlit("---");
    lemma_trim_keeps_prefix(line, 0, CharPattern::Whitespace);
    assert(trim(line).take(1)[0] == line[0]);
}

// ---------------------------------------------------------------------------
// Reading the front matter back
// ---------------------------------------------------------------------------

/// `x` between two `q`, with the `q` trimmed off, is `x` again.
proof fn lemma_unwrap(x: Seq<char>, q: char)
    requires
        unquoted(x, q),
    ensures
        trim_char(seq![q] + x + seq![q], q) == x,
{
    let p = CharPattern::Exactly(q);
    let w = seq![q] + x + seq![q];
    assert(w =~= seq![q] + (x + seq![q]));
    lemma_trim_start_drops(q, x + seq![q], p);
    if x.len() == 0 {
        assert(x + seq![q] =~= seq![q] + x);
        lemma_trim_start_drops(q, x, p);
        assert(trim_start_by(x, p) == x);
    } else {
        assert((x + seq![q])[0] == x[0]);
        assert(trim_start_by(x + seq![q], p) == x + seq![q]);
        lemma_trim_end_drops(x, q, p);
        assert(trim_end_by(x, p) == x);
    }
}

/// The id the reader finds on an `id:` line that holds `id`.
pub open spec fn read_id(id: Seq<char>) -> Seq<char> {
    unescape(trim_char(trim_char(trim(id), '"'), '\''))
}

/// The values the front matter holds, as the reader finds them.
pub open spec fn frontmatter_todo(d: TodoData, id: Seq<char>, created: Seq<char>) -> TodoView {
    TodoView {
        created: trim(created),
        id: read_id(id),
        info: d.info@,
        project_id: d.project_id@,
        ..empty_todo()
    }
}

/// Whether the front matter values come back as they were written.
pub open spec fn frontmatter_ok(d: TodoData, id: Seq<char>, created: Seq<char>) -> bool {
    &&& frontmatter_fields_ok(d, id, created)
    &&& plain(created)
    &&& plain(id) && !id.contains('\\') && unquoted(id, '"') && unquoted(id, '\'')
}

/// Whether the front matter lines are single lines, and the project and
/// info values come back as they were written.
pub open spec fn frontmatter_fields_ok(d: TodoData, id: Seq<char>, created: Seq<char>) -> bool {
    &&& match d.completed {
        Some(c) => one_line(c@),
        None => true,
    }
    &&& one_line(created)
    &&& one_line(id)
    &&& plain(d.info@) && unquoted(d.info@, '\'') && unquoted(d.info@, '"') && d.info@ != "null"@
    &&& !d.project_id@.contains('\n') && !d.project_id@.contains('\\')
    &&& (d.project_id@.len() == 0 || (d.project_id@[0] != '[' && d.project_id@[0] != ']'
        && d.project_id@.last() != ']'))
}

proof fn lemma_fm_completed(t: TodoView, c: Option<String>)
    ensures
        read_frontmatter_line(t, completed_line(c)) == t,
{
    reveal_strlit("completed: ");
    reveal_strlit("completed: null");
    reveal_strlit("id:");
    reveal_strlit("project_id:");
    reveal_strlit("info:");
    reveal_strlit("created:");
    let line = completed_line(c);
    assert(line[0] == 'c' && line[1] == 'o');
    lemma_differs(line, "id:"@, 0);
    lemma_differs(line, "project_id:"@, 0);
    lemma_differs(line, "info:"@, 0);
    lemma_differs(line, "created:"@, 1);
}

proof fn lemma_fm_created(t: TodoView, created: Seq<char>)
    ensures
        read_frontmatter_line(t, "created: "@ + created) == (TodoView { created: trim(created), ..t }),
{
    reveal_strlit("created: ");
    reveal_strlit("id:");
    reveal_strlit("project_id:");
    reveal_strlit("info:");
    reveal_strlit("created:");
    let line = "created: "@ + created;
    lemma_differs(line, "id:"@, 0);
    lemma_differs(line, "project_id:"@, 0);
    lemma_differs(line, "info:"@, 0);
    assert(line =~= "created:"@ + (seq![' '] + created));
    lemma_strips("created:"@, seq![' '] + created);
    lemma_trim_leading_space(created);
}

proof fn lemma_fm_id(t: TodoView, id: Seq<char>)
    ensures
        read_frontmatter_line(t, "id: "@ + id) == (TodoView { id: read_id(id), ..t }),
{
    reveal_strlit("id: ");
    reveal_strlit("id:");
    let line = "id: "@ + id;
    assert(line =~= "id:"@ + (seq![' '] + id));
    lemma_strips("id:"@, seq![' '] + id);
    lemma_trim_leading_space(id);
}

/// An id without white space, backslashes or quotes around it is read as
/// it is.
proof fn lemma_read_id_plain(id: Seq<char>)
    requires
        plain(id),
        !id.contains('\\'),
        unquoted(id, '"'),
        unquoted(id, '\''),
    ensures
        read_id(id) == id,
{
    lemma_trim_by_noop(id, CharPattern::Exactly('"'));
    lemma_trim_by_noop(id, CharPattern::Exactly('\''));
    lemma_unescape_plain(id);
}

proof fn lemma_fm_info(t: TodoView, info: Seq<char>)
    requires
        plain(info),
        unquoted(info, '\''),
        unquoted(info, '"'),
        info != "null"@,
    ensures
        read_frontmatter_line(t, "info: '"@ + info + "'"@) == (TodoView { info, ..t }),
{
    reveal_strlit("info: '");
    reveal_strlit("'");
    reveal_strlit("id:");
    reveal_strlit("project_id:");
    reveal_strlit("info:");
    reveal_strlit("''");
    let line = "info: '"@ + info + "'"@;
    lemma_differs(line, "id:"@, 1);
    lemma_differs(line, "project_id:"@, 0);
    let quoted = seq!['\''] + info + seq!['\''];
    assert(line =~= "info:"@ + (seq![' '] + quoted));
    lemma_strips("info:"@, seq![' '] + quoted);
    lemma_trim_leading_space(quoted);
    lemma_trim_by_noop(quoted, CharPattern::Whitespace);
    lemma_unwrap(info, '\'');
    lemma_trim_by_noop(info, CharPattern::Exactly('"'));
    assert(info != "''"@) by {
        if info == "''"@ {
            assert(info[0] == '\'');
        }
    }
}

proof fn lemma_fm_project(t: TodoView, pid: Seq<char>)
    requires
        !pid.contains('\\'),
        pid.len() == 0 || (pid[0] != '[' && pid[0] != ']' && pid.last() != ']'),
    ensures
        read_frontmatter_line(t, "project_id: "@ + formatted_project_id(pid))
            == (TodoView { project_id: pid, ..t }),
{
    reveal_strlit("project_id: ");
    reveal_strlit("id:");
    reveal_strlit("project_id:");
    reveal_strlit("[[");
    reveal_strlit("]]");
    reveal_strlit("''");
    reveal_strlit("null");
    let f = formatted_project_id(pid);
    let line = "project_id: "@ + f;
    lemma_differs(line, "id:"@, 0);
    assert(line =~= "project_id:"@ + (seq![' '] + f));
    lemma_strips("project_id:"@, seq![' '] + f);
    lemma_trim_leading_space(f);
    if pid.len() == 0 {
        assert(f == seq!['\'', '\'']);
        lemma_trim_by_noop(f, CharPattern::Whitespace);
        assert(f =~= seq!['\''] + Seq::<char>::empty() + seq!['\'']);
        lemma_unwrap(Seq::<char>::empty(), '\'');
        lemma_unescape_plain(Seq::<char>::empty());
        assert(!starts_with(Seq::<char>::empty(), "[["@));
        let val = trim_char(trim(strip_prefix(line, "project_id:"@)->0), '\'');
        assert(val == Seq::<char>::empty());
        assert(val != "''"@);
        assert(val != "null"@);
        assert(strip_prefix(line, "id:"@) is None);
        assert(strip_prefix(line, "project_id:"@) is Some);
        assert(!(starts_with(val, "[["@) && crate::text::ends_with(val, "]]"@)));
        assert(unescape(val) == pid);
        assert(read_frontmatter_line(t, line) == (TodoView { project_id: pid, ..t }));
    } else {
        assert(!starts_with(pid, seq!['[', '['])) by {
            assert(pid.len() < 2 || pid.take(2)[0] != '[');
        }
        let inner = seq!['[', '['] + pid + seq![']', ']'];
        assert(f =~= seq!['\''] + inner + seq!['\'']);
        lemma_trim_by_noop(f, CharPattern::Whitespace);
        lemma_unwrap(inner, '\'');
        assert(starts_with(inner, "[["@)) by {
            assert(inner.take(2) =~= "[["@);
        }
        assert(crate::text::ends_with(inner, "]]"@)) by {
            assert(inner.skip(inner.len() - 2) =~= "]]"@);
        }
        let pb = CharPattern::Exactly('[');
        let pe = CharPattern::Exactly(']');
        assert(inner =~= seq!['['] + (seq!['['] + (pid + seq![']', ']'])));
        lemma_trim_start_drops('[', seq!['['] + (pid + seq![']', ']']), pb);
        lemma_trim_start_drops('[', pid + seq![']', ']'], pb);
        assert((pid + seq![']', ']'])[0] == pid[0]);
        assert(trim_start_by(pid + seq![']', ']'], pb) == pid + seq![']', ']']);
        assert(trim_end_by(pid + seq![']', ']'], pb) == pid + seq![']', ']']);
        let mid = pid + seq![']', ']'];
        assert(trim_start_by(mid, pe) == mid);
        assert(mid =~= (pid + seq![']']) + seq![']']);
        lemma_trim_end_drops(pid + seq![']'], ']', pe);
        lemma_trim_end_drops(pid, ']', pe);
        assert(trim_end_by(pid, pe) == pid);
        lemma_unescape_plain(pid);
        let val = trim_char(trim(strip_prefix(line, "project_id:"@)->0), '\'');
        assert(val == inner);
        assert(trim_char(val, '[') == mid);
        assert(trim_char(mid, ']') == pid);
        assert(strip_prefix(line, "id:"@) is None);
        assert(strip_prefix(line, "project_id:"@) is Some);
        assert(starts_with(val, "[["@) && crate::text::ends_with(val, "]]"@));
        assert(read_frontmatter_line(t, line) == (TodoView { project_id: pid, ..t }));
    }
}

proof fn lemma_fm_tags(t: TodoView)
    ensures
        read_frontmatter_line(t, "tags: []"@) == t,
{
    reveal_strlit("tags: []");
    reveal_strlit("id:");
    reveal_strlit("project_id:");
    reveal_strlit("info:");
    reveal_strlit("created:");
    let line = "tags: []"@;
    lemma_differs(line, "id:"@, 0);
    lemma_differs(line, "project_id:"@, 0);
    lemma_differs(line, "info:"@, 0);
    lemma_differs(line, "created:"@, 0);
}

proof fn lemma_read_skip(st: ReadState, ls: Seq<Seq<char>>, k: int)
    requires
        0 <= k < ls.len(),
    ensures
        read_from(st, ls.skip(k)) == read_from(read_line(st, ls[k]), ls.skip(k + 1)),
{
    assert(ls.skip(k)[0] == ls[k]);
    assert(ls.skip(k).drop_first() =~= ls.skip(k + 1));
}

proof fn lemma_fence()
    ensures
        trim("---"@) == "---"@,
{
    reveal_strlit("---");
    lemma_trim_by_noop("---"@, CharPattern::Whitespace);
}

/// A front matter line that is no fence changes only the todo.
proof fn lemma_fm_line(st: ReadState, line: Seq<char>)
    requires
        st.section == Section::Frontmatter,
        line.len() > 0,
        !is_whitespace(line[0]),
        line[0] != '-',
    ensures
        read_line(st, line) == (ReadState { todo: read_frontmatter_line(st.todo, line), ..st }),
{
    lemma_not_fence(line);
}

/// Reading the front matter that the writer makes sets the values it
/// holds and leaves the reader before the body.
proof fn lemma_read_frontmatter(d: TodoData, id: Seq<char>, created: Seq<char>)
    requires
        frontmatter_fields_ok(d, id, created),
    ensures
        read_from(start_state(), frontmatter_lines(d, id, created)) == (ReadState {
            section: Section::Initial,
            found_heading: false,
            todo: frontmatter_todo(d, id, created),
        }),
{
    reveal_strlit("---");
    reveal_strlit("completed: ");
    reveal_strlit("completed: null");
    reveal_strlit("created: ");
    reveal_strlit("id: ");
    reveal_strlit("info: '");
    reveal_strlit("project_id: ");
    reveal_strlit("tags: []");
    let ls = frontmatter_lines(d, id, created);
    lemma_fence();
    let s0 = start_state();
    lemma_read_skip(s0, ls, 0);
    assert(ls.skip(0) =~= ls);
    let s1 = read_line(s0, ls[0]);
    assert(s1 == ReadState { section: Section::Frontmatter, ..s0 });
    lemma_read_skip(s1, ls, 1);
    let l2 = completed_line(d.completed);
    assert(ls[1] == l2);
    assert(l2[0] == 'c');
    lemma_fm_line(s1, l2);
    lemma_fm_completed(s1.todo, d.completed);
    let s2 = read_line(s1, ls[1]);
    assert(s2 == s1);
    lemma_read_skip(s2, ls, 2);
    let l3 = "created: "@ + created;
    assert(l3[0] == 'c');
    lemma_fm_line(s2, l3);
    lemma_fm_created(s2.todo, created);
    let s3 = read_line(s2, ls[2]);
    lemma_read_skip(s3, ls, 3);
    let l4 = "id: "@ + id;
    assert(l4[0] == 'i');
    lemma_fm_line(s3, l4);
    lemma_fm_id(s3.todo, id);
    let s4 = read_line(s3, ls[3]);
    lemma_read_skip(s4, ls, 4);
    let l5 = "info: '"@ + d.info@ + "'"@;
    assert(l5[0] == 'i');
    lemma_fm_line(s4, l5);
    lemma_fm_info(s4.todo, d.info@);
    let s5 = read_line(s4, ls[4]);
    lemma_read_skip(s5, ls, 5);
    let l6 = "project_id: "@ + formatted_project_id(d.project_id@);
    assert(l6[0] == 'p');
    lemma_fm_line(s5, l6);
    lemma_fm_project(s5.todo, d.project_id@);
    let s6 = read_line(s5, ls[5]);
    lemma_read_skip(s6, ls, 6);
    assert(ls[6] == "tags: []"@);
    assert("tags: []"@[0] == 't');
    lemma_fm_line(s6, "tags: []"@);
    lemma_fm_tags(s6.todo);
    let s7 = read_line(s6, ls[6]);
    lemma_read_skip(s7, ls, 7);
    let s8 = read_line(s7, ls[7]);
    assert(ls.skip(8) =~= Seq::<Seq<char>>::empty());
    assert(s8.todo == frontmatter_todo(d, id, created));
}

// ---------------------------------------------------------------------------
// Reading the body back
// ---------------------------------------------------------------------------

/// A line of a multi-line field that the reader keeps in the section it is
/// in: no fence, no heading.
pub open spec fn body_line(l: Seq<char>) -> bool {
    &&& trim(l) != "---"@
    &&& !starts_with(l, "# "@)
    &&& trim(l) != "# Tasks"@
    &&& trim(l) != "# note"@
    &&& trim(l) != "# Note"@
    &&& trim(l) != "# History"@
    &&& trim(l) != "# Info"@
}

/// The text a section collects.
pub open spec fn text_of(sec: Section, t: TodoView) -> Seq<char> {
    match sec {
        Section::Goal => t.goal,
        Section::Note => t.note,
        _ => t.history,
    }
}

/// `t` with the text of section `sec` replaced by `v`.
pub open spec fn with_text(sec: Section, t: TodoView, v: Seq<char>) -> TodoView {
    match sec {
        Section::Goal => TodoView { goal: v, ..t },
        Section::Note => TodoView { note: v, ..t },
        _ => TodoView { history: v, ..t },
    }
}

/// Whether section `sec` keeps line `l`: the goal keeps lines that are not
/// blank, the note and the history lines that are not empty.
pub open spec fn kept(sec: Section, l: Seq<char>) -> bool {
    match sec {
        Section::Goal => trim(l).len() > 0,
        _ => l.len() > 0,
    }
}

pub open spec fn is_text_section(sec: Section) -> bool {
    sec == Section::Goal || sec == Section::Note || sec == Section::History
}

proof fn lemma_body_line_read(st: ReadState, l: Seq<char>)
    requires
        st.section != Section::Frontmatter,
        st.found_heading,
        body_line(l),
    ensures
        read_line(st, l) == (ReadState {
            todo: crate::parser::read_body_line(st.section, st.todo, l),
            ..st
        }),
{
}

proof fn lemma_join_nonempty(ls: Seq<Seq<char>>)
    requires
        ls.len() > 0,
        ls.last().len() > 0,
    ensures
        join(ls, seq!['\n']).len() > 0,
{
}

proof fn lemma_read_text_block(st: ReadState, ls: Seq<Seq<char>>)
    requires
        is_text_section(st.section),
        st.found_heading,
        text_of(st.section, st.todo).len() == 0,
        forall|i: int|
            0 <= i < ls.len() ==> body_line(#[trigger] ls[i]) && kept(st.section, ls[i])
                && ls[i].len() > 0,
    ensures
        read_from(st, ls) == (ReadState {
            todo: with_text(st.section, st.todo, join(ls, seq!['\n'])),
            ..st
        }),
    decreases ls.len(),
{
    if ls.len() == 0 {
        assert(with_text(st.section, st.todo, Seq::empty()) == st.todo) by {
            assert(text_of(st.section, st.todo) =~= Seq::<char>::empty());
        }
    } else {
        let init = ls.drop_last();
        let l = ls.last();
        assert forall|i: int|
            0 <= i < init.len() implies body_line(#[trigger] init[i]) && kept(st.section, init[i])
            && init[i].len() > 0 by {
            assert(init[i] == ls[i]);
        }
        lemma_read_text_block(st, init);
        assert(init.push(l) =~= ls);
        lemma_read_from_push(st, init, l);
        let mid = read_from(st, init);
        assert(body_line(ls[ls.len() - 1]) && kept(st.section, ls[ls.len() - 1]));
        lemma_body_line_read(mid, l);
        if init.len() > 0 {
            lemma_join_nonempty(init);
            assert(init.last().len() > 0) by {
                assert(init.last() == ls[init.len() - 1]);
            }
        }
    }
}

/// A task as the form hands it to the writer: `[x] ` or `[ ] ` before its
/// text.
pub open spec fn task_text(t: TaskView) -> Seq<char> {
    (if t.completed {
        "[x] "@
    } else {
        "[ ] "@
    }) + t.text
}

proof fn lemma_read_task_line(st: ReadState, t: TaskView)
    requires
        st.section == Section::Tasks,
        st.found_heading,
        plain(t.text),
    ensures
        read_line(st, dash(task_text(t))) == (ReadState {
            todo: TodoView { tasks: st.todo.tasks.push(t), ..st.todo },
            ..st
        }),
{
    reveal_strlit("[x] ");
    reveal_strlit("[ ] ");
    reveal_strlit("- [x] ");
    reveal_strlit("- [X] ");
    reveal_strlit("- [ ] ");
    reveal_strlit("---");
    reveal_strlit("# ");
    reveal_strlit("# Tasks");
    reveal_strlit("# note");
    reveal_strlit("# Note");
    reveal_strlit("# History");
    reveal_strlit("# Info");
    let l = dash(task_text(t));
    assert(l[0] == '-' && l[1] == ' ' && l[2] == '[');
    lemma_trim_keeps_prefix(l, 2, CharPattern::Whitespace);
    let tl = trim(l);
    assert(tl[0] == '-' && tl[1] == ' ') by {
        assert(tl.take(3)[0] == l.take(3)[0]);
        assert(tl.take(3)[1] == l.take(3)[1]);
    }
    assert(tl != "---"@);
    lemma_differs(l, "# "@, 0);
    assert(body_line(l));
    lemma_body_line_read(st, l);
    let rest = seq![' '] + t.text;
    if t.completed {
        assert(l =~= "- [x]"@ + rest) by {
            reveal_strlit("- [x]");
        }
        assert(l =~= "- [x] "@ + t.text);
        lemma_strips("- [x] "@, t.text);
    } else {
        assert(l =~= "- [ ] "@ + t.text);
        lemma_differs(l, "- [x] "@, 3);
        lemma_differs(l, "- [X] "@, 3);
        lemma_strips("- [ ] "@, t.text);
    }
}

/// The task strings the form hands to the writer.
pub open spec fn task_texts(ts: Seq<TaskView>) -> Seq<Seq<char>> {
    ts.map_values(|t: TaskView| task_text(t))
}

proof fn lemma_read_tasks(st: ReadState, ts: Seq<TaskView>)
    requires
        st.section == Section::Tasks,
        st.found_heading,
        forall|i: int| 0 <= i < ts.len() ==> plain(#[trigger] ts[i].text),
    ensures
        read_from(st, dashed(task_texts(ts))) == (ReadState {
            todo: TodoView { tasks: st.todo.tasks + ts, ..st.todo },
            ..st
        }),
    decreases ts.len(),
{
    if ts.len() == 0 {
        assert(dashed(task_texts(ts)) =~= Seq::<Seq<char>>::empty());
        assert(st.todo.tasks + ts =~= st.todo.tasks);
    } else {
        let init = ts.drop_last();
        let t = ts.last();
        assert forall|i: int| 0 <= i < init.len() implies plain(#[trigger] init[i].text) by {
            assert(init[i] == ts[i]);
        }
        lemma_read_tasks(st, init);
        assert(dashed(task_texts(ts)) =~= dashed(task_texts(init)).push(dash(task_text(t))));
        lemma_read_from_push(st, dashed(task_texts(init)), dash(task_text(t)));
        assert(plain(ts[ts.len() - 1].text));
        lemma_read_task_line(read_from(st, dashed(task_texts(init))), t);
        assert(st.todo.tasks + init.push(t) =~= (st.todo.tasks + init).push(t));
        assert(init.push(t) =~= ts);
    }
}

proof fn lemma_read_heading(st: ReadState, name: Seq<char>)
    requires
        st.section == Section::Initial,
        !st.found_heading,
        plain(name),
        !starts_with(name, "# "@),
    ensures
        read_line(st, seq!['#', ' '] + name) == (ReadState {
            section: Section::Goal,
            found_heading: true,
            todo: TodoView { name, ..st.todo },
        }),
{
    reveal_strlit("# ");
    let line = seq!['#', ' '] + name;
    assert(is_whitespace('#') == false);
    lemma_not_fence(line);
    lemma_strips("# "@, name);
    assert(line =~= "# "@ + name);
    assert(starts_with(line, "# "@));
    assert(trim_start_matches(line, "# "@) == trim_start_matches(name, "# "@));
}

proof fn lemma_read_header(st: ReadState, line: Seq<char>, head: Seq<char>, sec: Section)
    requires
        st.section != Section::Frontmatter,
        st.found_heading,
        trim(line) == head,
        head != "---"@,
        head == "# Tasks"@ && sec == Section::Tasks || head == "# note"@ && sec == Section::Note
            || head == "# History"@ && sec == Section::History,
    ensures
        read_line(st, line) == (ReadState { section: sec, ..st }),
{
    reveal_strlit("# Tasks");
    reveal_strlit("# note");
    reveal_strlit("# Note");
    reveal_strlit("# History");
    reveal_strlit("---");
    reveal_strlit("# ");
    assert("# note"@[2] != "# Tasks"@[2]);
    assert("# note"@ != "# Tasks"@);
    assert("# History"@[2] != "# Tasks"@[2]);
    assert("# History"@ != "# Tasks"@);
    assert("# History"@ != "# note"@);
    assert("# History"@ != "# Note"@);
}

proof fn lemma_header_trims()
    ensures
        trim("# Tasks "@) == "# Tasks"@,
        trim("# note"@) == "# note"@,
        trim("# History "@) == "# History"@,
        "# Tasks"@ != "---"@,
        "# note"@ != "---"@,
        "# History"@ != "---"@,
{
    reveal_strlit("# Tasks ");
    reveal_strlit("# Tasks");
    reveal_strlit("# note");
    reveal_strlit("# History ");
    reveal_strlit("# History");
    reveal_strlit("---");
    let ws = CharPattern::Whitespace;
    assert(is_whitespace(' '));
    assert("# Tasks "@ =~= "# Tasks"@ + seq![' ']);
    assert(trim_start_by("# Tasks "@, ws) == "# Tasks "@);
    lemma_trim_end_drops("# Tasks"@, ' ', ws);
    assert(trim_end_by("# Tasks"@, ws) == "# Tasks"@);
    lemma_trim_by_noop("# note"@, ws);
    assert("# History "@ =~= "# History"@ + seq![' ']);
    assert(trim_start_by("# History "@, ws) == "# History "@);
    lemma_trim_end_drops("# History"@, ' ', ws);
    assert(trim_end_by("# History"@, ws) == "# History"@);
    assert("# Tasks"@[0] != "---"@[0]);
    assert("# note"@[0] != "---"@[0]);
    assert("# History"@[0] != "---"@[0]);
}

/// Whether the lines of a multi-line field come back: every line stays in
/// its section and is kept there.
pub open spec fn text_lines_ok(x: Seq<char>, sec: Section) -> bool {
    &&& field_text(x)
    &&& forall|i: int|
        0 <= i < lines(x).len() ==> body_line(#[trigger] lines(x)[i]) && kept(sec, lines(x)[i])
            && lines(x)[i].len() > 0
}

/// Whether a todo written with front matter id `id`, creation time
/// `created` and the tasks `ts` reads back as it was: single-line values
/// without surrounding white space, front matter values without the
/// quotes, brackets and backslashes the reader takes away, multi-line
/// fields whose lines are neither fences nor headings and not blank.
pub open spec fn written_todo_ok(d: TodoData, id: Seq<char>, created: Seq<char>, ts: Seq<TaskView>) -> bool {
    &&& frontmatter_ok(d, id, created)
    &&& written_fields_ok(d, id, created, ts)
}

/// Whether a todo written with front matter id `id`, creation time
/// `created` and the tasks `ts` gives its name, project, info, goal, tasks,
/// note and history back: as `written_todo_ok`, but the id and the creation
/// time need only be single lines.
pub open spec fn written_fields_ok(d: TodoData, id: Seq<char>, created: Seq<char>, ts: Seq<TaskView>) -> bool {
    &&& frontmatter_fields_ok(d, id, created)
    &&& plain(d.name@)
    &&& !starts_with(d.name@, "# "@)
    &&& views(d.tasks@) == task_texts(ts)
    &&& forall|i: int| 0 <= i < ts.len() ==> plain(#[trigger] ts[i].text)
    &&& text_lines_ok(d.goal@, Section::Goal)
    &&& text_lines_ok(d.note@, Section::Note)
    &&& text_lines_ok(d.history@, Section::History)
}

proof fn lemma_plain_one_line(x: Seq<char>)
    requires
        plain(x),
    ensures
        one_line(x),
{
    if x.len() > 0 {
        lemma_trim_ends(x);
        assert(is_whitespace('\r'));
    }
}

proof fn lemma_one_line_concat(a: Seq<char>, b: Seq<char>)
    requires
        !a.contains('\n'),
        !b.contains('\n'),
        b.len() > 0 ==> strip_cr(b) == b,
        b.len() == 0 ==> strip_cr(a) == a,
    ensures
        one_line(a + b),
{
    let ab = a + b;
    if ab.contains('\n') {
        let k = choose|k: int| 0 <= k < ab.len() && ab[k] == '\n';
        if k < a.len() {
            assert(a[k] == '\n');
        } else {
            assert(b[k - a.len()] == '\n');
        }
    }
    if b.len() > 0 {
        assert(ab.last() == b.last());
    } else {
        assert(ab =~= a);
    }
}

proof fn lemma_written_lines_single(d: TodoData, id: Seq<char>, created: Seq<char>, ts: Seq<TaskView>)
    requires
        written_fields_ok(d, id, created, ts),
    ensures
        frontmatter_single(d, id, created),
        body_single(d),
{
    reveal_strlit("completed: ");
    reveal_strlit("completed: null");
    reveal_strlit("created: ");
    reveal_strlit("id: ");
    reveal_strlit("info: '");
    reveal_strlit("'");
    reveal_strlit("project_id: ");
    reveal_strlit("[x] ");
    reveal_strlit("[ ] ");
    match d.completed {
        Some(c) => {
            lemma_one_line_concat("completed: "@, c@);
        },
        None => {
            lemma_one_line_concat("completed: null"@, Seq::empty());
            assert("completed: null"@ + Seq::<char>::empty() =~= "completed: null"@);
        },
    }
    lemma_one_line_concat("created: "@, created);
    lemma_one_line_concat("id: "@, id);
    lemma_plain_one_line(d.info@);
    lemma_one_line_concat("info: '"@, d.info@);
    lemma_one_line_concat("info: '"@ + d.info@, "'"@);
    let f = formatted_project_id(d.project_id@);
    assert(!f.contains('\n') && f.len() > 0 && f.last() == '\'') by {
        if f.contains('\n') {
            let k = choose|k: int| 0 <= k < f.len() && f[k] == '\n';
            if d.project_id@.len() > 0 {
                assert(d.project_id@.contains('\n')) by {
                    if starts_with(d.project_id@, seq!['[', '[']) && crate::text::ends_with(d.project_id@, seq![']', ']']) {
                        assert(d.project_id@[k - 1] == '\n');
                    } else {
                        assert(d.project_id@[k - 3] == '\n');
                    }
                }
            }
        }
    }
    lemma_one_line_concat("project_id: "@, f);
    lemma_plain_one_line(d.name@);
    lemma_one_line_concat(seq!['#', ' '], d.name@);
    assert(views(d.tasks@).len() == d.tasks@.len());
    assert(task_texts(ts).len() == ts.len());
    assert forall|i: int| 0 <= i < d.tasks@.len() implies one_line(#[trigger] d.tasks@[i]@) by {
        assert(views(d.tasks@)[i] == d.tasks@[i]@);
        assert(task_texts(ts)[i] == task_text(ts[i]));
        assert(plain(ts[i].text));
        lemma_plain_one_line(ts[i].text);
        if ts[i].completed {
            lemma_one_line_concat("[x] "@, ts[i].text);
        } else {
            lemma_one_line_concat("[ ] "@, ts[i].text);
        }
    }
}

/// What the writer puts into a todo file, the reader gets back: name,
/// project, info, goal, tasks, note, history, id and creation time, for
/// every todo whose values survive the reader's trimming (see
/// `written_todo_ok`).
pub proof fn lemma_written_todo_reads_back(
    d: TodoData,
    id: Seq<char>,
    created: Seq<char>,
    ts: Seq<TaskView>,
)
    requires
        written_todo_ok(d, id, created, ts),
    ensures
        parse_todo(markdown_text(d, id, created)) == (TodoView {
            name: d.name@,
            project_id: d.project_id@,
            info: d.info@,
            goal: d.goal@,
            tasks: ts,
            note: d.note@,
            history: d.history@,
            id,
            created,
        }),
{
    lemma_written_fields_read_back(d, id, created, ts);
    lemma_read_id_plain(id);
}

/// What the writer puts into a todo file, the reader gets back: name,
/// project, info, goal, tasks, note and history as they were, and the id
/// and creation time as the reader cleans them, for every todo whose id
/// and creation time are single lines and whose other values survive the
/// reader's trimming (see `written_fields_ok`).
pub proof fn lemma_written_fields_read_back(
    d: TodoData,
    id: Seq<char>,
    created: Seq<char>,
    ts: Seq<TaskView>,
)
    requires
        written_fields_ok(d, id, created, ts),
    ensures
        parse_todo(markdown_text(d, id, created)) == (TodoView {
            name: d.name@,
            project_id: d.project_id@,
            info: d.info@,
            goal: d.goal@,
            tasks: ts,
            note: d.note@,
            history: d.history@,
            id: read_id(id),
            created: trim(created),
        }),
{
    reveal_strlit("# Tasks ");
    reveal_strlit("# note");
    reveal_strlit("# History ");
    lemma_written_lines_single(d, id, created, ts);
    lemma_markdown_lines(d, id, created);
    let fm = frontmatter_lines(d, id, created);
    let all = fm + body_lines(d);
    lemma_read_lines_from_start(all);
    lemma_read_from_concat(start_state(), fm, body_lines(d));
    lemma_read_frontmatter(d, id, created);
    let s0 = read_from(start_state(), fm);
    let h = seq![seq!['#', ' '] + d.name@];
    let g = lines(d.goal@);
    let tk = seq!["# Tasks "@];
    let dt = dashed(views(d.tasks@));
    let nt = seq!["# note"@];
    let nl = lines(d.note@);
    let ht = seq!["# History "@];
    let hl = lines(d.history@);
    assert(body_lines(d) == h + g + tk + dt + nt + nl + ht + hl);
    lemma_read_from_concat(s0, h + g + tk + dt + nt + nl + ht, hl);
    lemma_read_from_concat(s0, h + g + tk + dt + nt + nl, ht);
    lemma_read_from_concat(s0, h + g + tk + dt + nt, nl);
    lemma_read_from_concat(s0, h + g + tk + dt, nt);
    lemma_read_from_concat(s0, h + g + tk, dt);
    lemma_read_from_concat(s0, h + g, tk);
    lemma_read_from_concat(s0, h, g);
    lemma_read_one(s0, seq!['#', ' '] + d.name@);
    lemma_read_heading(s0, d.name@);
    let s1 = read_from(s0, h);
    lemma_read_text_block(s1, g);
    let s2 = read_from(s1, g);
    lemma_header_trims();
    lemma_read_one(s2, "# Tasks "@);
    lemma_read_header(s2, "# Tasks "@, "# Tasks"@, Section::Tasks);
    let s3 = read_from(s2, tk);
    lemma_read_tasks(s3, ts);
    assert(dt == dashed(task_texts(ts)));
    let s4 = read_from(s3, dt);
    lemma_read_one(s4, "# note"@);
    lemma_read_header(s4, "# note"@, "# note"@, Section::Note);
    let s5 = read_from(s4, nt);
    lemma_read_text_block(s5, nl);
    let s6 = read_from(s5, nl);
    lemma_read_one(s6, "# History "@);
    lemma_read_header(s6, "# History "@, "# History"@, Section::History);
    let s7 = read_from(s6, ht);
    lemma_read_text_block(s7, hl);
    let s8 = read_from(s7, hl);
    lemma_trim_ends_plain(d.goal@);
    lemma_trim_ends_plain(d.note@);
    lemma_trim_ends_plain(d.history@);
    lemma_join_lines(d.goal@);
    lemma_join_lines(d.note@);
    lemma_join_lines(d.history@);
    assert(Seq::<TaskView>::empty() + ts =~= ts);
    assert(read_lines(lines(markdown_text(d, id, created))) == s8);
}

proof fn lemma_trim_ends_plain(x: Seq<char>)
    requires
        field_text(x),
    ensures
        x.len() == 0 || x.last() != '\n',
{
    if x.len() > 0 {
        lemma_trim_ends(x);
        assert(is_whitespace('\n'));
    }
}


// ---------------------------------------------------------------------------
// Reading back a new project file
// ---------------------------------------------------------------------------

/// The lines of a new project file up to its heading.
pub open spec fn project_head_lines(id: Seq<char>, heading: Seq<char>, timestamp: Seq<char>) -> Seq<
    Seq<char>,
> {
    seq![
        "---"@,
        "completed: null"@,
        "created: "@ + timestamp,
        "id: "@ + id,
        "project_id: null"@,
        "tags: []"@,
        "---"@,
        heading,
    ]
}

proof fn lemma_project_lines(id: Seq<char>, heading: Seq<char>, description: Seq<char>, timestamp: Seq<char>)
    requires
        one_line("created: "@ + timestamp),
        one_line("id: "@ + id),
        one_line(heading),
    ensures
        lines(project_file_text(id, heading, description, timestamp)).len() >= 8,
        lines(project_file_text(id, heading, description, timestamp)).take(8) == project_head_lines(
            id,
            heading,
            timestamp,
        ),
{
    reveal_strlit("---");
    reveal_strlit("---\n");
    reveal_strlit("completed: null");
    reveal_strlit("completed: null\n");
    reveal_strlit("project_id: null");
    reveal_strlit("project_id: null\n");
    reveal_strlit("tags: []");
    reveal_strlit("tags: []\n");
    let nl = seq!['\n'];
    let f1 = "---\n"@;
    let f2 = "completed: null\n"@;
    let f3 = "created: "@ + timestamp + nl;
    let f4 = "id: "@ + id + nl;
    let f5 = "project_id: null\n"@;
    let f6 = "tags: []\n"@;
    let f7 = "---\n"@;
    let f8 = heading + nl;
    let rest = (if description.len() > 0 {
        description + nl
    } else {
        Seq::empty()
    }) + "# Info \n"@;
    assert(project_file_text(id, heading, description, timestamp) =~= f1 + f2 + f3 + f4 + f5 + f6 + f7
        + f8 + rest);
    assert(f1 =~= "---"@ + nl);
    assert(f2 =~= "completed: null"@ + nl);
    assert(f5 =~= "project_id: null"@ + nl);
    assert(f6 =~= "tags: []"@ + nl);
    lemma_literal_line("---"@, f1);
    lemma_literal_line("completed: null"@, f2);
    lemma_literal_line("created: "@ + timestamp, f3);
    lemma_literal_line("id: "@ + id, f4);
    lemma_literal_line("project_id: null"@, f5);
    lemma_literal_line("tags: []"@, f6);
    lemma_literal_line("---"@, f7);
    lemma_literal_line(heading, f8);
    let x1 = f1 + f2;
    lemma_append_piece(f1, f2);
    let x2 = x1 + f3;
    lemma_append_piece(x1, f3);
    let x3 = x2 + f4;
    lemma_append_piece(x2, f4);
    let x4 = x3 + f5;
    lemma_append_piece(x3, f5);
    let x5 = x4 + f6;
    lemma_append_piece(x4, f6);
    let x6 = x5 + f7;
    lemma_append_piece(x5, f7);
    let x7 = x6 + f8;
    lemma_append_piece(x6, f8);
    assert(lines(x7) =~= project_head_lines(id, heading, timestamp));
    lemma_lines_append(x7, rest);
    assert((lines(x7) + lines(rest)).take(8) =~= lines(x7));
}

/// The id of a new project: its shorthand (or `P`) and five or more digits.
proof fn lemma_project_id_shape(shorthand: Seq<char>, n: nat)
    requires
        plain(shorthand),
    ensures
        ({
            let id = project_id(shorthand, n);
            &&& id.len() > 0
            &&& !id.contains('\n')
            &&& is_ascii_digit(id.last())
            &&& id[0] == (if shorthand.len() > 0 {
                shorthand[0]
            } else {
                'P'
            })
            &&& plain(id)
        }),
{
    let d = padded_decimal(n, 5);
    lemma_decimal_digits(n);
    assert(all_ascii_digits(d)) by {
        assert forall|i: int| 0 <= i < d.len() implies is_ascii_digit(#[trigger] d[i]) by {
            let dn = crate::text::decimal(n);
            if dn.len() < 5 {
                let k = 5 - dn.len();
                if i >= k {
                    assert(d[i] == dn[i - k]);
                }
            }
        }
    }
    let head = if shorthand.len() > 0 {
        shorthand
    } else {
        seq!['P']
    };
    let id = head + d;
    assert(id == project_id(shorthand, n));
    assert(d.len() > 0);
    assert(id.last() == d.last());
    assert(!id.contains('\n')) by {
        if id.contains('\n') {
            let k = choose|k: int| 0 <= k < id.len() && id[k] == '\n';
            if k < head.len() {
                assert(head[k] == '\n');
                if shorthand.len() > 0 {
                    assert(shorthand.contains('\n'));
                }
            } else {
                assert(d[k - head.len()] == '\n');
            }
        }
    }
    if shorthand.len() > 0 {
        lemma_trim_ends(shorthand);
    }
    assert(id[0] == head[0]);
    lemma_trim_by_noop(id, CharPattern::Whitespace);
}

/// The first front matter value of `id:` in lines that open with the
/// head of a new project file.
proof fn lemma_project_id_found(ls: Seq<Seq<char>>, id: Seq<char>, heading: Seq<char>, timestamp: Seq<char>)
    requires
        ls.take(8) == project_head_lines(id, heading, timestamp),
        ls.len() >= 8,
        plain(id),
        id.len() > 0,
        is_ascii_digit(id.last()),
        timestamp.len() == 0 || !is_whitespace(timestamp[0]),
    ensures
        frontmatter_field_in(ls, "id:"@, false) == Some(clean_field_value(id)),
        clean_field_value(id).len() > 0,
        clean_field_value(id).last() == id.last(),
{
    reveal_strlit("---");
    reveal_strlit("completed: null");
    reveal_strlit("created: ");
    reveal_strlit("id: ");
    reveal_strlit("id:");
    reveal_strlit("null");
    let p = "id:"@;
    assert(ls[0] == "---"@);
    lemma_fence();
    let l1 = ls.drop_first();
    assert(l1[0] == ls[1]);
    assert(ls[1] == "completed: null"@);
    lemma_not_fence("completed: null"@);
    lemma_differs("completed: null"@, p, 0);
    let l2 = l1.drop_first();
    assert(l2[0] == ls[2]);
    let c = "created: "@ + timestamp;
    assert(c[0] == 'c');
    lemma_not_fence(c);
    lemma_differs(c, p, 0);
    let l3 = l2.drop_first();
    assert(l3[0] == ls[3]);
    let line = "id: "@ + id;
    assert(line[0] == 'i');
    lemma_not_fence(line);
    assert(line =~= p + (seq![' '] + id));
    lemma_strips(p, seq![' '] + id);
    lemma_trim_leading_space(id);
    let c1 = trim_char(id, '"');
    lemma_trim_keeps_last(id, CharPattern::Exactly('"'));
    lemma_trim_keeps_last(c1, CharPattern::Exactly('\''));
    let v = clean_field_value(id);
    assert(clean_field_value(seq![' '] + id) == v);
    assert(v != "null"@) by {
        assert("null"@.last() == 'l');
    }
    assert(frontmatter_field_in(l3, p, true) == Some(v));
    assert(frontmatter_field_in(l2, p, true) == Some(v));
    assert(frontmatter_field_in(l1, p, true) == Some(v));
}

/// Trimming keeps a last character that does not match.
proof fn lemma_trim_keeps_last(s: Seq<char>, p: CharPattern)
    requires
        s.len() > 0,
        !pattern_matches(p, s.last()),
    ensures
        trim_by(s, p).len() > 0,
        trim_by(s, p).last() == s.last(),
{
    lemma_trim_start_keeps_last(s, p);
    let t = trim_start_by(s, p);
    assert(trim_end_by(t, p) == t);
}

proof fn lemma_trim_start_keeps_last(s: Seq<char>, p: CharPattern)
    requires
        s.len() > 0,
        !pattern_matches(p, s.last()),
    ensures
        trim_start_by(s, p).len() > 0,
        trim_start_by(s, p).last() == s.last(),
    decreases s.len(),
{
    if pattern_matches(p, s[0]) {
        assert(s.len() > 1);
        assert(s.drop_first().last() == s.last());
        lemma_trim_start_keeps_last(s.drop_first(), p);
    }
}

/// `p` followed by `s`, where `s` does not start with `p`, loses exactly
/// that `p` under `trim_start_matches`.
proof fn lemma_trim_start_matches_once(p: Seq<char>, s: Seq<char>)
    requires
        p.len() > 0,
        !starts_with(s, p),
    ensures
        trim_start_matches(p + s, p) == s,
{
    assert((p + s).take(p.len() as int) =~= p);
    assert((p + s).skip(p.len() as int) =~= s);
    assert(trim_start_matches(s, p) == s);
    assert(trim_start_matches(p + s, p) == trim_start_matches((p + s).skip(p.len() as int), p));
}

/// Where there is no `c`, its index is the length.
proof fn lemma_index_of_absent(s: Seq<char>, c: char)
    requires
        !s.contains(c),
    ensures
        index_of(s, c) == s.len(),
    decreases s.len(),
{
    if s.len() > 0 {
        assert(s[0] != c);
        assert(!s.drop_first().contains(c)) by {
            if s.drop_first().contains(c) {
                let k = choose|k: int| 0 <= k < s.drop_first().len() && s.drop_first()[k] == c;
                assert(s[k + 1] == c);
            }
        }
        lemma_index_of_absent(s.drop_first(), c);
    }
}

/// What the heading of a new project file gives back: the shorthand, when
/// there is one, and the name.
proof fn lemma_project_heading(name: Seq<char>, shorthand: Seq<char>)
    requires
        plain(name),
        !name.contains(':'),
        !name.contains('#'),
        plain(shorthand),
        !shorthand.contains(':'),
        !shorthand.contains('#'),
    ensures
        heading_info(heading_text(project_heading(name, shorthand))) == (
            if shorthand.len() > 0 {
                Some(shorthand)
            } else {
                None
            },
            Some(name),
        ),
        starts_with(project_heading(name, shorthand), seq!['#', ' ']),
        one_line(project_heading(name, shorthand)),
{
    let hp = seq!['#', ' '];
    let rest = if shorthand.len() > 0 {
        shorthand + seq![':', ' '] + name
    } else {
        name
    };
    let h = project_heading(name, shorthand);
    assert(h =~= hp + rest);
    assert(h.take(2) =~= hp);
    assert(!starts_with(rest, hp)) by {
        if starts_with(rest, hp) {
            assert(rest.take(2)[0] == '#');
            if shorthand.len() > 0 {
                assert(shorthand[0] == '#');
                assert(shorthand.contains('#'));
            } else {
                assert(name[0] == '#');
                assert(name.contains('#'));
            }
        }
    }
    lemma_trim_start_matches_once(hp, rest);
    assert(heading_text(h) == trim(rest));
    if name.len() > 0 {
        lemma_trim_ends(name);
    }
    if shorthand.len() > 0 {
        lemma_trim_ends(shorthand);
    }
    if shorthand.len() > 0 {
        let k = shorthand.len() as int;
        let t = if name.len() > 0 {
            rest
        } else {
            shorthand + seq![':']
        };
        // What is left of the heading after trimming.
        if name.len() > 0 {
            assert(rest[0] == shorthand[0]);
            assert(rest.last() == name.last());
            lemma_trim_by_noop(rest, CharPattern::Whitespace);
        } else {
            assert(rest =~= t + seq![' ']);
            assert(is_whitespace(' '));
            assert(trim_start_by(rest, CharPattern::Whitespace) == rest);
            assert(rest.drop_last() =~= t);
            assert(trim_end_by(rest, CharPattern::Whitespace) == trim_end_by(t, CharPattern::Whitespace));
            assert(t.last() == ':');
            assert(trim_end_by(t, CharPattern::Whitespace) == t);
        }
        assert(trim(rest) == t);
        assert(!shorthand.contains(':'));
        lemma_index_of_absent(shorthand, ':');
        assert(t.take(k) =~= shorthand);
        assert(t[k] == ':');
        lemma_index_of_prefix(shorthand, t, ':');
        assert(index_of(t, ':') == k);
        lemma_trim_by_noop(shorthand, CharPattern::Whitespace);
        if name.len() > 0 {
            assert(t.skip(k + 1) =~= seq![' '] + name);
            lemma_trim_leading_space(name);
        } else {
            assert(t.skip(k + 1) =~= Seq::<char>::empty());
            assert(name =~= Seq::<char>::empty());
        }
    } else {
        assert(rest == name);
        lemma_index_of_absent(name, ':');
    }
    assert(!h.contains('\n')) by {
        if h.contains('\n') {
            let j = choose|j: int| 0 <= j < h.len() && h[j] == '\n';
            if shorthand.len() > 0 {
                if j >= 2 && j < 2 + shorthand.len() {
                    assert(shorthand[j - 2] == '\n');
                    assert(shorthand.contains('\n'));
                } else if j >= 4 + shorthand.len() {
                    assert(name[j - 4 - shorthand.len()] == '\n');
                    assert(name.contains('\n'));
                }
            } else if j >= 2 {
                assert(name[j - 2] == '\n');
                assert(name.contains('\n'));
            }
        }
    }
    assert(strip_cr(h) == h) by {
        if name.len() > 0 {
            assert(h.last() == name.last());
            assert(is_whitespace('\r'));
        } else if shorthand.len() == 0 {
            assert(h.last() == ' ');
        } else {
            assert(h.last() == ' ');
        }
    }
}

/// The index of `c` in `s + ...` when `s` holds no `c` and `c` follows.
proof fn lemma_index_of_prefix(s: Seq<char>, t: Seq<char>, c: char)
    requires
        !s.contains(c),
        s.len() < t.len(),
        t.take(s.len() as int) == s,
        t[s.len() as int] == c,
    ensures
        index_of(t, c) == s.len(),
    decreases s.len(),
{
    if s.len() > 0 {
        assert(t[0] == s[0]);
        assert(s[0] != c);
        assert(!s.drop_first().contains(c)) by {
            if s.drop_first().contains(c) {
                let k = choose|k: int| 0 <= k < s.drop_first().len() && s.drop_first()[k] == c;
                assert(s[k + 1] == c);
            }
        }
        assert(t.drop_first().take(s.drop_first().len() as int) =~= s.drop_first());
        lemma_index_of_prefix(s.drop_first(), t.drop_first(), c);
    }
}

/// A new project file reads back: its front matter gives the id it was
/// written with, less the quotes at its start that the reader takes off
/// (none when the shorthand does not start with one), never an empty id;
/// its heading gives the shorthand (when there is one) and the name. This
/// holds for a name and shorthand on one line, without white space around
/// them, and without `:` or `#`.
pub proof fn lemma_project_file_reads_back(
    name: Seq<char>,
    description: Seq<char>,
    shorthand: Seq<char>,
    n: nat,
    timestamp: Seq<char>,
)
    requires
        plain(name),
        !name.contains(':'),
        !name.contains('#'),
        plain(shorthand),
        !shorthand.contains(':'),
        !shorthand.contains('#'),
        plain(timestamp),
    ensures
        ({
            let id = project_id(shorthand, n);
            let text = project_file_text(id, project_heading(name, shorthand), description, timestamp);
            &&& frontmatter_field(text, "id"@) == Some(clean_field_value(id))
            &&& clean_field_value(id).len() > 0
            &&& (unquoted(shorthand, '"') && unquoted(shorthand, '\'') ==> clean_field_value(id) == id)
            &&& project_info(text) == (
                if shorthand.len() > 0 {
                    Some(shorthand)
                } else {
                    None
                },
                Some(name),
            )
        }),
{
    reveal_strlit("created: ");
    reveal_strlit("id: ");
    reveal_strlit("id");
    reveal_strlit("id:");
    reveal_strlit("---");
    reveal_strlit("completed: null");
    reveal_strlit("project_id: null");
    reveal_strlit("tags: []");
    let id = project_id(shorthand, n);
    let heading = project_heading(name, shorthand);
    let text = project_file_text(id, heading, description, timestamp);
    lemma_project_id_shape(shorthand, n);
    lemma_project_heading(name, shorthand);
    lemma_plain_one_line(timestamp);
    assert(!"created: "@.contains('\n'));
    lemma_one_line_concat("created: "@, timestamp);
    assert(!"id: "@.contains('\n'));
    lemma_one_line_concat("id: "@, id);
    lemma_project_lines(id, heading, description, timestamp);
    let ls = lines(text);
    assert(ls.take(8).len() == 8);
    assert(ls.len() >= 8);
    if timestamp.len() > 0 {
        lemma_trim_ends(timestamp);
    }
    lemma_project_id_found(ls, id, heading, timestamp);
    if unquoted(shorthand, '"') && unquoted(shorthand, '\'') {
        lemma_trim_by_noop(id, CharPattern::Exactly('"'));
        lemma_trim_by_noop(id, CharPattern::Exactly('\''));
    }
    assert("id"@ + seq![':'] =~= "id:"@);
    // The heading is the first line that starts with "# ".
    let hp = seq!['#', ' '];
    assert(ls[0] == "---"@);
    lemma_differs("---"@, hp, 0);
    assert(ls[1] == "completed: null"@);
    lemma_differs("completed: null"@, hp, 0);
    assert(ls[2] == "created: "@ + timestamp);
    lemma_differs("created: "@ + timestamp, hp, 0);
    assert(ls[3] == "id: "@ + id);
    lemma_differs("id: "@ + id, hp, 0);
    assert(ls[4] == "project_id: null"@);
    lemma_differs("project_id: null"@, hp, 0);
    assert(ls[5] == "tags: []"@);
    lemma_differs("tags: []"@, hp, 0);
    assert(ls[6] == "---"@);
    assert(ls[7] == heading);
    let l1 = ls.drop_first();
    let l2 = l1.drop_first();
    let l3 = l2.drop_first();
    let l4 = l3.drop_first();
    let l5 = l4.drop_first();
    let l6 = l5.drop_first();
    let l7 = l6.drop_first();
    assert(l7[0] == heading);
    assert(project_info_in(l7) == heading_info(heading_text(heading)));
    assert(project_info_in(l6) == project_info_in(l7));
    assert(project_info_in(l5) == project_info_in(l6));
    assert(project_info_in(l4) == project_info_in(l5));
    assert(project_info_in(l3) == project_info_in(l4));
    assert(project_info_in(l2) == project_info_in(l3));
    assert(project_info_in(l1) == project_info_in(l2));
    assert(project_info_in(ls) == project_info_in(l1));
}


// ---------------------------------------------------------------------------
// Laws on single lines
// ---------------------------------------------------------------------------

/// A task of the form, saved and read back in the task list, comes back
/// with its text and its completion: the line the form writes for it adds
/// exactly that task.
pub proof fn lemma_form_task_reads_back(st: ReadState, t: crate::app::TaskView)
    requires
        st.section == Section::Tasks,
        st.found_heading,
        plain(t.text),
    ensures
        read_line(st, dash(crate::app::task_line(t))) == (ReadState {
            todo: TodoView {
                tasks: st.todo.tasks.push(TaskView { text: t.text, completed: t.completed }),
                ..st.todo
            },
            ..st
        }),
{
    let p = TaskView { text: t.text, completed: t.completed };
    assert(crate::app::task_line(t) == task_text(p));
    lemma_read_task_line(st, p);
}

/// A `project_id:` or `info:` line whose value is `null`, bare or in
/// single quotes, names no project and no info: reading it changes
/// nothing.
pub proof fn lemma_null_values_are_absent(t: TodoView, v: Seq<char>)
    requires
        trim(v) == "null"@ || trim(v) == "'null'"@,
    ensures
        read_frontmatter_line(t, "project_id:"@ + v) == t,
        read_frontmatter_line(t, "info:"@ + v) == t,
{
    reveal_strlit("null");
    reveal_strlit("'null'");
    reveal_strlit("id:");
    reveal_strlit("project_id:");
    reveal_strlit("info:");
    reveal_strlit("[[");
    reveal_strlit("''");
    let n = "null"@;
    let q = CharPattern::Exactly('\'');
    let dq = CharPattern::Exactly('"');
    lemma_trim_by_noop(n, q);
    lemma_trim_by_noop(n, dq);
    if trim(v) == "'null'"@ {
        assert("'null'"@ =~= seq!['\''] + n + seq!['\'']);
        lemma_unwrap(n, '\'');
    }
    assert(trim_char(trim(v), '\'') == n);
    // project_id
    let l1 = "project_id:"@ + v;
    assert(l1[0] == 'p');
    lemma_differs(l1, "id:"@, 0);
    lemma_strips("project_id:"@, v);
    lemma_differs(n, "[["@, 0);
    assert(n != "''"@);
    // info
    let l2 = "info:"@ + v;
    assert(l2[0] == 'i' && l2[1] == 'n');
    lemma_differs(l2, "id:"@, 1);
    lemma_differs(l2, "project_id:"@, 0);
    lemma_strips("info:"@, v);
}

} // verus!
