//! What the form shows: the visible part of each field, the cursor, and the
//! text and placement of the overlays.
use vstd::prelude::*;
use vstd::utf8::{
    encode_utf8, encode_utf8_valid_utf8, is_char_boundary, is_char_boundary_start_end_of_seq,
};
use crate::app::{App, InputField, Task};
use crate::filestorage::{Project, opt_view};
use crate::text::{
    decimal, join, lines, push_char, push_chars, push_str, split_lines, to_chars, trim, trim_ws,
    format_decimal, string_from,
};
use crate::utils::{display_width, str_width};

verus! {

/// A rectangle of terminal cells.
#[derive(Clone, Copy, Debug, PartialEq, Eq, Structural)]
pub struct Area {
    pub x: u16,
    pub y: u16,
    pub width: u16,
    pub height: u16,
}

// ---------------------------------------------------------------------------
// Single-line fields
// ---------------------------------------------------------------------------

/// The first position at or after `i` that falls between two characters
/// of `b` (its end when there is none before it).
pub open spec fn boundary_from(b: Seq<u8>, i: int) -> int
    decreases b.len() - i,
{
    if i >= b.len() {
        b.len() as int
    } else if is_char_boundary(b, i) {
        i
    } else {
        boundary_from(b, i + 1)
    }
}

/// The longest end of a text that fits in `max_width` bytes and starts
/// between two characters, or the whole text when it is short enough.
pub open spec fn display_tail(bytes: Seq<u8>, max_width: nat) -> Seq<u8> {
    if bytes.len() > max_width {
        bytes.subrange(boundary_from(bytes, bytes.len() - max_width), bytes.len() as int)
    } else {
        bytes
    }
}

proof fn lemma_boundary_from(b: Seq<u8>, i: int)
    requires
        0 <= i <= b.len(),
    ensures
        i <= boundary_from(b, i) <= b.len(),
        forall|j: int| i <= j < boundary_from(b, i) ==> !is_char_boundary(b, j),
        boundary_from(b, i) < b.len() ==> is_char_boundary(b, boundary_from(b, i)),
    decreases b.len() - i,
{
    if i < b.len() && !is_char_boundary(b, i) {
        lemma_boundary_from(b, i + 1);
    }
}

/// The end of a single-line text that fits in `max_width` bytes, cut
/// between two characters (see `display_tail`).
pub fn truncate_text_for_display(text: &str, max_width: usize) -> (r: &str)
    ensures
        encode_utf8(r@) == display_tail(encode_utf8(text@), max_width as nat),
        encode_utf8(r@).len() <= max_width,
{
    let ghost b = encode_utf8(text@);
    let n = text.as_bytes().len();
    if n > max_width {
        let mut k = n - max_width;
        while k < n && !text.is_char_boundary(k)
            invariant
                b == encode_utf8(text@),
                n == b.len(),
                n - max_width <= k <= n,
                boundary_from(b, (n - max_width) as int) == boundary_from(b, k as int),
            decreases n - k,
        {
            assert(!is_char_boundary(b, k as int));
            assert(boundary_from(b, k as int) == boundary_from(b, k + 1));
            k = k + 1;
        }
        proof {
            encode_utf8_valid_utf8(text@);
            is_char_boundary_start_end_of_seq(b);
            lemma_boundary_from(b, k as int);
        }
        let (_, tail) = text.split_at(k);
        tail
    } else {
        text
    }
}

/// The column of the cursor after a single-line text in a bordered box.
pub open spec fn cursor_x(width: nat, area_x: u16, area_width: u16) -> int {
    if width > area_width - 3 {
        area_x + area_width - 2
    } else {
        area_x + width + 1
    }
}

/// The column of the cursor after `text` in a box at `area_x` that is
/// `area_width` cells wide: just after the text, or at the right border when
/// the text does not fit.
pub fn calculate_cursor_x(text: &str, area_x: u16, area_width: u16) -> (r: u16)
    requires
        area_width >= 3,
        area_x + area_width <= u16::MAX,
    ensures
        r == cursor_x(display_width(text@), area_x, area_width),
{
    let text_width = str_width(text);
    if text_width > (area_width - 3) as usize {
        area_x + area_width - 2
    } else {
        area_x + text_width as u16 + 1
    }
}

/// Where the cursor stands for the focused field, given the boxes of the
/// name, project, info, task input and task list fields; `None` for the
/// fields whose cursor is drawn as part of their text.
pub open spec fn cursor_spot(
    field: InputField,
    selected_task: Option<usize>,
    name: Seq<char>,
    project_id: Seq<char>,
    info: Seq<char>,
    task_input: Seq<char>,
    name_area: Area,
    project_area: Area,
    info_area: Area,
    input_area: Area,
    list_area: Area,
) -> Option<(int, int)> {
    match field {
        InputField::Name => Some(
            (cursor_x(display_width(name), name_area.x, name_area.width), name_area.y + 1),
        ),
        InputField::ProjectId => Some(
            (
                cursor_x(display_width(project_id), project_area.x, project_area.width),
                project_area.y + 1,
            ),
        ),
        InputField::Info => Some(
            (cursor_x(display_width(info), info_area.x, info_area.width), info_area.y + 1),
        ),
        InputField::Tasks => Some(
            (
                cursor_x(display_width(task_input), input_area.x, input_area.width),
                input_area.y + 1,
            ),
        ),
        InputField::TaskList => match selected_task {
            Some(i) => Some((list_area.x + 1, list_area.y + 1 + (i as u16))),
            None => Some((list_area.x + 1, list_area.y + 1)),
        },
        InputField::Goal => None,
        InputField::Note => None,
    }
}

/// Whether a box can hold a cursor computed by `calculate_cursor_x`.
pub open spec fn cursor_area_ok(a: Area) -> bool {
    a.width >= 3 && a.x + a.width <= u16::MAX && a.y + 1 <= u16::MAX
}

/// Where the form's cursor stands (see `cursor_spot`).
pub fn cursor_position(
    app: &App,
    name_area: Area,
    project_area: Area,
    info_area: Area,
    input_area: Area,
    list_area: Area,
) -> (r: Option<(u16, u16)>)
    requires
        cursor_area_ok(name_area),
        cursor_area_ok(project_area),
        cursor_area_ok(info_area),
        cursor_area_ok(input_area),
        list_area.x + 1 <= u16::MAX,
        app.state.selected_task_index matches Some(i) ==> list_area.y + 1 + (i as u16)
            <= u16::MAX,
        list_area.y + 1 <= u16::MAX,
    ensures
        match cursor_spot(
            app.state.current_field,
            app.state.selected_task_index,
            app.content.name@,
            app.content.project_id@,
            app.content.info@,
            app.content.current_task_input@,
            name_area,
            project_area,
            info_area,
            input_area,
            list_area,
        ) {
            Some((x, y)) => r matches Some((rx, ry)) && rx == x && ry == y,
            None => r is None,
        },
{
    match app.state.current_field {
        InputField::Name => Some(
            (
                calculate_cursor_x(app.content.name.as_str(), name_area.x, name_area.width),
                name_area.y + 1,
            ),
        ),
        InputField::ProjectId => Some(
            (
                calculate_cursor_x(
                    app.content.project_id.as_str(),
                    project_area.x,
                    project_area.width,
                ),
                project_area.y + 1,
            ),
        ),
        InputField::Info => Some(
            (
                calculate_cursor_x(app.content.info.as_str(), info_area.x, info_area.width),
                info_area.y + 1,
            ),
        ),
        InputField::Tasks => Some(
            (
                calculate_cursor_x(
                    app.content.current_task_input.as_str(),
                    input_area.x,
                    input_area.width,
                ),
                input_area.y + 1,
            ),
        ),
        InputField::TaskList => match app.state.selected_task_index {
            Some(i) => Some((list_area.x + 1, list_area.y + 1 + (i as u16))),
            None => Some((list_area.x + 1, list_area.y + 1)),
        },
        InputField::Goal => None,
        InputField::Note => None,
    }
}

// ---------------------------------------------------------------------------
// Multi-line fields
// ---------------------------------------------------------------------------

/// The elements of `ls` from `offset` on, at most `count` of them.
pub open spec fn window<A>(ls: Seq<A>, offset: nat, count: nat) -> Seq<A> {
    let start = if offset < ls.len() { offset } else { ls.len() };
    let end = if start + count < ls.len() { start + count } else { ls.len() };
    ls.subrange(start as int, end as int)
}

/// The block character drawn as the cursor of a multi-line field.
pub open spec fn cursor_block() -> char {
    '\u{2588}'
}

/// What a multi-line field shows: `count` of its lines from `offset` on,
/// joined by line breaks, with the cursor block after them when the field
/// is focused.
pub open spec fn visible_text(text: Seq<char>, offset: nat, count: nat, active: bool) -> Seq<char> {
    let shown = join(window(lines(text), offset, count), seq!['\n']);
    if active {
        shown.push(cursor_block())
    } else {
        shown
    }
}

proof fn lemma_join_step(parts: Seq<Seq<char>>, sep: Seq<char>, next: Seq<char>)
    requires
        parts.len() > 0,
    ensures
        join(parts.push(next), sep) == join(parts, sep) + sep + next,
{
    assert(parts.push(next).drop_last() =~= parts);
}

/// `ls[from..to]` joined by line breaks.
pub(crate) fn join_lines(ls: &Vec<Vec<char>>, from: usize, to: usize) -> (r: Vec<char>)
    requires
        from <= to <= ls@.len(),
    ensures
        r@ == join(ls@.subrange(from as int, to as int).map_values(|l: Vec<char>| l@), seq!['\n']),
{
    let mut out: Vec<char> = Vec::new();
    let mut k = from;
    while k < to
        invariant
            from <= k <= to <= ls@.len(),
            out@ == join(ls@.subrange(from as int, k as int).map_values(|l: Vec<char>| l@), seq!['\n']),
        decreases to - k,
    {
        let ghost before = ls@.subrange(from as int, k as int).map_values(|l: Vec<char>| l@);
        proof {
            assert(ls@.subrange(from as int, k + 1).map_values(|l: Vec<char>| l@) =~= before.push(ls@[k as int]@));
        }
        if k > from {
            out.push('\n');
            proof {
                lemma_join_step(before, seq!['\n'], ls@[k as int]@);
            }
        } else {
            assert(before.push(ls@[k as int]@) =~= seq![ls@[k as int]@]);
        }
        let line = &ls[k];
        let mut i: usize = 0;
        let ghost base = out@;
        while i < line.len()
            invariant
                i <= line@.len(),
                out@ == base + line@.take(i as int),
            decreases line.len() - i,
        {
            out.push(line[i]);
            i = i + 1;
            assert(line@.take(i as int) =~= line@.take(i - 1).push(line@[i - 1]));
        }
        assert(line@.take(line@.len() as int) =~= line@);
        k = k + 1;
    }
    out
}

/// What a goal or note field shows (see `visible_text`): the goal shows
/// three lines, the note six.
pub fn visible_field_text(text: &str, offset: usize, count: usize, active: bool) -> (r: String)
    ensures
        r@ == visible_text(text@, offset as nat, count as nat, active),
{
    let chars = to_chars(text);
    let ls = split_lines(chars.as_slice());
    let start = if offset < ls.len() { offset } else { ls.len() };
    let end = if count < ls.len() - start { start + count } else { ls.len() };
    let joined = join_lines(&ls, start, end);
    proof {
        let w = window(lines(text@), offset as nat, count as nat);
        assert(ls@.subrange(start as int, end as int).map_values(|l: Vec<char>| l@) =~= w);
    }
    let mut r = string_from(joined.as_slice());
    if active {
        push_char(&mut r, '\u{2588}');
    }
    r
}

// ---------------------------------------------------------------------------
// Task list and status line
// ---------------------------------------------------------------------------

/// A task as the task list shows it: `  - [x] text` or `  - [ ] text`.
pub open spec fn task_line(text: Seq<char>, completed: bool) -> Seq<char> {
    "  - "@ + (if completed { "[x]"@ } else { "[ ]"@ }) + " "@ + text
}

/// The task list's line for `task`.
pub fn task_item_text(task: &Task) -> (r: String)
    ensures
        r@ == task_line(task.text@, task.completed),
{
    let mut r = String::new();
    push_str(&mut r, "  - ");
    if task.completed {
        push_str(&mut r, "[x]");
    } else {
        push_str(&mut r, "[ ]");
    }
    push_str(&mut r, " ");
    push_str(&mut r, task.text.as_str());
    r
}

/// How the status line is coloured.
#[derive(Clone, Copy, Debug, PartialEq, Eq, Structural)]
pub enum StatusKind {
    Success,
    Error,
    Info,
}

/// A message with a check mark is a success, one with a cross an error,
/// any other information.
pub open spec fn status_kind_of(msg: Seq<char>) -> StatusKind {
    if msg.contains('\u{2713}') {
        StatusKind::Success
    } else if msg.contains('\u{2717}') {
        StatusKind::Error
    } else {
        StatusKind::Info
    }
}

fn has_char(s: &[char], c: char) -> (r: bool)
    ensures
        r == s@.contains(c),
{
    let mut i: usize = 0;
    while i < s.len()
        invariant
            i <= s.len(),
            forall|k: int| 0 <= k < i ==> s@[k] != c,
        decreases s.len() - i,
    {
        if s[i] == c {
            assert(s@[i as int] == c);
            return true;
        }
        i = i + 1;
    }
    false
}

/// The colour class of a status message (see `status_kind_of`).
pub fn status_kind(msg: &str) -> (r: StatusKind)
    ensures
        r == status_kind_of(msg@),
{
    let chars = to_chars(msg);
    if has_char(chars.as_slice(), '\u{2713}') {
        StatusKind::Success
    } else if has_char(chars.as_slice(), '\u{2717}') {
        StatusKind::Error
    } else {
        StatusKind::Info
    }
}

// ---------------------------------------------------------------------------
// Overlays
// ---------------------------------------------------------------------------

/// `a - b`, or 0 when `b` is larger.
pub open spec fn sat_sub(a: int, b: int) -> int {
    if a >= b {
        a - b
    } else {
        0
    }
}

pub open spec fn max_int(a: int, b: int) -> int {
    if a >= b {
        a
    } else {
        b
    }
}

pub open spec fn min_int(a: int, b: int) -> int {
    if a <= b {
        a
    } else {
        b
    }
}

/// A popup of the given size, centred in the frame.
pub open spec fn centered(frame: Area, width: int, height: int) -> Area {
    Area {
        x: (sat_sub(frame.width as int, width) / 2) as u16,
        y: (sat_sub(frame.height as int, height) / 2) as u16,
        width: width as u16,
        height: height as u16,
    }
}

/// The history viewer: 20 columns and 10 rows narrower than the frame, but
/// at least 60 by 15.
pub open spec fn history_popup(frame: Area) -> Area {
    centered(
        frame,
        max_int(sat_sub(frame.width as int, 20), 60),
        max_int(sat_sub(frame.height as int, 10), 15),
    )
}

/// The project selector: 20 columns narrower than the frame but at least 40
/// wide; 10 rows lower, between 15 and 30 rows high.
pub open spec fn selector_popup(frame: Area) -> Area {
    centered(
        frame,
        max_int(sat_sub(frame.width as int, 20), 40),
        min_int(max_int(sat_sub(frame.height as int, 10), 15), 30),
    )
}

/// The confirmation dialog: 60 by 7.
pub open spec fn confirmation_popup(frame: Area) -> Area {
    centered(frame, 60, 7)
}

/// A popup of the given size, centred in the frame.
pub fn centered_rect(frame: Area, width: u16, height: u16) -> (r: Area)
    ensures
        r == centered(frame, width as int, height as int),
{
    Area {
        x: frame.width.saturating_sub(width) / 2,
        y: frame.height.saturating_sub(height) / 2,
        width,
        height,
    }
}

/// Where the history viewer is drawn.
pub fn history_popup_area(frame: Area) -> (r: Area)
    ensures
        r == history_popup(frame),
{
    let w = frame.width.saturating_sub(20);
    let h = frame.height.saturating_sub(10);
    centered_rect(frame, if w > 60 { w } else { 60 }, if h > 15 { h } else { 15 })
}

/// Where the project selector is drawn.
pub fn selector_popup_area(frame: Area) -> (r: Area)
    ensures
        r == selector_popup(frame),
{
    let w = frame.width.saturating_sub(20);
    let h = frame.height.saturating_sub(10);
    let h = if h > 15 { h } else { 15 };
    centered_rect(frame, if w > 40 { w } else { 40 }, if h < 30 { h } else { 30 })
}

/// Where the confirmation dialog is drawn.
pub fn confirmation_popup_area(frame: Area) -> (r: Area)
    ensures
        r == confirmation_popup(frame),
{
    centered_rect(frame, 60, 7)
}

/// The browser's detail view: 8 columns and 4 rows narrower than the
/// frame, but at most 100 by 40.
pub open spec fn detail_popup(frame: Area) -> Area {
    centered(
        frame,
        min_int(sat_sub(frame.width as int, 8), 100),
        min_int(sat_sub(frame.height as int, 4), 40),
    )
}

/// The browser's overview: 16 columns narrower than the frame, between 40
/// and 80 wide, 16 rows high.
pub open spec fn overview_popup(frame: Area) -> Area {
    centered(frame, max_int(min_int(sat_sub(frame.width as int, 16), 80), 40), 16)
}

/// Where the browser's detail view is drawn.
pub fn detail_popup_area(frame: Area) -> (r: Area)
    ensures
        r == detail_popup(frame),
{
    let w = frame.width.saturating_sub(8);
    let h = frame.height.saturating_sub(4);
    centered_rect(frame, if w < 100 { w } else { 100 }, if h < 40 { h } else { 40 })
}

/// Where the browser's overview is drawn.
pub fn overview_popup_area(frame: Area) -> (r: Area)
    ensures
        r == overview_popup(frame),
{
    let w = frame.width.saturating_sub(16);
    let w = if w < 80 { w } else { 80 };
    centered_rect(frame, if w > 40 { w } else { 40 }, 16)
}

/// How many tasks are not done.
pub open spec fn incomplete_count(tasks: Seq<Task>) -> nat
    decreases tasks.len(),
{
    if tasks.len() == 0 {
        0
    } else {
        incomplete_count(tasks.drop_last()) + if tasks.last().completed {
            0nat
        } else {
            1nat
        }
    }
}

/// The first line of the confirmation dialog.
pub open spec fn confirmation_text(tasks: Seq<Task>) -> Seq<char> {
    "You have "@ + decimal(incomplete_count(tasks)) + " incomplete task(s)."@
}

/// The first line of the confirmation dialog: how many tasks are not done.
pub fn confirmation_message(tasks: &Vec<Task>) -> (r: String)
    ensures
        r@ == confirmation_text(tasks@),
{
    let mut n: u64 = 0;
    let mut i: usize = 0;
    while i < tasks.len()
        invariant
            i <= tasks@.len(),
            n == incomplete_count(tasks@.take(i as int)),
            n <= i,
        decreases tasks.len() - i,
    {
        assert(tasks@.take(i + 1).drop_last() =~= tasks@.take(i as int));
        if !tasks[i].completed {
            n = n + 1;
        }
        i = i + 1;
    }
    assert(tasks@.take(tasks@.len() as int) =~= tasks@);
    let mut r = String::new();
    push_str(&mut r, "You have ");
    let digits = format_decimal(n);
    push_chars(&mut r, digits.as_slice());
    push_str(&mut r, " incomplete task(s).");
    r
}

/// A project as the selector lists it: `  id - name (shorthand)`, without
/// the parentheses when it has no shorthand.
pub open spec fn project_line(id: Seq<char>, name: Seq<char>, shorthand: Option<Seq<char>>) -> Seq<char> {
    match shorthand {
        Some(s) => "  "@ + id + " - "@ + name + " ("@ + s + ")"@,
        None => "  "@ + id + " - "@ + name,
    }
}

/// The project selector's line for `p`.
pub fn project_item_text(p: &Project) -> (r: String)
    ensures
        r@ == project_line(p.id@, p.name@, opt_view(p.shorthand)),
{
    let mut r = String::new();
    push_str(&mut r, "  ");
    push_str(&mut r, p.id.as_str());
    push_str(&mut r, " - ");
    push_str(&mut r, p.name.as_str());
    match &p.shorthand {
        Some(s) => {
            push_str(&mut r, " (");
            push_str(&mut r, s.as_str());
            push_str(&mut r, ")");
        },
        None => {},
    }
    r
}

/// The lines of `ls` that hold more than white space.
pub open spec fn nonblank(ls: Seq<Seq<char>>) -> Seq<Seq<char>>
    decreases ls.len(),
{
    if ls.len() == 0 {
        Seq::empty()
    } else if trim(ls.last()).len() > 0 {
        nonblank(ls.drop_last()).push(ls.last())
    } else {
        nonblank(ls.drop_last())
    }
}

/// The entries of a history text: its lines that are not blank.
pub open spec fn history_entries(history: Seq<char>) -> Seq<Seq<char>> {
    nonblank(lines(history))
}

/// What the history viewer shows.
pub struct HistoryView {
    /// Where it is drawn.
    pub area: Area,
    /// Its title.
    pub title: String,
    /// The entries in view.
    pub entries: Vec<String>,
    /// The line that counts the entries below the view, if there are any.
    pub more: Option<String>,
}

/// How many entries the history viewer has room for: its height less the
/// borders and the title.
pub open spec fn history_rows(frame: Area) -> nat {
    sat_sub(history_popup(frame).height as int, 3) as nat
}

/// The history viewer's title.
pub open spec fn history_title(count: nat, offset: nat) -> Seq<char> {
    if count == 0 {
        "History (Esc to close)"@
    } else {
        "History ("@ + decimal(offset + 1) + "/"@ + decimal(count)
            + ") (\u{2191}\u{2193} to scroll, Esc to close)"@
    }
}

/// The line under the entries in view, when more follow.
pub open spec fn history_more(count: nat, offset: nat, rows: nat) -> Option<Seq<char>> {
    let end = min_int((offset + rows) as int, count as int);
    if count > 0 && end < count {
        Some("... "@ + decimal((count - end) as nat) + " more entries (\u{2193} to scroll)"@)
    } else {
        None
    }
}

/// Whether the history viewer's arithmetic stays within `usize`.
pub open spec fn history_view_ok(offset: usize, frame: Area) -> bool {
    offset + history_rows(frame) <= usize::MAX
}

/// The history viewer for a history text scrolled down by `offset`
/// entries, in a frame of the given size.
pub fn history_view(history: &str, offset: usize, frame: Area) -> (r: HistoryView)
    requires
        history_view_ok(offset, frame),
    ensures
        r.area == history_popup(frame),
        r.title@ == history_title(history_entries(history@).len(), offset as nat),
        r.entries@.map_values(|e: String| e@) == window(
            history_entries(history@),
            offset as nat,
            history_rows(frame),
        ),
        opt_view(r.more) == history_more(
            history_entries(history@).len(),
            offset as nat,
            history_rows(frame),
        ),
{
    let area = history_popup_area(frame);
    let chars = to_chars(history);
    let ls = split_lines(chars.as_slice());
    let ghost all = lines(history@);
    let mut entries: Vec<Vec<char>> = Vec::new();
    let mut i: usize = 0;
    while i < ls.len()
        invariant
            i <= ls@.len(),
            ls@.len() == all.len(),
            forall|k: int| 0 <= k < ls@.len() ==> (#[trigger] ls@[k])@ == all[k],
            entries@.map_values(|e: Vec<char>| e@) == nonblank(all.take(i as int)),
        decreases ls.len() - i,
    {
        assert(all.take(i + 1).drop_last() =~= all.take(i as int));
        let line = &ls[i];
        let t = trim_ws(line.as_slice());
        if t.len() > 0 {
            let copy = string_from(line.as_slice());
            entries.push(to_chars(copy.as_str()));
            assert(entries@.map_values(|e: Vec<char>| e@) =~= nonblank(all.take(i as int)).push(
                all[i as int],
            ));
        }
        i = i + 1;
    }
    assert(all.take(ls@.len() as int) =~= all);
    let ghost es = history_entries(history@);
    let count = entries.len();
    let rows: usize = if area.height > 3 { (area.height - 3) as usize } else { 0 };
    let start = if offset < count { offset } else { count };
    let end = if rows < count - start { start + rows } else { count };
    let mut shown: Vec<String> = Vec::new();
    let mut k = start;
    while k < end
        invariant
            start <= k <= end <= count == entries@.len(),
            entries@.map_values(|e: Vec<char>| e@) == es,
            shown@.map_values(|e: String| e@) == es.subrange(start as int, k as int),
        decreases end - k,
    {
        let ghost before = shown@;
        let item = string_from(entries[k].as_slice());
        assert(item@ == es[k as int]) by {
            assert(entries@.map_values(|e: Vec<char>| e@)[k as int] == entries@[k as int]@);
        }
        shown.push(item);
        assert(shown@.map_values(|e: String| e@) =~= before.map_values(|e: String| e@).push(item@));
        assert(es.subrange(start as int, k + 1) =~= es.subrange(start as int, k as int).push(es[k as int]));
        k = k + 1;
    }
    let title = if count == 0 {
        string_from(to_chars("History (Esc to close)").as_slice())
    } else {
        let mut t = String::new();
        push_str(&mut t, "History (");
        let a = format_decimal(offset as u64 + 1);
        push_chars(&mut t, a.as_slice());
        push_str(&mut t, "/");
        let b = format_decimal(count as u64);
        push_chars(&mut t, b.as_slice());
        push_str(&mut t, ") (\u{2191}\u{2193} to scroll, Esc to close)");
        t
    };
    let end_idx = if offset + rows < count { offset + rows } else { count };
    let more = if count > 0 && end_idx < count {
        let mut m = String::new();
        push_str(&mut m, "... ");
        let d = format_decimal((count - end_idx) as u64);
        push_chars(&mut m, d.as_slice());
        push_str(&mut m, " more entries (\u{2193} to scroll)");
        Some(m)
    } else {
        None
    };
    HistoryView { area, title, entries: shown, more }
}

} // verus!
