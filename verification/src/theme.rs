//! Colours of the interface, read from a theme configuration.
use vstd::prelude::*;
use vstd::utf8::{encode_utf8, is_char_boundary};
use crate::text::{chars_eq, lowercase, string_from, to_chars, to_lowercase};

verus! {

/// The terminal colours a theme can name.
#[derive(Clone, Copy, Debug, PartialEq, Eq, Structural)]
pub enum Color {
    Reset,
    Black,
    Red,
    Green,
    Yellow,
    Blue,
    Magenta,
    Cyan,
    Gray,
    DarkGray,
    LightRed,
    LightGreen,
    LightYellow,
    LightBlue,
    LightMagenta,
    LightCyan,
    White,
    Rgb(u8, u8, u8),
}

/// A colour as a theme file writes it: a colour name or `#rrggbb`.
#[derive(Clone, Debug)]
pub enum ThemeColor {
    Named(String),
}

impl ThemeColor {
    pub open spec fn text(&self) -> Seq<char> {
        match self {
            ThemeColor::Named(s) => s@,
        }
    }
}

/// The colour names a theme understands (after lower-casing), with their
/// spelling variants.
pub open spec fn named_color(s: Seq<char>) -> Option<Color> {
    if s == "black"@ {
        Some(Color::Black)
    } else if s == "red"@ {
        Some(Color::Red)
    } else if s == "green"@ {
        Some(Color::Green)
    } else if s == "yellow"@ {
        Some(Color::Yellow)
    } else if s == "blue"@ {
        Some(Color::Blue)
    } else if s == "magenta"@ {
        Some(Color::Magenta)
    } else if s == "cyan"@ {
        Some(Color::Cyan)
    } else if s == "gray"@ || s == "grey"@ {
        Some(Color::Gray)
    } else if s == "darkgray"@ || s == "darkgrey"@ || s == "dark_gray"@ || s == "dark_grey"@ {
        Some(Color::DarkGray)
    } else if s == "lightred"@ || s == "light_red"@ {
        Some(Color::LightRed)
    } else if s == "lightgreen"@ || s == "light_green"@ {
        Some(Color::LightGreen)
    } else if s == "lightyellow"@ || s == "light_yellow"@ {
        Some(Color::LightYellow)
    } else if s == "lightblue"@ || s == "light_blue"@ {
        Some(Color::LightBlue)
    } else if s == "lightmagenta"@ || s == "light_magenta"@ {
        Some(Color::LightMagenta)
    } else if s == "lightcyan"@ || s == "light_cyan"@ {
        Some(Color::LightCyan)
    } else if s == "white"@ {
        Some(Color::White)
    } else if s == "reset"@ || s == "default"@ {
        Some(Color::Reset)
    } else {
        None
    }
}

/// A `#` followed by six bytes of UTF-8.
pub open spec fn is_hex_form(s: Seq<char>) -> bool {
    s.len() > 0 && s[0] == '#' && encode_utf8(s).len() == 7
}

pub open spec fn is_hex_byte(b: u8) -> bool {
    (48 <= b && b <= 57) || (97 <= b && b <= 102) || (65 <= b && b <= 70)
}

pub open spec fn hex_byte_digit(b: u8) -> int {
    if 48 <= b && b <= 57 {
        b - 48
    } else if 97 <= b && b <= 102 {
        b - 97 + 10
    } else {
        b - 65 + 10
    }
}

/// Two bytes as `u8::from_str_radix(_, 16)` reads them (an optional `+`
/// then hexadecimal digits), or 255 when they do not parse.
pub open spec fn channel(a: u8, b: u8) -> u8 {
    if is_hex_byte(a) && is_hex_byte(b) {
        (hex_byte_digit(a) * 16 + hex_byte_digit(b)) as u8
    } else if a == 43 && is_hex_byte(b) {
        hex_byte_digit(b) as u8
    } else {
        255
    }
}

/// The colour of a lower-cased colour text: a name, a `#rrggbb` value, or
/// `Reset` for anything else.
pub open spec fn color_of(s: Seq<char>) -> Color {
    match named_color(s) {
        Some(c) => c,
        None => if is_hex_form(s) {
            let b = encode_utf8(s);
            Color::Rgb(channel(b[1], b[2]), channel(b[3], b[4]), channel(b[5], b[6]))
        } else {
            Color::Reset
        },
    }
}

/// Whether reading a colour text cuts its UTF-8 bytes only between
/// characters: a `#rrggbb` value is read two bytes at a time.
pub open spec fn color_readable(text: Seq<char>) -> bool {
    let s = lowercase(text);
    named_color(s) is None && is_hex_form(s) ==> is_char_boundary(encode_utf8(s), 3)
        && is_char_boundary(encode_utf8(s), 5)
}

fn is_lit(a: &[char], lit: &str) -> (r: bool)
    ensures
        r == (a@ == lit@),
{
    let l = to_chars(lit);
    chars_eq(a, l.as_slice())
}

fn named_color_of(s: &[char]) -> (r: Option<Color>)
    ensures
        r == named_color(s@),
{
    if is_lit(s, "black") {
        Some(Color::Black)
    } else if is_lit(s, "red") {
        Some(Color::Red)
    } else if is_lit(s, "green") {
        Some(Color::Green)
    } else if is_lit(s, "yellow") {
        Some(Color::Yellow)
    } else if is_lit(s, "blue") {
        Some(Color::Blue)
    } else if is_lit(s, "magenta") {
        Some(Color::Magenta)
    } else if is_lit(s, "cyan") {
        Some(Color::Cyan)
    } else if is_lit(s, "gray") || is_lit(s, "grey") {
        Some(Color::Gray)
    } else if is_lit(s, "darkgray") || is_lit(s, "darkgrey") || is_lit(s, "dark_gray") || is_lit(
        s,
        "dark_grey",
    ) {
        Some(Color::DarkGray)
    } else if is_lit(s, "lightred") || is_lit(s, "light_red") {
        Some(Color::LightRed)
    } else if is_lit(s, "lightgreen") || is_lit(s, "light_green") {
        Some(Color::LightGreen)
    } else if is_lit(s, "lightyellow") || is_lit(s, "light_yellow") {
        Some(Color::LightYellow)
    } else if is_lit(s, "lightblue") || is_lit(s, "light_blue") {
        Some(Color::LightBlue)
    } else if is_lit(s, "lightmagenta") || is_lit(s, "light_magenta") {
        Some(Color::LightMagenta)
    } else if is_lit(s, "lightcyan") || is_lit(s, "light_cyan") {
        Some(Color::LightCyan)
    } else if is_lit(s, "white") {
        Some(Color::White)
    } else if is_lit(s, "reset") || is_lit(s, "default") {
        Some(Color::Reset)
    } else {
        None
    }
}

fn hex_byte(b: u8) -> (r: Option<u8>)
    ensures
        is_hex_byte(b) ==> r == Some(hex_byte_digit(b) as u8),
        !is_hex_byte(b) ==> r is None,
{
    if 48 <= b && b <= 57 {
        Some(b - 48)
    } else if 97 <= b && b <= 102 {
        Some(b - 97 + 10)
    } else if 65 <= b && b <= 70 {
        Some(b - 65 + 10)
    } else {
        None
    }
}

fn read_channel(a: u8, b: u8) -> (r: u8)
    ensures
        r == channel(a, b),
{
    match (hex_byte(a), hex_byte(b)) {
        (Some(x), Some(y)) => x * 16 + y,
        (None, Some(y)) => if a == 43 {
            y
        } else {
            255
        },
        _ => 255,
    }
}

impl ThemeColor {
    /// Whether `to_color` can read this colour (see `color_readable`).
    pub fn is_readable(&self) -> (r: bool)
        ensures
            r == color_readable(self.text()),
    {
        let ThemeColor::Named(name) = self;
        let lower = to_lowercase(name.as_str());
        let chars = to_chars(lower.as_str());
        if named_color_of(chars.as_slice()).is_some() {
            return true;
        }
        let s = lower.as_str();
        if !(chars.len() > 0 && chars[0] == '#' && s.as_bytes().len() == 7) {
            return true;
        }
        s.is_char_boundary(3) && s.is_char_boundary(5)
    }

    /// The colour this text names.
    pub fn to_color(&self) -> (r: Color)
        requires
            color_readable(self.text()),
        ensures
            r == color_of(lowercase(self.text())),
    {
        let ThemeColor::Named(name) = self;
        let lower = to_lowercase(name.as_str());
        let chars = to_chars(lower.as_str());
        match named_color_of(chars.as_slice()) {
            Some(c) => c,
            None => {
                let s = lower.as_str();
                let b = s.as_bytes();
                if chars.len() > 0 && chars[0] == '#' && b.len() == 7 {
                    Color::Rgb(
                        read_channel(b[1], b[2]),
                        read_channel(b[3], b[4]),
                        read_channel(b[5], b[6]),
                    )
                } else {
                    Color::Reset
                }
            },
        }
    }

    /// The colour this text names, or `None` when reading it would cut a
    /// character in two.
    pub fn checked_to_color(&self) -> (r: Option<Color>)
        ensures
            color_readable(self.text()) ==> r == Some(color_of(lowercase(self.text()))),
            !color_readable(self.text()) ==> r is None,
    {
        if self.is_readable() {
            Some(self.to_color())
        } else {
            None
        }
    }
}

fn named(lit: &str) -> (r: ThemeColor)
    ensures
        r.text() == lit@,
{
    ThemeColor::Named(string_from(to_chars(lit).as_slice()))
}

pub fn default_active_border() -> (r: ThemeColor)
    ensures
        r.text() == "yellow"@,
{
    named("yellow")
}

pub fn default_inactive_border() -> (r: ThemeColor)
    ensures
        r.text() == "reset"@,
{
    named("reset")
}

pub fn default_task_completed() -> (r: ThemeColor)
    ensures
        r.text() == "dark_gray"@,
{
    named("dark_gray")
}

pub fn default_task_highlight_bg() -> (r: ThemeColor)
    ensures
        r.text() == "dark_gray"@,
{
    named("dark_gray")
}

pub fn default_task_highlight_fg() -> (r: ThemeColor)
    ensures
        r.text() == "white"@,
{
    named("white")
}

pub fn default_help_key() -> (r: ThemeColor)
    ensures
        r.text() == "cyan"@,
{
    named("cyan")
}

pub fn default_status_success() -> (r: ThemeColor)
    ensures
        r.text() == "green"@,
{
    named("green")
}

pub fn default_status_error() -> (r: ThemeColor)
    ensures
        r.text() == "red"@,
{
    named("red")
}

pub fn default_status_info() -> (r: ThemeColor)
    ensures
        r.text() == "yellow"@,
{
    named("yellow")
}

pub fn default_popup_bg() -> (r: ThemeColor)
    ensures
        r.text() == "black"@,
{
    named("black")
}

pub fn default_popup_text() -> (r: ThemeColor)
    ensures
        r.text() == "white"@,
{
    named("white")
}

pub fn default_popup_label() -> (r: ThemeColor)
    ensures
        r.text() == "green"@,
{
    named("green")
}

pub fn default_popup_active_input() -> (r: ThemeColor)
    ensures
        r.text() == "yellow"@,
{
    named("yellow")
}

pub fn default_popup_inactive_input() -> (r: ThemeColor)
    ensures
        r.text() == "white"@,
{
    named("white")
}

pub fn default_popup_hint() -> (r: ThemeColor)
    ensures
        r.text() == "gray"@,
{
    named("gray")
}

pub fn default_popup_help() -> (r: ThemeColor)
    ensures
        r.text() == "cyan"@,
{
    named("cyan")
}

pub fn default_popup_error() -> (r: ThemeColor)
    ensures
        r.text() == "red"@,
{
    named("red")
}

pub fn default_project_border() -> (r: ThemeColor)
    ensures
        r.text() == "yellow"@,
{
    named("yellow")
}

pub fn default_new_project_border() -> (r: ThemeColor)
    ensures
        r.text() == "green"@,
{
    named("green")
}

pub fn default_confirm_border() -> (r: ThemeColor)
    ensures
        r.text() == "yellow"@,
{
    named("yellow")
}

pub fn default_confirm_prompt() -> (r: ThemeColor)
    ensures
        r.text() == "yellow"@,
{
    named("yellow")
}

pub fn default_confirm_yes() -> (r: ThemeColor)
    ensures
        r.text() == "green"@,
{
    named("green")
}

pub fn default_confirm_no() -> (r: ThemeColor)
    ensures
        r.text() == "red"@,
{
    named("red")
}

pub fn default_history_border() -> (r: ThemeColor)
    ensures
        r.text() == "cyan"@,
{
    named("cyan")
}

pub fn default_history_entry() -> (r: ThemeColor)
    ensures
        r.text() == "white"@,
{
    named("white")
}

pub fn default_history_scroll_hint() -> (r: ThemeColor)
    ensures
        r.text() == "yellow"@,
{
    named("yellow")
}

pub fn default_move_border() -> (r: ThemeColor)
    ensures
        r.text() == "magenta"@,
{
    named("magenta")
}

pub fn default_selected_bg() -> (r: ThemeColor)
    ensures
        r.text() == "white"@,
{
    named("white")
}

pub fn default_selected_fg() -> (r: ThemeColor)
    ensures
        r.text() == "black"@,
{
    named("black")
}

pub fn default_filter_input() -> (r: ThemeColor)
    ensures
        r.text() == "yellow"@,
{
    named("yellow")
}

pub fn default_separator() -> (r: ThemeColor)
    ensures
        r.text() == "dark_gray"@,
{
    named("dark_gray")
}

pub fn default_no_results() -> (r: ThemeColor)
    ensures
        r.text() == "dark_gray"@,
{
    named("dark_gray")
}

pub fn default_field_text() -> (r: ThemeColor)
    ensures
        r.text() == "reset"@,
{
    named("reset")
}

pub fn default_title_text() -> (r: ThemeColor)
    ensures
        r.text() == "white"@,
{
    named("white")
}

/// The colour texts of every part of the interface.
#[derive(Clone, Debug)]
pub struct ThemeConfig {
    pub active_border: ThemeColor,
    pub inactive_border: ThemeColor,
    pub task_completed: ThemeColor,
    pub task_highlight_bg: ThemeColor,
    pub task_highlight_fg: ThemeColor,
    pub help_key: ThemeColor,
    pub status_success: ThemeColor,
    pub status_error: ThemeColor,
    pub status_info: ThemeColor,
    pub popup_bg: ThemeColor,
    pub popup_text: ThemeColor,
    pub popup_label: ThemeColor,
    pub popup_active_input: ThemeColor,
    pub popup_inactive_input: ThemeColor,
    pub popup_hint: ThemeColor,
    pub popup_help: ThemeColor,
    pub popup_error: ThemeColor,
    pub project_border: ThemeColor,
    pub new_project_border: ThemeColor,
    pub confirm_border: ThemeColor,
    pub confirm_prompt: ThemeColor,
    pub confirm_yes: ThemeColor,
    pub confirm_no: ThemeColor,
    pub history_border: ThemeColor,
    pub history_entry: ThemeColor,
    pub history_scroll_hint: ThemeColor,
    pub move_border: ThemeColor,
    pub selected_bg: ThemeColor,
    pub selected_fg: ThemeColor,
    pub filter_input: ThemeColor,
    pub separator: ThemeColor,
    pub no_results: ThemeColor,
    pub field_text: ThemeColor,
    pub title_text: ThemeColor,
}

/// The resolved colours of every part of the interface.
#[derive(Clone, Copy, Debug)]
pub struct Theme {
    pub active_border: Color,
    pub inactive_border: Color,
    pub task_completed: Color,
    pub task_highlight_bg: Color,
    pub task_highlight_fg: Color,
    pub help_key: Color,
    pub status_success: Color,
    pub status_error: Color,
    pub status_info: Color,
    pub popup_bg: Color,
    pub popup_text: Color,
    pub popup_label: Color,
    pub popup_active_input: Color,
    pub popup_inactive_input: Color,
    pub popup_hint: Color,
    pub popup_help: Color,
    pub popup_error: Color,
    pub project_border: Color,
    pub new_project_border: Color,
    pub confirm_border: Color,
    pub confirm_prompt: Color,
    pub confirm_yes: Color,
    pub confirm_no: Color,
    pub history_border: Color,
    pub history_entry: Color,
    pub history_scroll_hint: Color,
    pub move_border: Color,
    pub selected_bg: Color,
    pub selected_fg: Color,
    pub filter_input: Color,
    pub separator: Color,
    pub no_results: Color,
    pub field_text: Color,
    pub title_text: Color,
}

impl ThemeConfig {
    /// The colours this configuration names.
    pub open spec fn theme_of(&self) -> Theme {
        Theme {
            active_border: color_of(lowercase(self.active_border.text())),
            inactive_border: color_of(lowercase(self.inactive_border.text())),
            task_completed: color_of(lowercase(self.task_completed.text())),
            task_highlight_bg: color_of(lowercase(self.task_highlight_bg.text())),
            task_highlight_fg: color_of(lowercase(self.task_highlight_fg.text())),
            help_key: color_of(lowercase(self.help_key.text())),
            status_success: color_of(lowercase(self.status_success.text())),
            status_error: color_of(lowercase(self.status_error.text())),
            status_info: color_of(lowercase(self.status_info.text())),
            popup_bg: color_of(lowercase(self.popup_bg.text())),
            popup_text: color_of(lowercase(self.popup_text.text())),
            popup_label: color_of(lowercase(self.popup_label.text())),
            popup_active_input: color_of(lowercase(self.popup_active_input.text())),
            popup_inactive_input: color_of(lowercase(self.popup_inactive_input.text())),
            popup_hint: color_of(lowercase(self.popup_hint.text())),
            popup_help: color_of(lowercase(self.popup_help.text())),
            popup_error: color_of(lowercase(self.popup_error.text())),
            project_border: color_of(lowercase(self.project_border.text())),
            new_project_border: color_of(lowercase(self.new_project_border.text())),
            confirm_border: color_of(lowercase(self.confirm_border.text())),
            confirm_prompt: color_of(lowercase(self.confirm_prompt.text())),
            confirm_yes: color_of(lowercase(self.confirm_yes.text())),
            confirm_no: color_of(lowercase(self.confirm_no.text())),
            history_border: color_of(lowercase(self.history_border.text())),
            history_entry: color_of(lowercase(self.history_entry.text())),
            history_scroll_hint: color_of(lowercase(self.history_scroll_hint.text())),
            move_border: color_of(lowercase(self.move_border.text())),
            selected_bg: color_of(lowercase(self.selected_bg.text())),
            selected_fg: color_of(lowercase(self.selected_fg.text())),
            filter_input: color_of(lowercase(self.filter_input.text())),
            separator: color_of(lowercase(self.separator.text())),
            no_results: color_of(lowercase(self.no_results.text())),
            field_text: color_of(lowercase(self.field_text.text())),
            title_text: color_of(lowercase(self.title_text.text())),
        }
    }

    /// Whether every colour text of the configuration can be read.
    pub open spec fn readable(&self) -> bool {
        &&& color_readable(self.active_border.text())
        &&& color_readable(self.inactive_border.text())
        &&& color_readable(self.task_completed.text())
        &&& color_readable(self.task_highlight_bg.text())
        &&& color_readable(self.task_highlight_fg.text())
        &&& color_readable(self.help_key.text())
        &&& color_readable(self.status_success.text())
        &&& color_readable(self.status_error.text())
        &&& color_readable(self.status_info.text())
        &&& color_readable(self.popup_bg.text())
        &&& color_readable(self.popup_text.text())
        &&& color_readable(self.popup_label.text())
        &&& color_readable(self.popup_active_input.text())
        &&& color_readable(self.popup_inactive_input.text())
        &&& color_readable(self.popup_hint.text())
        &&& color_readable(self.popup_help.text())
        &&& color_readable(self.popup_error.text())
        &&& color_readable(self.project_border.text())
        &&& color_readable(self.new_project_border.text())
        &&& color_readable(self.confirm_border.text())
        &&& color_readable(self.confirm_prompt.text())
        &&& color_readable(self.confirm_yes.text())
        &&& color_readable(self.confirm_no.text())
        &&& color_readable(self.history_border.text())
        &&& color_readable(self.history_entry.text())
        &&& color_readable(self.history_scroll_hint.text())
        &&& color_readable(self.move_border.text())
        &&& color_readable(self.selected_bg.text())
        &&& color_readable(self.selected_fg.text())
        &&& color_readable(self.filter_input.text())
        &&& color_readable(self.separator.text())
        &&& color_readable(self.no_results.text())
        &&& color_readable(self.field_text.text())
        &&& color_readable(self.title_text.text())
    }

    /// Whether every colour text of the configuration can be read.
    pub fn is_readable(&self) -> (r: bool)
        ensures
            r == self.readable(),
    {
        self.active_border.is_readable()
            && self.inactive_border.is_readable()
            && self.task_completed.is_readable()
            && self.task_highlight_bg.is_readable()
            && self.task_highlight_fg.is_readable()
            && self.help_key.is_readable()
            && self.status_success.is_readable()
            && self.status_error.is_readable()
            && self.status_info.is_readable()
            && self.popup_bg.is_readable()
            && self.popup_text.is_readable()
            && self.popup_label.is_readable()
            && self.popup_active_input.is_readable()
            && self.popup_inactive_input.is_readable()
            && self.popup_hint.is_readable()
            && self.popup_help.is_readable()
            && self.popup_error.is_readable()
            && self.project_border.is_readable()
            && self.new_project_border.is_readable()
            && self.confirm_border.is_readable()
            && self.confirm_prompt.is_readable()
            && self.confirm_yes.is_readable()
            && self.confirm_no.is_readable()
            && self.history_border.is_readable()
            && self.history_entry.is_readable()
            && self.history_scroll_hint.is_readable()
            && self.move_border.is_readable()
            && self.selected_bg.is_readable()
            && self.selected_fg.is_readable()
            && self.filter_input.is_readable()
            && self.separator.is_readable()
            && self.no_results.is_readable()
            && self.field_text.is_readable()
            && self.title_text.is_readable()
    }
}

impl Default for ThemeConfig {
    /// The built-in colours.
    fn default() -> (r: ThemeConfig)
        ensures
            r.active_border.text() == "yellow"@,
            r.inactive_border.text() == "reset"@,
            r.task_completed.text() == "dark_gray"@,
            r.task_highlight_bg.text() == "dark_gray"@,
            r.task_highlight_fg.text() == "white"@,
            r.help_key.text() == "cyan"@,
            r.status_success.text() == "green"@,
            r.status_error.text() == "red"@,
            r.status_info.text() == "yellow"@,
            r.popup_bg.text() == "black"@,
            r.popup_text.text() == "white"@,
            r.popup_label.text() == "green"@,
            r.popup_active_input.text() == "yellow"@,
            r.popup_inactive_input.text() == "white"@,
            r.popup_hint.text() == "gray"@,
            r.popup_help.text() == "cyan"@,
            r.popup_error.text() == "red"@,
            r.project_border.text() == "yellow"@,
            r.new_project_border.text() == "green"@,
            r.confirm_border.text() == "yellow"@,
            r.confirm_prompt.text() == "yellow"@,
            r.confirm_yes.text() == "green"@,
            r.confirm_no.text() == "red"@,
            r.history_border.text() == "cyan"@,
            r.history_entry.text() == "white"@,
            r.history_scroll_hint.text() == "yellow"@,
            r.move_border.text() == "magenta"@,
            r.selected_bg.text() == "white"@,
            r.selected_fg.text() == "black"@,
            r.filter_input.text() == "yellow"@,
            r.separator.text() == "dark_gray"@,
            r.no_results.text() == "dark_gray"@,
            r.field_text.text() == "reset"@,
            r.title_text.text() == "white"@,
    {
        ThemeConfig {
            active_border: default_active_border(),
            inactive_border: default_inactive_border(),
            task_completed: default_task_completed(),
            task_highlight_bg: default_task_highlight_bg(),
            task_highlight_fg: default_task_highlight_fg(),
            help_key: default_help_key(),
            status_success: default_status_success(),
            status_error: default_status_error(),
            status_info: default_status_info(),
            popup_bg: default_popup_bg(),
            popup_text: default_popup_text(),
            popup_label: default_popup_label(),
            popup_active_input: default_popup_active_input(),
            popup_inactive_input: default_popup_inactive_input(),
            popup_hint: default_popup_hint(),
            popup_help: default_popup_help(),
            popup_error: default_popup_error(),
            project_border: default_project_border(),
            new_project_border: default_new_project_border(),
            confirm_border: default_confirm_border(),
            confirm_prompt: default_confirm_prompt(),
            confirm_yes: default_confirm_yes(),
            confirm_no: default_confirm_no(),
            history_border: default_history_border(),
            history_entry: default_history_entry(),
            history_scroll_hint: default_history_scroll_hint(),
            move_border: default_move_border(),
            selected_bg: default_selected_bg(),
            selected_fg: default_selected_fg(),
            filter_input: default_filter_input(),
            separator: default_separator(),
            no_results: default_no_results(),
            field_text: default_field_text(),
            title_text: default_title_text(),
        }
    }
}

impl Theme {
    /// The colours of a configuration.
    pub fn from_config(config: &ThemeConfig) -> (r: Theme)
        requires
            config.readable(),
        ensures
            r == config.theme_of(),
    {
        Theme {
            active_border: config.active_border.to_color(),
            inactive_border: config.inactive_border.to_color(),
            task_completed: config.task_completed.to_color(),
            task_highlight_bg: config.task_highlight_bg.to_color(),
            task_highlight_fg: config.task_highlight_fg.to_color(),
            help_key: config.help_key.to_color(),
            status_success: config.status_success.to_color(),
            status_error: config.status_error.to_color(),
            status_info: config.status_info.to_color(),
            popup_bg: config.popup_bg.to_color(),
            popup_text: config.popup_text.to_color(),
            popup_label: config.popup_label.to_color(),
            popup_active_input: config.popup_active_input.to_color(),
            popup_inactive_input: config.popup_inactive_input.to_color(),
            popup_hint: config.popup_hint.to_color(),
            popup_help: config.popup_help.to_color(),
            popup_error: config.popup_error.to_color(),
            project_border: config.project_border.to_color(),
            new_project_border: config.new_project_border.to_color(),
            confirm_border: config.confirm_border.to_color(),
            confirm_prompt: config.confirm_prompt.to_color(),
            confirm_yes: config.confirm_yes.to_color(),
            confirm_no: config.confirm_no.to_color(),
            history_border: config.history_border.to_color(),
            history_entry: config.history_entry.to_color(),
            history_scroll_hint: config.history_scroll_hint.to_color(),
            move_border: config.move_border.to_color(),
            selected_bg: config.selected_bg.to_color(),
            selected_fg: config.selected_fg.to_color(),
            filter_input: config.filter_input.to_color(),
            separator: config.separator.to_color(),
            no_results: config.no_results.to_color(),
            field_text: config.field_text.to_color(),
            title_text: config.title_text.to_color(),
        }
    }

    /// The colours of a configuration, or `None` when one of its colour
    /// texts cannot be read.
    pub fn checked_from_config(config: &ThemeConfig) -> (r: Option<Theme>)
        ensures
            config.readable() ==> r == Some(config.theme_of()),
            !config.readable() ==> r is None,
    {
        if config.is_readable() {
            Some(Theme::from_config(config))
        } else {
            None
        }
    }
}

} // verus!
