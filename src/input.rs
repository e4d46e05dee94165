//! The input state machine: which key does what in each mode, and the edits it makes to
//! the typed text.
//!
//! Keys arrive as [`KeyEvent`] values of this crate; the terminal front end converts its
//! own events. Text positions count characters.

use vstd::prelude::*;

use crate::models::InputMode;
use crate::text::{
    after_last, after_last_start, chars_of, is_whitespace, push_char, push_str, string_of,
    string_of_range, subvec, trim_end,
};

verus! {

#[derive(Clone, Copy, Debug, PartialEq, Eq, Structural)]
pub enum KeyAction {
    // Normal mode actions
    EnterEditMode,
    Quit,
    SelectTab(usize),
    MoveUp,
    MoveDown,
    PauseResume,
    Delete,
    DeleteFile,
    PurgeCompleted,
    MoveToTop,
    MoveToBottom,
    PageUp,
    PageDown,
    EnterSearchMode,
    ClearSearch,
    ShowHelp,
    ShowSpeedLimit,
    RetryDownload,
    OpenFile,
    OpenFolder,
    CopyUrl,
    CopyPath,
    CycleSort,
    ToggleSortDirection,
    MoveQueueUp,
    MoveQueueDown,
    ToggleSelect,
    SelectAll,
    DeselectAll,
    PauseAll,
    ResumeAll,
    // Editing mode actions
    SubmitInput,
    CancelInput,
    DeleteChar,
    DeleteWord,
    ClearAll,
    MoveCursorLeft,
    MoveCursorRight,
    MoveCursorStart,
    MoveCursorEnd,
    // Search mode actions
    SearchSubmit,
    SearchCancel,
    SearchDeleteChar,
    // Speed limit mode actions
    SpeedLimitConfirm,
    SpeedLimitCancel,
    SpeedLimitToggleField,
    SpeedLimitIncrease,
    SpeedLimitDecrease,
    // Help mode actions
    HelpClose,
    HelpScrollUp,
    HelpScrollDown,
    // Confirmation actions
    ConfirmYes,
    ConfirmNo,
    /// The key does nothing in this mode.
    NoAction,
}

/// A key, as the input state machine sees it.
#[derive(Clone, Copy, Debug, PartialEq, Eq, Structural)]
pub enum KeyCode {
    Char(char),
    Enter,
    Esc,
    Backspace,
    Delete,
    Left,
    Right,
    Up,
    Down,
    Home,
    End,
    PageUp,
    PageDown,
    Tab,
    F(u8),
    /// Any key the input state machine has no use for.
    Other,
}

/// A key press with the modifiers that matter here.
#[derive(Clone, Copy, Debug, PartialEq, Eq, Structural)]
pub struct KeyEvent {
    pub code: KeyCode,
    pub shift: bool,
    pub control: bool,
}

/// A character the speed limit field accepts: a digit, a point, or a unit letter g, m, k.
pub open spec fn limit_char(c: char) -> bool {
    ('0' <= c && c <= '9') || c == '.' || c == 'm' || c == 'k' || c == 'g'
}

/// The characters of `s` that the speed limit field accepts.
pub open spec fn limit_chars(s: Seq<char>) -> Seq<char>
    decreases s.len(),
{
    if s.len() == 0 {
        s
    } else if limit_char(s.last()) {
        limit_chars(s.drop_last()).push(s.last())
    } else {
        limit_chars(s.drop_last())
    }
}

/// Where deleting a word back from `cursor` stops: just after the last space before
/// the cursor, trailing white space aside; the start when there is none.
pub open spec fn word_start(buf: Seq<char>, cursor: int) -> int {
    let t = trim_end(buf.subrange(0, cursor));
    t.len() - after_last(t, ' ').len()
}

/// What a key does in normal mode.
pub open spec fn normal_action(key: KeyEvent) -> KeyAction {
    if key.shift && (key.code == KeyCode::Delete) {
        KeyAction::DeleteFile
    } else if key.shift && (key.code == KeyCode::Up || key.code == KeyCode::Char('K')) {
        KeyAction::MoveQueueUp
    } else if key.shift && (key.code == KeyCode::Down || key.code == KeyCode::Char('J')) {
        KeyAction::MoveQueueDown
    } else if key.shift && key.code == KeyCode::Char('P') {
        KeyAction::PauseAll
    } else if key.shift && key.code == KeyCode::Char('R') {
        KeyAction::ResumeAll
    } else if key.control && key.code == KeyCode::Char('a') {
        KeyAction::SelectAll
    } else if key.control && key.code == KeyCode::Char('d') {
        KeyAction::DeselectAll
    } else if key.control && key.code == KeyCode::Char('u') {
        KeyAction::PageUp
    } else {
        plain_normal_action(key.code)
    }
}

/// What a key without a modifier combination does in normal mode.
pub open spec fn plain_normal_action(code: KeyCode) -> KeyAction {
    match code {
        KeyCode::Char(c) => {
            if c == 'i' || c == 'I' {
                KeyAction::EnterEditMode
            } else if c == 'q' || c == 'Q' {
                KeyAction::Quit
            } else if c == '1' {
                KeyAction::SelectTab(0)
            } else if c == '2' {
                KeyAction::SelectTab(1)
            } else if c == '3' {
                KeyAction::SelectTab(2)
            } else if c == 'k' {
                KeyAction::MoveUp
            } else if c == 'j' {
                KeyAction::MoveDown
            } else if c == 'g' {
                KeyAction::MoveToTop
            } else if c == 'G' {
                KeyAction::MoveToBottom
            } else if c == ' ' || c == 'p' {
                KeyAction::PauseResume
            } else if c == 'd' {
                KeyAction::Delete
            } else if c == 'x' || c == 'X' {
                KeyAction::PurgeCompleted
            } else if c == 'r' {
                KeyAction::RetryDownload
            } else if c == '/' {
                KeyAction::EnterSearchMode
            } else if c == '?' {
                KeyAction::ShowHelp
            } else if c == 'l' || c == 'L' {
                KeyAction::ShowSpeedLimit
            } else if c == 'o' {
                KeyAction::OpenFile
            } else if c == 'O' {
                KeyAction::OpenFolder
            } else if c == 'c' {
                KeyAction::CopyUrl
            } else if c == 'C' {
                KeyAction::CopyPath
            } else if c == 's' {
                KeyAction::CycleSort
            } else if c == 'S' {
                KeyAction::ToggleSortDirection
            } else if c == 'v' || c == 'V' {
                KeyAction::ToggleSelect
            } else {
                KeyAction::NoAction
            }
        },
        KeyCode::Up => KeyAction::MoveUp,
        KeyCode::Down => KeyAction::MoveDown,
        KeyCode::Home => KeyAction::MoveToTop,
        KeyCode::End => KeyAction::MoveToBottom,
        KeyCode::PageUp => KeyAction::PageUp,
        KeyCode::PageDown => KeyAction::PageDown,
        KeyCode::Esc => KeyAction::ClearSearch,
        KeyCode::F(n) => if n == 1 {
            KeyAction::ShowHelp
        } else {
            KeyAction::NoAction
        },
        _ => KeyAction::NoAction,
    }
}

/// What a key does in help mode.
pub open spec fn help_action(code: KeyCode) -> KeyAction {
    match code {
        KeyCode::Esc | KeyCode::Enter => KeyAction::HelpClose,
        KeyCode::Char(c) => if c == 'q' || c == '?' {
            KeyAction::HelpClose
        } else if c == 'k' {
            KeyAction::HelpScrollUp
        } else if c == 'j' {
            KeyAction::HelpScrollDown
        } else {
            KeyAction::NoAction
        },
        KeyCode::Up => KeyAction::HelpScrollUp,
        KeyCode::Down => KeyAction::HelpScrollDown,
        _ => KeyAction::NoAction,
    }
}

/// What a key does in confirmation mode.
pub open spec fn confirmation_action(code: KeyCode) -> KeyAction {
    match code {
        KeyCode::Char(c) => if c == 'y' || c == 'Y' {
            KeyAction::ConfirmYes
        } else if c == 'n' || c == 'N' {
            KeyAction::ConfirmNo
        } else {
            KeyAction::NoAction
        },
        KeyCode::Esc => KeyAction::ConfirmNo,
        _ => KeyAction::NoAction,
    }
}

/// What a key does in settings mode.
pub open spec fn settings_action(code: KeyCode) -> KeyAction {
    match code {
        KeyCode::Esc => KeyAction::CancelInput,
        KeyCode::Char(c) => if c == 'q' {
            KeyAction::CancelInput
        } else {
            KeyAction::NoAction
        },
        KeyCode::Enter => KeyAction::SubmitInput,
        _ => KeyAction::NoAction,
    }
}

/// `s` with `c` put at position `i`.
pub open spec fn inserted(s: Seq<char>, i: int, c: char) -> Seq<char> {
    s.subrange(0, i).push(c) + s.subrange(i, s.len() as int)
}

/// The text with `c` inserted at character position `at`.
fn insert_char_at(s: &String, at: usize, c: char) -> (r: String)
    requires
        at <= s@.len(),
    ensures
        r@ == inserted(s@, at as int, c),
{
    let v = chars_of(s.as_str());
    let mut r = string_of_range(&v, 0, at);
    push_char(&mut r, c);
    let tail = string_of_range(&v, at, v.len());
    push_str(&mut r, tail.as_str());
    r
}

/// The text with the character at position `at` taken out.
fn remove_char_at(s: &String, at: usize) -> (r: String)
    requires
        at < s@.len(),
    ensures
        r@ == s@.remove(at as int),
{
    let v = chars_of(s.as_str());
    let n = v.len();
    assert(at < n);
    let mut r = string_of_range(&v, 0, at);
    let tail = string_of_range(&v, at + 1, n);
    push_str(&mut r, tail.as_str());
    assert(r@ =~= s@.remove(at as int));
    r
}

/// The text without its last character (unchanged when empty).
fn without_last(s: &String) -> (r: String)
    ensures
        s@.len() > 0 ==> r@ == s@.drop_last(),
        s@.len() == 0 ==> r@ == s@,
{
    let v = chars_of(s.as_str());
    if v.len() == 0 {
        return String::new();
    }
    let r = string_of_range(&v, 0, v.len() - 1);
    assert(r@ =~= s@.drop_last());
    r
}

/// The position just after the last space of `v`, trailing white space aside (0 when none).
fn word_start_exec(v: &Vec<char>, cursor: usize) -> (r: usize)
    requires
        cursor <= v@.len(),
    ensures
        r as int == word_start(v@, cursor as int),
        r <= cursor,
{
    let mut end = cursor;
    assert(v@.subrange(0, cursor as int) =~= v@.subrange(0, end as int));
    while end > 0 && is_whitespace(v[end - 1])
        invariant
            end <= cursor <= v@.len(),
            trim_end(v@.subrange(0, cursor as int)) == trim_end(v@.subrange(0, end as int)),
        decreases end,
    {
        assert(v@.subrange(0, end as int).drop_last() =~= v@.subrange(0, end - 1));
        end -= 1;
    }
    let t = subvec(v, 0, end);
    assert(trim_end(t@) == t@);
    let start = after_last_start(&t, ' ');
    start
}

/// The text with the word before the cursor deleted (see [`word_start`]).
pub open spec fn without_word(buf: Seq<char>, cursor: int) -> Seq<char> {
    buf.subrange(0, word_start(buf, cursor)) + buf.subrange(cursor, buf.len() as int)
}

/// What a key does to the handler in editing mode: line editing at the cursor.
pub open spec fn editing_step(old: InputHandler, new: InputHandler, key: KeyEvent, r: KeyAction) -> bool {
    let cur = old.cursor_position as int;
    let buf = old.buffer@;
    let ctrl = |c: char| key.control && key.code == KeyCode::Char(c);
    &&& new.cursor_ok()
    &&& new.mode == old.mode
    &&& new.search_query == old.search_query
    &&& new.speed_limit_buffer == old.speed_limit_buffer
    &&& if ctrl('u') {
        r == KeyAction::ClearAll && new.buffer@.len() == 0 && new.cursor_position == 0
    } else if ctrl('w') {
        r == KeyAction::DeleteWord && if cur > 0 {
            new.buffer@ == without_word(buf, cur) && new.cursor_position == word_start(buf, cur)
        } else {
            new.buffer@ == buf && new.cursor_position == 0
        }
    } else if ctrl('a') {
        r == KeyAction::MoveCursorStart && new.buffer@ == buf && new.cursor_position == 0
    } else if ctrl('e') {
        r == KeyAction::MoveCursorEnd && new.buffer@ == buf && new.cursor_position == buf.len()
    } else {
        match key.code {
            KeyCode::Enter => r == KeyAction::SubmitInput && new == old,
            KeyCode::Esc => r == KeyAction::CancelInput && new == old,
            KeyCode::Backspace => r == KeyAction::DeleteChar && if cur > 0 {
                new.cursor_position == cur - 1 && new.buffer@ == buf.remove(cur - 1)
            } else {
                new == old
            },
            KeyCode::Delete => r == KeyAction::DeleteChar && new.cursor_position == cur && if cur < buf.len() {
                new.buffer@ == buf.remove(cur)
            } else {
                new.buffer@ == buf
            },
            KeyCode::Left => r == KeyAction::MoveCursorLeft && new.buffer@ == buf && new.cursor_position == if cur
                > 0 {
                cur - 1
            } else {
                0
            },
            KeyCode::Right => r == KeyAction::MoveCursorRight && new.buffer@ == buf && new.cursor_position == if cur
                < buf.len() {
                cur + 1
            } else {
                cur
            },
            KeyCode::Home => r == KeyAction::MoveCursorStart && new.buffer@ == buf && new.cursor_position == 0,
            KeyCode::End => r == KeyAction::MoveCursorEnd && new.buffer@ == buf && new.cursor_position == buf.len(),
            KeyCode::Char(c) => r == KeyAction::NoAction && new.buffer@ == inserted(buf, cur, c)
                && new.cursor_position == cur + 1,
            _ => r == KeyAction::NoAction && new == old,
        }
    }
}

/// A text without its last character (unchanged when empty).
pub open spec fn drop_last_char(s: Seq<char>) -> Seq<char> {
    if s.len() > 0 {
        s.drop_last()
    } else {
        s
    }
}

/// What a key does to the handler in search mode: typing edits the query; Enter keeps
/// it, Esc clears it, and both go back to normal mode.
pub open spec fn search_step(old: InputHandler, new: InputHandler, key: KeyEvent, r: KeyAction) -> bool {
    &&& new.buffer == old.buffer
    &&& new.cursor_position == old.cursor_position
    &&& new.speed_limit_buffer == old.speed_limit_buffer
    &&& match key.code {
        KeyCode::Enter => r == KeyAction::SearchSubmit && new.mode == InputMode::Normal && new.search_query
            == old.search_query,
        KeyCode::Esc => r == KeyAction::SearchCancel && new.mode == InputMode::Normal && new.search_query@.len()
            == 0,
        KeyCode::Backspace => r == KeyAction::SearchDeleteChar && new.mode == old.mode && new.search_query@
            == drop_last_char(old.search_query@),
        KeyCode::Char(c) => r == KeyAction::NoAction && new.mode == old.mode && new.search_query@
            == old.search_query@.push(c),
        _ => r == KeyAction::NoAction && new == old,
    }
}

/// What a key does to the handler in speed limit mode: keys to confirm, cancel, switch
/// field and step the limit; accepted characters are typed into the field.
pub open spec fn speed_limit_step(old: InputHandler, new: InputHandler, key: KeyEvent, r: KeyAction) -> bool {
    &&& new.mode == old.mode
    &&& new.buffer == old.buffer
    &&& new.cursor_position == old.cursor_position
    &&& new.search_query == old.search_query
    &&& r == match key.code {
        KeyCode::Enter => KeyAction::SpeedLimitConfirm,
        KeyCode::Esc => KeyAction::SpeedLimitCancel,
        KeyCode::Tab | KeyCode::Up | KeyCode::Down => KeyAction::SpeedLimitToggleField,
        KeyCode::Right => KeyAction::SpeedLimitIncrease,
        KeyCode::Left => KeyAction::SpeedLimitDecrease,
        _ => KeyAction::NoAction,
    }
    &&& new.speed_limit_buffer@ == match key.code {
        KeyCode::Backspace => drop_last_char(old.speed_limit_buffer@),
        KeyCode::Char(c) => if limit_char(c) {
            old.speed_limit_buffer@.push(c)
        } else {
            old.speed_limit_buffer@
        },
        _ => old.speed_limit_buffer@,
    }
}

pub struct InputHandler {
    pub mode: InputMode,
    pub buffer: String,
    pub search_query: String,
    /// Position of the cursor in `buffer`, in characters.
    pub cursor_position: usize,
    pub speed_limit_buffer: String,
}

impl InputHandler {
    pub fn new() -> (r: Self)
        ensures
            r.mode == InputMode::Normal,
            r.buffer@.len() == 0,
            r.search_query@.len() == 0,
            r.cursor_position == 0,
            r.speed_limit_buffer@.len() == 0,
    {
        InputHandler {
            mode: InputMode::Normal,
            buffer: String::new(),
            search_query: String::new(),
            cursor_position: 0,
            speed_limit_buffer: String::new(),
        }
    }

    /// Whether the cursor is within the typed text.
    pub open spec fn cursor_ok(&self) -> bool {
        self.cursor_position <= self.buffer@.len()
    }

    /// Dispatches a key to the handler of the current mode.
    pub fn handle_key(&mut self, key: &KeyEvent) -> (r: KeyAction)
        requires
            old(self).mode == InputMode::Editing ==> old(self).cursor_ok(),
        ensures
            final(self).mode == InputMode::Editing ==> final(self).cursor_ok(),
            old(self).mode == InputMode::Normal ==> r == normal_action(*key) && *final(self) == *old(self),
            old(self).mode == InputMode::Editing ==> editing_step(*old(self), *final(self), *key, r),
            old(self).mode == InputMode::Search ==> search_step(*old(self), *final(self), *key, r),
            old(self).mode == InputMode::SpeedLimit ==> speed_limit_step(*old(self), *final(self), *key, r),
            old(self).mode == InputMode::Help ==> r == help_action(key.code) && *final(self) == *old(self),
            old(self).mode == InputMode::Confirmation ==> r == confirmation_action(key.code) && *final(self)
                == *old(self),
            old(self).mode == InputMode::Settings ==> r == settings_action(key.code) && *final(self) == *old(self),
    {
        match self.mode {
            InputMode::Normal => self.handle_normal_mode(key),
            InputMode::Editing => self.handle_input_mode(key),
            InputMode::Search => self.handle_search_mode(key),
            InputMode::SpeedLimit => self.handle_speed_limit_mode(key),
            InputMode::Help => self.handle_help_mode(key),
            InputMode::Confirmation => self.handle_confirmation_mode(key),
            InputMode::Settings => self.handle_settings_mode(key),
        }
    }

    /// Normal mode: maps the key to an action; changes nothing.
    pub fn handle_normal_mode(&mut self, key: &KeyEvent) -> (r: KeyAction)
        ensures
            r == normal_action(*key),
            *final(self) == *old(self),
    {
        if key.shift {
            match key.code {
                KeyCode::Delete => {
                    return KeyAction::DeleteFile;
                },
                KeyCode::Up => {
                    return KeyAction::MoveQueueUp;
                },
                KeyCode::Down => {
                    return KeyAction::MoveQueueDown;
                },
                KeyCode::Char(c) => {
                    if c == 'K' {
                        return KeyAction::MoveQueueUp;
                    } else if c == 'J' {
                        return KeyAction::MoveQueueDown;
                    } else if c == 'P' {
                        return KeyAction::PauseAll;
                    } else if c == 'R' {
                        return KeyAction::ResumeAll;
                    }
                },
                _ => {},
            }
        }
        if key.control {
            match key.code {
                KeyCode::Char(c) => {
                    if c == 'a' {
                        return KeyAction::SelectAll;
                    } else if c == 'd' {
                        return KeyAction::DeselectAll;
                    } else if c == 'u' {
                        return KeyAction::PageUp;
                    }
                },
                _ => {},
            }
        }
        match key.code {
            KeyCode::Char(c) => {
                if c == 'i' || c == 'I' {
                    KeyAction::EnterEditMode
                } else if c == 'q' || c == 'Q' {
                    KeyAction::Quit
                } else if c == '1' {
                    KeyAction::SelectTab(0)
                } else if c == '2' {
                    KeyAction::SelectTab(1)
                } else if c == '3' {
                    KeyAction::SelectTab(2)
                } else if c == 'k' {
                    KeyAction::MoveUp
                } else if c == 'j' {
                    KeyAction::MoveDown
                } else if c == 'g' {
                    KeyAction::MoveToTop
                } else if c == 'G' {
                    KeyAction::MoveToBottom
                } else if c == ' ' || c == 'p' {
                    KeyAction::PauseResume
                } else if c == 'd' {
                    KeyAction::Delete
                } else if c == 'x' || c == 'X' {
                    KeyAction::PurgeCompleted
                } else if c == 'r' {
                    KeyAction::RetryDownload
                } else if c == '/' {
                    KeyAction::EnterSearchMode
                } else if c == '?' {
                    KeyAction::ShowHelp
                } else if c == 'l' || c == 'L' {
                    KeyAction::ShowSpeedLimit
                } else if c == 'o' {
                    KeyAction::OpenFile
                } else if c == 'O' {
                    KeyAction::OpenFolder
                } else if c == 'c' {
                    KeyAction::CopyUrl
                } else if c == 'C' {
                    KeyAction::CopyPath
                } else if c == 's' {
                    KeyAction::CycleSort
                } else if c == 'S' {
                    KeyAction::ToggleSortDirection
                } else if c == 'v' || c == 'V' {
                    KeyAction::ToggleSelect
                } else {
                    KeyAction::NoAction
                }
            },
            KeyCode::Up => KeyAction::MoveUp,
            KeyCode::Down => KeyAction::MoveDown,
            KeyCode::Home => KeyAction::MoveToTop,
            KeyCode::End => KeyAction::MoveToBottom,
            KeyCode::PageUp => KeyAction::PageUp,
            KeyCode::PageDown => KeyAction::PageDown,
            KeyCode::Esc => KeyAction::ClearSearch,
            KeyCode::F(n) => if n == 1 {
                KeyAction::ShowHelp
            } else {
                KeyAction::NoAction
            },
            _ => KeyAction::NoAction,
        }
    }

    /// Editing mode: line editing of the typed text at the cursor.
    pub fn handle_input_mode(&mut self, key: &KeyEvent) -> (r: KeyAction)
        requires
            old(self).cursor_ok(),
        ensures
            editing_step(*old(self), *final(self), *key, r),
    {
        if key.control {
            match key.code {
                KeyCode::Char(c) => {
                    if c == 'u' {
                        self.buffer = String::new();
                        self.cursor_position = 0;
                        return KeyAction::ClearAll;
                    } else if c == 'w' {
                        if self.cursor_position > 0 {
                            let v = chars_of(self.buffer.as_str());
                            let w = word_start_exec(&v, self.cursor_position);
                            let mut nb = string_of_range(&v, 0, w);
                            let tail = string_of_range(&v, self.cursor_position, v.len());
                            push_str(&mut nb, tail.as_str());
                            self.buffer = nb;
                            self.cursor_position = w;
                        }
                        return KeyAction::DeleteWord;
                    } else if c == 'a' {
                        self.cursor_position = 0;
                        return KeyAction::MoveCursorStart;
                    } else if c == 'e' {
                        self.cursor_position = chars_of(self.buffer.as_str()).len();
                        return KeyAction::MoveCursorEnd;
                    }
                },
                _ => {},
            }
        }
        match key.code {
            KeyCode::Enter => KeyAction::SubmitInput,
            KeyCode::Esc => KeyAction::CancelInput,
            KeyCode::Backspace => {
                if self.cursor_position > 0 {
                    self.cursor_position = self.cursor_position - 1;
                    self.buffer = remove_char_at(&self.buffer, self.cursor_position);
                }
                KeyAction::DeleteChar
            },
            KeyCode::Delete => {
                if self.cursor_position < chars_of(self.buffer.as_str()).len() {
                    self.buffer = remove_char_at(&self.buffer, self.cursor_position);
                }
                KeyAction::DeleteChar
            },
            KeyCode::Left => {
                if self.cursor_position > 0 {
                    self.cursor_position = self.cursor_position - 1;
                }
                KeyAction::MoveCursorLeft
            },
            KeyCode::Right => {
                if self.cursor_position < chars_of(self.buffer.as_str()).len() {
                    self.cursor_position = self.cursor_position + 1;
                }
                KeyAction::MoveCursorRight
            },
            KeyCode::Home => {
                self.cursor_position = 0;
                KeyAction::MoveCursorStart
            },
            KeyCode::End => {
                self.cursor_position = chars_of(self.buffer.as_str()).len();
                KeyAction::MoveCursorEnd
            },
            KeyCode::Char(c) => {
                self.buffer = insert_char_at(&self.buffer, self.cursor_position, c);
                let n = chars_of(self.buffer.as_str()).len();
                assert(self.cursor_position < n);
                self.cursor_position = self.cursor_position + 1;
                KeyAction::NoAction
            },
            _ => KeyAction::NoAction,
        }
    }

    /// Search mode: typing edits the query; Enter keeps it, Esc clears it, both leave
    /// search mode.
    pub fn handle_search_mode(&mut self, key: &KeyEvent) -> (r: KeyAction)
        ensures
            search_step(*old(self), *final(self), *key, r),
    {
        match key.code {
            KeyCode::Enter => {
                self.mode = InputMode::Normal;
                KeyAction::SearchSubmit
            },
            KeyCode::Esc => {
                self.search_query = String::new();
                self.mode = InputMode::Normal;
                KeyAction::SearchCancel
            },
            KeyCode::Backspace => {
                self.search_query = without_last(&self.search_query);
                KeyAction::SearchDeleteChar
            },
            KeyCode::Char(c) => {
                push_char(&mut self.search_query, c);
                KeyAction::NoAction
            },
            _ => KeyAction::NoAction,
        }
    }

    /// Speed limit mode: keys to confirm, cancel, switch field and step the limit; digits,
    /// '.', and the unit letters g, m, k are typed into the field.
    pub fn handle_speed_limit_mode(&mut self, key: &KeyEvent) -> (r: KeyAction)
        ensures
            speed_limit_step(*old(self), *final(self), *key, r),
    {
        match key.code {
            KeyCode::Enter => KeyAction::SpeedLimitConfirm,
            KeyCode::Esc => KeyAction::SpeedLimitCancel,
            KeyCode::Tab | KeyCode::Up | KeyCode::Down => KeyAction::SpeedLimitToggleField,
            KeyCode::Right => KeyAction::SpeedLimitIncrease,
            KeyCode::Left => KeyAction::SpeedLimitDecrease,
            KeyCode::Backspace => {
                self.speed_limit_buffer = without_last(&self.speed_limit_buffer);
                KeyAction::NoAction
            },
            KeyCode::Char(c) => {
                if ('0' <= c && c <= '9') || c == '.' || c == 'm' || c == 'k' || c == 'g' {
                    push_char(&mut self.speed_limit_buffer, c);
                }
                KeyAction::NoAction
            },
            _ => KeyAction::NoAction,
        }
    }

    /// Help mode: close or scroll.
    pub fn handle_help_mode(&mut self, key: &KeyEvent) -> (r: KeyAction)
        ensures
            r == help_action(key.code),
            *final(self) == *old(self),
    {
        match key.code {
            KeyCode::Esc | KeyCode::Enter => KeyAction::HelpClose,
            KeyCode::Char(c) => if c == 'q' || c == '?' {
                KeyAction::HelpClose
            } else if c == 'k' {
                KeyAction::HelpScrollUp
            } else if c == 'j' {
                KeyAction::HelpScrollDown
            } else {
                KeyAction::NoAction
            },
            KeyCode::Up => KeyAction::HelpScrollUp,
            KeyCode::Down => KeyAction::HelpScrollDown,
            _ => KeyAction::NoAction,
        }
    }

    /// Confirmation mode: yes or no.
    pub fn handle_confirmation_mode(&mut self, key: &KeyEvent) -> (r: KeyAction)
        ensures
            r == confirmation_action(key.code),
            *final(self) == *old(self),
    {
        match key.code {
            KeyCode::Char(c) => if c == 'y' || c == 'Y' {
                KeyAction::ConfirmYes
            } else if c == 'n' || c == 'N' {
                KeyAction::ConfirmNo
            } else {
                KeyAction::NoAction
            },
            KeyCode::Esc => KeyAction::ConfirmNo,
            _ => KeyAction::NoAction,
        }
    }

    /// Settings mode: close or confirm.
    pub fn handle_settings_mode(&mut self, key: &KeyEvent) -> (r: KeyAction)
        ensures
            r == settings_action(key.code),
            *final(self) == *old(self),
    {
        match key.code {
            KeyCode::Esc => KeyAction::CancelInput,
            KeyCode::Char(c) => if c == 'q' {
                KeyAction::CancelInput
            } else {
                KeyAction::NoAction
            },
            KeyCode::Enter => KeyAction::SubmitInput,
            _ => KeyAction::NoAction,
        }
    }

    /// Pasted text goes into the field of the current mode: at the cursor when editing, at
    /// the end of the query when searching, and filtered to the accepted characters in the
    /// speed limit field; elsewhere it is dropped.
    pub fn handle_paste(&mut self, data: &str)
        requires
            old(self).mode == InputMode::Editing ==> old(self).cursor_ok(),
            old(self).mode == InputMode::Editing ==> old(self).buffer@.len() + data@.len() <= usize::MAX,
        ensures
            final(self).mode == old(self).mode,
            old(self).mode == InputMode::Editing ==> {
                &&& final(self).buffer@ == old(self).buffer@.subrange(0, old(self).cursor_position as int)
                    + data@ + old(self).buffer@.subrange(
                    old(self).cursor_position as int,
                    old(self).buffer@.len() as int,
                )
                &&& final(self).cursor_position == old(self).cursor_position + data@.len()
                &&& final(self).search_query == old(self).search_query
                &&& final(self).speed_limit_buffer == old(self).speed_limit_buffer
            },
            old(self).mode == InputMode::Search ==> final(self).search_query@ == old(self).search_query@
                + data@ && final(self).buffer == old(self).buffer && final(self).speed_limit_buffer
                == old(self).speed_limit_buffer && final(self).cursor_position == old(self).cursor_position,
            old(self).mode == InputMode::SpeedLimit ==> final(self).speed_limit_buffer@
                == old(self).speed_limit_buffer@ + limit_chars(data@) && final(self).buffer == old(self).buffer
                && final(self).search_query == old(self).search_query && final(self).cursor_position
                == old(self).cursor_position,
            old(self).mode != InputMode::Editing && old(self).mode != InputMode::Search && old(self).mode
                != InputMode::SpeedLimit ==> *final(self) == *old(self),
    {
        match self.mode {
            InputMode::Editing => {
                let v = chars_of(self.buffer.as_str());
                let d = chars_of(data);
                let mut nb = string_of_range(&v, 0, self.cursor_position);
                push_str(&mut nb, data);
                let tail = string_of_range(&v, self.cursor_position, v.len());
                push_str(&mut nb, tail.as_str());
                self.buffer = nb;
                self.cursor_position = self.cursor_position + d.len();
            },
            InputMode::Search => {
                push_str(&mut self.search_query, data);
            },
            InputMode::SpeedLimit => {
                let d = chars_of(data);
                let mut cleaned: Vec<char> = Vec::new();
                let mut i: usize = 0;
                while i < d.len()
                    invariant
                        i <= d@.len(),
                        cleaned@ == limit_chars(d@.subrange(0, i as int)),
                    decreases d@.len() - i,
                {
                    assert(d@.subrange(0, i + 1).drop_last() =~= d@.subrange(0, i as int));
                    let c = d[i];
                    if ('0' <= c && c <= '9') || c == '.' || c == 'm' || c == 'k' || c == 'g' {
                        cleaned.push(c);
                    }
                    i += 1;
                }
                assert(d@.subrange(0, d@.len() as int) =~= d@);
                let s = string_of(&cleaned);
                push_str(&mut self.speed_limit_buffer, s.as_str());
            },
            _ => {},
        }
    }

    pub fn enter_edit_mode(&mut self)
        ensures
            final(self).mode == InputMode::Editing,
            final(self).buffer@.len() == 0,
            final(self).cursor_position == 0,
            final(self).search_query == old(self).search_query,
            final(self).speed_limit_buffer == old(self).speed_limit_buffer,
    {
        self.mode = InputMode::Editing;
        self.buffer = String::new();
        self.cursor_position = 0;
    }

    pub fn enter_search_mode(&mut self)
        ensures
            final(self).mode == InputMode::Search,
            final(self).search_query@.len() == 0,
            final(self).buffer == old(self).buffer,
            final(self).cursor_position == old(self).cursor_position,
            final(self).speed_limit_buffer == old(self).speed_limit_buffer,
    {
        self.mode = InputMode::Search;
        self.search_query = String::new();
    }

    pub fn enter_speed_limit_mode(&mut self)
        ensures
            final(self).mode == InputMode::SpeedLimit,
            final(self).speed_limit_buffer@.len() == 0,
            final(self).buffer == old(self).buffer,
            final(self).cursor_position == old(self).cursor_position,
            final(self).search_query == old(self).search_query,
    {
        self.mode = InputMode::SpeedLimit;
        self.speed_limit_buffer = String::new();
    }

    pub fn enter_help_mode(&mut self)
        ensures
            *final(self) == (InputHandler { mode: InputMode::Help, ..*old(self) }),
    {
        self.mode = InputMode::Help;
    }

    pub fn enter_confirmation_mode(&mut self)
        ensures
            *final(self) == (InputHandler { mode: InputMode::Confirmation, ..*old(self) }),
    {
        self.mode = InputMode::Confirmation;
    }

    pub fn exit_edit_mode(&mut self)
        ensures
            *final(self) == (InputHandler { mode: InputMode::Normal, ..*old(self) }),
    {
        self.mode = InputMode::Normal;
    }

    pub fn exit_to_normal(&mut self)
        ensures
            *final(self) == (InputHandler { mode: InputMode::Normal, ..*old(self) }),
    {
        self.mode = InputMode::Normal;
    }

    /// Deletes the character before the cursor when editing, or the last character of the
    /// search query or of the speed limit field.
    pub fn delete_last_char(&mut self)
        requires
            old(self).mode == InputMode::Editing ==> old(self).cursor_ok(),
        ensures
            final(self).mode == old(self).mode,
            old(self).mode == InputMode::Editing ==> if old(self).cursor_position > 0 {
                final(self).cursor_position == old(self).cursor_position - 1 && final(self).buffer@
                    == old(self).buffer@.remove(old(self).cursor_position - 1)
            } else {
                *final(self) == *old(self)
            },
            old(self).mode == InputMode::Search ==> final(self).search_query@ == if old(
                self,
            ).search_query@.len() > 0 {
                old(self).search_query@.drop_last()
            } else {
                old(self).search_query@
            },
            old(self).mode == InputMode::SpeedLimit ==> final(self).speed_limit_buffer@ == if old(
                self,
            ).speed_limit_buffer@.len() > 0 {
                old(self).speed_limit_buffer@.drop_last()
            } else {
                old(self).speed_limit_buffer@
            },
            old(self).mode != InputMode::Editing && old(self).mode != InputMode::Search && old(self).mode
                != InputMode::SpeedLimit ==> *final(self) == *old(self),
    {
        match self.mode {
            InputMode::Editing => {
                if self.cursor_position > 0 {
                    self.cursor_position = self.cursor_position - 1;
                    self.buffer = remove_char_at(&self.buffer, self.cursor_position);
                }
            },
            InputMode::Search => {
                self.search_query = without_last(&self.search_query);
            },
            InputMode::SpeedLimit => {
                self.speed_limit_buffer = without_last(&self.speed_limit_buffer);
            },
            _ => {},
        }
    }

    pub fn get_input(&self) -> (r: &str)
        ensures
            r@ == self.buffer@,
    {
        self.buffer.as_str()
    }

    pub fn get_search_query(&self) -> (r: &str)
        ensures
            r@ == self.search_query@,
    {
        self.search_query.as_str()
    }

    pub fn get_speed_limit_buffer(&self) -> (r: &str)
        ensures
            r@ == self.speed_limit_buffer@,
    {
        self.speed_limit_buffer.as_str()
    }

    /// Hands out the typed text, leaving the field empty and the cursor at its start.
    pub fn take_input(&mut self) -> (r: String)
        ensures
            r@ == old(self).buffer@,
            final(self).buffer@.len() == 0,
            final(self).cursor_position == 0,
            final(self).mode == old(self).mode,
            final(self).search_query == old(self).search_query,
            final(self).speed_limit_buffer == old(self).speed_limit_buffer,
    {
        self.cursor_position = 0;
        let mut taken = String::new();
        std::mem::swap(&mut taken, &mut self.buffer);
        taken
    }

    /// Hands out the search query, leaving it empty.
    pub fn take_search_query(&mut self) -> (r: String)
        ensures
            r@ == old(self).search_query@,
            final(self).search_query@.len() == 0,
            final(self).mode == old(self).mode,
            final(self).buffer == old(self).buffer,
            final(self).cursor_position == old(self).cursor_position,
            final(self).speed_limit_buffer == old(self).speed_limit_buffer,
    {
        let mut taken = String::new();
        std::mem::swap(&mut taken, &mut self.search_query);
        taken
    }

    /// Hands out the speed limit text, leaving it empty.
    pub fn take_speed_limit_buffer(&mut self) -> (r: String)
        ensures
            r@ == old(self).speed_limit_buffer@,
            final(self).speed_limit_buffer@.len() == 0,
            final(self).mode == old(self).mode,
            final(self).buffer == old(self).buffer,
            final(self).cursor_position == old(self).cursor_position,
            final(self).search_query == old(self).search_query,
    {
        let mut taken = String::new();
        std::mem::swap(&mut taken, &mut self.speed_limit_buffer);
        taken
    }

    pub fn clear_search(&mut self)
        ensures
            final(self).search_query@.len() == 0,
            final(self).mode == old(self).mode,
            final(self).buffer == old(self).buffer,
            final(self).cursor_position == old(self).cursor_position,
            final(self).speed_limit_buffer == old(self).speed_limit_buffer,
    {
        self.search_query = String::new();
    }

    /// Replaces the typed text, with the cursor at its end.
    pub fn set_buffer(&mut self, text: &str)
        ensures
            final(self).buffer@ == text@,
            final(self).cursor_position == text@.len(),
            final(self).mode == old(self).mode,
            final(self).search_query == old(self).search_query,
            final(self).speed_limit_buffer == old(self).speed_limit_buffer,
    {
        self.buffer = String::from_str(text);
        self.cursor_position = chars_of(text).len();
    }
}

impl Default for InputHandler {
    fn default() -> (r: Self)
        ensures
            r.mode == InputMode::Normal,
            r.buffer@.len() == 0,
            r.search_query@.len() == 0,
            r.cursor_position == 0,
            r.speed_limit_buffer@.len() == 0,
    {
        InputHandler::new()
    }
}

} // verus!
