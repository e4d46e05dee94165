//! The rows of the shortcut bar in each mode, as plain text segments; the front end
//! gives each kind of segment its style.

use vstd::prelude::*;

use crate::models::InputMode;

verus! {

/// What a segment of the shortcut bar is.
#[derive(Clone, Copy, Debug, PartialEq, Eq, Structural)]
pub enum HintKind {
    /// A key name.
    Key,
    /// What the key before it does.
    Desc,
    /// A marker at the start of a row, shown in the highlight colour.
    Highlight,
    /// A marker shown in the warning colour.
    Warning,
    /// A marker shown in the information colour.
    Info,
}

/// One segment: its text and kind.
pub type Hint = (&'static str, HintKind);

/// The text and kind of each segment of each row.
pub open spec fn rows_view(rows: Seq<Vec<Hint>>) -> Seq<Seq<(Seq<char>, HintKind)>> {
    rows.map_values(|row: Vec<Hint>| row@.map_values(|h: Hint| (h.0@, h.1)))
}

/// The two rows of normal mode, with a "clear" hint when a search filter is active.
pub open spec fn normal_rows(has_search: bool) -> Seq<Seq<(Seq<char>, HintKind)>> {
    if has_search {
        seq![
            seq![("i"@, HintKind::Key), (" add   "@, HintKind::Desc), ("/"@, HintKind::Key),
                (" search   "@, HintKind::Desc), ("Esc"@, HintKind::Key), (" clear   "@, HintKind::Desc),
                ("j/k"@, HintKind::Key), (" move   "@, HintKind::Desc), ("Space"@, HintKind::Key),
                (" pause   "@, HintKind::Desc), ("?"@, HintKind::Key), (" help"@, HintKind::Desc)],
            seq![("d"@, HintKind::Key), (" delete   "@, HintKind::Desc), ("r"@, HintKind::Key),
                (" retry   "@, HintKind::Desc), ("s"@, HintKind::Key), (" sort   "@, HintKind::Desc),
                ("l"@, HintKind::Key), (" limits   "@, HintKind::Desc), ("q"@, HintKind::Key),
                (" quit"@, HintKind::Desc)],
        ]
    } else {
        seq![
            seq![("i"@, HintKind::Key), (" add   "@, HintKind::Desc), ("/"@, HintKind::Key),
                (" search   "@, HintKind::Desc), ("Space"@, HintKind::Key), (" pause   "@, HintKind::Desc),
                ("d"@, HintKind::Key), (" delete   "@, HintKind::Desc), ("?"@, HintKind::Key),
                (" help"@, HintKind::Desc)],
            seq![("r"@, HintKind::Key), (" retry   "@, HintKind::Desc), ("s"@, HintKind::Key),
                (" sort   "@, HintKind::Desc), ("l"@, HintKind::Key), (" limits   "@, HintKind::Desc),
                ("o"@, HintKind::Key), (" open   "@, HintKind::Desc), ("1-3"@, HintKind::Key),
                (" tabs   "@, HintKind::Desc), ("q"@, HintKind::Key), (" quit"@, HintKind::Desc)],
        ]
    }
}

/// The rows of editing mode.
pub open spec fn editing_rows() -> Seq<Seq<(Seq<char>, HintKind)>> {
    seq![
        seq![("Enter"@, HintKind::Key), (" submit   "@, HintKind::Desc), ("Esc"@, HintKind::Key),
            (" cancel   "@, HintKind::Desc), ("Ctrl+U"@, HintKind::Key), (" clear   "@, HintKind::Desc),
            ("Ctrl+W"@, HintKind::Key), (" del word"@, HintKind::Desc)],
        seq![("<- ->"@, HintKind::Key), (" move   "@, HintKind::Desc), ("Home/End"@, HintKind::Key),
            (" start/end   "@, HintKind::Desc), ("Backspace"@, HintKind::Key), (" delete   "@, HintKind::Desc),
            ("Ctrl+V"@, HintKind::Key), (" paste"@, HintKind::Desc)],
    ]
}

/// The rows of the other modes: one row of hints and an empty one.
pub open spec fn single_rows(mode: InputMode) -> Seq<Seq<(Seq<char>, HintKind)>> {
    let row = match mode {
        InputMode::Search => seq![("[/] "@, HintKind::Highlight), ("Type to filter   "@, HintKind::Desc),
            ("Enter"@, HintKind::Key), (" apply   "@, HintKind::Desc), ("Esc"@, HintKind::Key),
            (" clear & exit   "@, HintKind::Desc), ("Backspace"@, HintKind::Key), (" delete"@, HintKind::Desc)],
        InputMode::SpeedLimit => seq![("[!] "@, HintKind::Warning), ("Set bandwidth   "@, HintKind::Desc),
            ("Tab"@, HintKind::Key), (" switch DL/UL   "@, HintKind::Desc), ("j/k"@, HintKind::Key),
            (" adjust   "@, HintKind::Desc), ("Enter"@, HintKind::Key), (" apply   "@, HintKind::Desc),
            ("Esc"@, HintKind::Key), (" cancel"@, HintKind::Desc)],
        InputMode::Help => seq![("[?] "@, HintKind::Info), ("Viewing help   "@, HintKind::Desc),
            ("j/k"@, HintKind::Key), (" scroll   "@, HintKind::Desc), ("Esc/?/q/Enter"@, HintKind::Key),
            (" close"@, HintKind::Desc)],
        InputMode::Confirmation => seq![("[!] "@, HintKind::Warning), ("Confirm action   "@, HintKind::Desc),
            ("y"@, HintKind::Key), (" yes   "@, HintKind::Desc), ("n/Esc"@, HintKind::Key), (" no"@, HintKind::Desc)],
        _ => seq![("[=] "@, HintKind::Info), ("Settings   "@, HintKind::Desc), ("j/k"@, HintKind::Key),
            (" navigate   "@, HintKind::Desc), ("Enter"@, HintKind::Key), (" edit   "@, HintKind::Desc),
            ("Esc"@, HintKind::Key), (" close"@, HintKind::Desc)],
    };
    seq![row, Seq::empty()]
}

/// Shortcuts for normal mode
pub fn normal_mode_shortcuts(has_search: bool) -> (r: Vec<Vec<Hint>>)
    ensures
        rows_view(r@) == normal_rows(has_search),
{
    let r = if has_search {
        vec![
            vec![("i", HintKind::Key), (" add   ", HintKind::Desc), ("/", HintKind::Key),
                (" search   ", HintKind::Desc), ("Esc", HintKind::Key), (" clear   ", HintKind::Desc),
                ("j/k", HintKind::Key), (" move   ", HintKind::Desc), ("Space", HintKind::Key),
                (" pause   ", HintKind::Desc), ("?", HintKind::Key), (" help", HintKind::Desc)],
            vec![("d", HintKind::Key), (" delete   ", HintKind::Desc), ("r", HintKind::Key),
                (" retry   ", HintKind::Desc), ("s", HintKind::Key), (" sort   ", HintKind::Desc),
                ("l", HintKind::Key), (" limits   ", HintKind::Desc), ("q", HintKind::Key),
                (" quit", HintKind::Desc)],
        ]
    } else {
        vec![
            vec![("i", HintKind::Key), (" add   ", HintKind::Desc), ("/", HintKind::Key),
                (" search   ", HintKind::Desc), ("Space", HintKind::Key), (" pause   ", HintKind::Desc),
                ("d", HintKind::Key), (" delete   ", HintKind::Desc), ("?", HintKind::Key),
                (" help", HintKind::Desc)],
            vec![("r", HintKind::Key), (" retry   ", HintKind::Desc), ("s", HintKind::Key),
                (" sort   ", HintKind::Desc), ("l", HintKind::Key), (" limits   ", HintKind::Desc),
                ("o", HintKind::Key), (" open   ", HintKind::Desc), ("1-3", HintKind::Key),
                (" tabs   ", HintKind::Desc), ("q", HintKind::Key), (" quit", HintKind::Desc)],
        ]
    };
    assert(rows_view(r@) =~~= normal_rows(has_search));
    r
}

/// Shortcuts for editing mode
pub fn editing_mode_shortcuts() -> (r: Vec<Vec<Hint>>)
    ensures
        rows_view(r@) == editing_rows(),
{
    let r = vec![
        vec![("Enter", HintKind::Key), (" submit   ", HintKind::Desc), ("Esc", HintKind::Key),
            (" cancel   ", HintKind::Desc), ("Ctrl+U", HintKind::Key), (" clear   ", HintKind::Desc),
            ("Ctrl+W", HintKind::Key), (" del word", HintKind::Desc)],
        vec![("<- ->", HintKind::Key), (" move   ", HintKind::Desc), ("Home/End", HintKind::Key),
            (" start/end   ", HintKind::Desc), ("Backspace", HintKind::Key), (" delete   ", HintKind::Desc),
            ("Ctrl+V", HintKind::Key), (" paste", HintKind::Desc)],
    ];
    assert(rows_view(r@) =~~= editing_rows());
    r
}

fn single_row_shortcuts(mode: InputMode) -> (r: Vec<Vec<Hint>>)
    ensures
        rows_view(r@) == single_rows(mode),
{
    let row = match mode {
        InputMode::Search => vec![("[/] ", HintKind::Highlight), ("Type to filter   ", HintKind::Desc),
            ("Enter", HintKind::Key), (" apply   ", HintKind::Desc), ("Esc", HintKind::Key),
            (" clear & exit   ", HintKind::Desc), ("Backspace", HintKind::Key), (" delete", HintKind::Desc)],
        InputMode::SpeedLimit => vec![("[!] ", HintKind::Warning), ("Set bandwidth   ", HintKind::Desc),
            ("Tab", HintKind::Key), (" switch DL/UL   ", HintKind::Desc), ("j/k", HintKind::Key),
            (" adjust   ", HintKind::Desc), ("Enter", HintKind::Key), (" apply   ", HintKind::Desc),
            ("Esc", HintKind::Key), (" cancel", HintKind::Desc)],
        InputMode::Help => vec![("[?] ", HintKind::Info), ("Viewing help   ", HintKind::Desc),
            ("j/k", HintKind::Key), (" scroll   ", HintKind::Desc), ("Esc/?/q/Enter", HintKind::Key),
            (" close", HintKind::Desc)],
        InputMode::Confirmation => vec![("[!] ", HintKind::Warning), ("Confirm action   ", HintKind::Desc),
            ("y", HintKind::Key), (" yes   ", HintKind::Desc), ("n/Esc", HintKind::Key), (" no", HintKind::Desc)],
        _ => vec![("[=] ", HintKind::Info), ("Settings   ", HintKind::Desc), ("j/k", HintKind::Key),
            (" navigate   ", HintKind::Desc), ("Enter", HintKind::Key), (" edit   ", HintKind::Desc),
            ("Esc", HintKind::Key), (" close", HintKind::Desc)],
    };
    let r = vec![row, Vec::new()];
    assert(rows_view(r@) =~~= single_rows(mode));
    r
}

/// Shortcuts for search mode
pub fn search_mode_shortcuts() -> (r: Vec<Vec<Hint>>)
    ensures
        rows_view(r@) == single_rows(InputMode::Search),
{
    single_row_shortcuts(InputMode::Search)
}

/// Shortcuts for speed limit mode
pub fn speed_limit_mode_shortcuts() -> (r: Vec<Vec<Hint>>)
    ensures
        rows_view(r@) == single_rows(InputMode::SpeedLimit),
{
    single_row_shortcuts(InputMode::SpeedLimit)
}

/// Shortcuts for help mode
pub fn help_mode_shortcuts() -> (r: Vec<Vec<Hint>>)
    ensures
        rows_view(r@) == single_rows(InputMode::Help),
{
    single_row_shortcuts(InputMode::Help)
}

/// Shortcuts for confirmation mode
pub fn confirmation_mode_shortcuts() -> (r: Vec<Vec<Hint>>)
    ensures
        rows_view(r@) == single_rows(InputMode::Confirmation),
{
    single_row_shortcuts(InputMode::Confirmation)
}

/// Shortcuts for settings mode
pub fn settings_mode_shortcuts() -> (r: Vec<Vec<Hint>>)
    ensures
        rows_view(r@) == single_rows(InputMode::Settings),
{
    single_row_shortcuts(InputMode::Settings)
}

/// The rows of the shortcut bar for a mode.
pub fn get_shortcuts_for_mode(mode: InputMode, has_search: bool) -> (r: Vec<Vec<Hint>>)
    ensures
        rows_view(r@) == match mode {
            InputMode::Normal => normal_rows(has_search),
            InputMode::Editing => editing_rows(),
            _ => single_rows(mode),
        },
{
    match mode {
        InputMode::Editing => editing_mode_shortcuts(),
        InputMode::Search => search_mode_shortcuts(),
        InputMode::SpeedLimit => speed_limit_mode_shortcuts(),
        InputMode::Help => help_mode_shortcuts(),
        InputMode::Confirmation => confirmation_mode_shortcuts(),
        InputMode::Settings => settings_mode_shortcuts(),
        InputMode::Normal => normal_mode_shortcuts(has_search),
    }
}

} // verus!
