//! What a key press asks of the table: the decision, made from the table's
//! modes and the key alone.

use vstd::prelude::*;
use super::{App, AppView};

verus! {

/// A key press, as the table sees it.
#[derive(Debug, Clone, Copy, PartialEq, Eq, Structural)]
pub enum Key {
    Char(char),
    Esc,
    Enter,
    Backspace,
    Up,
    Down,
    Home,
    End,
    PageUp,
    PageDown,
    Other,
}

/// What the table is asked to do.
#[derive(Debug, Clone, Copy, PartialEq, Eq, Structural)]
pub enum Command {
    Nothing,
    Quit,
    Refresh,
    Prev,
    Next,
    First,
    Last,
    PageUp,
    PageDown,
    RequestKill,
    RequestBatchKill,
    ConfirmKill,
    CancelKill,
    ToggleAll,
    BeginFilter,
    ApplyFilter,
    CancelFilter,
    PushFilterChar(char),
    PopFilterChar,
    ResetFilters,
    CycleSort,
    ToggleSortDirection,
    CycleProtocolFilter,
    CycleStateFilter,
    ToggleGroup,
    ToggleInspect,
    ToggleHelp,
    Copy,
    ToggleAutoRefresh,
    IncreaseInterval,
    DecreaseInterval,
    NextMarked,
    PrevMarked,
    ToggleMark,
    ToggleMarkVisible,
    InvertMarkVisible,
    ToggleMarkSamePid,
    ClearMarks,
    ClearMessage,
}

/// The command of a key in the plain table (no prompt, overlay or filter
/// entry open).
pub open spec fn table_command(key: Key) -> Command {
    match key {
        Key::Esc => Command::Quit,
        Key::Enter => Command::ToggleInspect,
        Key::Up => Command::Prev,
        Key::Down => Command::Next,
        Key::Home => Command::First,
        Key::End => Command::Last,
        Key::PageUp => Command::PageUp,
        Key::PageDown => Command::PageDown,
        Key::Char(c) => if c == 'q' {
            Command::Quit
        } else if c == 'r' {
            Command::Refresh
        } else if c == 'k' {
            Command::Prev
        } else if c == 'j' {
            Command::Next
        } else if c == 'K' {
            Command::RequestKill
        } else if c == 'B' {
            Command::RequestBatchKill
        } else if c == 'a' {
            Command::ToggleAll
        } else if c == '/' {
            Command::BeginFilter
        } else if c == 's' {
            Command::CycleSort
        } else if c == 'd' {
            Command::ToggleSortDirection
        } else if c == 'p' {
            Command::CycleProtocolFilter
        } else if c == 'w' {
            Command::CycleStateFilter
        } else if c == 'z' {
            Command::ResetFilters
        } else if c == 'g' {
            Command::ToggleGroup
        } else if c == 'c' {
            Command::Copy
        } else if c == 't' {
            Command::ToggleAutoRefresh
        } else if c == '+' {
            Command::IncreaseInterval
        } else if c == '-' {
            Command::DecreaseInterval
        } else if c == 'n' {
            Command::NextMarked
        } else if c == 'N' {
            Command::PrevMarked
        } else if c == ' ' {
            Command::ToggleMark
        } else if c == 'v' {
            Command::ToggleMarkVisible
        } else if c == 'i' {
            Command::InvertMarkVisible
        } else if c == 'u' {
            Command::ToggleMarkSamePid
        } else if c == 'x' {
            Command::ClearMarks
        } else if c == '?' {
            Command::ToggleHelp
        } else if c == 'm' {
            Command::ClearMessage
        } else {
            Command::Nothing
        },
        _ => Command::Nothing,
    }
}

/// The command of a key: a pending kill takes `y`/Enter (confirm) and
/// `n`/Esc (cancel); the help overlay closes on `?` or Esc; the details close
/// on Esc or Enter; while the filter text is typed, Esc clears it, Enter
/// applies it, Backspace removes a character and other characters are added;
/// otherwise the table's key map applies. Other keys do nothing.
pub open spec fn key_command(v: AppView, key: Key) -> Command {
    if v.pending_kill is Some {
        match key {
            Key::Enter => Command::ConfirmKill,
            Key::Char(c) => if c == 'y' {
                Command::ConfirmKill
            } else if c == 'n' {
                Command::CancelKill
            } else {
                Command::Nothing
            },
            Key::Esc => Command::CancelKill,
            _ => Command::Nothing,
        }
    } else if v.help_mode {
        match key {
            Key::Esc => Command::ToggleHelp,
            Key::Char(c) => if c == '?' {
                Command::ToggleHelp
            } else {
                Command::Nothing
            },
            _ => Command::Nothing,
        }
    } else if v.inspect_mode {
        match key {
            Key::Esc => Command::ToggleInspect,
            Key::Enter => Command::ToggleInspect,
            _ => Command::Nothing,
        }
    } else if v.filter_mode {
        match key {
            Key::Esc => Command::CancelFilter,
            Key::Enter => Command::ApplyFilter,
            Key::Backspace => Command::PopFilterChar,
            Key::Char(c) => Command::PushFilterChar(c),
            _ => Command::Nothing,
        }
    } else {
        table_command(key)
    }
}

fn table_command_exec(key: Key) -> (c: Command)
    ensures
        c == table_command(key),
{
    match key {
        Key::Esc => Command::Quit,
        Key::Enter => Command::ToggleInspect,
        Key::Up => Command::Prev,
        Key::Down => Command::Next,
        Key::Home => Command::First,
        Key::End => Command::Last,
        Key::PageUp => Command::PageUp,
        Key::PageDown => Command::PageDown,
        Key::Char(c) => if c == 'q' {
            Command::Quit
        } else if c == 'r' {
            Command::Refresh
        } else if c == 'k' {
            Command::Prev
        } else if c == 'j' {
            Command::Next
        } else if c == 'K' {
            Command::RequestKill
        } else if c == 'B' {
            Command::RequestBatchKill
        } else if c == 'a' {
            Command::ToggleAll
        } else if c == '/' {
            Command::BeginFilter
        } else if c == 's' {
            Command::CycleSort
        } else if c == 'd' {
            Command::ToggleSortDirection
        } else if c == 'p' {
            Command::CycleProtocolFilter
        } else if c == 'w' {
            Command::CycleStateFilter
        } else if c == 'z' {
            Command::ResetFilters
        } else if c == 'g' {
            Command::ToggleGroup
        } else if c == 'c' {
            Command::Copy
        } else if c == 't' {
            Command::ToggleAutoRefresh
        } else if c == '+' {
            Command::IncreaseInterval
        } else if c == '-' {
            Command::DecreaseInterval
        } else if c == 'n' {
            Command::NextMarked
        } else if c == 'N' {
            Command::PrevMarked
        } else if c == ' ' {
            Command::ToggleMark
        } else if c == 'v' {
            Command::ToggleMarkVisible
        } else if c == 'i' {
            Command::InvertMarkVisible
        } else if c == 'u' {
            Command::ToggleMarkSamePid
        } else if c == 'x' {
            Command::ClearMarks
        } else if c == '?' {
            Command::ToggleHelp
        } else if c == 'm' {
            Command::ClearMessage
        } else {
            Command::Nothing
        },
        _ => Command::Nothing,
    }
}

impl App {
    /// The command that a key press asks for in the table's current mode.
    pub fn command_for_key(&self, key: Key) -> (c: Command)
        ensures
            c == key_command(self@, key),
    {
        if self.pending_kill.is_some() {
            match key {
                Key::Enter => Command::ConfirmKill,
                Key::Char(c) => if c == 'y' {
                    Command::ConfirmKill
                } else if c == 'n' {
                    Command::CancelKill
                } else {
                    Command::Nothing
                },
                Key::Esc => Command::CancelKill,
                _ => Command::Nothing,
            }
        } else if self.help_mode {
            match key {
                Key::Esc => Command::ToggleHelp,
                Key::Char(c) => if c == '?' {
                    Command::ToggleHelp
                } else {
                    Command::Nothing
                },
                _ => Command::Nothing,
            }
        } else if self.inspect_mode {
            match key {
                Key::Esc => Command::ToggleInspect,
                Key::Enter => Command::ToggleInspect,
                _ => Command::Nothing,
            }
        } else if self.filter_mode {
            match key {
                Key::Esc => Command::CancelFilter,
                Key::Enter => Command::ApplyFilter,
                Key::Backspace => Command::PopFilterChar,
                Key::Char(c) => Command::PushFilterChar(c),
                _ => Command::Nothing,
            }
        } else {
            table_command_exec(key)
        }
    }

    /// Whether an automatic refresh is due, `elapsed_ms` after the last one.
    pub fn refresh_due(&self, elapsed_ms: u64) -> (b: bool)
        ensures
            b == (self@.auto_refresh && elapsed_ms >= self@.interval_ms),
    {
        self.auto_refresh && elapsed_ms >= self.auto_refresh_interval_ms
    }
}

} // verus!
