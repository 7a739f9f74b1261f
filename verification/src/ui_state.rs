//! Modes and small states of the terminal interface.
use vstd::prelude::*;

verus! {

/// The modes of the interface.
#[derive(Debug, Clone, Copy, PartialEq, Eq)]
pub enum AppMode {
    Chat,
    CommandPalette,
    History,
    Help,
    Settings,
    Status,
}

impl AppMode {
    /// Whether the mode only shows things.
    pub fn is_view_only(&self) -> (r: bool)
        ensures
            r == (*self == AppMode::History || *self == AppMode::Help || *self == AppMode::Settings
                || *self == AppMode::Status),
    {
        match self {
            AppMode::History | AppMode::Help | AppMode::Settings | AppMode::Status => true,
            _ => false,
        }
    }

    /// Whether navigation keys apply in the mode.
    pub fn navigable(&self) -> (r: bool)
        ensures
            r == (*self == AppMode::Chat || *self == AppMode::History || *self == AppMode::CommandPalette),
    {
        match self {
            AppMode::Chat | AppMode::History | AppMode::CommandPalette => true,
            _ => false,
        }
    }

    /// The name the interface shows for the mode.
    pub fn display_name(&self) -> (r: &'static str)
        ensures
            r@ == mode_name(*self),
    {
        proof {
            reveal_strlit("Chat");
            reveal_strlit("Command");
            reveal_strlit("History");
            reveal_strlit("Help");
            reveal_strlit("Settings");
            reveal_strlit("Status");
        }
        match self {
            AppMode::Chat => "Chat",
            AppMode::CommandPalette => "Command",
            AppMode::History => "History",
            AppMode::Help => "Help",
            AppMode::Settings => "Settings",
            AppMode::Status => "Status",
        }
    }
}

/// The name shown for a mode.
pub open spec fn mode_name(m: AppMode) -> Seq<char> {
    match m {
        AppMode::Chat => seq!['C', 'h', 'a', 't'],
        AppMode::CommandPalette => seq!['C', 'o', 'm', 'm', 'a', 'n', 'd'],
        AppMode::History => seq!['H', 'i', 's', 't', 'o', 'r', 'y'],
        AppMode::Help => seq!['H', 'e', 'l', 'p'],
        AppMode::Settings => seq!['S', 'e', 't', 't', 'i', 'n', 'g', 's'],
        AppMode::Status => seq!['S', 't', 'a', 't', 'u', 's'],
    }
}

/// Each mode is shown under its own name: `Chat`, `Command`, `History`,
/// `Help`, `Settings` and `Status`, no two alike.
pub proof fn lemma_mode_names()
    ensures
        mode_name(AppMode::Chat) == "Chat"@,
        mode_name(AppMode::CommandPalette) == "Command"@,
        mode_name(AppMode::History) == "History"@,
        mode_name(AppMode::Help) == "Help"@,
        mode_name(AppMode::Settings) == "Settings"@,
        mode_name(AppMode::Status) == "Status"@,
        forall|a: AppMode, b: AppMode| #[trigger] mode_name(a) == #[trigger] mode_name(b) ==> a == b,
{
    reveal_strlit("Chat");
    reveal_strlit("Command");
    reveal_strlit("History");
    reveal_strlit("Help");
    reveal_strlit("Settings");
    reveal_strlit("Status");
    assert(mode_name(AppMode::Chat) =~= "Chat"@);
    assert(mode_name(AppMode::CommandPalette) =~= "Command"@);
    assert(mode_name(AppMode::History) =~= "History"@);
    assert(mode_name(AppMode::Help) =~= "Help"@);
    assert(mode_name(AppMode::Settings) =~= "Settings"@);
    assert(mode_name(AppMode::Status) =~= "Status"@);
    assert forall|a: AppMode, b: AppMode| #[trigger] mode_name(a) == #[trigger] mode_name(b) implies a == b by {
        if a != b {
            assert(mode_name(a).len() != mode_name(b).len() || mode_name(a)[0] != mode_name(b)[0]
                || mode_name(a)[1] != mode_name(b)[1] || mode_name(a)[2] != mode_name(b)[2]);
        }
    }
}

/// The states a status light shows.
#[derive(Debug, Clone, Copy, PartialEq, Eq)]
pub enum StatusIndicator {
    Normal,
    Loading,
    Error,
    Success,
    Warning,
}

impl StatusIndicator {
    /// The color name of the light.
    pub fn color(&self) -> (r: &'static str)
        ensures
            r@ == match *self {
                StatusIndicator::Normal | StatusIndicator::Success => seq!['g', 'r', 'e', 'e', 'n'],
                StatusIndicator::Loading | StatusIndicator::Warning => seq!['y', 'e', 'l', 'l', 'o', 'w'],
                StatusIndicator::Error => seq!['r', 'e', 'd'],
            },
    {
        proof {
            reveal_strlit("green");
            reveal_strlit("yellow");
            reveal_strlit("red");
        }
        match self {
            StatusIndicator::Normal => "green",
            StatusIndicator::Loading => "yellow",
            StatusIndicator::Error => "red",
            StatusIndicator::Success => "green",
            StatusIndicator::Warning => "yellow",
        }
    }

    /// The symbol of the light.
    pub fn symbol(&self) -> (r: &'static str)
        ensures
            r@ == match *self {
                StatusIndicator::Normal => seq!['\u{25cf}'],
                StatusIndicator::Loading => seq!['\u{27f3}'],
                StatusIndicator::Error => seq!['\u{2717}'],
                StatusIndicator::Success => seq!['\u{2713}'],
                StatusIndicator::Warning => seq!['!'],
            },
    {
        proof {
            reveal_strlit("\u{25cf}");
            reveal_strlit("\u{27f3}");
            reveal_strlit("\u{2717}");
            reveal_strlit("\u{2713}");
            reveal_strlit("!");
        }
        match self {
            StatusIndicator::Normal => "\u{25cf}",
            StatusIndicator::Loading => "\u{27f3}",
            StatusIndicator::Error => "\u{2717}",
            StatusIndicator::Success => "\u{2713}",
            StatusIndicator::Warning => "!",
        }
    }
}

/// Where the view of messages is anchored.
#[derive(Debug, Clone, Copy, PartialEq, Eq)]
pub enum CursorPosition {
    Bottom,
    Middle,
    Top,
}

impl Default for CursorPosition {
    fn default() -> (c: Self)
        ensures
            c == CursorPosition::Bottom,
    {
        CursorPosition::Bottom
    }
}

/// What has the input focus.
#[derive(Debug, Clone, Copy, PartialEq, Eq)]
pub enum FocusState {
    /// Nothing has the focus.
    Unfocused,
    Input,
    CommandInput,
    Scrollable,
}

/// Which messages are shown.
#[derive(Debug, Clone, Copy, PartialEq, Eq)]
pub enum MessageFilter {
    All,
    UserOnly,
    AssistantOnly,
    Errors,
}

} // verus!
