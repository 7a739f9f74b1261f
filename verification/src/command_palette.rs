//! The command palette: a query, the commands that match it, and a selection.
use vstd::prelude::*;
use crate::styles::Theme;
use crate::text::{chars_of, is_control, is_control_char, join2, owned, push_char, spec_contains, contains,
    string_from_chars};
use crate::ui_state::FocusState;

verus! {

/// The commands of the palette.
#[derive(Debug, Clone, Copy, PartialEq, Eq, Hash)]
pub enum CommandId {
    Send,
    Clear,
    History,
    Settings,
    Help,
    Search,
    Copy,
    ClearScreen,
    Quit,
    Status,
    Chat,
    ToolExec,
    ListTools,
    Connect,
    Disconnect,
    ToggleTheme,
    FormatHelp,
}

/// A command of the palette.
#[derive(Debug, Clone)]
pub struct CommandItem {
    pub id: CommandId,
    pub name: String,
    pub description: String,
    pub icon: Option<char>,
    /// Whether the command can be run now.
    pub available: bool,
}

/// What a command is: id, name, description, icon and availability.
pub open spec fn item_view(c: CommandItem) -> (CommandId, Seq<char>, Seq<char>, Option<char>, bool) {
    (c.id, c.name@, c.description@, c.icon, c.available)
}

/// The commands as views.
pub open spec fn items_view(cs: Seq<CommandItem>) -> Seq<(CommandId, Seq<char>, Seq<char>, Option<char>, bool)> {
    cs.map_values(|c: CommandItem| item_view(c))
}

/// The text that `str::to_lowercase` makes of `s`.
pub uninterp spec fn lowercase(s: Seq<char>) -> Seq<char>;

/// `str::to_lowercase`. The contract claims that the result is a function
/// of the text, named `lowercase`, and that the empty text stays empty.
#[verifier::external_body]
fn to_lowercase(s: &str) -> (r: String)
    ensures
        r@ == lowercase(s@),
        s@.len() == 0 ==> r@.len() == 0,
{
    s.to_lowercase()
}

/// A command stays in the palette for a query when it is available and its
/// name or description holds the query, compared in lowercase.
pub open spec fn matches_query(c: CommandItem, query: Seq<char>) -> bool {
    c.available && (spec_contains(lowercase(c.name@), lowercase(query)) || spec_contains(
        lowercase(c.description@),
        lowercase(query),
    ))
}

/// The commands of `cs` that stay for `query`, in order.
pub open spec fn kept(cs: Seq<CommandItem>, query: Seq<char>) -> Seq<CommandItem>
    decreases cs.len(),
{
    if cs.len() == 0 {
        Seq::empty()
    } else {
        let prev = kept(cs.drop_last(), query);
        if matches_query(cs.last(), query) {
            prev.push(cs.last())
        } else {
            prev
        }
    }
}

/// The selection after the commands were filtered: the first one, or none
/// when none is left.
pub open spec fn first_or_none(len: nat) -> Option<usize> {
    if len == 0 { None } else { Some(0usize) }
}

/// The command palette.
#[derive(Debug)]
pub struct CommandPaletteComponent {
    pub theme: Theme,
    pub query: String,
    pub focus: FocusState,
    pub commands: Vec<CommandItem>,
    pub selected: Option<usize>,
}

/// Keys the palette reacts to.
#[derive(Debug, Clone, Copy, PartialEq, Eq)]
pub enum PaletteKey {
    Up,
    Down,
    Enter,
    Backspace,
    Other,
}

/// What the palette shows.
#[derive(Debug)]
pub enum PaletteView {
    /// Nothing: the query is empty.
    Hidden,
    /// A notice that no command is left.
    NoCommands,
    /// A titled list of entries.
    Entries { title: String, lines: Vec<String> },
}

/// The text of a command's entry.
pub open spec fn entry_text(c: CommandItem) -> Seq<char> {
    let icon = match c.icon {
        Some(i) => i,
        None => '\u{2022}',
    };
    if c.available {
        seq![icon] + "  "@ + c.name@ + "  "@ + c.description@
    } else {
        seq![icon] + "  "@ + c.name@ + " (disabled)"@
    }
}

/// The entries shown: with a selection only the selected command, else all.
pub open spec fn shown(cs: Seq<CommandItem>, selected: Option<usize>) -> Seq<Seq<char>>
    decreases cs.len(),
{
    if cs.len() == 0 {
        Seq::empty()
    } else {
        let prev = shown(cs.drop_last(), selected);
        let idx = cs.len() - 1;
        match selected {
            Some(s) => if s == idx { prev.push(entry_text(cs.last())) } else { prev },
            None => prev.push(entry_text(cs.last())),
        }
    }
}

/// The default command list, as views.
pub open spec fn default_command_views() -> Seq<(CommandId, Seq<char>, Seq<char>, Option<char>, bool)> {
    seq![
        (CommandId::Send, "Send Message"@, "Send your message to the model"@, Some('s'), true),
        (CommandId::Clear, "Clear Screen"@, "Clear the conversation history"@, Some('c'), true),
        (CommandId::History, "History"@, "Open conversation history view"@, Some('h'), true),
        (CommandId::Settings, "Settings"@, "Configure application settings"@, Some('S'), true),
        (CommandId::Help, "Help"@, "Show keyboard shortcuts"@, Some('?'), true),
        (CommandId::Status, "Status"@, "Show system status"@, Some('i'), true),
        (CommandId::Quit, "Quit"@, "Exit the application"@, Some('q'), true),
    ]
}

fn item(id: CommandId, name: &str, description: &str, icon: char) -> (c: CommandItem)
    ensures
        item_view(c) == (id, name@, description@, Some(icon), true),
{
    CommandItem { id, name: owned(name), description: owned(description), icon: Some(icon), available: true }
}

/// The last character of `s` removed, as `String::pop` leaves it.
fn without_last(s: &String) -> (r: String)
    ensures
        s@.len() > 0 ==> r@ == s@.drop_last(),
        s@.len() == 0 ==> r@ == s@,
{
    let v = chars_of(s.as_str());
    if v.len() == 0 {
        return owned(s.as_str());
    }
    let t = crate::text::slice_chars(v.as_slice(), 0, v.len() - 1);
    assert(t@ =~= s@.drop_last());
    string_from_chars(t.as_slice())
}

impl CommandPaletteComponent {
    /// A palette with the default commands, an empty query and no selection.
    pub fn new(theme: Theme) -> (p: Self)
        ensures
            p.theme == theme,
            p.query@.len() == 0,
            p.focus == FocusState::CommandInput,
            items_view(p.commands@) == default_command_views(),
            p.selected is None,
    {
        CommandPaletteComponent {
            theme,
            query: String::new(),
            focus: FocusState::CommandInput,
            commands: Self::default_commands(),
            selected: None,
        }
    }

    /// The default commands.
    pub fn default_commands() -> (v: Vec<CommandItem>)
        ensures
            items_view(v@) == default_command_views(),
    {
        let mut v: Vec<CommandItem> = Vec::new();
        v.push(item(CommandId::Send, "Send Message", "Send your message to the model", 's'));
        v.push(item(CommandId::Clear, "Clear Screen", "Clear the conversation history", 'c'));
        v.push(item(CommandId::History, "History", "Open conversation history view", 'h'));
        v.push(item(CommandId::Settings, "Settings", "Configure application settings", 'S'));
        v.push(item(CommandId::Help, "Help", "Show keyboard shortcuts", '?'));
        v.push(item(CommandId::Status, "Status", "Show system status", 'i'));
        v.push(item(CommandId::Quit, "Quit", "Exit the application", 'q'));
        assert(items_view(v@) =~= default_command_views());
        v
    }

    /// Keep only the commands that match the query.
    fn filter_commands(&mut self)
        ensures
            final(self).commands@ == kept(old(self).commands@, old(self).query@),
            final(self).query == old(self).query,
            final(self).selected == old(self).selected,
            final(self).theme == old(self).theme,
            final(self).focus == old(self).focus,
    {
        let q = to_lowercase(self.query.as_str());
        let ghost orig = self.commands@;
        let ghost query = self.query@;
        assert(orig.len() == self.commands.len());
        let mut i: usize = 0;
        let mut j: usize = 0;
        while i < self.commands.len()
            invariant
                j <= orig.len(),
                orig.len() <= usize::MAX,
                i <= self.commands@.len(),
                q@ == lowercase(query),
                self.query@ == query,
                self.query == old(self).query,
                self.selected == old(self).selected,
                self.theme == old(self).theme,
                self.focus == old(self).focus,
                orig == old(self).commands@,
                query == old(self).query@,
                self.commands@.take(i as int) == kept(orig.take(j as int), query),
                self.commands@.skip(i as int) == orig.skip(j as int),
                self.commands@.len() - i == orig.len() - j,
            decreases self.commands@.len() - i,
        {
            let ghost before = self.commands@;
            assert(orig.take(j + 1).drop_last() =~= orig.take(j as int));
            assert(orig.skip(j as int)[0] == orig[j as int]);
            assert(before[i as int] == orig[j as int]) by {
                assert(before.skip(i as int)[0] == before[i as int]);
            }
            let c = &self.commands[i];
            let n = to_lowercase(c.name.as_str());
            let d = to_lowercase(c.description.as_str());
            let keep = c.available && (contains(n.as_str(), q.as_str()) || contains(d.as_str(), q.as_str()));
            assert(keep == matches_query(orig[j as int], query));
            assert(before.skip(i + 1) =~= before.skip(i as int).skip(1));
            assert(orig.skip(j + 1) =~= orig.skip(j as int).skip(1));
            if keep {
                assert(before.take(i + 1) =~= before.take(i as int).push(before[i as int]));
                i = i + 1;
            } else {
                self.commands.remove(i);
                assert(self.commands@.take(i as int) =~= before.take(i as int));
                assert(self.commands@.skip(i as int) =~= before.skip(i + 1));
            }
            j = j + 1;
        }
        assert(self.commands@.skip(i as int).len() == 0);
        assert(j == orig.len());
        assert(orig.take(j as int) =~= orig);
        assert(self.commands@.take(i as int) =~= self.commands@);
    }

    /// Set the query: the commands are filtered by it, and the first one left
    /// is selected.
    pub fn set_query(&mut self, query: String)
        ensures
            final(self).query@ == query@,
            final(self).commands@ == kept(old(self).commands@, query@),
            final(self).selected == first_or_none(final(self).commands@.len()),
            final(self).theme == old(self).theme,
            final(self).focus == old(self).focus,
    {
        self.query = query;
        self.filter_commands();
        self.selected = if self.commands.len() == 0 { None } else { Some(0) };
    }

    /// Clear the query: the commands are filtered by the empty query, and
    /// nothing is selected.
    pub fn clear_query(&mut self)
        ensures
            final(self).query@.len() == 0,
            final(self).commands@ == kept(old(self).commands@, Seq::<char>::empty()),
            final(self).selected is None,
            final(self).theme == old(self).theme,
            final(self).focus == old(self).focus,
    {
        self.query = String::new();
        self.filter_commands();
        self.selected = None;
    }

    /// Add a command; the commands are filtered again by the query.
    pub fn add_command(&mut self, command: CommandItem)
        ensures
            final(self).commands@ == kept(old(self).commands@.push(command), old(self).query@),
            final(self).query == old(self).query,
            final(self).selected == old(self).selected,
            final(self).theme == old(self).theme,
            final(self).focus == old(self).focus,
    {
        self.commands.push(command);
        self.filter_commands();
    }

    pub fn set_focus(&mut self, focus: FocusState)
        ensures
            final(self).focus == focus,
            final(self).query == old(self).query,
            final(self).commands == old(self).commands,
            final(self).selected == old(self).selected,
            final(self).theme == old(self).theme,
    {
        self.focus = focus;
    }

    pub fn set_selected(&mut self, index: Option<usize>)
        ensures
            final(self).selected == index,
            final(self).query == old(self).query,
            final(self).commands == old(self).commands,
            final(self).focus == old(self).focus,
            final(self).theme == old(self).theme,
    {
        self.selected = index;
    }

    /// A typed character: delete (`U+007F`) removes the query's last
    /// character, another control character does nothing, any other character
    /// is added to the query; when the query changed, the commands are
    /// filtered by it and the first one left is selected.
    pub fn handle_char(&mut self, c: char)
        ensures
            ({
                let q = if c == '\u{7f}' {
                    if old(self).query@.len() > 0 { Some(old(self).query@.drop_last()) } else { None }
                } else if !is_control_char(c) {
                    Some(old(self).query@.push(c))
                } else {
                    None
                };
                match q {
                    Some(q) => {
                        &&& final(self).query@ == q
                        &&& final(self).commands@ == kept(old(self).commands@, q)
                        &&& final(self).selected == first_or_none(final(self).commands@.len())
                    },
                    None => {
                        &&& final(self).query == old(self).query
                        &&& final(self).commands == old(self).commands
                        &&& final(self).selected == old(self).selected
                    },
                }
            }),
            final(self).theme == old(self).theme,
            final(self).focus == old(self).focus,
    {
        if c == '\u{7f}' {
            if !self.query.as_str().is_empty() {
                let q = without_last(&self.query);
                self.set_query(q);
            }
        } else if !is_control(c) {
            let mut q = owned(self.query.as_str());
            push_char(&mut q, c);
            self.set_query(q);
        }
    }

    /// A key: up moves the selection up (off the top it clears), down moves
    /// it down while a command is below, enter runs the selected command,
    /// backspace removes the query's last character and filters again.
    pub fn handle_key(&mut self, key: PaletteKey)
        requires
            key == PaletteKey::Enter ==> (old(self).selected matches Some(i) ==> i < old(self).commands@.len()),
            key == PaletteKey::Down ==> (old(self).selected matches Some(i) ==> i < usize::MAX),
        ensures
            final(self).theme == old(self).theme,
            final(self).focus == old(self).focus,
            match key {
                PaletteKey::Up => {
                    &&& final(self).selected == match old(self).selected {
                        Some(i) => if i == 0 { None } else { Some((i - 1) as usize) },
                        None => None,
                    }
                    &&& final(self).query == old(self).query
                    &&& final(self).commands == old(self).commands
                },
                PaletteKey::Down => {
                    let next: int = match old(self).selected {
                        Some(i) => i + 1,
                        None => 0,
                    };
                    &&& final(self).selected == if next < old(self).commands@.len() {
                        Some(next as usize)
                    } else {
                        old(self).selected
                    }
                    &&& final(self).query == old(self).query
                    &&& final(self).commands == old(self).commands
                },
                PaletteKey::Backspace => {
                    &&& final(self).selected == old(self).selected
                    &&& if old(self).query@.len() > 0 {
                        &&& final(self).query@ == old(self).query@.drop_last()
                        &&& final(self).commands@ == kept(old(self).commands@, old(self).query@.drop_last())
                    } else {
                        &&& final(self).query == old(self).query
                        &&& final(self).commands == old(self).commands
                    }
                },
                _ => {
                    &&& final(self).selected == old(self).selected
                    &&& final(self).query == old(self).query
                    &&& final(self).commands == old(self).commands
                },
            },
    {
        let length = self.commands.len();
        match key {
            PaletteKey::Up => {
                match self.selected {
                    Some(idx) => {
                        self.selected = if idx == 0 { None } else { Some(idx - 1) };
                    },
                    None => {},
                }
            },
            PaletteKey::Down => {
                let next_idx = match self.selected {
                    Some(idx) => idx + 1,
                    None => 0,
                };
                if next_idx < length {
                    self.selected = Some(next_idx);
                }
            },
            PaletteKey::Enter => {
                match self.selected {
                    Some(idx) => {
                        let command = self.commands[idx].clone();
                        self.execute_command(&command);
                    },
                    None => {},
                }
            },
            PaletteKey::Backspace => {
                if !self.query.as_str().is_empty() {
                    self.query = without_last(&self.query);
                    self.filter_commands();
                }
            },
            PaletteKey::Other => {},
        }
    }

    /// Run a command. Commands are carried out by the application, so the
    /// palette itself does nothing here.
    pub fn execute_command(&mut self, command: &CommandItem)
        ensures
            *final(self) == *old(self),
    {
    }

    /// The text of a command's entry.
    fn entry(cmd: &CommandItem) -> (r: String)
        ensures
            r@ == entry_text(*cmd),
    {
        let icon = match cmd.icon {
            Some(i) => i,
            None => '\u{2022}',
        };
        let mut r = String::new();
        push_char(&mut r, icon);
        r.append("  ");
        r.append(cmd.name.as_str());
        if cmd.available {
            r.append("  ");
            r.append(cmd.description.as_str());
        } else {
            r.append(" (disabled)");
        }
        r
    }

    /// What the palette shows: nothing for an empty query; else the entries
    /// (only the selected one when there is a selection) under the title
    /// `: <query>`, or a notice when no entry is left.
    pub fn render_view(&self) -> (v: PaletteView)
        ensures
            self.query@.len() == 0 ==> v is Hidden,
            self.query@.len() > 0 ==> match v {
                PaletteView::Entries { title, lines } => title@ == ": "@ + self.query@ && lines@.len() > 0
                    && lines@.map_values(|l: String| l@) == shown(self.commands@, self.selected),
                PaletteView::NoCommands => shown(self.commands@, self.selected).len() == 0,
                PaletteView::Hidden => false,
            },
    {
        if self.query.as_str().is_empty() {
            return PaletteView::Hidden;
        }
        let mut lines: Vec<String> = Vec::new();
        let mut i: usize = 0;
        while i < self.commands.len()
            invariant
                i <= self.commands@.len(),
                lines@.map_values(|l: String| l@) == shown(self.commands@.take(i as int), self.selected),
            decreases self.commands.len() - i,
        {
            let ghost before = lines@;
            let show = match self.selected {
                Some(s) => s == i,
                None => true,
            };
            assert(self.commands@.take(i + 1).drop_last() =~= self.commands@.take(i as int));
            if show {
                let e = Self::entry(&self.commands[i]);
                lines.push(e);
                assert(lines@.map_values(|l: String| l@) =~= before.map_values(|l: String| l@).push(
                    entry_text(self.commands@[i as int]),
                ));
            }
            i = i + 1;
        }
        assert(self.commands@.take(self.commands@.len() as int) =~= self.commands@);
        if lines.len() == 0 {
            PaletteView::NoCommands
        } else {
            PaletteView::Entries { title: join2(": ", self.query.as_str()), lines }
        }
    }
}

impl Default for CommandPaletteComponent {
    fn default() -> (p: Self)
        ensures
            p.theme == crate::styles::default_theme(),
            p.query@.len() == 0,
            p.focus == FocusState::CommandInput,
            items_view(p.commands@) == default_command_views(),
            p.selected is None,
    {
        Self::new(Theme::default())
    }
}

/// Every command the filter keeps matches the query.
pub proof fn lemma_kept_match(cs: Seq<CommandItem>, query: Seq<char>)
    ensures
        forall|k: int| 0 <= k < kept(cs, query).len() ==> matches_query(#[trigger] kept(cs, query)[k], query),
    decreases cs.len(),
{
    if cs.len() > 0 {
        lemma_kept_match(cs.drop_last(), query);
        let prev = kept(cs.drop_last(), query);
        assert forall|k: int| 0 <= k < kept(cs, query).len() implies matches_query(
            #[trigger] kept(cs, query)[k],
            query,
        ) by {
            if k < prev.len() {
                assert(kept(cs, query)[k] == prev[k]);
            }
        }
    }
}

/// The filter keeps every command that matches, in order: keeping from a
/// list that grew by one command keeps what it kept before, and the new
/// command when it matches.
pub proof fn lemma_kept_push(cs: Seq<CommandItem>, c: CommandItem, query: Seq<char>)
    ensures
        kept(cs.push(c), query) == if matches_query(c, query) {
            kept(cs, query).push(c)
        } else {
            kept(cs, query)
        },
{
    assert(cs.push(c).drop_last() =~= cs);
}

/// Filtering twice by one query is filtering once.
pub proof fn lemma_kept_idempotent(cs: Seq<CommandItem>, query: Seq<char>)
    ensures
        kept(kept(cs, query), query) == kept(cs, query),
    decreases cs.len(),
{
    if cs.len() > 0 {
        lemma_kept_idempotent(cs.drop_last(), query);
        let prev = kept(cs.drop_last(), query);
        if matches_query(cs.last(), query) {
            lemma_kept_push(prev, cs.last(), query);
        }
    }
}

/// The filter never adds commands: it keeps at most as many as it is given.
pub proof fn lemma_kept_len(cs: Seq<CommandItem>, query: Seq<char>)
    ensures
        kept(cs, query).len() <= cs.len(),
    decreases cs.len(),
{
    if cs.len() > 0 {
        lemma_kept_len(cs.drop_last(), query);
    }
}

/// With the empty query the filter keeps exactly the available commands.
pub proof fn lemma_empty_query_keeps_available(c: CommandItem)
    requires
        lowercase(Seq::<char>::empty()).len() == 0,
    ensures
        matches_query(c, Seq::<char>::empty()) == c.available,
{
    let q = lowercase(Seq::<char>::empty());
    assert(crate::text::occurs_at(lowercase(c.name@), q, 0)) by {
        assert(lowercase(c.name@).subrange(0, 0) =~= q);
    }
}

} // verus!
