//! The message views of the terminal interface: the conversation, the list of
//! conversations, and the input line.
use vstd::prelude::*;
use vstd::utf8::{encode_utf8, is_char_boundary};
use crate::styles::{Theme, TextStyle};
use crate::text::{decimal, decimal_string, is_control, is_control_char, owned};
use crate::ui_state::{CursorPosition, MessageFilter};

verus! {

/// Who a shown message is from.
#[derive(Debug, Clone, Copy, PartialEq, Eq, Structural)]
pub enum MessageRole {
    User,
    Assistant,
    System,
    Error,
}

/// A shown message.
#[derive(Debug, Clone)]
pub struct MessageItem {
    pub role: MessageRole,
    pub content: String,
    pub timestamp: Option<String>,
    /// Whether the message is unread.
    pub is_new: bool,
}

/// Whether a message passes a filter.
pub open spec fn passes(filter: MessageFilter, role: MessageRole) -> bool {
    match filter {
        MessageFilter::All => true,
        MessageFilter::UserOnly => role == MessageRole::User,
        MessageFilter::AssistantOnly => role == MessageRole::Assistant,
        MessageFilter::Errors => role == MessageRole::Error,
    }
}

/// The positions of the messages that pass `filter`, in order.
pub open spec fn passing(ms: Seq<MessageItem>, filter: MessageFilter) -> Seq<int>
    decreases ms.len(),
{
    if ms.len() == 0 {
        Seq::empty()
    } else {
        let prev = passing(ms.drop_last(), filter);
        if passes(filter, ms.last().role) {
            prev.push(ms.len() - 1)
        } else {
            prev
        }
    }
}

/// The positions `passing` gives are the positions of the messages that pass.
proof fn lemma_passing_positions(ms: Seq<MessageItem>, filter: MessageFilter)
    ensures
        forall|i: int| #[trigger] passing(ms, filter).contains(i) <==> 0 <= i < ms.len() && passes(filter, ms[i].role),
    decreases ms.len(),
{
    if ms.len() > 0 {
        let init = ms.drop_last();
        lemma_passing_positions(init, filter);
        let prev = passing(init, filter);
        assert forall|i: int| #[trigger] passing(ms, filter).contains(i) <==> 0 <= i < ms.len() && passes(
            filter,
            ms[i].role,
        ) by {
            if 0 <= i < ms.len() - 1 {
                assert(ms[i] == init[i]);
            }
            if passes(filter, ms.last().role) {
                assert(passing(ms, filter) == prev.push(ms.len() - 1));
                if passing(ms, filter).contains(i) {
                    let k = choose|k: int| 0 <= k < passing(ms, filter).len() && passing(ms, filter)[k] == i;
                    if k < prev.len() {
                        assert(prev[k] == i);
                        assert(prev.contains(i));
                    }
                }
                if 0 <= i < ms.len() - 1 && passes(filter, ms[i].role) {
                    assert(prev.contains(i));
                    let k = choose|k: int| 0 <= k < prev.len() && prev[k] == i;
                    assert(passing(ms, filter)[k] == i);
                }
                if i == ms.len() - 1 {
                    assert(passing(ms, filter)[prev.len() as int] == i);
                }
            } else {
                assert(passing(ms, filter) == prev);
            }
        }
    }
}

/// Each filter shows exactly the messages of its role: the errors filter
/// the error messages, the user filter the user's, the assistant filter the
/// assistant's, and the filter for all every message.
pub proof fn lemma_filters_keep_their_role(ms: Seq<MessageItem>)
    ensures
        forall|i: int|
            #[trigger] passing(ms, MessageFilter::Errors).contains(i) <==> 0 <= i < ms.len() && ms[i].role
                == MessageRole::Error,
        forall|i: int|
            #[trigger] passing(ms, MessageFilter::UserOnly).contains(i) <==> 0 <= i < ms.len() && ms[i].role
                == MessageRole::User,
        forall|i: int|
            #[trigger] passing(ms, MessageFilter::AssistantOnly).contains(i) <==> 0 <= i < ms.len() && ms[i].role
                == MessageRole::Assistant,
        forall|i: int| #[trigger] passing(ms, MessageFilter::All).contains(i) <==> 0 <= i < ms.len(),
{
    lemma_passing_positions(ms, MessageFilter::Errors);
    lemma_passing_positions(ms, MessageFilter::UserOnly);
    lemma_passing_positions(ms, MessageFilter::AssistantOnly);
    lemma_passing_positions(ms, MessageFilter::All);
}

fn passes_filter(filter: MessageFilter, role: MessageRole) -> (r: bool)
    ensures
        r == passes(filter, role),
{
    match filter {
        MessageFilter::All => true,
        MessageFilter::UserOnly => role == MessageRole::User,
        MessageFilter::AssistantOnly => role == MessageRole::Assistant,
        MessageFilter::Errors => role == MessageRole::Error,
    }
}

/// The offset after scrolling up one message among `count` shown: one
/// more, while below `count`.
pub open spec fn scrolled_up(offset: usize, count: nat) -> usize {
    if offset < count { (offset + 1) as usize } else { offset }
}

/// The offset after scrolling down one message: one less, not below zero.
pub open spec fn scrolled_down(offset: usize) -> usize {
    if offset > 0 { (offset - 1) as usize } else { 0 }
}

/// Scrolling up and then down comes back to where it started, unless the
/// offset had already reached the number of messages shown; and scrolling up
/// never moves the offset past that number.
pub proof fn lemma_scroll_up_down(offset: usize, count: nat)
    requires
        count <= usize::MAX,
    ensures
        offset < count ==> scrolled_down(scrolled_up(offset, count)) == offset,
        offset <= count ==> scrolled_up(offset, count) <= count,
{
}

/// The conversation view.
#[derive(Debug)]
pub struct MessageComponent {
    pub theme: Theme,
    pub filter: MessageFilter,
    pub cursor: CursorPosition,
    pub scroll_offset: usize,
    pub messages: Vec<MessageItem>,
}

/// What a message item is: role, content, timestamp and whether it is unread.
pub open spec fn message_item_view(m: MessageItem) -> (MessageRole, Seq<char>, Option<Seq<char>>, bool) {
    (m.role, m.content@, match m.timestamp {
        Some(t) => Some(t@),
        None => None,
    }, m.is_new)
}

/// The positions shown for a scroll offset: counting back from the last of
/// `n` messages, `total - offset - 1` of them are passed over (none when the
/// offset reaches the total), and at most `offset + 1` are taken.
pub open spec fn window(n: int, total: int, offset: int) -> Seq<int> {
    let idx = if total > offset { total - offset } else { 0 };
    let skip = if idx >= 1 { idx - 1 } else { 0 };
    let rest = if n - skip > 0 { n - skip } else { 0 };
    let count = if rest < offset + 1 { rest } else { offset + 1 };
    Seq::new(count as nat, |k: int| n - 1 - skip - k)
}

/// The positions of the messages shown for a scroll offset, newest first.
pub struct FilteredIter {
    pub items: Vec<usize>,
    pub index: usize,
}

impl FilteredIter {
    /// The positions among `items` shown for `offset`, given `total` shown
    /// messages.
    pub fn new<T>(items: &[T], total: usize, offset: usize) -> (it: Self)
        ensures
            it.items@.map_values(|i: usize| i as int) == window(items@.len() as int, total as int, offset as int),
            it.index == 0,
    {
        let n = items.len();
        let idx: usize = if total > offset { total - offset } else { 0 };
        let skip: usize = if idx >= 1 { idx - 1 } else { 0 };
        let ghost w = window(n as int, total as int, offset as int);
        let mut r: Vec<usize> = Vec::new();
        let mut k: usize = 0;
        while skip + k < n && k <= offset
            invariant
                r@.len() == k,
                k <= w.len(),
                n == items@.len(),
                w == window(n as int, total as int, offset as int),
                idx == (if total > offset { total - offset } else { 0 }),
                skip == (if idx >= 1 { idx - 1 } else { 0 }),
                forall|j: int| 0 <= j < k ==> #[trigger] r@[j] as int == w[j],
            decreases n - k,
        {
            r.push(n - 1 - skip - k);
            k = k + 1;
        }
        assert(r@.map_values(|i: usize| i as int) =~= w);
        FilteredIter { items: r, index: 0 }
    }

    /// The next position, if any is left.
    pub fn next(&mut self) -> (r: Option<usize>)
        ensures
            old(self).index < old(self).items@.len() ==> r == Some(old(self).items@[old(self).index as int])
                && final(self).index == old(self).index + 1,
            old(self).index >= old(self).items@.len() ==> r is None && final(self).index == old(self).index,
            final(self).items == old(self).items,
    {
        if self.index < self.items.len() {
            let i = self.items[self.index];
            self.index = self.index + 1;
            Some(i)
        } else {
            None
        }
    }
}

/// The label of a role.
pub open spec fn role_label(role: MessageRole) -> Seq<char> {
    match role {
        MessageRole::User => "[User]"@,
        MessageRole::Assistant => "[Assistant]"@,
        MessageRole::System => "[System]"@,
        MessageRole::Error => "[Error]"@,
    }
}

/// Each role is labelled by its own name in brackets, no two alike.
pub proof fn lemma_role_labels()
    ensures
        role_label(MessageRole::User) == "[User]"@,
        role_label(MessageRole::Assistant) == "[Assistant]"@,
        role_label(MessageRole::System) == "[System]"@,
        role_label(MessageRole::Error) == "[Error]"@,
        forall|a: MessageRole, b: MessageRole| #[trigger] role_label(a) == #[trigger] role_label(b) ==> a == b,
{
    reveal_strlit("[User]");
    reveal_strlit("[Assistant]");
    reveal_strlit("[System]");
    reveal_strlit("[Error]");
    assert forall|a: MessageRole, b: MessageRole| #[trigger] role_label(a) == #[trigger] role_label(b) implies a == b by {
        if a != b {
            assert(role_label(a).len() != role_label(b).len() || role_label(a)[1] != role_label(b)[1]);
        }
    }
}

/// How `textwrap::wrap` breaks `text` into lines of at most `width` columns.
pub uninterp spec fn wrapped(text: Seq<char>, width: usize) -> Seq<Seq<char>>;

/// `textwrap::wrap(text, width)`, each line owned. The contract claims that
/// the result is a function of the text and the width, named `wrapped`.
#[verifier::external_body]
fn wrap_text(text: &str, width: usize) -> (r: Vec<String>)
    ensures
        r@.map_values(|l: String| l@) == wrapped(text@, width),
{
    textwrap::wrap(text, width).into_iter().map(|l| l.into_owned()).collect()
}

/// One shown message: its role label, the label's style and its wrapped lines.
#[derive(Debug)]
pub struct ContentLine {
    pub label: String,
    pub style: TextStyle,
    pub lines: Vec<String>,
}

/// The style of a role's label.
pub open spec fn role_style(theme: Theme, role: MessageRole) -> TextStyle {
    match role {
        MessageRole::User => crate::styles::fg_only(theme.primary),
        MessageRole::Assistant => crate::styles::fg_only(theme.success),
        _ => crate::styles::fg_only(theme.warning),
    }
}

impl MessageComponent {
    /// An empty view of all messages, anchored at the bottom.
    pub fn new(theme: Theme) -> (c: Self)
        ensures
            c.theme == theme,
            c.filter == MessageFilter::All,
            c.cursor == CursorPosition::Bottom,
            c.scroll_offset == 0,
            c.messages@.len() == 0,
    {
        MessageComponent {
            theme,
            filter: MessageFilter::All,
            cursor: CursorPosition::Bottom,
            scroll_offset: 0,
            messages: Vec::new(),
        }
    }

    fn add(&mut self, role: MessageRole, content: String, cursor: CursorPosition)
        ensures
            final(self).messages@.len() == old(self).messages@.len() + 1,
            forall|k: int| 0 <= k < old(self).messages@.len() ==> #[trigger] final(self).messages@[k] == old(self).messages@[k],
            message_item_view(final(self).messages@.last()) == (role, content@, None::<Seq<char>>, true),
            final(self).cursor == cursor,
            final(self).scroll_offset == old(self).scroll_offset,
            final(self).filter == old(self).filter,
            final(self).theme == old(self).theme,
    {
        self.messages.push(MessageItem { role, content, timestamp: None, is_new: true });
        self.cursor = cursor;
    }

    /// Add a user message; the view goes to the bottom.
    pub fn add_user_message(&mut self, content: String)
        ensures
            final(self).messages@.len() == old(self).messages@.len() + 1,
            forall|k: int| 0 <= k < old(self).messages@.len() ==> #[trigger] final(self).messages@[k] == old(self).messages@[k],
            message_item_view(final(self).messages@.last()) == (MessageRole::User, content@, None::<Seq<char>>, true),
            final(self).cursor == CursorPosition::Bottom,
            final(self).scroll_offset == old(self).scroll_offset,
            final(self).filter == old(self).filter,
    {
        self.add(MessageRole::User, content, CursorPosition::Bottom);
    }

    /// Add an assistant message; the view goes to the bottom.
    pub fn add_assistant_message(&mut self, content: String)
        ensures
            final(self).messages@.len() == old(self).messages@.len() + 1,
            forall|k: int| 0 <= k < old(self).messages@.len() ==> #[trigger] final(self).messages@[k] == old(self).messages@[k],
            message_item_view(final(self).messages@.last()) == (MessageRole::Assistant, content@, None::<Seq<char>>, true),
            final(self).cursor == CursorPosition::Bottom,
            final(self).scroll_offset == old(self).scroll_offset,
            final(self).filter == old(self).filter,
    {
        self.add(MessageRole::Assistant, content, CursorPosition::Bottom);
    }

    /// Add a system message; the view goes to the top.
    pub fn add_system_message(&mut self, content: String)
        ensures
            final(self).messages@.len() == old(self).messages@.len() + 1,
            forall|k: int| 0 <= k < old(self).messages@.len() ==> #[trigger] final(self).messages@[k] == old(self).messages@[k],
            message_item_view(final(self).messages@.last()) == (MessageRole::System, content@, None::<Seq<char>>, true),
            final(self).cursor == CursorPosition::Top,
            final(self).scroll_offset == old(self).scroll_offset,
            final(self).filter == old(self).filter,
    {
        self.add(MessageRole::System, content, CursorPosition::Top);
    }

    /// Add an error message; the view goes to the bottom.
    pub fn add_error_message(&mut self, content: String)
        ensures
            final(self).messages@.len() == old(self).messages@.len() + 1,
            forall|k: int| 0 <= k < old(self).messages@.len() ==> #[trigger] final(self).messages@[k] == old(self).messages@[k],
            message_item_view(final(self).messages@.last()) == (MessageRole::Error, content@, None::<Seq<char>>, true),
            final(self).cursor == CursorPosition::Bottom,
            final(self).scroll_offset == old(self).scroll_offset,
            final(self).filter == old(self).filter,
    {
        self.add(MessageRole::Error, content, CursorPosition::Bottom);
    }

    pub fn set_filter(&mut self, filter: MessageFilter)
        ensures
            final(self).filter == filter,
            final(self).messages == old(self).messages,
            final(self).scroll_offset == old(self).scroll_offset,
            final(self).cursor == old(self).cursor,
    {
        self.filter = filter;
    }

    pub fn set_cursor(&mut self, position: CursorPosition)
        ensures
            final(self).cursor == position,
            final(self).messages == old(self).messages,
            final(self).scroll_offset == old(self).scroll_offset,
            final(self).filter == old(self).filter,
    {
        self.cursor = position;
    }

    pub fn scroll_offset(&self) -> (r: usize)
        ensures
            r == self.scroll_offset,
    {
        self.scroll_offset
    }

    /// The positions of the messages that pass the filter.
    pub fn filtered_indices(&self) -> (r: Vec<usize>)
        ensures
            r@.map_values(|i: usize| i as int) == passing(self.messages@, self.filter),
    {
        let mut r: Vec<usize> = Vec::new();
        let mut i: usize = 0;
        while i < self.messages.len()
            invariant
                i <= self.messages@.len(),
                r@.map_values(|k: usize| k as int) == passing(self.messages@.take(i as int), self.filter),
            decreases self.messages.len() - i,
        {
            let ghost before = r@;
            assert(self.messages@.take(i + 1).drop_last() =~= self.messages@.take(i as int));
            if passes_filter(self.filter, self.messages[i].role) {
                r.push(i);
                assert(r@.map_values(|k: usize| k as int) =~= before.map_values(|k: usize| k as int).push(i as int));
            }
            i = i + 1;
        }
        assert(self.messages@.take(self.messages@.len() as int) =~= self.messages@);
        r
    }

    /// The number of messages that pass the filter.
    pub fn len(&self) -> (r: usize)
        ensures
            r == passing(self.messages@, self.filter).len(),
    {
        self.filtered_indices().len()
    }

    /// Whether there are no messages at all.
    pub fn is_empty(&self) -> (r: bool)
        ensures
            r == (self.messages@.len() == 0),
    {
        self.messages.len() == 0
    }

    /// Increment the scroll offset, while it is below the number shown.
    pub fn scroll_up(&mut self)
        ensures
            final(self).scroll_offset == scrolled_up(
                old(self).scroll_offset,
                passing(old(self).messages@, old(self).filter).len(),
            ),
            final(self).messages == old(self).messages,
            final(self).filter == old(self).filter,
            final(self).cursor == old(self).cursor,
    {
        if self.scroll_offset < self.len() {
            self.scroll_offset = self.scroll_offset + 1;
        }
    }

    /// Decrement the scroll offset, not below zero.
    pub fn scroll_down(&mut self)
        ensures
            final(self).scroll_offset == scrolled_down(old(self).scroll_offset),
            final(self).messages == old(self).messages,
            final(self).filter == old(self).filter,
            final(self).cursor == old(self).cursor,
    {
        if self.scroll_offset > 0 {
            self.scroll_offset = self.scroll_offset - 1;
        }
    }

    pub fn scroll_to_top(&mut self)
        ensures
            final(self).scroll_offset == 0,
            final(self).messages == old(self).messages,
            final(self).filter == old(self).filter,
            final(self).cursor == old(self).cursor,
    {
        self.scroll_offset = 0;
    }

    /// Scroll to the last message shown.
    pub fn scroll_to_bottom(&mut self)
        ensures
            final(self).scroll_offset == if passing(old(self).messages@, old(self).filter).len() > 0 {
                (passing(old(self).messages@, old(self).filter).len() - 1) as usize
            } else {
                0
            },
            final(self).messages == old(self).messages,
            final(self).filter == old(self).filter,
            final(self).cursor == old(self).cursor,
    {
        self.scroll_offset = self.len().saturating_sub(1);
    }

    /// Remove all messages.
    pub fn clear(&mut self)
        ensures
            final(self).messages@.len() == 0,
            final(self).scroll_offset == old(self).scroll_offset,
            final(self).filter == old(self).filter,
            final(self).cursor == old(self).cursor,
    {
        self.messages.clear();
    }

    /// What the view shows: for each shown message its role label, the
    /// label's style and its content wrapped to `width - 10` columns (not
    /// below zero).
    pub fn build_content(&self, width: u16) -> (r: Vec<ContentLine>)
        ensures
            ({
                let pass = passing(self.messages@, self.filter);
                let shown = window(pass.len() as int, pass.len() as int, self.scroll_offset as int);
                let wrap_width: usize = if width >= 10 { (width - 10) as usize } else { 0 };
                &&& r@.len() == shown.len()
                &&& forall|k: int| 0 <= k < r@.len() ==> {
                    let m = self.messages@[pass[shown[k]]];
                    &&& (#[trigger] r@[k]).label@ == role_label(m.role)
                    &&& r@[k].style == role_style(self.theme, m.role)
                    &&& r@[k].lines@.map_values(|l: String| l@) == wrapped(m.content@, wrap_width)
                }
            }),
    {
        let filtered = self.filtered_indices();
        let positions = FilteredIter::new(filtered.as_slice(), filtered.len(), self.scroll_offset).items;
        let wrap_width: usize = width.saturating_sub(10) as usize;
        let ghost pass = passing(self.messages@, self.filter);
        let ghost shown = window(pass.len() as int, pass.len() as int, self.scroll_offset as int);
        let mut out: Vec<ContentLine> = Vec::new();
        let mut k: usize = 0;
        while k < positions.len()
            invariant
                k <= positions@.len(),
                out@.len() == k,
                filtered@.map_values(|i: usize| i as int) == pass,
                positions@.map_values(|i: usize| i as int) == shown,
                pass == passing(self.messages@, self.filter),
                shown == window(pass.len() as int, pass.len() as int, self.scroll_offset as int),
                wrap_width == (if width >= 10 { (width - 10) as usize } else { 0usize }),
                forall|j: int| 0 <= j < k ==> {
                    let m = self.messages@[pass[shown[j]]];
                    &&& (#[trigger] out@[j]).label@ == role_label(m.role)
                    &&& out@[j].style == role_style(self.theme, m.role)
                    &&& out@[j].lines@.map_values(|l: String| l@) == wrapped(m.content@, wrap_width)
                },
            decreases positions.len() - k,
        {
            assert(positions@.map_values(|i: usize| i as int)[k as int] == positions@[k as int] as int);
            let p = positions[k];
            proof {
                lemma_window_in_range(pass.len() as int, self.scroll_offset as int, k as int);
                lemma_passing_in_range(self.messages@, self.filter, p as int);
            }
            assert(filtered@.map_values(|i: usize| i as int)[p as int] == filtered@[p as int] as int);
            let idx = filtered[p];
            let m = &self.messages[idx];
            proof {
                reveal_strlit("[User]");
                reveal_strlit("[Assistant]");
                reveal_strlit("[System]");
                reveal_strlit("[Error]");
            }
            let (label, style) = match m.role {
                MessageRole::User => (owned("[User]"), self.theme.primary()),
                MessageRole::Assistant => (owned("[Assistant]"), self.theme.success()),
                MessageRole::System => (owned("[System]"), self.theme.warning()),
                MessageRole::Error => (owned("[Error]"), self.theme.warning()),
            };
            let lines = wrap_text(m.content.as_str(), wrap_width);
            out.push(ContentLine { label, style, lines });
            k = k + 1;
        }
        out
    }
}

/// The positions of a window lie among the positions counted.
proof fn lemma_window_in_range(total: int, offset: int, k: int)
    requires
        0 <= offset,
        0 <= total,
        0 <= k < window(total, total, offset).len(),
    ensures
        0 <= window(total, total, offset)[k] < total,
{
}

/// A passing position names a message.
proof fn lemma_passing_in_range(ms: Seq<MessageItem>, filter: MessageFilter, p: int)
    requires
        0 <= p < passing(ms, filter).len(),
    ensures
        0 <= passing(ms, filter)[p] < ms.len(),
    decreases ms.len(),
{
    if ms.len() > 0 {
        let prev = passing(ms.drop_last(), filter);
        if p < prev.len() {
            lemma_passing_in_range(ms.drop_last(), filter, p);
        }
    }
}

/// A conversation in the history list.
#[derive(Debug, Clone)]
pub struct ConversationListItem {
    pub id: String,
    pub title: String,
    pub message_count: usize,
    pub timestamp: String,
    pub is_new: bool,
}

/// One entry of the history list: its text and whether it is highlighted.
#[derive(Debug, Clone, PartialEq, Eq)]
pub struct ListEntry {
    pub text: String,
    pub highlighted: bool,
}

/// The text of a history entry: `<title> (<n> msg|msgs) | <timestamp>`.
pub open spec fn conversation_text(c: ConversationListItem) -> Seq<char> {
    c.title@ + " ("@ + decimal(c.message_count as nat) + " "@ + (if c.message_count == 1 { "msg"@ } else { "msgs"@ })
        + ") | "@ + c.timestamp@
}

/// The history list.
pub struct MessageListComponent {
    pub theme: Theme,
    pub selected: Option<usize>,
    pub messages: Vec<ConversationListItem>,
}

impl MessageListComponent {
    pub fn new(theme: Theme) -> (c: Self)
        ensures
            c.theme == theme,
            c.selected is None,
            c.messages@.len() == 0,
    {
        MessageListComponent { theme, selected: None, messages: Vec::new() }
    }

    pub fn add_conversation(&mut self, item: ConversationListItem)
        ensures
            final(self).messages@ == old(self).messages@.push(item),
            final(self).selected == old(self).selected,
    {
        self.messages.push(item);
    }

    pub fn set_selected(&mut self, index: Option<usize>)
        ensures
            final(self).selected == index,
            final(self).messages == old(self).messages,
    {
        self.selected = index;
    }

    pub fn len(&self) -> (r: usize)
        ensures
            r == self.messages@.len(),
    {
        self.messages.len()
    }

    pub fn is_empty(&self) -> (r: bool)
        ensures
            r == (self.messages@.len() == 0),
    {
        self.messages.len() == 0
    }

    /// The entries of the list; the selected one is highlighted.
    pub fn build_list_items(&self) -> (r: Vec<ListEntry>)
        ensures
            r@.len() == self.messages@.len(),
            forall|k: int| 0 <= k < r@.len() ==> (#[trigger] r@[k]).text@ == conversation_text(self.messages@[k])
                && r@[k].highlighted == (self.selected == Some(k as usize)),
    {
        let mut r: Vec<ListEntry> = Vec::new();
        let mut i: usize = 0;
        while i < self.messages.len()
            invariant
                i <= self.messages@.len(),
                r@.len() == i,
                forall|k: int| 0 <= k < i ==> (#[trigger] r@[k]).text@ == conversation_text(self.messages@[k])
                    && r@[k].highlighted == (self.selected == Some(k as usize)),
            decreases self.messages.len() - i,
        {
            let item = &self.messages[i];
            let mut text = owned(item.title.as_str());
            text.append(" (");
            let n = decimal_string(item.message_count as u64);
            text.append(n.as_str());
            text.append(" ");
            if item.message_count == 1 {
                text.append("msg");
            } else {
                text.append("msgs");
            }
            text.append(") | ");
            text.append(item.timestamp.as_str());
            let highlighted = match self.selected {
                Some(s) => s == i,
                None => false,
            };
            r.push(ListEntry { text, highlighted });
            i = i + 1;
        }
        r
    }
}

/// `String::insert`: puts `c` at the byte position `idx`, which must be a
/// character boundary, as the method's documentation states.
#[verifier::external_body]
fn insert_char_at(s: &mut String, idx: usize, c: char)
    requires
        is_char_boundary(encode_utf8(old(s)@), idx as int),
    ensures
        encode_utf8(final(s)@) == encode_utf8(old(s)@).take(idx as int) + encode_utf8(seq![c]) + encode_utf8(
            old(s)@,
        ).skip(idx as int),
{
    s.insert(idx, c)
}

/// `String::remove`: takes out the character that begins at the byte position
/// `idx`, which must be a character boundary before the end, and returns it,
/// as the method's documentation states.
#[verifier::external_body]
fn remove_char_at(s: &mut String, idx: usize) -> (c: char)
    requires
        idx < encode_utf8(old(s)@).len(),
        is_char_boundary(encode_utf8(old(s)@), idx as int),
    ensures
        idx + encode_utf8(seq![c]).len() <= encode_utf8(old(s)@).len(),
        encode_utf8(old(s)@).subrange(idx as int, idx + encode_utf8(seq![c]).len()) == encode_utf8(seq![c]),
        encode_utf8(final(s)@) == encode_utf8(old(s)@).take(idx as int) + encode_utf8(old(s)@).skip(
            idx + encode_utf8(seq![c]).len(),
        ),
{
    s.remove(idx)
}

/// Keys the input line reacts to.
#[derive(Debug, Clone, Copy, PartialEq, Eq)]
pub enum InputKey {
    Char(char),
    Delete,
    Backspace,
    End,
    Home,
    Left,
    Right,
    Other,
}

/// The input line. `cursor` is a byte position in `value`.
pub struct InputComponent {
    pub theme: Theme,
    pub value: String,
    pub placeholder: String,
    pub focused: bool,
    pub cursor: usize,
}

/// The bytes of a text.
pub open spec fn bytes_of(s: String) -> Seq<u8> {
    encode_utf8(s@)
}

/// The bytes after removing the character `c` that begins at `idx`: `c`'s
/// encoding stands there, and what follows it moves up.
pub open spec fn removed_at(b: Seq<u8>, idx: int, c: char) -> Seq<u8> {
    b.take(idx) + b.skip(idx + encode_utf8(seq![c]).len())
}

/// `c`'s encoding stands at `idx` in `b`.
pub open spec fn encoded_at(b: Seq<u8>, idx: int, c: char) -> bool {
    idx + encode_utf8(seq![c]).len() <= b.len() && b.subrange(idx, idx + encode_utf8(seq![c]).len()) == encode_utf8(
        seq![c],
    )
}

impl InputComponent {
    /// An empty, unfocused input line.
    pub fn new(theme: Theme) -> (c: Self)
        ensures
            c.theme == theme,
            c.value@.len() == 0,
            c.placeholder@ == "Type a message..."@,
            !c.focused,
            c.cursor == 0,
    {
        InputComponent {
            theme,
            value: String::new(),
            placeholder: owned("Type a message..."),
            focused: false,
            cursor: 0,
        }
    }

    /// Set the text; the cursor goes to its end.
    pub fn set_value(&mut self, value: String)
        ensures
            final(self).value@ == value@,
            final(self).cursor == encode_utf8(value@).len() as usize,
            final(self).focused == old(self).focused,
    {
        self.value = value;
        self.cursor = self.value.as_str().len();
    }

    pub fn set_placeholder(&mut self, placeholder: String)
        ensures
            final(self).placeholder@ == placeholder@,
            final(self).value == old(self).value,
            final(self).cursor == old(self).cursor,
    {
        self.placeholder = placeholder;
    }

    pub fn is_focused(&self) -> (r: bool)
        ensures
            r == self.focused,
    {
        self.focused
    }

    pub fn set_focused(&mut self, focused: bool)
        ensures
            final(self).focused == focused,
            final(self).value == old(self).value,
            final(self).cursor == old(self).cursor,
    {
        self.focused = focused;
    }

    /// Remove the character before the cursor.
    fn backspace(&mut self)
        requires
            old(self).cursor > 0 ==> old(self).cursor - 1 < bytes_of(old(self).value).len() && is_char_boundary(
                bytes_of(old(self).value),
                old(self).cursor - 1,
            ),
        ensures
            old(self).cursor == 0 ==> final(self).value == old(self).value && final(self).cursor == 0,
            old(self).cursor > 0 ==> exists|c: char|
                encoded_at(bytes_of(old(self).value), old(self).cursor - 1, c) && bytes_of(final(self).value)
                    == #[trigger] removed_at(bytes_of(old(self).value), old(self).cursor - 1, c),
            old(self).cursor > 0 ==> final(self).cursor == old(self).cursor - 1,
            final(self).focused == old(self).focused,
            final(self).placeholder == old(self).placeholder,
            final(self).theme == old(self).theme,
    {
        if self.cursor > 0 {
            let ghost b = bytes_of(self.value);
            let c = remove_char_at(&mut self.value, self.cursor - 1);
            assert(bytes_of(self.value) == removed_at(b, self.cursor - 1, c));
            assert(encoded_at(b, self.cursor - 1, c));
            self.cursor = self.cursor - 1;
        }
    }

    /// A typed character: delete (`U+007F`) removes the character before the
    /// cursor, another control character does nothing, any other character is
    /// put at the cursor, which then moves one byte on.
    pub fn handle_char(&mut self, c: char)
        requires
            c == '\u{7f}' ==> (old(self).cursor > 0 ==> old(self).cursor - 1 < bytes_of(old(self).value).len()
                && is_char_boundary(bytes_of(old(self).value), old(self).cursor - 1)),
            c != '\u{7f}' && !is_control_char(c) ==> is_char_boundary(bytes_of(old(self).value), old(self).cursor as int),
        ensures
            c == '\u{7f}' && old(self).cursor == 0 ==> final(self).value == old(self).value && final(self).cursor == 0,
            c == '\u{7f}' && old(self).cursor > 0 ==> (exists|d: char|
                encoded_at(bytes_of(old(self).value), old(self).cursor - 1, d) && bytes_of(final(self).value)
                    == #[trigger] removed_at(bytes_of(old(self).value), old(self).cursor - 1, d))
                && final(self).cursor == old(self).cursor - 1,
            c != '\u{7f}' && is_control_char(c) ==> final(self).value == old(self).value && final(self).cursor
                == old(self).cursor,
            c != '\u{7f}' && !is_control_char(c) ==> bytes_of(final(self).value) == bytes_of(old(self).value).take(
                old(self).cursor as int,
            ) + encode_utf8(seq![c]) + bytes_of(old(self).value).skip(old(self).cursor as int)
                && final(self).cursor == if old(self).cursor < usize::MAX { (old(self).cursor + 1) as usize } else { old(self).cursor },
            final(self).focused == old(self).focused,
            final(self).placeholder == old(self).placeholder,
            final(self).theme == old(self).theme,
    {
        if c == '\u{7f}' {
            self.backspace();
        } else if !is_control(c) {
            insert_char_at(&mut self.value, self.cursor, c);
            self.cursor = self.cursor.saturating_add(1);
        }
    }

    /// A key: characters as `handle_char`; delete removes the character at the
    /// cursor; backspace the one before it; end and home move to the ends;
    /// left moves one byte back; right keeps the cursor within the text.
    pub fn handle_key(&mut self, key: InputKey)
        requires
            key matches InputKey::Char(c) ==> (c == '\u{7f}' ==> (old(self).cursor > 0 ==> old(self).cursor - 1
                < bytes_of(old(self).value).len() && is_char_boundary(bytes_of(old(self).value), old(self).cursor - 1)))
                && (c != '\u{7f}' && !is_control_char(c) ==> is_char_boundary(
                bytes_of(old(self).value),
                old(self).cursor as int,
            )),
            key == InputKey::Delete ==> (old(self).cursor < bytes_of(old(self).value).len() ==> is_char_boundary(
                bytes_of(old(self).value),
                old(self).cursor as int,
            )),
            key == InputKey::Backspace ==> (old(self).cursor > 0 ==> old(self).cursor - 1 < bytes_of(
                old(self).value,
            ).len() && is_char_boundary(bytes_of(old(self).value), old(self).cursor - 1)),
            bytes_of(old(self).value).len() <= usize::MAX,
        ensures
            final(self).focused == old(self).focused,
            final(self).placeholder == old(self).placeholder,
            final(self).theme == old(self).theme,
            key matches InputKey::Char(c) ==> {
                &&& c == '\u{7f}' && old(self).cursor == 0 ==> final(self).value == old(self).value
                    && final(self).cursor == 0
                &&& c == '\u{7f}' && old(self).cursor > 0 ==> (exists|d: char|
                    encoded_at(bytes_of(old(self).value), old(self).cursor - 1, d) && bytes_of(final(self).value)
                        == #[trigger] removed_at(bytes_of(old(self).value), old(self).cursor - 1, d))
                    && final(self).cursor == old(self).cursor - 1
                &&& c != '\u{7f}' && is_control_char(c) ==> final(self).value == old(self).value
                    && final(self).cursor == old(self).cursor
                &&& c != '\u{7f}' && !is_control_char(c) ==> bytes_of(final(self).value) == bytes_of(
                    old(self).value,
                ).take(old(self).cursor as int) + encode_utf8(seq![c]) + bytes_of(old(self).value).skip(
                    old(self).cursor as int,
                ) && final(self).cursor == if old(self).cursor < usize::MAX {
                    (old(self).cursor + 1) as usize
                } else {
                    old(self).cursor
                }
            },
            key == InputKey::Backspace ==> {
                &&& old(self).cursor == 0 ==> final(self).value == old(self).value && final(self).cursor == 0
                &&& old(self).cursor > 0 ==> (exists|d: char|
                    encoded_at(bytes_of(old(self).value), old(self).cursor - 1, d) && bytes_of(final(self).value)
                        == #[trigger] removed_at(bytes_of(old(self).value), old(self).cursor - 1, d))
                    && final(self).cursor == old(self).cursor - 1
            },
            key == InputKey::Delete ==> if old(self).cursor < bytes_of(old(self).value).len() {
                exists|d: char|
                    encoded_at(bytes_of(old(self).value), old(self).cursor as int, d) && bytes_of(final(self).value)
                        == #[trigger] removed_at(bytes_of(old(self).value), old(self).cursor as int, d)
            } else {
                final(self).value == old(self).value
            },
            key == InputKey::Delete ==> final(self).cursor == old(self).cursor,
            key == InputKey::End ==> final(self).cursor == bytes_of(old(self).value).len() && final(self).value == old(self).value,
            key == InputKey::Home ==> final(self).cursor == 0 && final(self).value == old(self).value,
            key == InputKey::Left ==> final(self).cursor == (if old(self).cursor > 0 { old(self).cursor - 1 } else { 0 })
                && final(self).value == old(self).value,
            key == InputKey::Right ==> final(self).cursor == (if old(self).cursor <= bytes_of(old(self).value).len() {
                old(self).cursor as int
            } else {
                bytes_of(old(self).value).len() as int
            }) && final(self).value == old(self).value,
            key == InputKey::Other ==> final(self).cursor == old(self).cursor && final(self).value == old(self).value,
    {
        match key {
            InputKey::Char(c) => self.handle_char(c),
            InputKey::Delete => {
                if self.cursor < self.value.as_str().len() {
                    let ghost b = bytes_of(self.value);
                    let d = remove_char_at(&mut self.value, self.cursor);
                    assert(bytes_of(self.value) == removed_at(b, self.cursor as int, d));
                    assert(encoded_at(b, self.cursor as int, d));
                }
            },
            InputKey::Backspace => self.backspace(),
            InputKey::End => {
                self.cursor = self.value.as_str().len();
            },
            InputKey::Home => {
                self.cursor = 0;
            },
            InputKey::Left => {
                self.cursor = self.cursor.saturating_sub(1);
            },
            InputKey::Right => {
                let n = self.value.as_str().len();
                self.cursor = if self.cursor < n { self.cursor } else { n };
            },
            InputKey::Other => {},
        }
    }

    /// Empty the line.
    pub fn clear(&mut self)
        ensures
            final(self).value@.len() == 0,
            final(self).cursor == 0,
            final(self).focused == old(self).focused,
            final(self).placeholder == old(self).placeholder,
    {
        self.value = String::new();
        self.cursor = 0;
    }

    /// What the line shows: the placeholder when empty, else the text, in the
    /// focused or the plain input style.
    pub fn display(&self) -> (r: (String, TextStyle))
        ensures
            r.0@ == (if self.value@.len() == 0 { self.placeholder@ } else { self.value@ }),
            r.1 == (if self.focused { crate::styles::focused_input_style(self.theme) } else { crate::styles::input_style(self.theme) }),
    {
        let text = if self.value.as_str().is_empty() {
            owned(self.placeholder.as_str())
        } else {
            owned(self.value.as_str())
        };
        let style = if self.focused { self.theme.input_focused() } else { self.theme.input() };
        (text, style)
    }
}

impl Default for InputComponent {
    fn default() -> (c: Self)
        ensures
            c.theme == crate::styles::default_theme(),
            c.value@.len() == 0,
            c.placeholder@ == "Type a message..."@,
            !c.focused,
            c.cursor == 0,
    {
        Self::new(Theme::default())
    }
}

/// Valid text followed by valid text: the join is a character boundary.
proof fn lemma_boundary_at_join(p: Seq<u8>, q: Seq<u8>)
    requires
        vstd::utf8::valid_utf8(p),
        vstd::utf8::valid_utf8(q),
    ensures
        vstd::utf8::valid_utf8(p + q),
        is_char_boundary(p + q, p.len() as int),
    decreases p.len(),
{
    vstd::utf8::valid_utf8_concat(p, q);
    if p.len() > 0 {
        let l = vstd::utf8::length_of_first_scalar(p);
        assert((p + q)[0] == p[0]);
        assert(1 <= l <= p.len());
        assert(vstd::utf8::length_of_first_scalar(p + q) == l);
        let rest = vstd::utf8::pop_first_scalar(p);
        assert(vstd::utf8::pop_first_scalar(p + q) =~= rest + q);
        lemma_boundary_at_join(rest, q);
        assert(rest.len() == p.len() - l);
    }
}

/// The encoding of one character has the length its first byte announces.
proof fn lemma_char_len(c: char)
    ensures
        encode_utf8(seq![c]).len() > 0,
        encode_utf8(seq![c]).len() == vstd::utf8::length_of_first_scalar(encode_utf8(seq![c])),
        vstd::utf8::valid_utf8(encode_utf8(seq![c])),
{
    vstd::utf8::encode_utf8_first_scalar(seq![c]);
    vstd::utf8::encode_utf8_valid_utf8(seq![c]);
    assert(seq![c].drop_first() =~= Seq::<char>::empty());
    assert(encode_utf8(Seq::<char>::empty()) =~= Seq::<u8>::empty());
    assert(encode_utf8(seq![c]) =~= vstd::utf8::encode_scalar(c as u32) + encode_utf8(seq![c].drop_first()));
}

/// Typing a character and then deleting it gives the text back: after `c` is
/// put at a character boundary `i`, the byte `i` is a boundary before the
/// end, and the character found there to delete is `c`, whose removal
/// restores the bytes.
pub proof fn lemma_type_then_delete(value: Seq<char>, i: int, c: char)
    requires
        is_char_boundary(encode_utf8(value), i),
    ensures
        ({
            let b = encode_utf8(value);
            let after = b.take(i) + encode_utf8(seq![c]) + b.skip(i);
            &&& i < after.len()
            &&& is_char_boundary(after, i)
            &&& forall|d: char| #[trigger] encoded_at(after, i, d) ==> removed_at(after, i, d) == b
        }),
{
    let b = encode_utf8(value);
    let e = encode_utf8(seq![c]);
    vstd::utf8::encode_utf8_valid_utf8(value);
    vstd::utf8::valid_utf8_split(b, i);
    lemma_char_len(c);
    let head = b.take(i);
    let tail = b.skip(i);
    assert(b.subrange(0, i) =~= head);
    assert(b.subrange(i, b.len() as int) =~= tail);
    assert(0 <= i <= b.len()) by {
        reveal_with_fuel(is_char_boundary, 1);
    }
    let after = head + e + tail;
    vstd::utf8::valid_utf8_concat(e, tail);
    lemma_boundary_at_join(head, e + tail);
    assert(after =~= head + (e + tail));
    assert forall|d: char| #[trigger] encoded_at(after, i, d) implies removed_at(after, i, d) == b by {
        let ed = encode_utf8(seq![d]);
        lemma_char_len(d);
        assert(after[i] == e[0]);
        assert(ed[0] == after.subrange(i, i + ed.len())[0]);
        assert(ed.len() == e.len());
        assert(removed_at(after, i, d) =~= head + tail);
        assert(head + tail =~= b);
    }
}

} // verus!
