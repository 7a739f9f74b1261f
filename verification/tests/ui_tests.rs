use claw_core::command_palette::{CommandId, CommandItem, CommandPaletteComponent, PaletteKey, PaletteView};
use claw_core::layout::{centered_split, grid_layout, AppLayout, Area, LayoutConstraint, LayoutRegion, RatatOffset};
use claw_core::messages::{
    ConversationListItem, InputComponent, InputKey, MessageComponent, MessageListComponent, MessageRole,
};
use claw_core::styles::{Modifier, Rgb, Theme};
use claw_core::ui_state::{AppMode, MessageFilter, StatusIndicator};

#[test]
fn modes_and_indicators() {
    assert!(AppMode::History.is_view_only());
    assert!(!AppMode::Chat.is_view_only());
    assert!(AppMode::CommandPalette.navigable());
    assert!(!AppMode::Help.navigable());
    assert_eq!(AppMode::CommandPalette.display_name(), "Command");
    assert_eq!(StatusIndicator::Error.color(), "red");
    assert_eq!(StatusIndicator::Loading.symbol(), "\u{27f3}");
    assert_eq!(StatusIndicator::Warning.symbol(), "!");
}

#[test]
fn themes() {
    let t = Theme::default();
    assert_eq!(t.primary, Rgb(86, 156, 214));
    assert_eq!(Theme::dark().background, Rgb(27, 31, 36));
    assert_eq!(Theme::light().warning, Rgb(239, 112, 0));
    assert_eq!(t.title().modifier, Some(Modifier::Bold));
    assert_eq!(t.input_focused().bg, Some(t.primary));
    assert_eq!(t.inactive().modifier, Some(Modifier::Dim));
}

#[test]
fn layouts() {
    let l = AppLayout::for_mode(AppMode::Chat);
    assert_eq!(l.main.constraints, vec![LayoutConstraint::Min(1), LayoutConstraint::Percentage(60)]);
    assert!(l.sidebar.is_none());
    assert_eq!(l.input.padding, (1, 0, 1, 0));
    let h = AppLayout::for_mode(AppMode::History);
    assert_eq!(h.sidebar.as_ref().unwrap().constraints, vec![LayoutConstraint::Percentage(20)]);
    let inner = l.inner_rect(Area { x: 0, y: 0, width: 10, height: 3 }, (2, 2, 9, 0));
    assert_eq!(inner, Area { x: 2, y: 2, width: 0, height: 1 });
    let cells = grid_layout(Area { x: 1, y: 1, width: 10, height: 7 }, 2, 3);
    assert_eq!(cells.len(), 6);
    assert_eq!(cells[0], Area { x: 1, y: 1, width: 3, height: 3 });
    assert_eq!(cells[5], Area { x: 7, y: 4, width: 3, height: 3 });
    let parts = centered_split(Area { x: 0, y: 0, width: 10, height: 2 }, &[LayoutConstraint::Length(4), LayoutConstraint::Min(0)]);
    assert_eq!(parts.len(), 2);
    assert_eq!(parts[0].width, 4);
    assert!(parts.iter().all(|p| p.y == 0 && p.height == 2));
    let rows = claw_core::layout::centered_vertical_split(Area { x: 3, y: 0, width: 300, height: 400 }, &[LayoutConstraint::Length(1), LayoutConstraint::Min(0)]);
    assert_eq!(rows.len(), 2);
    assert!(rows.iter().all(|p| p.x == 3 && p.width == 300));
}

#[test]
fn palette_filters_and_selects() {
    let mut p = CommandPaletteComponent::new(Theme::default());
    assert_eq!(p.commands.len(), 7);
    assert_eq!(p.commands[0].id, CommandId::Send);
    assert!(matches!(p.render_view(), PaletteView::Hidden));
    p.set_query("HIST".to_string());
    let names: Vec<&str> = p.commands.iter().map(|c| c.name.as_str()).collect();
    assert_eq!(names, vec!["Clear Screen", "History"]);
    assert_eq!(p.selected, Some(0));
    match p.render_view() {
        PaletteView::Entries { title, lines } => {
            assert_eq!(title, ": HIST");
            assert_eq!(lines, vec!["c  Clear Screen  Clear the conversation history".to_string()]);
        }
        _ => panic!("expected entries"),
    }
    p.set_selected(None);
    match p.render_view() {
        PaletteView::Entries { lines, .. } => assert_eq!(lines.len(), 2),
        _ => panic!("expected entries"),
    }
    p.set_query("zzz".to_string());
    assert!(p.commands.is_empty());
    assert_eq!(p.selected, None);
    assert!(matches!(p.render_view(), PaletteView::NoCommands));
}

#[test]
fn palette_keys_and_chars() {
    let mut p = CommandPaletteComponent::new(Theme::default());
    p.handle_char('s');
    assert_eq!(p.query, "s");
    assert_eq!(p.selected, Some(0));
    let n = p.commands.len();
    assert!(n >= 2);
    p.handle_key(PaletteKey::Down);
    assert_eq!(p.selected, Some(1));
    p.handle_key(PaletteKey::Up);
    p.handle_key(PaletteKey::Up);
    assert_eq!(p.selected, None);
    p.handle_char('\u{7f}');
    assert_eq!(p.query, "");
    p.handle_char('\n');
    assert_eq!(p.query, "");
    p.add_command(CommandItem {
        id: CommandId::Connect,
        name: "Connect".to_string(),
        description: "Connect remote".to_string(),
        icon: None,
        available: false,
    });
    assert!(p.commands.iter().all(|c| c.available));
    p.clear_query();
    assert_eq!(p.selected, None);
}

#[test]
fn message_view_scrolls_and_filters() {
    let mut m = MessageComponent::new(Theme::default());
    m.add_user_message("hello".to_string());
    m.add_assistant_message("hi".to_string());
    m.add_error_message("oops".to_string());
    m.add_system_message("sys".to_string());
    assert_eq!(m.len(), 4);
    m.set_filter(MessageFilter::UserOnly);
    assert_eq!(m.len(), 1);
    m.set_filter(MessageFilter::All);
    m.scroll_up();
    m.scroll_up();
    assert_eq!(m.scroll_offset(), 2);
    m.scroll_down();
    assert_eq!(m.scroll_offset(), 1);
    m.scroll_to_bottom();
    assert_eq!(m.scroll_offset(), 3);
    m.scroll_to_top();
    assert_eq!(m.scroll_offset(), 0);
    let content = m.build_content(30);
    assert_eq!(content.len(), 1);
    assert_eq!(content[0].label, "[User]");
    assert_eq!(content[0].lines, vec!["hello".to_string()]);
    m.scroll_up();
    m.scroll_up();
    let content = m.build_content(30);
    let labels: Vec<&str> = content.iter().map(|c| c.label.as_str()).collect();
    assert_eq!(labels, vec!["[Error]", "[Assistant]", "[User]"]);
    assert!(!m.is_empty());
    m.clear();
    assert!(m.is_empty());
    assert_eq!(MessageRole::User, MessageRole::User);
}

#[test]
fn conversation_list_entries() {
    let mut l = MessageListComponent::new(Theme::default());
    l.add_conversation(ConversationListItem {
        id: "1".to_string(),
        title: "First".to_string(),
        message_count: 1,
        timestamp: "today".to_string(),
        is_new: false,
    });
    l.add_conversation(ConversationListItem {
        id: "2".to_string(),
        title: "Second".to_string(),
        message_count: 3,
        timestamp: "now".to_string(),
        is_new: true,
    });
    l.set_selected(Some(1));
    let items = l.build_list_items();
    assert_eq!(items[0].text, "First (1 msg) | today");
    assert!(!items[0].highlighted);
    assert_eq!(items[1].text, "Second (3 msgs) | now");
    assert!(items[1].highlighted);
    assert_eq!(l.len(), 2);
}

#[test]
fn input_line_editing() {
    let mut i = InputComponent::new(Theme::default());
    assert_eq!(i.display().0, "Type a message...");
    i.handle_char('a');
    i.handle_char('c');
    i.handle_key(InputKey::Left);
    i.handle_char('b');
    assert_eq!(i.value, "abc");
    assert_eq!(i.cursor, 2);
    i.handle_char('\u{7f}');
    assert_eq!(i.value, "ac");
    assert_eq!(i.cursor, 1);
    i.handle_key(InputKey::Delete);
    assert_eq!(i.value, "a");
    i.handle_key(InputKey::End);
    assert_eq!(i.cursor, 1);
    i.handle_key(InputKey::Home);
    assert_eq!(i.cursor, 0);
    i.set_value("hello".to_string());
    assert_eq!(i.cursor, 5);
    i.set_focused(true);
    assert!(i.is_focused());
    assert_eq!(i.display().0, "hello");
    i.clear();
    assert_eq!(i.value, "");
    assert_eq!(i.cursor, 0);
}

#[test]
fn typing_then_deleting_restores_the_text() {
    let mut i = InputComponent::new(Theme::default());
    i.set_value("ab".to_string());
    i.handle_key(InputKey::Left);
    assert_eq!(i.cursor, 1);
    i.handle_char('\u{e9}');
    assert_eq!(i.value, "a\u{e9}b");
    assert_eq!(i.cursor, 2);
    i.handle_char('\u{7f}');
    assert_eq!(i.value, "ab");
    assert_eq!(i.cursor, 1);
}

#[test]
fn filtering_twice_is_filtering_once() {
    let mut p = CommandPaletteComponent::new(Theme::default());
    p.set_query("s".to_string());
    let once: Vec<String> = p.commands.iter().map(|c| c.name.clone()).collect();
    p.set_query("s".to_string());
    let twice: Vec<String> = p.commands.iter().map(|c| c.name.clone()).collect();
    assert_eq!(once, twice);
    assert!(p.commands.iter().all(|c| c.name.to_lowercase().contains('s') || c.description.to_lowercase().contains('s')));
}

#[test]
fn scrolling_up_then_down_comes_back() {
    let mut m = MessageComponent::new(Theme::default());
    m.add_user_message("a".to_string());
    m.add_user_message("b".to_string());
    m.scroll_up();
    let at = m.scroll_offset();
    m.scroll_up();
    m.scroll_down();
    assert_eq!(m.scroll_offset(), at);
    m.scroll_up();
    m.scroll_up();
    m.scroll_up();
    assert_eq!(m.scroll_offset(), 2);
}

#[test]
fn grid_cells_stay_inside() {
    let area = Area { x: 3, y: 4, width: 17, height: 11 };
    for cell in grid_layout(area, 3, 4) {
        assert!(cell.x >= area.x && cell.x + cell.width <= area.x + area.width);
        assert!(cell.y >= area.y && cell.y + cell.height <= area.y + area.height);
    }
}

#[test]
fn long_messages_are_wrapped() {
    let mut m = MessageComponent::new(Theme::default());
    m.add_assistant_message("one two three four five six".to_string());
    let content = m.build_content(20);
    assert_eq!(content.len(), 1);
    assert_eq!(content[0].label, "[Assistant]");
    assert!(content[0].lines.len() >= 3);
    assert!(content[0].lines.iter().all(|l| l.chars().count() <= 10));
    assert_eq!(content[0].lines.join(" "), "one two three four five six");
}

#[test]
fn layout_defaults_and_copies() {
    let r = LayoutRegion::default();
    assert!(r.constraints.is_empty());
    assert_eq!(r.padding, (0, 0, 0, 0));
    assert!(!r.scrollable);
    assert_eq!(RatatOffset::default(), RatatOffset::Whole);
    let h = AppLayout::for_mode(AppMode::History);
    let c = h.clone();
    assert_eq!(c.mode, AppMode::History);
    assert_eq!(c.sidebar.unwrap().constraints, vec![LayoutConstraint::Percentage(20)]);
    assert_eq!(c.main.constraints, h.main.constraints);
}

#[test]
fn executing_a_command_leaves_the_palette_as_it_was() {
    let mut p = CommandPaletteComponent::new(Theme::default());
    p.set_query("HIST".to_string());
    let cmd = p.commands[0].clone();
    p.execute_command(&cmd);
    assert_eq!(p.query, "HIST");
    assert_eq!(p.commands.len(), 2);
    assert_eq!(p.selected, Some(0));
}

#[test]
fn regions_are_placed_within_the_frame() {
    let frame = Area { x: 0, y: 0, width: 80, height: 24 };
    let chat = AppLayout::for_mode(AppMode::Chat);
    let main = chat.apply_region(frame, &chat.main, RatatOffset::Whole);
    assert_eq!(main.y, 0);
    assert_eq!(main.height, 24);
    assert!(main.x + main.width <= 80);
    let bare = LayoutRegion { constraints: vec![], padding: (1, 2, 3, 4), scrollable: false };
    let inner = chat.apply_region(frame, &bare, RatatOffset::Main);
    assert_eq!(inner, Area { x: 1, y: 2, width: 76, height: 18 });
    let history = AppLayout::for_mode(AppMode::History);
    let side = history.apply_region(frame, &history.main, RatatOffset::Sidebar);
    assert_eq!(side.y, 0);
    assert!(side.x + side.width <= 80);
}
