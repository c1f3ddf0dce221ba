use knowls::agents::AgentID;
use knowls::ui::user_input::{ChatMessage, ChatRole, InputAction, InputMode, Tui as ChatInput};
use knowls::ui::{AgentProps, CurrentPane, DBProps, DocsProps, GlobalProps, KeyCode, Tui};

#[test]
fn panes_are_entered_and_left() {
    let mut tui = Tui::new();
    assert_eq!(tui.current_pane, CurrentPane::default());
    tui.handle_key_event(KeyCode::Char('a'));
    assert_eq!(tui.current_pane, CurrentPane::Agents);
    tui.handle_key_event(KeyCode::Char('q'));
    assert!(!tui.should_quit);
    tui.handle_key_event(KeyCode::Esc);
    assert_eq!(tui.current_pane, CurrentPane::Normal);
    for (key, pane) in [
        (AgentProps::select_me()),
        (DBProps::select_me()),
        (DocsProps::select_me()),
        (GlobalProps::select_me()),
    ] {
        let mut t = Tui::new();
        t.handle_key_event(key);
        assert_eq!(t.current_pane, pane);
    }
    tui.handle_key_event(KeyCode::Char('q'));
    assert!(tui.should_quit);
}

#[test]
fn top_bar_names_the_pane() {
    let mut tui = Tui::new();
    assert_eq!(tui.top_bar(), ("Home", "q", " to quit"));
    tui.handle_key_event(KeyCode::Char('b'));
    assert_eq!(tui.top_bar(), ("Database", "Esc", " to go back"));
}

#[test]
fn pane_handlers_go_home_on_escape() {
    let mut tui = Tui { current_pane: CurrentPane::Docs, should_quit: false };
    DocsProps::handle_keyevent(&mut tui, KeyCode::Char('x'));
    assert_eq!(tui.current_pane, CurrentPane::Docs);
    DocsProps::handle_keyevent(&mut tui, KeyCode::Esc);
    assert_eq!(tui.current_pane, CurrentPane::Normal);
    let mut g = Tui { current_pane: CurrentPane::Global, should_quit: false };
    GlobalProps::handle_keyevent(&mut g, KeyCode::Esc);
    assert_eq!(g.current_pane, CurrentPane::Normal);
}

#[test]
fn agent_list_wraps_around() {
    let mut props = AgentProps {
        current_agent: 0,
        all_agents: vec![AgentID::Global, AgentID::Char('a'), AgentID::Char('b')],
    };
    props.prev_agent();
    assert_eq!(props.current_agent, 2);
    props.next_agent();
    assert_eq!(props.current_agent, 0);
    props.next_agent();
    assert_eq!(props.current_agent, 1);
    props.prev_agent();
    assert_eq!(props.current_agent, 0);

    let mut tui = Tui { current_pane: CurrentPane::Agents, should_quit: false };
    props.handle_keyevent(&mut tui, KeyCode::Up);
    assert_eq!(props.current_agent, 1);
    props.handle_keyevent(&mut tui, KeyCode::Char('j'));
    assert_eq!(props.current_agent, 0);
    props.handle_keyevent(&mut tui, KeyCode::Esc);
    assert_eq!(tui.current_pane, CurrentPane::Normal);
    assert_eq!(props.current_agent, 0);
}

#[test]
fn chat_input_edits_and_submits() {
    let mut chat = ChatInput::new(AgentID::Char('c'));
    assert_eq!(chat.input_mode(), InputMode::Normal);
    assert_eq!(chat.handle_key(KeyCode::Char('e'), true), InputAction::Nothing);
    assert_eq!(chat.input_mode(), InputMode::Editing);
    for c in "héllo".chars() {
        chat.handle_key(KeyCode::Char(c), true);
    }
    assert_eq!(chat.input(), "héllo");
    assert_eq!(chat.character_index(), 5);
    chat.handle_key(KeyCode::Left, true);
    chat.handle_key(KeyCode::Left, true);
    chat.handle_key(KeyCode::Char('X'), true);
    assert_eq!(chat.input(), "hélXlo");
    assert_eq!(chat.byte_index(), 5);
    chat.handle_key(KeyCode::Backspace, true);
    assert_eq!(chat.input(), "héllo");
    assert_eq!(chat.character_index(), 3);
    chat.handle_key(KeyCode::Char('z'), false);
    assert_eq!(chat.input(), "héllo");
    let action = chat.handle_key(KeyCode::Enter, true);
    assert_eq!(
        action,
        InputAction::Submit(ChatMessage { role: ChatRole::User, content: "héllo".to_string() })
    );
    assert_eq!(chat.input(), "");
    assert_eq!(chat.character_index(), 0);
    assert_eq!(chat.messages().len(), 1);
    chat.handle_key(KeyCode::Esc, true);
    assert_eq!(chat.input_mode(), InputMode::Normal);
    assert_eq!(chat.handle_key(KeyCode::Char('q'), true), InputAction::Quit);
    assert_eq!(chat.agent_id(), &AgentID::Char('c'));
}

#[test]
fn cursor_stays_within_the_input() {
    let mut chat = ChatInput::new(AgentID::Global);
    chat.move_cursor_left();
    assert_eq!(chat.character_index(), 0);
    chat.enter_char('a');
    chat.move_cursor_right();
    chat.move_cursor_right();
    assert_eq!(chat.character_index(), 1);
    assert_eq!(chat.clamp_cursor(10), 1);
    chat.delete_char();
    assert_eq!(chat.input(), "");
    chat.delete_char();
    assert_eq!(chat.input(), "");
    chat.enter_char('b');
    chat.reset_cursor();
    assert_eq!(chat.character_index(), 0);
    let m = chat.submit_message();
    assert_eq!(m.content, "b");
}

#[test]
fn typing_then_deleting_restores_the_input() {
    let mut chat = ChatInput::new(AgentID::Global);
    for c in "abc".chars() {
        chat.enter_char(c);
    }
    chat.move_cursor_left();
    chat.enter_char('X');
    assert_eq!(chat.input(), "abXc");
    chat.delete_char();
    assert_eq!(chat.input(), "abc");
    assert_eq!(chat.character_index(), 2);
}

#[test]
fn agent_rows_mark_the_selected_agent() {
    let props = AgentProps {
        current_agent: 1,
        all_agents: vec![
            AgentID::Global,
            AgentID::Uri("file:///home/me/src/lib.rs".to_string()),
            AgentID::Char('z'),
        ],
    };
    assert_eq!(
        props.list_items(),
        vec![
            ("Global".to_string(), false),
            ("src/lib.rs".to_string(), true),
            ("Custom Agent(z)".to_string(), false),
        ]
    );
}
