use rterm::ui::{KeyAction, KeyCode, KeyEvent, TerminalUI};

fn press(ui: &mut TerminalUI, code: KeyCode) -> KeyAction {
    ui.handle_key(KeyEvent { code, control: false })
}

fn type_text(ui: &mut TerminalUI, text: &str) {
    for c in text.chars() {
        assert_eq!(press(ui, KeyCode::Char(c)), KeyAction::Continue);
    }
}

fn history(ui: &TerminalUI) -> Vec<String> {
    (0..ui.history_len()).map(|i| ui.history_entry(i).clone()).collect()
}

#[test]
fn fresh_session() {
    let ui = TerminalUI::new();
    assert_eq!(ui.input(), "");
    assert_eq!(ui.cursor_position(), 0);
    assert_eq!(ui.prompt().as_str(), "> ");
    assert_eq!(ui.scroll_offset(), 0);
    assert_eq!(ui.history_len(), 0);
    assert_eq!(ui.history_index(), 0);
    assert_eq!(ui.get_message_logger().len(), 0);
    assert_eq!(ui.get_message_logger().capacity(), 1000);
}

#[test]
fn set_prompt_replaces_the_prompt() {
    let mut ui = TerminalUI::new();
    type_text(&mut ui, "x");
    ui.set_prompt("rmc > ".to_string());
    assert_eq!(ui.prompt().as_str(), "rmc > ");
    assert_eq!(ui.input(), "x");
    assert_eq!(ui.cursor_position(), 1);
}

#[test]
fn insert_at_end_of_he() {
    let mut ui = TerminalUI::new();
    type_text(&mut ui, "he");
    assert_eq!((ui.input().as_str(), ui.cursor_position()), ("he", 2));
    press(&mut ui, KeyCode::Char('l'));
    assert_eq!((ui.input().as_str(), ui.cursor_position()), ("hel", 3));
    press(&mut ui, KeyCode::Char('l'));
    assert_eq!((ui.input().as_str(), ui.cursor_position()), ("hell", 4));
    press(&mut ui, KeyCode::Char('o'));
    assert_eq!((ui.input().as_str(), ui.cursor_position()), ("hello", 5));
}

#[test]
fn insert_in_the_middle() {
    let mut ui = TerminalUI::new();
    type_text(&mut ui, "hllo");
    press(&mut ui, KeyCode::Home);
    press(&mut ui, KeyCode::Right);
    press(&mut ui, KeyCode::Char('e'));
    assert_eq!((ui.input().as_str(), ui.cursor_position()), ("hello", 2));
}

#[test]
fn cursor_counts_characters() {
    let mut ui = TerminalUI::new();
    type_text(&mut ui, "caf\u{e9}");
    assert_eq!(ui.cursor_position(), 4);
    press(&mut ui, KeyCode::Char('!'));
    assert_eq!((ui.input().as_str(), ui.cursor_position()), ("caf\u{e9}!", 5));
    press(&mut ui, KeyCode::Left);
    press(&mut ui, KeyCode::Backspace);
    assert_eq!((ui.input().as_str(), ui.cursor_position()), ("caf!", 3));
}

#[test]
fn backspace_removes_before_cursor() {
    let mut ui = TerminalUI::new();
    type_text(&mut ui, "abc");
    press(&mut ui, KeyCode::Left);
    assert_eq!(press(&mut ui, KeyCode::Backspace), KeyAction::Continue);
    assert_eq!((ui.input().as_str(), ui.cursor_position()), ("ac", 1));
    press(&mut ui, KeyCode::Backspace);
    assert_eq!((ui.input().as_str(), ui.cursor_position()), ("c", 0));
    press(&mut ui, KeyCode::Backspace);
    assert_eq!((ui.input().as_str(), ui.cursor_position()), ("c", 0));
}

#[test]
fn left_and_right_stay_in_bounds() {
    let mut ui = TerminalUI::new();
    press(&mut ui, KeyCode::Left);
    assert_eq!(ui.cursor_position(), 0);
    press(&mut ui, KeyCode::Right);
    assert_eq!(ui.cursor_position(), 0);
    type_text(&mut ui, "ab");
    press(&mut ui, KeyCode::Right);
    assert_eq!(ui.cursor_position(), 2);
    press(&mut ui, KeyCode::Left);
    assert_eq!(ui.cursor_position(), 1);
    press(&mut ui, KeyCode::Left);
    press(&mut ui, KeyCode::Left);
    assert_eq!(ui.cursor_position(), 0);
}

#[test]
fn home_and_end() {
    let mut ui = TerminalUI::new();
    type_text(&mut ui, "abcd");
    press(&mut ui, KeyCode::Home);
    assert_eq!(ui.cursor_position(), 0);
    press(&mut ui, KeyCode::End);
    assert_eq!(ui.cursor_position(), 4);
}

#[test]
fn enter_submits_and_clears() {
    let mut ui = TerminalUI::new();
    type_text(&mut ui, "  say hi ");
    press(&mut ui, KeyCode::PageUp);
    assert_eq!(press(&mut ui, KeyCode::Enter), KeyAction::Submit("  say hi ".to_string()));
    assert_eq!(ui.input(), "");
    assert_eq!(ui.cursor_position(), 0);
    assert_eq!(ui.scroll_offset(), 0);
    assert_eq!(history(&ui), vec!["  say hi "]);
    assert_eq!(ui.history_index(), 1);
}

#[test]
fn blank_submit_leaves_history_alone() {
    let mut ui = TerminalUI::new();
    type_text(&mut ui, "one");
    press(&mut ui, KeyCode::Enter);
    type_text(&mut ui, " \t ");
    assert_eq!(press(&mut ui, KeyCode::Enter), KeyAction::Submit(" \t ".to_string()));
    assert_eq!(history(&ui), vec!["one"]);
    assert_eq!(ui.history_index(), 1);
    assert_eq!(press(&mut ui, KeyCode::Enter), KeyAction::Submit(String::new()));
    assert_eq!(history(&ui), vec!["one"]);
    assert_eq!(ui.history_index(), 1);
}

#[test]
fn blank_submit_while_browsing_keeps_the_position() {
    let mut ui = TerminalUI::new();
    type_text(&mut ui, "x");
    press(&mut ui, KeyCode::Enter);
    type_text(&mut ui, "y");
    press(&mut ui, KeyCode::Enter);
    press(&mut ui, KeyCode::Up);
    press(&mut ui, KeyCode::Up);
    assert_eq!(ui.history_index(), 0);
    press(&mut ui, KeyCode::Backspace);
    press(&mut ui, KeyCode::PageUp);
    assert_eq!(press(&mut ui, KeyCode::Enter), KeyAction::Submit(String::new()));
    assert_eq!(history(&ui), vec!["x", "y"]);
    assert_eq!(ui.history_index(), 0);
    assert_eq!((ui.input().as_str(), ui.cursor_position()), ("", 0));
    assert_eq!(ui.scroll_offset(), 0);
    press(&mut ui, KeyCode::Down);
    assert_eq!(ui.input(), "y");
    assert_eq!(ui.history_index(), 1);
}

#[test]
fn submit_while_browsing_moves_behind_the_last_entry() {
    let mut ui = TerminalUI::new();
    type_text(&mut ui, "x");
    press(&mut ui, KeyCode::Enter);
    type_text(&mut ui, "y");
    press(&mut ui, KeyCode::Enter);
    press(&mut ui, KeyCode::Up);
    press(&mut ui, KeyCode::Up);
    assert_eq!(press(&mut ui, KeyCode::Enter), KeyAction::Submit("x".to_string()));
    assert_eq!(history(&ui), vec!["x", "y", "x"]);
    assert_eq!(ui.history_index(), 3);
}

#[test]
fn up_then_down_after_submit_empties_the_line() {
    let mut ui = TerminalUI::new();
    type_text(&mut ui, "status");
    press(&mut ui, KeyCode::Enter);
    press(&mut ui, KeyCode::Up);
    assert_eq!((ui.input().as_str(), ui.cursor_position()), ("status", 6));
    press(&mut ui, KeyCode::Down);
    assert_eq!((ui.input().as_str(), ui.cursor_position()), ("", 0));
    assert_eq!(ui.history_index(), 1);
}

#[test]
fn history_walk_first_second() {
    let mut ui = TerminalUI::new();
    type_text(&mut ui, "first");
    press(&mut ui, KeyCode::Enter);
    type_text(&mut ui, "second");
    press(&mut ui, KeyCode::Enter);
    assert_eq!(history(&ui), vec!["first", "second"]);
    assert_eq!(ui.history_index(), 2);
    press(&mut ui, KeyCode::Up);
    assert_eq!(ui.input(), "second");
    press(&mut ui, KeyCode::Up);
    assert_eq!(ui.input(), "first");
    assert_eq!(ui.history_index(), 0);
    assert_eq!(ui.cursor_position(), 5);
    press(&mut ui, KeyCode::Down);
    assert_eq!(ui.input(), "second");
    assert_eq!(ui.history_index(), 1);
    assert_eq!(ui.cursor_position(), 6);
}

#[test]
fn up_at_the_oldest_and_down_at_the_end_do_nothing() {
    let mut ui = TerminalUI::new();
    type_text(&mut ui, "draft");
    press(&mut ui, KeyCode::Up);
    press(&mut ui, KeyCode::Down);
    assert_eq!((ui.input().as_str(), ui.cursor_position()), ("draft", 5));
    press(&mut ui, KeyCode::Enter);
    press(&mut ui, KeyCode::Up);
    press(&mut ui, KeyCode::Up);
    assert_eq!(ui.input(), "draft");
    assert_eq!(ui.history_index(), 0);
}

#[test]
fn tab_asks_for_completions() {
    let mut ui = TerminalUI::new();
    type_text(&mut ui, "fo");
    press(&mut ui, KeyCode::Left);
    assert_eq!(press(&mut ui, KeyCode::Tab), KeyAction::Complete("fo".to_string(), 1));
    assert_eq!((ui.input().as_str(), ui.cursor_position()), ("fo", 1));
}

#[test]
fn no_candidates_change_nothing() {
    let mut ui = TerminalUI::new();
    type_text(&mut ui, "fo");
    press(&mut ui, KeyCode::Left);
    ui.apply_suggestions(&Vec::new());
    assert_eq!((ui.input().as_str(), ui.cursor_position()), ("fo", 1));
}

#[test]
fn first_candidate_replaces_the_line() {
    let mut ui = TerminalUI::new();
    type_text(&mut ui, "f");
    ui.apply_suggestions(&vec!["foo".to_string(), "foobar".to_string()]);
    assert_eq!((ui.input().as_str(), ui.cursor_position()), ("foo", 3));
}

#[test]
fn control_c_exits() {
    let mut ui = TerminalUI::new();
    type_text(&mut ui, "ab");
    let action = ui.handle_key(KeyEvent { code: KeyCode::Char('c'), control: true });
    assert_eq!(action, KeyAction::Exit);
    assert_eq!(ui.input(), "ab");
}

#[test]
fn control_with_another_letter_types_it() {
    let mut ui = TerminalUI::new();
    let action = ui.handle_key(KeyEvent { code: KeyCode::Char('a'), control: true });
    assert_eq!(action, KeyAction::Continue);
    assert_eq!(ui.input(), "a");
    let action = ui.handle_key(KeyEvent { code: KeyCode::Char('c'), control: false });
    assert_eq!(action, KeyAction::Continue);
    assert_eq!(ui.input(), "ac");
}

#[test]
fn page_keys_scroll_by_five() {
    let mut ui = TerminalUI::new();
    press(&mut ui, KeyCode::PageDown);
    assert_eq!(ui.scroll_offset(), 0);
    press(&mut ui, KeyCode::PageUp);
    press(&mut ui, KeyCode::PageUp);
    assert_eq!(ui.scroll_offset(), 10);
    press(&mut ui, KeyCode::PageDown);
    assert_eq!(ui.scroll_offset(), 5);
    press(&mut ui, KeyCode::PageDown);
    press(&mut ui, KeyCode::PageDown);
    assert_eq!(ui.scroll_offset(), 0);
}

#[test]
fn other_keys_are_ignored() {
    let mut ui = TerminalUI::new();
    type_text(&mut ui, "ab");
    assert_eq!(press(&mut ui, KeyCode::Other), KeyAction::Continue);
    assert_eq!((ui.input().as_str(), ui.cursor_position()), ("ab", 2));
}

#[test]
fn command_outcome_ends_only_on_request() {
    assert_eq!(TerminalUI::command_outcome(Ok(true)), KeyAction::Exit);
    assert_eq!(TerminalUI::command_outcome(Ok(false)), KeyAction::Continue);
    assert_eq!(TerminalUI::command_outcome(Err("boom".to_string())), KeyAction::Continue);
}
