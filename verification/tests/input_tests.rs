use rufium::input::KeyHandler;
use rufium::input::KeyInput;
use rufium::input::NavigationAction;
use rufium::input::NavigationMode;

fn buffer_string(h: &KeyHandler) -> String {
    h.command_buffer().iter().collect()
}

#[test]
fn gg_jumps_to_first_page() {
    let mut h = KeyHandler::new();
    let a1 = h.handle_key(&KeyInput::Character('g'));
    assert_eq!(a1, NavigationAction::NoAction);
    let a2 = h.handle_key(&KeyInput::Character('g'));
    assert_eq!(a2, NavigationAction::FirstPage);
    assert!(h.command_buffer().is_empty());
}

#[test]
fn digits_then_enter_jump() {
    let mut h = KeyHandler::new();
    assert_eq!(h.handle_key(&KeyInput::Character('4')), NavigationAction::NoAction);
    assert_eq!(h.handle_key(&KeyInput::Character('2')), NavigationAction::NoAction);
    assert_eq!(buffer_string(&h), "42");
    assert_eq!(h.handle_key(&KeyInput::Enter), NavigationAction::JumpToPage(42));
    assert!(h.command_buffer().is_empty());
}

#[test]
fn command_q_quits_and_returns_to_normal() {
    let mut h = KeyHandler::new();
    assert_eq!(h.handle_key(&KeyInput::Character(':')), NavigationAction::EnterCommandMode);
    assert_eq!(h.mode(), NavigationMode::Command);
    assert_eq!(h.handle_key(&KeyInput::Character('q')), NavigationAction::NoAction);
    assert_eq!(h.handle_key(&KeyInput::Enter), NavigationAction::Quit);
    assert_eq!(h.mode(), NavigationMode::Normal);
    assert!(h.command_buffer().is_empty());
}

#[test]
fn command_quit_word() {
    let mut h = KeyHandler::new();
    h.handle_key(&KeyInput::Character(':'));
    for c in ['q', 'u', 'i', 't'] {
        h.handle_key(&KeyInput::Character(c));
    }
    assert_eq!(h.handle_key(&KeyInput::Enter), NavigationAction::Quit);
    assert_eq!(h.mode(), NavigationMode::Normal);
}

#[test]
fn command_number_jumps() {
    let mut h = KeyHandler::new();
    h.handle_key(&KeyInput::Character(':'));
    h.handle_key(&KeyInput::Character('1'));
    h.handle_key(&KeyInput::Character('2'));
    h.handle_key(&KeyInput::Character('3'));
    assert_eq!(h.handle_key(&KeyInput::Enter), NavigationAction::JumpToPage(123));
    assert_eq!(h.mode(), NavigationMode::Normal);
}

#[test]
fn command_trims_all_whitespace() {
    // any whitespace a key can type is trimmed, as str::trim would
    let mut h = KeyHandler::new();
    h.handle_key(&KeyInput::Character(':'));
    h.handle_key(&KeyInput::Character('q'));
    h.handle_key(&KeyInput::Character('\n'));
    assert_eq!(h.handle_key(&KeyInput::Enter), NavigationAction::Quit);

    let mut h = KeyHandler::new();
    h.handle_key(&KeyInput::Character(':'));
    h.handle_key(&KeyInput::Character('\u{00a0}'));
    h.handle_key(&KeyInput::Character('4'));
    h.handle_key(&KeyInput::Character('2'));
    h.handle_key(&KeyInput::Character('\r'));
    assert_eq!(h.handle_key(&KeyInput::Enter), NavigationAction::JumpToPage(42));
}

#[test]
fn command_with_plus_sign_and_spaces_parses() {
    let mut h = KeyHandler::new();
    h.handle_key(&KeyInput::Character(':'));
    h.handle_key(&KeyInput::Character(' '));
    h.handle_key(&KeyInput::Character('+'));
    h.handle_key(&KeyInput::Character('4'));
    h.handle_key(&KeyInput::Character('2'));
    h.handle_key(&KeyInput::Character(' '));
    assert_eq!(h.handle_key(&KeyInput::Enter), NavigationAction::JumpToPage(42));
}

#[test]
fn unknown_command_is_ignored() {
    let mut h = KeyHandler::new();
    h.handle_key(&KeyInput::Character(':'));
    h.handle_key(&KeyInput::Character('w'));
    assert_eq!(h.handle_key(&KeyInput::Enter), NavigationAction::NoAction);
    assert_eq!(h.mode(), NavigationMode::Normal);
    assert!(h.command_buffer().is_empty());
}

#[test]
fn command_escape_cancels() {
    let mut h = KeyHandler::new();
    h.handle_key(&KeyInput::Character(':'));
    h.handle_key(&KeyInput::Character('q'));
    assert_eq!(h.handle_key(&KeyInput::Escape), NavigationAction::NoAction);
    assert_eq!(h.mode(), NavigationMode::Normal);
    assert!(h.command_buffer().is_empty());
}

#[test]
fn backspace_on_empty_buffer_leaves_command_mode() {
    let mut h = KeyHandler::new();
    h.handle_key(&KeyInput::Character(':'));
    h.handle_key(&KeyInput::Character('x'));
    assert_eq!(h.handle_key(&KeyInput::Backspace), NavigationAction::NoAction);
    assert_eq!(h.mode(), NavigationMode::Normal);
}

#[test]
fn backspace_keeps_command_mode_while_text_remains() {
    let mut h = KeyHandler::new();
    h.handle_key(&KeyInput::Character(':'));
    h.handle_key(&KeyInput::Character('a'));
    h.handle_key(&KeyInput::Character('b'));
    h.handle_key(&KeyInput::Backspace);
    assert_eq!(h.mode(), NavigationMode::Command);
    assert_eq!(buffer_string(&h), "a");
}

#[test]
fn command_mode_appends_any_character() {
    let mut h = KeyHandler::new();
    h.handle_key(&KeyInput::Character(':'));
    h.handle_key(&KeyInput::Character('g'));
    h.handle_key(&KeyInput::Character('g'));
    assert_eq!(h.mode(), NavigationMode::Command);
    assert_eq!(buffer_string(&h), "gg");
    assert_eq!(h.handle_key(&KeyInput::Enter), NavigationAction::NoAction);
}

#[test]
fn escape_clears_pending_digits() {
    let mut h = KeyHandler::new();
    h.handle_key(&KeyInput::Character('7'));
    assert_eq!(h.handle_key(&KeyInput::Escape), NavigationAction::NoAction);
    assert!(h.command_buffer().is_empty());
}

#[test]
fn plain_navigation_keys() {
    let mut h = KeyHandler::new();
    assert_eq!(h.handle_key(&KeyInput::Character('j')), NavigationAction::NextPage);
    assert_eq!(h.handle_key(&KeyInput::ArrowDown), NavigationAction::NextPage);
    assert_eq!(h.handle_key(&KeyInput::Character('k')), NavigationAction::PrevPage);
    assert_eq!(h.handle_key(&KeyInput::ArrowUp), NavigationAction::PrevPage);
    assert_eq!(h.handle_key(&KeyInput::Character('G')), NavigationAction::LastPage);
    assert_eq!(h.handle_key(&KeyInput::Character('d')), NavigationAction::HalfPageDown);
    assert_eq!(h.handle_key(&KeyInput::Character('u')), NavigationAction::HalfPageUp);
    assert_eq!(h.handle_key(&KeyInput::Character('q')), NavigationAction::Quit);
    assert_eq!(h.handle_key(&KeyInput::Character('Q')), NavigationAction::Quit);
    assert_eq!(h.handle_key(&KeyInput::Other), NavigationAction::NoAction);
}

#[test]
fn pending_g_survives_other_navigation() {
    let mut h = KeyHandler::new();
    h.handle_key(&KeyInput::Character('g'));
    assert_eq!(buffer_string(&h), "g");
    assert_eq!(h.handle_key(&KeyInput::Character('j')), NavigationAction::NextPage);
    assert_eq!(h.handle_key(&KeyInput::Character('g')), NavigationAction::FirstPage);
}

#[test]
fn enter_with_non_numeric_buffer_is_ignored() {
    let mut h = KeyHandler::new();
    h.handle_key(&KeyInput::Character('g'));
    h.handle_key(&KeyInput::Character('4'));
    assert_eq!(buffer_string(&h), "g4");
    assert_eq!(h.handle_key(&KeyInput::Enter), NavigationAction::NoAction);
    assert!(h.command_buffer().is_empty());
}

#[test]
fn enter_with_empty_buffer_is_ignored() {
    let mut h = KeyHandler::new();
    assert_eq!(h.handle_key(&KeyInput::Enter), NavigationAction::NoAction);
}

#[test]
fn overflowing_page_number_is_ignored() {
    let mut h = KeyHandler::new();
    for _ in 0..30 {
        h.handle_key(&KeyInput::Character('9'));
    }
    assert_eq!(h.handle_key(&KeyInput::Enter), NavigationAction::NoAction);
    assert!(h.command_buffer().is_empty());
}

#[test]
fn default_handler_starts_in_normal_mode() {
    let h = KeyHandler::default();
    assert_eq!(h.mode(), NavigationMode::Normal);
    assert!(h.command_buffer().is_empty());
}
