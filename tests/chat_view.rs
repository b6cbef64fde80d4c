use chat_modrpc::chat_view::{ChatView, InputKey, UserDirectory};
use chat_modrpc::{ChatInitState, RegisteredUser};

#[test]
fn new_view_greets() {
    let v = ChatView::new();
    let lines = v.lines();
    assert_eq!(lines.len(), 3);
    assert_eq!(lines[0].sender, "System");
    assert_eq!(lines[0].content, "Welcome to the modrpc chat!");
    assert_eq!(lines[1].content, "Type your message below and press Enter.");
    assert_eq!(lines[2].content, "Press Esc to exit.");
    assert_eq!(v.offset(), 0);
    assert_eq!(v.input_text(), "");
}

#[test]
fn typing_and_sending() {
    let mut v = ChatView::new();
    for c in "hé y".chars() {
        assert_eq!(v.handle_key(InputKey::Char(c)), None);
    }
    assert_eq!(v.input_text(), "hé y");
    assert_eq!(v.handle_key(InputKey::Backspace), None);
    assert_eq!(v.input_text(), "hé ");
    assert_eq!(v.handle_key(InputKey::Enter), Some("hé ".to_string()));
    assert_eq!(v.input_text(), "");
    // Backspace on an empty line does nothing.
    assert_eq!(v.handle_key(InputKey::Backspace), None);
    assert_eq!(v.input_text(), "");
    v.add_sent("hé ".to_string());
    assert_eq!(v.lines().len(), 4);
    assert_eq!(v.lines()[3].sender, "You");
}

#[test]
fn blank_line_is_not_sent() {
    let mut v = ChatView::new();
    v.handle_key(InputKey::Char(' '));
    v.handle_key(InputKey::Char('\t'));
    v.handle_key(InputKey::Char('\u{3000}'));
    assert_eq!(v.handle_key(InputKey::Enter), None);
    assert_eq!(v.input_text(), " \t\u{3000}");
    assert_eq!(v.handle_key(InputKey::Other), None);
    assert_eq!(v.input_text(), " \t\u{3000}");
}

#[test]
fn scrolling_stays_within_lines() {
    let mut v = ChatView::new();
    v.set_height(2);
    v.add_message("ann".to_string(), "one".to_string());
    // four lines, two fit: the view shows the last two
    assert_eq!(v.offset(), 2);
    v.handle_key(InputKey::Down);
    v.handle_key(InputKey::Down);
    v.handle_key(InputKey::Down);
    assert_eq!(v.offset(), 4);
    for _ in 0..6 {
        v.handle_key(InputKey::Up);
    }
    assert_eq!(v.offset(), 0);
    v.set_height(10);
    v.add_message("bo".to_string(), "two".to_string());
    assert_eq!(v.offset(), 0);
}

#[test]
fn directory_names_senders() {
    let init = ChatInitState {
        users: vec![
            RegisteredUser { endpoint: 1, alias: "ann".to_string() },
            RegisteredUser { endpoint: 2, alias: "bo".to_string() },
        ],
    };
    let mut d = UserDirectory::from_init(&init);
    assert_eq!(d.sender_name(1), "ann");
    assert_eq!(d.sender_name(2), "bo");
    assert_eq!(d.sender_name(3), "<unknown>");
    d.registered(3, "cy");
    assert_eq!(d.sender_name(3), "cy");
    d.registered(1, "anne");
    assert_eq!(d.sender_name(1), "anne");
}
