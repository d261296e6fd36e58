use comet::keys::{key_command, key_event_to_ansi, process_key, update_modifiers, Key, KeyCommand, TabAction};

#[test]
fn tab_shortcuts() {
    assert_eq!(process_key(Some(Key::KeyT), true, false, true, None), (TabAction::NewTab, None));
    assert_eq!(process_key(Some(Key::KeyW), true, false, true, Some("W")), (TabAction::CloseTab, None));
    assert_eq!(process_key(Some(Key::Tab), true, false, false, None), (TabAction::NextTab, None));
    assert_eq!(process_key(Some(Key::Tab), true, false, true, None), (TabAction::PrevTab, None));
    assert_eq!(process_key(Some(Key::KeyT), true, false, false, None), (TabAction::NoAction, Some(vec![0x14])));
    assert_eq!(process_key(Some(Key::KeyW), true, false, false, Some("w")), (TabAction::NoAction, Some(vec![b'w'])));
}

#[test]
fn text_and_keys_go_to_the_shell() {
    assert_eq!(process_key(Some(Key::KeyA), false, false, false, Some("á")), (TabAction::NoAction, Some("á".as_bytes().to_vec())));
    assert_eq!(process_key(Some(Key::ArrowUp), false, false, false, None), (TabAction::NoAction, Some(vec![0x1b, b'[', b'A'])));
    assert_eq!(process_key(Some(Key::KeyC), true, false, false, Some("")), (TabAction::NoAction, Some(vec![3])));
    assert_eq!(process_key(Some(Key::Digit1), false, true, true, None), (TabAction::NoAction, Some(vec![0x1b, b'!'])));
    assert_eq!(process_key(Some(Key::F3), false, false, false, None), (TabAction::NoAction, Some(vec![0x1b, b'O', b'R'])));
    assert_eq!(process_key(Some(Key::Other), false, false, false, None), (TabAction::NoAction, None));
    assert_eq!(process_key(None, true, false, false, Some("z")), (TabAction::NoAction, Some(vec![b'z'])));
    assert_eq!(process_key(None, false, false, false, None), (TabAction::NoAction, None));
}

#[test]
fn key_events_to_pty_bytes() {
    assert_eq!(key_event_to_ansi(false, Some(Key::KeyA), Some("a"), false, false), None);
    assert_eq!(key_event_to_ansi(true, Some(Key::KeyZ), Some("z"), true, false), Some(vec![0x1a]));
    assert_eq!(key_event_to_ansi(true, Some(Key::KeyA), Some("a"), false, true), Some(vec![0x1b, b'a']));
    assert_eq!(key_event_to_ansi(true, Some(Key::F12), None, false, false), Some(b"\x1b[24~".to_vec()));
    assert_eq!(key_event_to_ansi(true, Some(Key::Insert), None, false, true), Some(b"\x1b\x1b[2~".to_vec()));
    assert_eq!(key_event_to_ansi(true, Some(Key::NumpadEnter), None, false, false), None);
    assert_eq!(key_event_to_ansi(true, Some(Key::Digit1), None, true, false), None);
}

#[test]
fn modifier_tracking() {
    let mut ctrl = false;
    let mut alt = false;
    update_modifiers(Some(Key::ControlRight), true, &mut ctrl, &mut alt);
    assert!(ctrl && !alt);
    update_modifiers(Some(Key::AltLeft), true, &mut ctrl, &mut alt);
    assert!(ctrl && alt);
    update_modifiers(Some(Key::ControlLeft), false, &mut ctrl, &mut alt);
    assert!(!ctrl && alt);
    update_modifiers(Some(Key::KeyA), false, &mut ctrl, &mut alt);
    assert!(!ctrl && alt);
}

#[test]
fn key_commands() {
    assert_eq!(key_command(false, Some(Key::KeyA), Some("a"), false, false, false), KeyCommand::Ignore);
    assert_eq!(key_command(true, Some(Key::KeyC), None, true, true, false), KeyCommand::Copy);
    assert_eq!(key_command(true, Some(Key::KeyV), None, true, true, false), KeyCommand::Paste);
    assert_eq!(key_command(true, Some(Key::KeyF), None, true, true, false), KeyCommand::Search);
    assert_eq!(key_command(true, Some(Key::PageUp), None, false, false, false), KeyCommand::ScrollPages(1));
    assert_eq!(key_command(true, Some(Key::PageDown), None, false, true, false), KeyCommand::ScrollPages(-1));
    assert_eq!(key_command(true, Some(Key::Home), None, false, false, false), KeyCommand::ScrollToTop);
    assert_eq!(key_command(true, Some(Key::End), None, false, false, false), KeyCommand::ScrollToBottom);
    // Ctrl+C without Shift is the interrupt character.
    assert_eq!(key_command(true, Some(Key::KeyC), None, true, false, false), KeyCommand::Send(vec![0x03]));
    // With Ctrl, Home is no scroll.
    assert_eq!(key_command(true, Some(Key::Home), None, true, false, false), KeyCommand::Send(b"\x1b[H".to_vec()));
    assert_eq!(key_command(true, Some(Key::KeyA), Some("a"), false, false, true), KeyCommand::Send(vec![0x1b, b'a']));
    assert_eq!(key_command(true, Some(Key::Other), None, false, false, false), KeyCommand::Ignore);
}
