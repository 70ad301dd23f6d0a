use ui_layout::input::{check_modifier_key_char, check_modifier_key_u8, handle_kb_char, handle_kb_input, handle_resize};
use ui_layout::{KeyboardState, ReducedKbModifier, WindowState};

#[test]
fn key_codes_to_modifiers() {
    assert_eq!(check_modifier_key_u8(9), Some(ReducedKbModifier::Esc));
    assert_eq!(check_modifier_key_u8(67), Some(ReducedKbModifier::Fn(1)));
    assert_eq!(check_modifier_key_u8(96), Some(ReducedKbModifier::Fn(12)));
    assert_eq!(check_modifier_key_u8(50), Some(ReducedKbModifier::Shift));
    assert_eq!(check_modifier_key_u8(62), Some(ReducedKbModifier::Shift));
    assert_eq!(check_modifier_key_u8(37), Some(ReducedKbModifier::Ctrl));
    assert_eq!(check_modifier_key_u8(105), Some(ReducedKbModifier::Ctrl));
    assert_eq!(check_modifier_key_u8(151), Some(ReducedKbModifier::Function));
    assert_eq!(check_modifier_key_u8(38), None);
    assert_eq!(check_modifier_key_u8(255), None);
}

#[test]
fn control_characters_to_letters() {
    let mut kb = KeyboardState::new();
    assert_eq!(check_modifier_key_char(&'\u{3}', &mut kb), Some('c'));
    assert_eq!(check_modifier_key_char(&'\u{1b}', &mut kb), Some('\u{fc}'));
    assert_eq!(check_modifier_key_char(&'\u{0}', &mut kb), Some('2'));
    assert_eq!(check_modifier_key_char(&'-', &mut kb), Some('\u{df}'));
    assert_eq!(check_modifier_key_char(&'A', &mut kb), None);
    assert!(kb.modifiers.is_empty() && kb.hidden_keys.is_empty() && kb.keys.is_empty());
}

#[test]
fn modifier_press_is_recorded_once() {
    let mut kb = KeyboardState::new();
    handle_kb_input(&mut kb, true, 50);
    handle_kb_input(&mut kb, true, 62);
    handle_kb_input(&mut kb, true, 37);
    assert_eq!(kb.modifiers, vec![ReducedKbModifier::Shift, ReducedKbModifier::Ctrl]);
}

#[test]
fn modifier_release_removes_it() {
    let mut kb = KeyboardState::new();
    handle_kb_input(&mut kb, true, 50);
    handle_kb_input(&mut kb, true, 37);
    handle_kb_input(&mut kb, false, 62);
    assert_eq!(kb.modifiers, vec![ReducedKbModifier::Ctrl]);
    handle_kb_input(&mut kb, false, 50);
    assert_eq!(kb.modifiers, vec![ReducedKbModifier::Ctrl]);
}

#[test]
fn non_modifier_key_is_ignored() {
    let mut kb = KeyboardState::new();
    handle_kb_input(&mut kb, true, 38);
    assert!(kb.modifiers.is_empty());
}

#[test]
fn typed_and_hidden_characters() {
    let mut kb = KeyboardState::new();
    handle_kb_char(&mut kb, 'h');
    handle_kb_char(&mut kb, '\u{e}');
    handle_kb_char(&mut kb, '\u{e}');
    handle_kb_char(&mut kb, 'i');
    assert_eq!(kb.keys, vec!['h', 'i']);
    assert_eq!(kb.hidden_keys, vec!['n']);
}

#[test]
fn window_resize() {
    let mut w = WindowState::new(800, 600);
    assert_eq!((w.width, w.height), (800, 600));
    handle_resize(&mut w, 1024, 768);
    assert_eq!((w.width, w.height), (1024, 768));
}
