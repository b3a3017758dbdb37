use game_client::keys::{
    key_text, map_pointer_button, map_ui_key, os_pointer_to_ui, route_key_down, route_key_up, route_wheel,
    soft_pointer_armed, KeyAction, KeyContext, PointerButton, UiKey, WheelRoute,
};
use game_client::input::MoveInput;

#[test]
fn move_keys_and_axes() {
    let mut m = MoveInput::new();
    assert_eq!(m.axes(), (0, 0));
    m.set_key("KeyW", true);
    m.set_key("KeyD", true);
    assert_eq!(m.axes(), (1, 1));
    m.set_key("KeyS", true);
    m.set_key("KeyA", true);
    assert_eq!(m.axes(), (0, 0));
    m.set_key("KeyW", false);
    assert_eq!(m.axes(), (-1, 0));
    m.set_key("KeyQ", true);
    assert!(m.back && m.left && m.right && !m.forward);
    m.clear_keys();
    assert_eq!(m.axes(), (0, 0));
    assert!(MoveInput::is_move_key("KeyA"));
    assert!(!MoveInput::is_move_key("KeyB"));
    assert!(MoveInput::is_sprint_key("ShiftRight"));
    assert!(!MoveInput::is_sprint_key("Shift"));
    assert!(MoveInput::is_emote_key("KeyB"));
}

#[test]
fn edges_are_taken_once() {
    let mut m = MoveInput::new();
    assert!(!m.take_jump());
    m.note_jump_press();
    assert!(m.take_jump());
    assert!(!m.take_jump());
    m.note_sprint_press();
    assert!(m.take_sprint());
    assert!(!m.take_sprint());
    m.set_emote_held(true);
    m.set_emote_held(true);
    assert!(m.emote_held());
    assert!(m.take_emote_press());
    assert!(!m.take_emote_press());
    assert!(!m.take_emote_release());
    m.set_emote_held(false);
    assert!(m.take_emote_release());
    assert!(!m.take_emote_release());
    m.set_fire_held(true);
    assert!(m.fire_held());
}

#[test]
fn weapon_wheel_saturates() {
    let mut m = MoveInput::new();
    m.note_weapon_wheel(1);
    m.note_weapon_wheel(1);
    m.note_weapon_wheel(-1);
    m.note_weapon_wheel(0);
    assert_eq!(m.take_weapon_cycle(), 1);
    assert_eq!(m.take_weapon_cycle(), 0);
    for _ in 0..300 {
        m.note_weapon_wheel(1);
    }
    assert_eq!(m.take_weapon_cycle(), i8::MAX);
    for _ in 0..300 {
        m.note_weapon_wheel(-1);
    }
    assert_eq!(m.take_weapon_cycle(), i8::MIN);
}

#[test]
fn key_routes() {
    let play = KeyContext {
        debug_tools: true,
        debug_open: false,
        ui_wants_input: false,
        session_active: true,
        fly: false,
        fly_key: false,
    };
    let r = route_key_down("Backquote", "`", false, play);
    assert_eq!(r.action, Some(KeyAction::ToggleConsole));
    assert!(r.prevent_default);
    assert_eq!(route_key_down("Backquote", "`", true, play).action, None);
    assert_eq!(route_key_down("F9", "F9", false, play).action, Some(KeyAction::Screenshot));
    assert_eq!(route_key_down("KeyW", "w", true, play).action, Some(KeyAction::Move));
    assert_eq!(route_key_down("ShiftLeft", "Shift", false, play).action, Some(KeyAction::Sprint));
    assert_eq!(route_key_down("ShiftLeft", "Shift", true, play).action, None);
    assert_eq!(route_key_down("Space", " ", false, play).action, Some(KeyAction::Jump));
    assert_eq!(route_key_down("KeyB", "b", false, play).action, Some(KeyAction::Emote));
    let other = route_key_down("KeyZ", "z", false, play);
    assert_eq!(other.action, None);
    assert!(!other.prevent_default);
    let console = KeyContext { debug_open: true, ..play };
    let r = route_key_down("KeyW", "w", false, console);
    assert_eq!(r.action, Some(KeyAction::Console));
    assert!(r.stop_propagation);
    assert_eq!(route_key_up("KeyW", console), Some(KeyAction::Console));
    let fly = KeyContext { fly: true, ..play };
    assert_eq!(route_key_down("KeyW", "w", false, fly).action, None);
    assert_eq!(route_key_down("KeyW", "w", false, KeyContext { fly_key: true, ..fly }).action, Some(KeyAction::Fly));
    assert_eq!(route_key_up("KeyZ", fly), Some(KeyAction::Fly));
    let idle = KeyContext { session_active: false, ..play };
    assert_eq!(route_key_down("KeyW", "w", false, idle).action, None);
    assert_eq!(route_key_up("KeyB", play), Some(KeyAction::Emote));
    assert_eq!(route_key_up("ShiftLeft", play), None);
    let no_tools = KeyContext { debug_tools: false, ..play };
    assert_eq!(route_key_down("Backquote", "`", false, no_tools).action, None);
    assert_eq!(map_ui_key("ArrowUp"), Some(UiKey::ArrowUp));
    assert_eq!(map_ui_key("KeyQ"), None);
    assert_eq!(map_pointer_button(2), PointerButton::Secondary);
    assert_eq!(map_pointer_button(1), PointerButton::Middle);
    assert_eq!(map_pointer_button(7), PointerButton::Primary);
    assert_eq!(key_text("a"), Some('a'));
    assert_eq!(key_text("Enter"), None);
    assert_eq!(key_text("\u{7f}"), None);
    assert_eq!(key_text("é"), Some('é'));
    assert!(os_pointer_to_ui(false, true, false));
    assert!(!os_pointer_to_ui(true, true, true));
    assert!(soft_pointer_armed(true, false, true));
    assert!(!soft_pointer_armed(false, true, true));
    assert_eq!(route_wheel(true, true, false), WheelRoute::Ui);
    assert_eq!(route_wheel(false, true, false), WheelRoute::Weapon);
    assert_eq!(route_wheel(false, true, true), WheelRoute::Ignore);
    assert_eq!(route_wheel(false, false, false), WheelRoute::Ignore);
}
