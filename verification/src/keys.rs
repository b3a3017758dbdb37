//! Where keyboard, wheel and pointer events of the game view go: the debug
//! console, the UI, the fly camera or the mounted-play input.

use vstd::prelude::*;

use crate::input::MoveInput;
use crate::text::{chars_eq_str, chars_of};

verus! {

/// The keys the UI is told about by name.
#[derive(Debug, Clone, Copy, PartialEq, Eq, Structural)]
pub enum UiKey {
    Enter,
    Escape,
    Backspace,
    Delete,
    ArrowLeft,
    ArrowRight,
    ArrowUp,
    ArrowDown,
    Home,
    End,
    Tab,
    Space,
}

/// The UI key a `KeyboardEvent.code` names, if any.
pub open spec fn ui_key_of(code: Seq<char>) -> Option<UiKey> {
    if code == "Enter"@ {
        Some(UiKey::Enter)
    } else if code == "Escape"@ {
        Some(UiKey::Escape)
    } else if code == "Backspace"@ {
        Some(UiKey::Backspace)
    } else if code == "Delete"@ {
        Some(UiKey::Delete)
    } else if code == "ArrowLeft"@ {
        Some(UiKey::ArrowLeft)
    } else if code == "ArrowRight"@ {
        Some(UiKey::ArrowRight)
    } else if code == "ArrowUp"@ {
        Some(UiKey::ArrowUp)
    } else if code == "ArrowDown"@ {
        Some(UiKey::ArrowDown)
    } else if code == "Home"@ {
        Some(UiKey::Home)
    } else if code == "End"@ {
        Some(UiKey::End)
    } else if code == "Tab"@ {
        Some(UiKey::Tab)
    } else if code == "Space"@ {
        Some(UiKey::Space)
    } else {
        None
    }
}

/// Maps a `KeyboardEvent.code` to the UI key it names.
pub fn map_ui_key(code: &str) -> (r: Option<UiKey>)
    ensures
        r == ui_key_of(code@),
{
    let c = chars_of(code);
    if chars_eq_str(&c, "Enter") {
        Some(UiKey::Enter)
    } else if chars_eq_str(&c, "Escape") {
        Some(UiKey::Escape)
    } else if chars_eq_str(&c, "Backspace") {
        Some(UiKey::Backspace)
    } else if chars_eq_str(&c, "Delete") {
        Some(UiKey::Delete)
    } else if chars_eq_str(&c, "ArrowLeft") {
        Some(UiKey::ArrowLeft)
    } else if chars_eq_str(&c, "ArrowRight") {
        Some(UiKey::ArrowRight)
    } else if chars_eq_str(&c, "ArrowUp") {
        Some(UiKey::ArrowUp)
    } else if chars_eq_str(&c, "ArrowDown") {
        Some(UiKey::ArrowDown)
    } else if chars_eq_str(&c, "Home") {
        Some(UiKey::Home)
    } else if chars_eq_str(&c, "End") {
        Some(UiKey::End)
    } else if chars_eq_str(&c, "Tab") {
        Some(UiKey::Tab)
    } else if chars_eq_str(&c, "Space") {
        Some(UiKey::Space)
    } else {
        None
    }
}

/// A mouse button as the UI sees it.
#[derive(Debug, Clone, Copy, PartialEq, Eq, Structural)]
pub enum PointerButton {
    Primary,
    Middle,
    Secondary,
}

/// `MouseEvent.button` to a UI button: 1 middle, 2 secondary, any other
/// primary.
pub fn map_pointer_button(button: i16) -> (r: PointerButton)
    ensures
        r == if button == 1 {
            PointerButton::Middle
        } else if button == 2 {
            PointerButton::Secondary
        } else {
            PointerButton::Primary
        },
{
    if button == 1 {
        PointerButton::Middle
    } else if button == 2 {
        PointerButton::Secondary
    } else {
        PointerButton::Primary
    }
}

/// Unicode control characters (general category Cc).
pub open spec fn is_control(c: char) -> bool {
    (c as u32) <= 0x1F || (0x7F <= (c as u32) && (c as u32) <= 0x9F)
}

/// The text a key press types: its `KeyboardEvent.key` when that is one
/// character that is not a control character.
pub fn key_text(key: &str) -> (r: Option<char>)
    ensures
        r == if key@.len() == 1 && !is_control(key@[0]) {
            Some(key@[0])
        } else {
            None::<char>
        },
{
    let c = chars_of(key);
    if c.len() == 1 {
        let ch = c[0];
        let u = ch as u32;
        if !(u <= 0x1F || (0x7F <= u && u <= 0x9F)) {
            return Some(ch);
        }
    }
    None
}

/// What the view knows when a key event arrives.
#[derive(Debug, Clone, Copy, PartialEq, Eq, Structural)]
pub struct KeyContext {
    /// Debug tools are built in.
    pub debug_tools: bool,
    /// The debug console is open.
    pub debug_open: bool,
    /// The UI (lobby or menus) wants keyboard input.
    pub ui_wants_input: bool,
    /// The pointer-lock play session is active.
    pub session_active: bool,
    /// The fly camera (debug flycam, free view or spectating) has the keys.
    pub fly: bool,
    /// The key is one the fly camera uses.
    pub fly_key: bool,
}

/// What a key event does.
#[derive(Debug, Clone, Copy, PartialEq, Eq, Structural)]
pub enum KeyAction {
    /// Open or close the debug console.
    ToggleConsole,
    /// Capture the next frame.
    Screenshot,
    /// Flip the debug flycam.
    ToggleFlycam,
    /// The key goes to the debug console's UI.
    Console,
    /// The key goes to the game UI.
    Ui,
    /// The key goes to the fly camera.
    Fly,
    /// A movement key (`MoveInput::set_key`).
    Move,
    /// A sprint press edge.
    Sprint,
    /// A jump press edge.
    Jump,
    /// The emote key held or released.
    Emote,
}

/// A key event's routing: the action, if any, and whether the browser's
/// default and the event's propagation are stopped.
#[derive(Debug, Clone, Copy, PartialEq, Eq, Structural)]
pub struct KeyRoute {
    pub action: Option<KeyAction>,
    pub prevent_default: bool,
    pub stop_propagation: bool,
}

/// A key handled by this layer: the default is prevented and the action
/// taken unless the event is an auto-repeat.
pub open spec fn edge(action: KeyAction, repeat: bool) -> KeyRoute {
    KeyRoute { action: if repeat { None } else { Some(action) }, prevent_default: true, stop_propagation: false }
}

/// A key handled on every event, repeats included.
pub open spec fn held(action: KeyAction) -> KeyRoute {
    KeyRoute { action: Some(action), prevent_default: true, stop_propagation: false }
}

/// A key left to the browser.
pub open spec fn pass() -> KeyRoute {
    KeyRoute { action: None, prevent_default: false, stop_propagation: false }
}

/// Routing of a key press with `code` (`KeyboardEvent.code`) and `key`
/// (`KeyboardEvent.key`): the debug shortcuts first (backquote, F9, F8),
/// then an open console, then the UI, then, in an active session, the fly
/// camera or the mounted-play keys.
pub open spec fn key_down_route(code: Seq<char>, key: Seq<char>, repeat: bool, cx: KeyContext) -> KeyRoute {
    if cx.debug_tools && (code == "Backquote"@ || key == "`"@) {
        edge(KeyAction::ToggleConsole, repeat)
    } else if cx.debug_tools && code == "F9"@ {
        edge(KeyAction::Screenshot, repeat)
    } else if cx.debug_tools && code == "F8"@ {
        edge(KeyAction::ToggleFlycam, repeat)
    } else if cx.debug_tools && cx.debug_open {
        KeyRoute { action: Some(KeyAction::Console), prevent_default: true, stop_propagation: true }
    } else if cx.ui_wants_input {
        held(KeyAction::Ui)
    } else if !cx.session_active {
        pass()
    } else if cx.fly {
        if cx.fly_key {
            held(KeyAction::Fly)
        } else {
            pass()
        }
    } else if code == "KeyW"@ || code == "KeyA"@ || code == "KeyS"@ || code == "KeyD"@ {
        held(KeyAction::Move)
    } else if code == "ShiftLeft"@ || code == "ShiftRight"@ {
        edge(KeyAction::Sprint, repeat)
    } else if code == "Space"@ {
        edge(KeyAction::Jump, repeat)
    } else if code == "KeyB"@ {
        edge(KeyAction::Emote, repeat)
    } else {
        pass()
    }
}

/// Routing of a key release: an open console or the UI gets it, else in an
/// active session the fly camera, a movement key or the emote key.
pub open spec fn key_up_route(code: Seq<char>, cx: KeyContext) -> Option<KeyAction> {
    if cx.debug_tools && cx.debug_open {
        Some(KeyAction::Console)
    } else if cx.ui_wants_input {
        Some(KeyAction::Ui)
    } else if !cx.session_active {
        None
    } else if cx.fly {
        Some(KeyAction::Fly)
    } else if code == "KeyW"@ || code == "KeyA"@ || code == "KeyS"@ || code == "KeyD"@ {
        Some(KeyAction::Move)
    } else if code == "KeyB"@ {
        Some(KeyAction::Emote)
    } else {
        None
    }
}

fn edge_route(action: KeyAction, repeat: bool) -> (r: KeyRoute)
    ensures
        r == edge(action, repeat),
{
    KeyRoute { action: if repeat { None } else { Some(action) }, prevent_default: true, stop_propagation: false }
}

fn held_route(action: KeyAction) -> (r: KeyRoute)
    ensures
        r == held(action),
{
    KeyRoute { action: Some(action), prevent_default: true, stop_propagation: false }
}

fn pass_route() -> (r: KeyRoute)
    ensures
        r == pass(),
{
    KeyRoute { action: None, prevent_default: false, stop_propagation: false }
}

/// Routes a key press of the game view.
pub fn route_key_down(code: &str, key: &str, repeat: bool, cx: KeyContext) -> (r: KeyRoute)
    ensures
        r == key_down_route(code@, key@, repeat, cx),
{
    let c = chars_of(code);
    let k = chars_of(key);
    if cx.debug_tools && (chars_eq_str(&c, "Backquote") || chars_eq_str(&k, "`")) {
        edge_route(KeyAction::ToggleConsole, repeat)
    } else if cx.debug_tools && chars_eq_str(&c, "F9") {
        edge_route(KeyAction::Screenshot, repeat)
    } else if cx.debug_tools && chars_eq_str(&c, "F8") {
        edge_route(KeyAction::ToggleFlycam, repeat)
    } else if cx.debug_tools && cx.debug_open {
        KeyRoute { action: Some(KeyAction::Console), prevent_default: true, stop_propagation: true }
    } else if cx.ui_wants_input {
        held_route(KeyAction::Ui)
    } else if !cx.session_active {
        pass_route()
    } else if cx.fly {
        if cx.fly_key {
            held_route(KeyAction::Fly)
        } else {
            pass_route()
        }
    } else if MoveInput::is_move_key(code) {
        held_route(KeyAction::Move)
    } else if MoveInput::is_sprint_key(code) {
        edge_route(KeyAction::Sprint, repeat)
    } else if chars_eq_str(&c, "Space") {
        edge_route(KeyAction::Jump, repeat)
    } else if MoveInput::is_emote_key(code) {
        edge_route(KeyAction::Emote, repeat)
    } else {
        pass_route()
    }
}

/// Routes a key release of the game view.
pub fn route_key_up(code: &str, cx: KeyContext) -> (r: Option<KeyAction>)
    ensures
        r == key_up_route(code@, cx),
{
    if cx.debug_tools && cx.debug_open {
        Some(KeyAction::Console)
    } else if cx.ui_wants_input {
        Some(KeyAction::Ui)
    } else if !cx.session_active {
        None
    } else if cx.fly {
        Some(KeyAction::Fly)
    } else if MoveInput::is_move_key(code) {
        Some(KeyAction::Move)
    } else if MoveInput::is_emote_key(code) {
        Some(KeyAction::Emote)
    } else {
        None
    }
}

/// The OS mouse drives the UI while the session is inactive and the console
/// is open or the UI wants input.
pub fn os_pointer_to_ui(session_active: bool, debug_open: bool, ui_wants_input: bool) -> (r: bool)
    ensures
        r == (!session_active && (debug_open || ui_wants_input)),
{
    !session_active && (debug_open || ui_wants_input)
}

/// The soft pointer owns the session mouse while the session is active and
/// the console is open or the UI wants input.
pub fn soft_pointer_armed(session_active: bool, debug_open: bool, ui_wants_input: bool) -> (r: bool)
    ensures
        r == (session_active && (debug_open || ui_wants_input)),
{
    session_active && (debug_open || ui_wants_input)
}

/// Where a wheel event goes.
#[derive(Debug, Clone, Copy, PartialEq, Eq, Structural)]
pub enum WheelRoute {
    /// Scrolls the UI.
    Ui,
    /// One weapon-cycle notch.
    Weapon,
    /// Left to the browser.
    Ignore,
}

/// A wheel event scrolls the UI when the soft pointer or the OS pointer
/// drives it; else, in an active session and out of the fly camera, it
/// cycles weapons.
pub fn route_wheel(ui_pointer: bool, session_active: bool, fly: bool) -> (r: WheelRoute)
    ensures
        r == if ui_pointer {
            WheelRoute::Ui
        } else if !session_active || fly {
            WheelRoute::Ignore
        } else {
            WheelRoute::Weapon
        },
{
    if ui_pointer {
        WheelRoute::Ui
    } else if !session_active || fly {
        WheelRoute::Ignore
    } else {
        WheelRoute::Weapon
    }
}

/// Debug shortcuts act only once per physical press, and an open console
/// takes every other key before the game sees it.
pub proof fn law_console_owns_keys(code: Seq<char>, key: Seq<char>, repeat: bool, cx: KeyContext)
    requires
        cx.debug_tools,
        cx.debug_open,
    ensures
        key_down_route(code, key, repeat, cx).action matches Some(a) ==> (a == KeyAction::Console
            || a == KeyAction::ToggleConsole || a == KeyAction::Screenshot || a
            == KeyAction::ToggleFlycam),
        repeat ==> key_down_route(code, key, repeat, cx).action is None || key_down_route(
            code,
            key,
            repeat,
            cx,
        ).action == Some(KeyAction::Console),
        key_up_route(code, cx) == Some(KeyAction::Console),
{
}

/// With debug tools built in, the backquote (by code or by key) toggles
/// the console, F9 takes a screenshot and F8 flips the debug flycam,
/// whatever else is going on: the browser's default is prevented, the event
/// still propagates, and the action is taken exactly when the event is not
/// an auto-repeat.
pub proof fn law_debug_shortcuts(code: Seq<char>, key: Seq<char>, repeat: bool, cx: KeyContext)
    requires
        cx.debug_tools,
    ensures
        ({
            let r = key_down_route(code, key, repeat, cx);
            &&& (code == "Backquote"@ || key == "`"@) ==> r == KeyRoute {
                action: if repeat { None } else { Some(KeyAction::ToggleConsole) },
                prevent_default: true,
                stop_propagation: false,
            }
            &&& (code == "F9"@ && key != "`"@) ==> r == KeyRoute {
                action: if repeat { None } else { Some(KeyAction::Screenshot) },
                prevent_default: true,
                stop_propagation: false,
            }
            &&& (code == "F8"@ && key != "`"@) ==> r == KeyRoute {
                action: if repeat { None } else { Some(KeyAction::ToggleFlycam) },
                prevent_default: true,
                stop_propagation: false,
            }
        }),
{
    reveal_strlit("Backquote");
    assert("Backquote"@.len() == 9 && "Backquote"@[0] == 'B' && "Backquote"@[8] == 'e');
    reveal_strlit("`");
    assert("`"@.len() == 1 && "`"@[0] == '`' && "`"@[0] == '`');
    reveal_strlit("F9");
    assert("F9"@.len() == 2 && "F9"@[0] == 'F' && "F9"@[1] == '9');
    reveal_strlit("F8");
    assert("F8"@.len() == 2 && "F8"@[0] == 'F' && "F8"@[1] == '8');
    reveal_strlit("KeyW");
    assert("KeyW"@.len() == 4 && "KeyW"@[0] == 'K' && "KeyW"@[3] == 'W');
    reveal_strlit("KeyA");
    assert("KeyA"@.len() == 4 && "KeyA"@[0] == 'K' && "KeyA"@[3] == 'A');
    reveal_strlit("KeyS");
    assert("KeyS"@.len() == 4 && "KeyS"@[0] == 'K' && "KeyS"@[3] == 'S');
    reveal_strlit("KeyD");
    assert("KeyD"@.len() == 4 && "KeyD"@[0] == 'K' && "KeyD"@[3] == 'D');
    reveal_strlit("ShiftLeft");
    assert("ShiftLeft"@.len() == 9 && "ShiftLeft"@[0] == 'S' && "ShiftLeft"@[8] == 't');
    reveal_strlit("ShiftRight");
    assert("ShiftRight"@.len() == 10 && "ShiftRight"@[0] == 'S' && "ShiftRight"@[9] == 't');
    reveal_strlit("Space");
    assert("Space"@.len() == 5 && "Space"@[0] == 'S' && "Space"@[4] == 'e');
    reveal_strlit("KeyB");
    assert("KeyB"@.len() == 4 && "KeyB"@[0] == 'K' && "KeyB"@[3] == 'B');
}

/// In mounted play (an active session, no console, no UI input, no fly
/// camera) the WASD keys move on every event, shift sprints, space jumps
/// and B emotes on the first press only, each with the browser's default
/// prevented; without debug tools every other key is left to the browser.
pub proof fn law_mounted_play_keys(code: Seq<char>, key: Seq<char>, repeat: bool, cx: KeyContext)
    requires
        !cx.debug_tools,
        !cx.ui_wants_input,
        cx.session_active,
        !cx.fly,
    ensures
        ({
            let r = key_down_route(code, key, repeat, cx);
            &&& (code == "KeyW"@ || code == "KeyA"@ || code == "KeyS"@ || code == "KeyD"@) ==> r
                == KeyRoute { action: Some(KeyAction::Move), prevent_default: true, stop_propagation: false }
            &&& (code == "ShiftLeft"@ || code == "ShiftRight"@) ==> r == KeyRoute {
                action: if repeat { None } else { Some(KeyAction::Sprint) },
                prevent_default: true,
                stop_propagation: false,
            }
            &&& code == "Space"@ ==> r == KeyRoute {
                action: if repeat { None } else { Some(KeyAction::Jump) },
                prevent_default: true,
                stop_propagation: false,
            }
            &&& code == "KeyB"@ ==> r == KeyRoute {
                action: if repeat { None } else { Some(KeyAction::Emote) },
                prevent_default: true,
                stop_propagation: false,
            }
            &&& !(code == "KeyW"@ || code == "KeyA"@ || code == "KeyS"@ || code == "KeyD"@
                || code == "ShiftLeft"@ || code == "ShiftRight"@ || code == "Space"@ || code
                == "KeyB"@) ==> r == KeyRoute { action: None, prevent_default: false, stop_propagation: false }
        }),
{
    reveal_strlit("Backquote");
    assert("Backquote"@.len() == 9 && "Backquote"@[0] == 'B' && "Backquote"@[8] == 'e');
    reveal_strlit("`");
    assert("`"@.len() == 1 && "`"@[0] == '`' && "`"@[0] == '`');
    reveal_strlit("F9");
    assert("F9"@.len() == 2 && "F9"@[0] == 'F' && "F9"@[1] == '9');
    reveal_strlit("F8");
    assert("F8"@.len() == 2 && "F8"@[0] == 'F' && "F8"@[1] == '8');
    reveal_strlit("KeyW");
    assert("KeyW"@.len() == 4 && "KeyW"@[0] == 'K' && "KeyW"@[3] == 'W');
    reveal_strlit("KeyA");
    assert("KeyA"@.len() == 4 && "KeyA"@[0] == 'K' && "KeyA"@[3] == 'A');
    reveal_strlit("KeyS");
    assert("KeyS"@.len() == 4 && "KeyS"@[0] == 'K' && "KeyS"@[3] == 'S');
    reveal_strlit("KeyD");
    assert("KeyD"@.len() == 4 && "KeyD"@[0] == 'K' && "KeyD"@[3] == 'D');
    reveal_strlit("ShiftLeft");
    assert("ShiftLeft"@.len() == 9 && "ShiftLeft"@[0] == 'S' && "ShiftLeft"@[8] == 't');
    reveal_strlit("ShiftRight");
    assert("ShiftRight"@.len() == 10 && "ShiftRight"@[0] == 'S' && "ShiftRight"@[9] == 't');
    reveal_strlit("Space");
    assert("Space"@.len() == 5 && "Space"@[0] == 'S' && "Space"@[4] == 'e');
    reveal_strlit("KeyB");
    assert("KeyB"@.len() == 4 && "KeyB"@[0] == 'K' && "KeyB"@[3] == 'B');
}

/// A key release goes to an open console, else to the UI when it wants
/// input; outside a session nothing takes it; in a session the fly camera
/// takes every release, otherwise only WASD (movement) and B (emote) are
/// taken.
pub proof fn law_key_up(code: Seq<char>, cx: KeyContext)
    ensures
        ({
            let r = key_up_route(code, cx);
            let mounted_key = code == "KeyW"@ || code == "KeyA"@ || code == "KeyS"@ || code == "KeyD"@;
            &&& cx.debug_tools && cx.debug_open ==> r == Some(KeyAction::Console)
            &&& !(cx.debug_tools && cx.debug_open) && cx.ui_wants_input ==> r == Some(KeyAction::Ui)
            &&& !(cx.debug_tools && cx.debug_open) && !cx.ui_wants_input && !cx.session_active ==> r is None
            &&& !(cx.debug_tools && cx.debug_open) && !cx.ui_wants_input && cx.session_active && cx.fly
                ==> r == Some(KeyAction::Fly)
            &&& !(cx.debug_tools && cx.debug_open) && !cx.ui_wants_input && cx.session_active && !cx.fly
                ==> r == (if mounted_key {
                Some(KeyAction::Move)
            } else if code == "KeyB"@ {
                Some(KeyAction::Emote)
            } else {
                None
            })
        }),
{
    reveal_strlit("KeyW");
    assert("KeyW"@.len() == 4 && "KeyW"@[3] == 'W');
    reveal_strlit("KeyA");
    assert("KeyA"@.len() == 4 && "KeyA"@[3] == 'A');
    reveal_strlit("KeyS");
    assert("KeyS"@.len() == 4 && "KeyS"@[3] == 'S');
    reveal_strlit("KeyD");
    assert("KeyD"@.len() == 4 && "KeyD"@[3] == 'D');
    reveal_strlit("KeyB");
    assert("KeyB"@.len() == 4 && "KeyB"@[3] == 'B');
}

} // verus!
