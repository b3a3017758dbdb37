use game_client::debug::shell::DebugShell;
use game_client::debug::{DebugHostRequest, DebugTools};

#[test]
fn tools_route_requests_to_host() {
    let mut t = DebugTools::new();
    assert_eq!(t.execute("screenshot", None), "screenshot queued");
    assert!(t.take_screenshot_request());
    assert!(!t.take_screenshot_request());
    assert_eq!(t.execute("mp join", None), "mp: join requested");
    assert_eq!(t.execute("mp leave", None), "mp: leave requested");
    assert_eq!(t.execute("mp", None), "");
    assert_eq!(t.execute("blaster c", None), "");
    assert_eq!(
        t.take_host_requests(),
        vec![
            DebugHostRequest::Screenshot,
            DebugHostRequest::MpJoin,
            DebugHostRequest::MpLeave,
            DebugHostRequest::MpStatus,
            DebugHostRequest::Blaster(b'c'),
        ]
    );
    assert!(t.take_host_requests().is_empty());
}

#[test]
fn tools_blaster_usage_and_cvars() {
    let mut t = DebugTools::new();
    assert!(t.execute("blaster z", None).starts_with("usage: blaster <a-r>"));
    assert!(t.take_host_requests().is_empty());
    assert!(t.draw_grid());
    assert!(!t.draw_lineup());
    assert!(t.net_hud());
    assert!(t.residual_hud());
    assert!(!t.draw_tracers());
    assert!(!t.flycam_wanted());
    t.toggle_flycam_wanted();
    assert!(t.flycam_wanted());
    t.execute("grid off", None);
    assert!(!t.draw_grid());
}

#[test]
fn tools_mouse_sens_reply_is_logged_and_returned() {
    let mut t = DebugTools::new();
    let out = t.execute("mousesens", Some("mouse.sens = 1".to_string()));
    assert_eq!(out, "mouse.sens = 1");
    assert_eq!(t.shell.log_lines().last().map(|s| s.as_str()), Some("mouse.sens = 1"));
    assert!(t.draw_grid());
}

#[test]
fn tools_toggle_is_deferred() {
    let mut t = DebugTools::new();
    assert!(!t.is_open());
    t.request_toggle();
    assert!(!t.is_open());
    t.apply_toggle();
    assert!(t.is_open());
    t.apply_toggle();
    assert!(t.is_open());
    t.request_toggle();
    t.apply_toggle();
    assert!(!t.is_open());
}

#[test]
fn shell_log_keeps_newest_lines() {
    let mut s = DebugShell::new();
    for i in 0..205 {
        s.push_log(&format!("line {i}"));
    }
    let log = s.log_lines();
    assert_eq!(log.len(), 200);
    assert_eq!(log[0], "line 5");
    assert_eq!(log[199], "line 204");
    s.push_log("a\nb");
    assert_eq!(s.log_lines().len(), 200);
    assert_eq!(s.log_lines()[198], "a");
    assert_eq!(s.log_lines()[199], "b");
}

#[test]
fn shell_submit_and_history() {
    let mut s = DebugShell::new();
    assert!(!s.wants_draw(None));
    assert!(s.wants_draw(Some("hud")));
    s.set_open(true);
    assert!(s.is_open());
    assert!(s.wants_focus());
    s.end_frame("  grid off  ".to_string(), false, 0, Some("  grid off  ".to_string()));
    assert_eq!(s.take_pending_command(), Some("grid off".to_string()));
    assert_eq!(s.take_pending_command(), None);
    assert_eq!(s.log_lines().last().map(|l| l.as_str()), Some("> grid off"));
    assert_eq!(s.input_line(), "");
    s.end_frame("help".to_string(), false, 0, Some("help".to_string()));
    s.end_frame(String::new(), false, -1, None);
    assert_eq!(s.input_line(), "help");
    s.end_frame("help".to_string(), false, -1, None);
    assert_eq!(s.input_line(), "grid off");
    s.end_frame("grid off".to_string(), false, -1, None);
    assert_eq!(s.input_line(), "");
    s.end_frame("x".to_string(), true, 0, None);
    assert!(!s.is_open());
    assert_eq!(s.input_line(), "x");
    assert!(!s.wants_focus());
}
