use game_client::debug::registry::DebugRegistry;

#[test]
fn grid_cvar_and_help() {
    let mut r = DebugRegistry::new();
    r.register_defaults();
    assert_eq!(r.get_bool("draw.grid"), Some(true));
    assert!(r.execute("grid off").contains("0"));
    assert_eq!(r.get_bool("draw.grid"), Some(false));
    assert!(r.execute("help").contains("draw.grid"));
    assert!(r.execute("help").contains("screenshot"));
    assert!(r.execute("help").contains("mp join"));
    assert_eq!(r.execute("screenshot"), "__REQUEST_SCREENSHOT__");
    assert_eq!(r.execute("mp join"), "__REQUEST_MP_JOIN__");
    assert_eq!(r.execute("mp leave"), "__REQUEST_MP_LEAVE__");
    assert_eq!(r.execute("mp"), "__REQUEST_MP_STATUS__");
    assert!(r.execute("draw.grid 1").contains("1"));
    assert_eq!(r.get_bool("draw.grid"), Some(true));
}

#[test]
fn flycam_cvar_commands() {
    let mut r = DebugRegistry::new();
    r.register_defaults();
    assert_eq!(r.get_bool("cam.fly"), Some(false));
    assert!(r.execute("flycam on").contains("1"));
    assert_eq!(r.get_bool("cam.fly"), Some(true));
    assert!(r.execute("remount").contains("0"));
    assert_eq!(r.get_bool("cam.fly"), Some(false));
    assert!(r.execute("fly").contains("1"));
    assert_eq!(r.get_bool("cam.fly"), Some(true));
    assert!(r.execute("help").contains("cam.fly"));
    assert!(r.execute("help").contains("flycam"));
}

#[test]
fn lineup_cvar_commands() {
    let mut r = DebugRegistry::new();
    r.register_defaults();
    assert_eq!(r.get_bool("draw.lineup"), Some(false));
    assert!(r.execute("lineup on").contains("1"));
    assert_eq!(r.get_bool("draw.lineup"), Some(true));
    assert!(r.execute("lineup off").contains("0"));
    assert!(r.execute("draw.lineup 1").contains("1"));
    assert!(r.execute("help").contains("draw.lineup"));
    assert!(r.execute("help").contains("lineup"));
}

#[test]
fn nethud_cvar_commands() {
    let mut r = DebugRegistry::new();
    r.register_defaults();
    assert_eq!(r.get_bool("hud.net"), Some(true));
    assert!(r.execute("nethud off").contains("0"));
    assert_eq!(r.get_bool("hud.net"), Some(false));
    assert!(r.execute("nethud").contains("1"));
    assert_eq!(r.get_bool("hud.net"), Some(true));
    assert!(r.execute("help").contains("nethud"));
    assert!(r.execute("help").contains("hud.net"));
}

#[test]
fn residualhud_cvar_commands() {
    let mut r = DebugRegistry::new();
    r.register_defaults();
    assert_eq!(r.get_bool("hud.residual"), Some(true));
    assert!(r.execute("residualhud off").contains("0"));
    assert_eq!(r.get_bool("hud.residual"), Some(false));
    assert!(r.execute("residualhud").contains("1"));
    assert_eq!(r.get_bool("hud.residual"), Some(true));
    assert!(r.execute("help").contains("residualhud"));
    assert!(r.execute("help").contains("hud.residual"));
}

#[test]
fn lookhud_cvar_commands() {
    let mut r = DebugRegistry::new();
    r.register_defaults();
    assert_eq!(r.get_bool("hud.look"), Some(true));
    assert!(r.execute("lookhud off").contains("0"));
    assert_eq!(r.get_bool("hud.look"), Some(false));
    assert!(r.execute("lookhud").contains("1"));
    assert_eq!(r.get_bool("hud.look"), Some(true));
    assert!(r.execute("help").contains("lookhud"));
    assert!(r.execute("help").contains("hud.look"));
}

#[test]
fn unknown_cvar_and_bad_value() {
    let mut r = DebugRegistry::new();
    r.register_defaults();
    assert_eq!(r.get_bool("no.such"), None);
    let before = r.get_bool("draw.grid");
    let out = r.execute("draw.grid maybe");
    assert_eq!(r.get_bool("draw.grid"), before);
    assert!(!out.is_empty());
    let empty = DebugRegistry::new();
    assert_eq!(empty.get_bool("draw.grid"), None);
}

#[test]
fn set_then_read_back() {
    let mut r = DebugRegistry::new();
    r.register_defaults();
    r.execute("draw.tracers 1");
    assert_eq!(r.get_bool("draw.tracers"), Some(true));
    r.execute("draw.tracers 0");
    assert_eq!(r.get_bool("draw.tracers"), Some(false));
    assert_eq!(r.get_bool("draw.grid"), Some(true));
}

#[test]
fn toggle_twice_restores() {
    let mut r = DebugRegistry::new();
    r.register_defaults();
    assert_eq!(r.execute("lineup"), "draw.lineup = 1");
    assert_eq!(r.get_bool("draw.lineup"), Some(true));
    assert_eq!(r.execute("lineup toggle"), "draw.lineup = 0");
    assert_eq!(r.get_bool("draw.lineup"), Some(false));
    assert_eq!(r.execute("lineup maybe"), "usage: lineup [on|off|toggle]");
    assert_eq!(r.execute("draw.grid"), "draw.grid = 1  — client: world-space debug grid on y = 0");
    assert_eq!(r.execute("nosuch"), "unknown: 'nosuch'. type 'help'.");
    assert_eq!(r.execute("   "), "");
    assert_eq!(r.execute("mp dance"), "usage: mp [join|leave|status] (unknown 'dance')");
    assert_eq!(r.execute("blaster q"), "__REQUEST_BLASTER_q");
    assert_eq!(r.execute("blaster qq"), "usage: blaster <a-r> (got 'qq')");
    assert_eq!(r.execute("draw.grid nope"), "usage: draw.grid <0|1|on|off>");
    assert_eq!(r.execute("GRID OFF"), "unknown: 'GRID'. type 'help'.");
    assert_eq!(r.execute("grid OFF"), "draw.grid = 0");
}

#[test]
fn toggle_aliases_flip_and_restore() {
    let cases = [
        ("grid", "draw.grid"),
        ("flycam", "cam.fly"),
        ("fly", "cam.fly"),
        ("lineup", "draw.lineup"),
        ("nethud", "hud.net"),
        ("residualhud", "hud.residual"),
        ("kickhud", "hud.residual"),
        ("lookhud", "hud.look"),
    ];
    let all = ["cam.fly", "draw.grid", "draw.lineup", "draw.tracers", "hud.look", "hud.net", "hud.residual"];
    for (head, cvar) in cases {
        for line in [head.to_string(), format!("{head} toggle")] {
            let mut r = DebugRegistry::new();
            r.register_defaults();
            let before: Vec<Option<bool>> = all.iter().map(|n| r.get_bool(n)).collect();
            let old = r.get_bool(cvar).unwrap();
            assert_eq!(r.execute(&line), format!("{cvar} = {}", (!old) as u8));
            assert_eq!(r.get_bool(cvar), Some(!old));
            for (n, b) in all.iter().zip(before.iter()) {
                if *n != cvar {
                    assert_eq!(r.get_bool(n), *b);
                }
            }
            assert_eq!(r.execute(&line), format!("{cvar} = {}", old as u8));
            assert_eq!(r.get_bool(cvar), Some(old));
        }
    }
}

#[test]
fn set_by_any_spelling_and_case() {
    let mut r = DebugRegistry::new();
    r.register_defaults();
    assert_eq!(r.execute("lineup on"), "draw.lineup = 1");
    assert_eq!(r.execute("lineup off"), "draw.lineup = 0");
    assert_eq!(r.execute("draw.lineup 1"), "draw.lineup = 1");
    assert_eq!(r.execute("lookhud OFF"), "hud.look = 0");
    assert_eq!(r.get_bool("hud.look"), Some(false));
    assert_eq!(r.execute("lookhud OFF"), "hud.look = 0");
    assert_eq!(r.get_bool("hud.look"), Some(false));
    for (word, b) in [("1", true), ("TRUE", true), ("On", true), ("yEs", true), ("0", false), ("False", false), ("OFF", false), ("no", false)] {
        let expected = format!("hud.net = {}", b as u8);
        assert_eq!(r.execute(&format!("nethud {word}")), expected);
        assert_eq!(r.get_bool("hud.net"), Some(b));
        assert_eq!(r.execute(&format!("hud.net {word}")), expected);
        assert_eq!(r.get_bool("hud.net"), Some(b));
    }
}

#[test]
fn commands_never_change_cvar_names() {
    let mut r = DebugRegistry::new();
    assert_eq!(r.get_bool("draw.grid"), None);
    r.register_defaults();
    for line in ["grid", "fly on", "draw.nope 1", "help", "remount", "mp join", "kickhud", "blaster a", "hud.look 0", "nosuch x"] {
        r.execute(line);
    }
    for n in ["cam.fly", "draw.grid", "draw.lineup", "draw.tracers", "hud.look", "hud.net", "hud.residual"] {
        assert!(r.get_bool(n).is_some(), "{n}");
    }
    assert_eq!(r.get_bool("draw.nope"), None);
    assert_eq!(r.get_bool("grid"), None);
    assert_eq!(r.get_bool(""), None);
}
