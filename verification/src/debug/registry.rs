//! Command and cvar registry — the only intervention API.
//!
//! The registry holds boolean console variables and parses console lines.
//! Its state is modelled as the sequence of its cvars in name order (the
//! order a `BTreeMap` keyed by name walks them in); every contract below is
//! stated over that model and over the characters of the line.

use vstd::prelude::*;

use crate::text::{
    ascii_lower, chars_eq_str, chars_of, push_char, push_chars, push_str, split_words, string_from,
    string_of, to_ascii_lower, views, words,
};

verus! {

/// The abstract value of one console variable.
pub struct CVarView {
    pub name: Seq<char>,
    pub value: bool,
    pub help: Seq<char>,
}

#[derive(Clone, Copy)]
enum CVarValue {
    Bool(bool),
}

#[derive(Clone, Copy)]
struct CVar {
    name: &'static str,
    value: CVarValue,
    help: &'static str,
}

impl CVar {
    spec fn model(self) -> CVarView {
        CVarView {
            name: self.name@,
            value: match self.value {
                CVarValue::Bool(b) => b,
            },
            help: self.help@,
        }
    }
}

/// Named commands and console variables. UI and host only call into this.
pub struct DebugRegistry {
    cvars: Vec<CVar>,
}

impl View for DebugRegistry {
    type V = Seq<CVarView>;

    closed spec fn view(&self) -> Seq<CVarView> {
        self.cvars@.map_values(|c: CVar| c.model())
    }
}

// ---------------------------------------------------------------------------
// The model
// ---------------------------------------------------------------------------

pub open spec fn cv(name: Seq<char>, value: bool, help: Seq<char>) -> CVarView {
    CVarView { name, value, help }
}

/// The default cvars, in name order.
pub open spec fn default_cvars() -> Seq<CVarView> {
    seq![
        cv("cam.fly"@, false, "client: debug flycam (view-only unmount; F8)"@),
        cv("draw.grid"@, true, "client: world-space debug grid on y = 0"@),
        cv("draw.lineup"@, false, "client: blaster lineup (armed Kenney row; grip/import check)"@),
        cv("draw.tracers"@, false, "client: debug projectile tracers (038)"@),
        cv("hud.look"@, true, "client: look isolation (dx aY pre/post/end why) on top banner"@),
        cv("hud.net"@, true, "client: top FPS / tick banner"@),
        cv("hud.residual"@, true, "client: fire residual fold / fall on top banner"@),
    ]
}

/// A registry is either empty or holds exactly the default cvars (with any
/// values), in name order.
pub open spec fn registry_wf(c: Seq<CVarView>) -> bool {
    ||| c.len() == 0
    ||| {
        &&& c.len() == default_cvars().len()
        &&& forall|i: int|
            0 <= i < c.len() ==> (#[trigger] c[i]).name == default_cvars()[i].name && c[i].help
                == default_cvars()[i].help
    }
}

/// Index of the first cvar named `name` at or after `i`.
pub open spec fn find_from(c: Seq<CVarView>, name: Seq<char>, i: int) -> Option<int>
    decreases c.len() - i,
{
    if i < 0 || i >= c.len() {
        None
    } else if c[i].name == name {
        Some(i)
    } else {
        find_from(c, name, i + 1)
    }
}

/// Index of the cvar named `name`, if there is one.
pub open spec fn find(c: Seq<CVarView>, name: Seq<char>) -> Option<int> {
    find_from(c, name, 0)
}

/// The value of the cvar named `name`, if there is one.
pub open spec fn lookup(c: Seq<CVarView>, name: Seq<char>) -> Option<bool> {
    match find(c, name) {
        Some(i) => Some(c[i].value),
        None => None,
    }
}

/// The registry after setting cvar `name` to `value` (no change when there is
/// no such cvar).
pub open spec fn set_value(c: Seq<CVarView>, name: Seq<char>, value: bool) -> Seq<CVarView> {
    match find(c, name) {
        Some(i) => c.update(i, cv(c[i].name, value, c[i].help)),
        None => c,
    }
}

/// `"1"` or `"0"`.
pub open spec fn digit(b: bool) -> Seq<char> {
    if b {
        "1"@
    } else {
        "0"@
    }
}

/// What `parse_bool` accepts, after ASCII lowercasing.
pub open spec fn spec_parse_bool(s: Seq<char>) -> Option<bool> {
    let l = ascii_lower(s);
    if l == "1"@ || l == "true"@ || l == "on"@ || l == "yes"@ {
        Some(true)
    } else if l == "0"@ || l == "false"@ || l == "off"@ || l == "no"@ {
        Some(false)
    } else {
        None
    }
}

/// `name = v` for a set or toggled cvar.
pub open spec fn assigned(name: Seq<char>, b: bool) -> Seq<char> {
    name + " = "@ + digit(b)
}

/// `[on|off|toggle]` commands on cvar `name`.
pub open spec fn bool_toggle(
    c: Seq<CVarView>,
    name: Seq<char>,
    args: Seq<Seq<char>>,
    usage: Seq<char>,
) -> (Seq<CVarView>, Seq<char>) {
    if args.len() == 0 || args[0] == "toggle"@ {
        let cur = match lookup(c, name) {
            Some(b) => b,
            None => false,
        };
        (set_value(c, name, !cur), assigned(name, !cur))
    } else {
        match spec_parse_bool(args[0]) {
            Some(b) => (set_value(c, name, b), assigned(name, b)),
            None => (c, "usage: "@ + usage + " [on|off|toggle]"@),
        }
    }
}

/// `name = v  — help`, or `unknown cvar: name`.
pub open spec fn spec_format_cvar(c: Seq<CVarView>, name: Seq<char>) -> Seq<char> {
    match find(c, name) {
        Some(i) => name + " = "@ + digit(c[i].value) + "  — "@ + c[i].help,
        None => "unknown cvar: "@ + name,
    }
}

/// Reading or setting a cvar by its own name.
pub open spec fn cvar_cmd(c: Seq<CVarView>, name: Seq<char>, args: Seq<Seq<char>>) -> (
    Seq<CVarView>,
    Seq<char>,
) {
    if args.len() == 0 {
        (c, spec_format_cvar(c, name))
    } else {
        match spec_parse_bool(args[0]) {
            Some(b) => (set_value(c, name, b), assigned(name, b)),
            None => (c, "usage: "@ + name + " <0|1|on|off>"@),
        }
    }
}

/// The reply to `mp ...`.
pub open spec fn mp_reply(args: Seq<Seq<char>>) -> Seq<char> {
    if args.len() == 0 || args[0] == "status"@ {
        "__REQUEST_MP_STATUS__"@
    } else if args[0] == "join"@ {
        "__REQUEST_MP_JOIN__"@
    } else if args[0] == "leave"@ {
        "__REQUEST_MP_LEAVE__"@
    } else {
        "usage: mp [join|leave|status] (unknown '"@ + args[0] + "')"@
    }
}

/// The reply to `blaster ...`: a request for one letter `a`..`r`.
pub open spec fn blaster_reply(args: Seq<Seq<char>>) -> Seq<char> {
    if args.len() == 0 {
        "usage: blaster <a-r>"@
    } else if args[0].len() == 1 && 'a' <= args[0][0] <= 'r' {
        "__REQUEST_BLASTER_"@.push(args[0][0])
    } else {
        "usage: blaster <a-r> (got '"@ + args[0] + "')"@
    }
}

/// The fixed head of the help text.
pub open spec fn help_head() -> Seq<char> {
    "commands:\n  help              this list\n  grid [on|off|toggle]  set draw.grid\n  flycam|fly [on|off|toggle]  debug flycam (F8)\n  lineup [on|off|toggle]  blaster lineup (armed characters)\n  nethud [on|off|toggle]  top FPS / tick banner\n  residualhud [on|off|toggle]  fire residual fold / fall\n  lookhud [on|off|toggle]  look isolation: dx aY pre/post/end\n  remount           leave flycam, restore self view\n  screenshot|shot   capture frame (F9)\n  mp join|leave|status  WebTransport shared tick + remotes\n  blaster <a-r>     equip letter on active slot (038; flips if needed)\ncvars (get: name · set: name <value>):"@
}

/// One help line per cvar, each on a new line.
pub open spec fn help_cvar_lines(c: Seq<CVarView>) -> Seq<char>
    decreases c.len(),
{
    if c.len() == 0 {
        seq![]
    } else {
        help_cvar_lines(c.drop_last()) + "\n  "@ + c.last().name + " = "@ + digit(c.last().value)
            + "  — "@ + c.last().help
    }
}

/// The full help text.
pub open spec fn help_text(c: Seq<CVarView>) -> Seq<char> {
    help_head() + help_cvar_lines(c)
}

/// The unknown-command reply.
pub open spec fn unknown_reply(head: Seq<char>) -> Seq<char> {
    "unknown: '"@ + head + "'. type 'help'."@
}

/// What a console line does: the registry afterwards and the reply.
pub open spec fn spec_execute(c: Seq<CVarView>, line: Seq<char>) -> (Seq<CVarView>, Seq<char>) {
    let w = words(line);
    if w.len() == 0 {
        (c, seq![])
    } else {
        let head = w[0];
        let args = w.drop_first();
        if head == "help"@ || head == "?"@ {
            (c, help_text(c))
        } else if head == "grid"@ {
            bool_toggle(c, "draw.grid"@, args, "grid"@)
        } else if head == "flycam"@ || head == "fly"@ {
            bool_toggle(c, "cam.fly"@, args, "flycam"@)
        } else if head == "lineup"@ {
            bool_toggle(c, "draw.lineup"@, args, "lineup"@)
        } else if head == "nethud"@ {
            bool_toggle(c, "hud.net"@, args, "nethud"@)
        } else if head == "residualhud"@ || head == "kickhud"@ {
            bool_toggle(c, "hud.residual"@, args, "residualhud"@)
        } else if head == "lookhud"@ {
            bool_toggle(c, "hud.look"@, args, "lookhud"@)
        } else if head == "remount"@ {
            (set_value(c, "cam.fly"@, false), "cam.fly = 0 (remount)"@)
        } else if head == "screenshot"@ || head == "shot"@ {
            (c, "__REQUEST_SCREENSHOT__"@)
        } else if head == "mp"@ {
            (c, mp_reply(args))
        } else if head == "blaster"@ {
            (c, blaster_reply(args))
        } else if find(c, head) is Some {
            cvar_cmd(c, head, args)
        } else {
            (c, unknown_reply(head))
        }
    }
}

// ---------------------------------------------------------------------------
// Lemmas
// ---------------------------------------------------------------------------

proof fn lemma_find_from_bounds(c: Seq<CVarView>, name: Seq<char>, i: int)
    requires
        0 <= i,
    ensures
        find_from(c, name, i) matches Some(k) ==> i <= k < c.len() && c[k].name == name,
        find_from(c, name, i) is None ==> forall|k: int| i <= k < c.len() ==> c[k].name != name,
    decreases c.len() - i,
{
    if i < c.len() && c[i].name != name {
        lemma_find_from_bounds(c, name, i + 1);
    }
}

/// Setting a value keeps the names and help texts, so it keeps the registry
/// well formed, and it leaves the position of every name unchanged.
pub proof fn lemma_set_value_shape(c: Seq<CVarView>, name: Seq<char>, value: bool)
    ensures
        set_value(c, name, value).len() == c.len(),
        forall|i: int|
            0 <= i < c.len() ==> (#[trigger] set_value(c, name, value)[i]).name == c[i].name
                && set_value(c, name, value)[i].help == c[i].help,
        registry_wf(c) ==> registry_wf(set_value(c, name, value)),
{
    lemma_find_from_bounds(c, name, 0);
}

proof fn lemma_find_same_names(c: Seq<CVarView>, d: Seq<CVarView>, name: Seq<char>, i: int)
    requires
        0 <= i,
        c.len() == d.len(),
        forall|k: int| 0 <= k < c.len() ==> (#[trigger] c[k]).name == d[k].name,
    ensures
        find_from(c, name, i) == find_from(d, name, i),
    decreases c.len() - i,
{
    if i < c.len() && c[i].name != name {
        lemma_find_same_names(c, d, name, i + 1);
    }
}

/// After setting cvar `name` to `value`, reading `name` gives `value` back,
/// and every other cvar reads as before.
pub proof fn law_set_then_read(c: Seq<CVarView>, name: Seq<char>, value: bool, other: Seq<char>)
    requires
        lookup(c, name) is Some,
    ensures
        lookup(set_value(c, name, value), name) == Some(value),
        other != name ==> lookup(set_value(c, name, value), other) == lookup(c, other),
{
    lemma_set_value_shape(c, name, value);
    lemma_find_same_names(c, set_value(c, name, value), name, 0);
    lemma_find_same_names(c, set_value(c, name, value), other, 0);
    lemma_find_from_bounds(c, name, 0);
    lemma_find_from_bounds(c, other, 0);
}

/// A bare toggle command flips its cvar, and a second one brings the
/// registry back to where it was.
pub proof fn law_toggle_twice_restores(c: Seq<CVarView>, name: Seq<char>, usage: Seq<char>)
    requires
        lookup(c, name) is Some,
    ensures
        lookup(bool_toggle(c, name, seq![], usage).0, name) == Some(!lookup(c, name)->0),
        bool_toggle(bool_toggle(c, name, seq![], usage).0, name, seq![], usage).0 == c,
{
    let b = lookup(c, name)->0;
    let c1 = set_value(c, name, !b);
    law_set_then_read(c, name, !b, name);
    law_set_then_read(c1, name, b, name);
    lemma_set_value_shape(c, name, !b);
    lemma_find_same_names(c, c1, name, 0);
    lemma_find_from_bounds(c, name, 0);
    let c2 = set_value(c1, name, b);
    assert(c2 =~= c);
}

/// A registry holding exactly the default cvars (with any values).
pub open spec fn defaults_registered(c: Seq<CVarView>) -> bool {
    registry_wf(c) && c.len() == default_cvars().len()
}

/// Two registries with the same cvar names and help texts, in the same
/// order.
pub open spec fn same_names(c: Seq<CVarView>, d: Seq<CVarView>) -> bool {
    c.len() == d.len() && forall|i: int|
        0 <= i < c.len() ==> (#[trigger] c[i]).name == d[i].name && c[i].help == d[i].help
}

/// The registry after running `lines` in order.
pub open spec fn execute_all(c: Seq<CVarView>, lines: Seq<Seq<char>>) -> Seq<CVarView>
    decreases lines.len(),
{
    if lines.len() == 0 {
        c
    } else {
        spec_execute(execute_all(c, lines.drop_last()), lines.last()).0
    }
}

/// Whether `n` names one of the default cvars.
pub open spec fn is_default_name(n: Seq<char>) -> bool {
    exists|k: int| 0 <= k < default_cvars().len() && default_cvars()[k].name == n
}

proof fn lemma_set_value_same_names(c: Seq<CVarView>, name: Seq<char>, value: bool)
    ensures
        same_names(set_value(c, name, value), c),
{
    lemma_set_value_shape(c, name, value);
}

/// No command adds, removes or renames a cvar.
proof fn lemma_execute_keeps_names(c: Seq<CVarView>, line: Seq<char>)
    ensures
        same_names(spec_execute(c, line).0, c),
{
    let w = words(line);
    if w.len() > 0 {
        let args = w.drop_first();
        let head = w[0];
        lemma_set_value_same_names(c, "draw.grid"@, true);
        lemma_set_value_same_names(c, "draw.grid"@, false);
        lemma_set_value_same_names(c, "cam.fly"@, true);
        lemma_set_value_same_names(c, "cam.fly"@, false);
        lemma_set_value_same_names(c, "draw.lineup"@, true);
        lemma_set_value_same_names(c, "draw.lineup"@, false);
        lemma_set_value_same_names(c, "hud.net"@, true);
        lemma_set_value_same_names(c, "hud.net"@, false);
        lemma_set_value_same_names(c, "hud.residual"@, true);
        lemma_set_value_same_names(c, "hud.residual"@, false);
        lemma_set_value_same_names(c, "hud.look"@, true);
        lemma_set_value_same_names(c, "hud.look"@, false);
        lemma_set_value_same_names(c, head, true);
        lemma_set_value_same_names(c, head, false);
    }
}

proof fn lemma_same_names_trans(a: Seq<CVarView>, b: Seq<CVarView>, c: Seq<CVarView>)
    requires
        same_names(a, b),
        same_names(b, c),
    ensures
        same_names(a, c),
{
}

proof fn lemma_lookup_some_iff_named(c: Seq<CVarView>, n: Seq<char>)
    ensures
        lookup(c, n) is Some <==> exists|k: int| 0 <= k < c.len() && c[k].name == n,
{
    lemma_find_from_bounds(c, n, 0);
}

/// The cvar names never change: after registering the defaults and running
/// any commands, exactly the default names read as cvars.
pub proof fn law_commands_keep_cvar_names(c: Seq<CVarView>, lines: Seq<Seq<char>>, n: Seq<char>)
    requires
        defaults_registered(c),
    ensures
        defaults_registered(execute_all(c, lines)),
        same_names(execute_all(c, lines), c),
        lookup(execute_all(c, lines), n) is Some <==> is_default_name(n),
    decreases lines.len(),
{
    if lines.len() > 0 {
        law_commands_keep_cvar_names(c, lines.drop_last(), n);
        let prev = execute_all(c, lines.drop_last());
        lemma_execute_keeps_names(prev, lines.last());
        lemma_same_names_trans(execute_all(c, lines), prev, c);
    }
    let r = execute_all(c, lines);
    lemma_lookup_some_iff_named(r, n);
    if lookup(r, n) is Some {
        let k = choose|k: int| 0 <= k < r.len() && r[k].name == n;
        assert(default_cvars()[k].name == n);
    }
    if is_default_name(n) {
        let k = choose|k: int| 0 <= k < default_cvars().len() && default_cvars()[k].name == n;
        assert(r[k].name == n);
    }
}

/// The cvar and usage name of a toggle command word (`grid`, `flycam`,
/// `fly`, `lineup`, `nethud`, `residualhud`, `kickhud`, `lookhud`).
pub open spec fn toggle_target(head: Seq<char>) -> Option<(Seq<char>, Seq<char>)> {
    if head == "grid"@ {
        Some(("draw.grid"@, "grid"@))
    } else if head == "flycam"@ || head == "fly"@ {
        Some(("cam.fly"@, "flycam"@))
    } else if head == "lineup"@ {
        Some(("draw.lineup"@, "lineup"@))
    } else if head == "nethud"@ {
        Some(("hud.net"@, "nethud"@))
    } else if head == "residualhud"@ || head == "kickhud"@ {
        Some(("hud.residual"@, "residualhud"@))
    } else if head == "lookhud"@ {
        Some(("hud.look"@, "lookhud"@))
    } else {
        None
    }
}

/// The cvar a toggle command word acts on (empty for any other word).
pub open spec fn toggle_cvar(head: Seq<char>) -> Seq<char> {
    match toggle_target(head) {
        Some(t) => t.0,
        None => seq![],
    }
}

/// `execute` picks the toggle branch for a toggle command word, with the
/// command's arguments.
proof fn lemma_execute_toggle_branch(c: Seq<CVarView>, line: Seq<char>)
    requires
        words(line).len() > 0,
        toggle_target(words(line)[0]) is Some,
    ensures
        ({
            let (v, usage) = toggle_target(words(line)[0])->0;
            spec_execute(c, line) == bool_toggle(c, v, words(line).drop_first(), usage)
        }),
{
    reveal_strlit("help");
    assert("help"@.len() == 4 && "help"@[0] == 'h');
    reveal_strlit("?");
    assert("?"@.len() == 1 && "?"@[0] == '?');
    reveal_strlit("grid");
    assert("grid"@.len() == 4 && "grid"@[0] == 'g');
    reveal_strlit("flycam");
    assert("flycam"@.len() == 6 && "flycam"@[0] == 'f');
    reveal_strlit("fly");
    assert("fly"@.len() == 3 && "fly"@[0] == 'f');
    reveal_strlit("lineup");
    assert("lineup"@.len() == 6 && "lineup"@[0] == 'l');
    reveal_strlit("nethud");
    assert("nethud"@.len() == 6 && "nethud"@[0] == 'n');
    reveal_strlit("residualhud");
    assert("residualhud"@.len() == 11 && "residualhud"@[0] == 'r');
    reveal_strlit("kickhud");
    assert("kickhud"@.len() == 7 && "kickhud"@[0] == 'k');
    reveal_strlit("lookhud");
    assert("lookhud"@.len() == 7 && "lookhud"@[0] == 'l');
}

/// Each default cvar reads as a cvar of a registry holding the defaults.
proof fn lemma_default_names_found(c: Seq<CVarView>, k: int)
    requires
        defaults_registered(c),
        0 <= k < default_cvars().len(),
    ensures
        lookup(c, default_cvars()[k].name) is Some,
{
    lemma_lookup_some_iff_named(c, default_cvars()[k].name);
    assert(c[k].name == default_cvars()[k].name);
}

proof fn lemma_toggle_targets_registered(c: Seq<CVarView>, head: Seq<char>)
    requires
        defaults_registered(c),
        toggle_target(head) is Some,
    ensures
        lookup(c, toggle_cvar(head)) is Some,
{
    let v = toggle_cvar(head);
    if v == "cam.fly"@ {
        lemma_default_names_found(c, 0);
    } else if v == "draw.grid"@ {
        lemma_default_names_found(c, 1);
    } else if v == "draw.lineup"@ {
        lemma_default_names_found(c, 2);
    } else if v == "hud.look"@ {
        lemma_default_names_found(c, 4);
    } else if v == "hud.net"@ {
        lemma_default_names_found(c, 5);
    } else {
        lemma_default_names_found(c, 6);
    }
}

/// A toggle command (`grid`, `flycam`, `fly`, `lineup`, `nethud`,
/// `residualhud`, `kickhud`, `lookhud`), bare or with `toggle`, flips its
/// cvar, replies `<cvar> = <new value>`, leaves every other cvar as it was,
/// and the same line run again restores the registry.
pub proof fn law_toggle_command(c: Seq<CVarView>, line: Seq<char>, other: Seq<char>)
    requires
        defaults_registered(c),
        words(line).len() == 1 || (words(line).len() == 2 && words(line)[1] == "toggle"@),
        toggle_target(words(line)[0]) is Some,
    ensures
        ({
            let v = toggle_cvar(words(line)[0]);
            let old = lookup(c, v)->0;
            let (c1, reply) = spec_execute(c, line);
            &&& lookup(c, v) is Some
            &&& c1 == set_value(c, v, !old)
            &&& reply == v + " = "@ + digit(!old)
            &&& lookup(c1, v) == Some(!old)
            &&& (other != v ==> lookup(c1, other) == lookup(c, other))
            &&& spec_execute(c1, line).0 == c
        }),
{
    let (v, usage) = toggle_target(words(line)[0])->0;
    lemma_toggle_targets_registered(c, words(line)[0]);
    let old = lookup(c, v)->0;
    lemma_execute_toggle_branch(c, line);
    let args = words(line).drop_first();
    let c1 = set_value(c, v, !old);
    assert(spec_execute(c, line) == (c1, assigned(v, !old)));
    law_set_then_read(c, v, !old, other);
    lemma_set_value_shape(c, v, !old);
    assert(defaults_registered(c1));
    lemma_execute_toggle_branch(c1, line);
    law_toggle_twice_restores(c, v, usage);
    assert(bool_toggle(c, v, seq![], usage).0 == c1);
}

/// An on/off spelling (`1 true on yes` / `0 false off no`, any ASCII case)
/// after a toggle command word, or after a cvar's own name, sets that cvar
/// to the spelled value whatever it was, replies `<cvar> = <value>`, and the
/// same line run again changes nothing more.
pub proof fn law_set_command(c: Seq<CVarView>, line: Seq<char>)
    requires
        defaults_registered(c),
        words(line).len() == 2,
        spec_parse_bool(words(line)[1]) is Some,
        toggle_target(words(line)[0]) is Some || is_default_name(words(line)[0]),
    ensures
        ({
            let head = words(line)[0];
            let v = match toggle_target(head) {
                Some(t) => t.0,
                None => head,
            };
            let b = spec_parse_bool(words(line)[1])->0;
            let (c1, reply) = spec_execute(c, line);
            &&& c1 == set_value(c, v, b)
            &&& reply == v + " = "@ + digit(b)
            &&& lookup(c1, v) == Some(b)
            &&& spec_execute(c1, line).0 == c1
        }),
{
    let head = words(line)[0];
    let arg = words(line)[1];
    let b = spec_parse_bool(arg)->0;
    reveal_strlit("toggle");
    reveal_strlit("1");
    reveal_strlit("true");
    reveal_strlit("on");
    reveal_strlit("yes");
    reveal_strlit("0");
    reveal_strlit("false");
    reveal_strlit("off");
    reveal_strlit("no");
    assert(arg != "toggle"@) by {
        if arg == "toggle"@ {
            assert(ascii_lower(arg).len() == 6);
        }
    }
    assert(words(line).drop_first()[0] == arg);
    match toggle_target(head) {
        Some((v, usage)) => {
            lemma_toggle_targets_registered(c, head);
            lemma_execute_toggle_branch(c, line);
            let c1 = set_value(c, v, b);
            law_set_then_read(c, v, b, v);
            lemma_set_value_shape(c, v, b);
            lemma_execute_toggle_branch(c1, line);
            law_set_then_read(c1, v, b, v);
            lemma_find_same_names(c, c1, v, 0);
            lemma_find_from_bounds(c, v, 0);
            assert(set_value(c1, v, b) =~= c1);
        },
        None => {
            let k = choose|k: int| 0 <= k < default_cvars().len() && default_cvars()[k].name == head;
            lemma_default_names_found(c, k);
            lemma_execute_cvar_branch(c, line, k);
            let c1 = set_value(c, head, b);
            law_set_then_read(c, head, b, head);
            lemma_set_value_shape(c, head, b);
            assert(defaults_registered(c1));
            lemma_default_names_found(c1, k);
            lemma_execute_cvar_branch(c1, line, k);
            lemma_find_same_names(c, c1, head, 0);
            lemma_find_from_bounds(c, head, 0);
            assert(set_value(c1, head, b) =~= c1);
        },
    }
}

/// The `mp` command asks the host for the session status (bare or with
/// `status`), for a join (`join`) or for a leave (`leave`), and touches no
/// cvar.
pub proof fn law_mp_requests(c: Seq<CVarView>, line: Seq<char>)
    requires
        words(line).len() >= 1,
        words(line)[0] == "mp"@,
    ensures
        words(line).len() == 1 ==> spec_execute(c, line) == (c, "__REQUEST_MP_STATUS__"@),
        words(line).len() >= 2 && words(line)[1] == "status"@ ==> spec_execute(c, line) == (
            c,
            "__REQUEST_MP_STATUS__"@,
        ),
        words(line).len() >= 2 && words(line)[1] == "join"@ ==> spec_execute(c, line) == (
            c,
            "__REQUEST_MP_JOIN__"@,
        ),
        words(line).len() >= 2 && words(line)[1] == "leave"@ ==> spec_execute(c, line) == (
            c,
            "__REQUEST_MP_LEAVE__"@,
        ),
        spec_execute(c, line).0 == c,
{
    reveal_strlit("help");
    assert("help"@.len() == 4 && "help"@[0] == 'h');
    reveal_strlit("?");
    assert("?"@.len() == 1 && "?"@[0] == '?');
    reveal_strlit("grid");
    assert("grid"@.len() == 4 && "grid"@[0] == 'g');
    reveal_strlit("flycam");
    assert("flycam"@.len() == 6 && "flycam"@[0] == 'f');
    reveal_strlit("fly");
    assert("fly"@.len() == 3 && "fly"@[0] == 'f');
    reveal_strlit("lineup");
    assert("lineup"@.len() == 6 && "lineup"@[0] == 'l');
    reveal_strlit("nethud");
    assert("nethud"@.len() == 6 && "nethud"@[0] == 'n');
    reveal_strlit("residualhud");
    assert("residualhud"@.len() == 11 && "residualhud"@[0] == 'r');
    reveal_strlit("kickhud");
    assert("kickhud"@.len() == 7 && "kickhud"@[0] == 'k');
    reveal_strlit("lookhud");
    assert("lookhud"@.len() == 7 && "lookhud"@[0] == 'l');
    reveal_strlit("remount");
    assert("remount"@.len() == 7 && "remount"@[0] == 'r');
    reveal_strlit("screenshot");
    assert("screenshot"@.len() == 10 && "screenshot"@[0] == 's');
    reveal_strlit("shot");
    assert("shot"@.len() == 4 && "shot"@[0] == 's');
    reveal_strlit("mp");
    assert("mp"@.len() == 2 && "mp"@[0] == 'm');
    reveal_strlit("status");
    assert("status"@.len() == 6 && "status"@[0] == 's');
    reveal_strlit("join");
    assert("join"@.len() == 4 && "join"@[0] == 'j');
    reveal_strlit("leave");
    assert("leave"@.len() == 5 && "leave"@[0] == 'l');
    if words(line).len() >= 2 {
        assert(words(line).drop_first()[0] == words(line)[1]);
    }
}

/// `screenshot` and `shot` ask the host for a screenshot and touch no cvar;
/// `remount` turns the flycam cvar off and says so; `blaster` with one
/// letter from `a` to `r` asks for that letter, and touches no cvar.
pub proof fn law_host_requests(c: Seq<CVarView>, line: Seq<char>)
    requires
        words(line).len() >= 1,
    ensures
        (words(line)[0] == "screenshot"@ || words(line)[0] == "shot"@) ==> spec_execute(c, line) == (
            c,
            "__REQUEST_SCREENSHOT__"@,
        ),
        words(line)[0] == "remount"@ ==> spec_execute(c, line) == (
            set_value(c, "cam.fly"@, false),
            "cam.fly = 0 (remount)"@,
        ),
        (words(line)[0] == "blaster"@ && words(line).len() >= 2 && words(line)[1].len() == 1 && 'a'
            <= words(line)[1][0] <= 'r') ==> spec_execute(c, line) == (
            c,
            "__REQUEST_BLASTER_"@.push(words(line)[1][0]),
        ),
{
    reveal_strlit("help");
    assert("help"@.len() == 4 && "help"@[0] == 'h');
    reveal_strlit("?");
    assert("?"@.len() == 1 && "?"@[0] == '?');
    reveal_strlit("grid");
    assert("grid"@.len() == 4 && "grid"@[0] == 'g');
    reveal_strlit("flycam");
    assert("flycam"@.len() == 6 && "flycam"@[0] == 'f');
    reveal_strlit("fly");
    assert("fly"@.len() == 3 && "fly"@[0] == 'f');
    reveal_strlit("lineup");
    assert("lineup"@.len() == 6 && "lineup"@[0] == 'l');
    reveal_strlit("nethud");
    assert("nethud"@.len() == 6 && "nethud"@[0] == 'n');
    reveal_strlit("residualhud");
    assert("residualhud"@.len() == 11 && "residualhud"@[0] == 'r');
    reveal_strlit("kickhud");
    assert("kickhud"@.len() == 7 && "kickhud"@[0] == 'k');
    reveal_strlit("lookhud");
    assert("lookhud"@.len() == 7 && "lookhud"@[0] == 'l');
    reveal_strlit("remount");
    assert("remount"@.len() == 7 && "remount"@[0] == 'r');
    reveal_strlit("screenshot");
    assert("screenshot"@.len() == 10 && "screenshot"@[0] == 's');
    reveal_strlit("shot");
    assert("shot"@.len() == 4 && "shot"@[0] == 's');
    reveal_strlit("mp");
    assert("mp"@.len() == 2 && "mp"@[0] == 'm');
    reveal_strlit("blaster");
    assert("blaster"@.len() == 7 && "blaster"@[0] == 'b');
    if words(line).len() >= 2 {
        assert(words(line).drop_first()[0] == words(line)[1]);
    }
}

/// `execute` picks the cvar branch for a default cvar's name.
proof fn lemma_execute_cvar_branch(c: Seq<CVarView>, line: Seq<char>, k: int)
    requires
        words(line).len() > 0,
        0 <= k < default_cvars().len(),
        words(line)[0] == default_cvars()[k].name,
        lookup(c, words(line)[0]) is Some,
    ensures
        spec_execute(c, line) == cvar_cmd(c, words(line)[0], words(line).drop_first()),
{
    reveal_strlit("help");
    assert("help"@.len() == 4 && "help"@[0] == 'h');
    reveal_strlit("?");
    assert("?"@.len() == 1 && "?"@[0] == '?');
    reveal_strlit("grid");
    assert("grid"@.len() == 4 && "grid"@[0] == 'g');
    reveal_strlit("flycam");
    assert("flycam"@.len() == 6 && "flycam"@[0] == 'f');
    reveal_strlit("fly");
    assert("fly"@.len() == 3 && "fly"@[0] == 'f');
    reveal_strlit("lineup");
    assert("lineup"@.len() == 6 && "lineup"@[0] == 'l');
    reveal_strlit("nethud");
    assert("nethud"@.len() == 6 && "nethud"@[0] == 'n');
    reveal_strlit("residualhud");
    assert("residualhud"@.len() == 11 && "residualhud"@[0] == 'r');
    reveal_strlit("kickhud");
    assert("kickhud"@.len() == 7 && "kickhud"@[0] == 'k');
    reveal_strlit("lookhud");
    assert("lookhud"@.len() == 7 && "lookhud"@[0] == 'l');
    reveal_strlit("remount");
    assert("remount"@.len() == 7 && "remount"@[0] == 'r');
    reveal_strlit("screenshot");
    assert("screenshot"@.len() == 10 && "screenshot"@[0] == 's');
    reveal_strlit("shot");
    assert("shot"@.len() == 4 && "shot"@[0] == 's');
    reveal_strlit("mp");
    assert("mp"@.len() == 2 && "mp"@[0] == 'm');
    reveal_strlit("blaster");
    assert("blaster"@.len() == 7 && "blaster"@[0] == 'b');
    reveal_strlit("cam.fly");
    assert("cam.fly"@.len() == 7 && "cam.fly"@[0] == 'c');
    reveal_strlit("draw.grid");
    assert("draw.grid"@.len() == 9 && "draw.grid"@[0] == 'd');
    reveal_strlit("draw.lineup");
    assert("draw.lineup"@.len() == 11 && "draw.lineup"@[0] == 'd');
    reveal_strlit("draw.tracers");
    assert("draw.tracers"@.len() == 12 && "draw.tracers"@[0] == 'd');
    reveal_strlit("hud.look");
    assert("hud.look"@.len() == 8 && "hud.look"@[0] == 'h');
    reveal_strlit("hud.net");
    assert("hud.net"@.len() == 7 && "hud.net"@[0] == 'h');
    reveal_strlit("hud.residual");
    assert("hud.residual"@.len() == 12 && "hud.residual"@[0] == 'h');
    lemma_find_from_bounds(c, words(line)[0], 0);
}

// ---------------------------------------------------------------------------
// Executable code
// ---------------------------------------------------------------------------

fn digit_str(b: bool) -> (s: &'static str)
    ensures
        s@ == digit(b),
{
    if b {
        "1"
    } else {
        "0"
    }
}

/// Whether `s` reads as a boolean (`1 true on yes` / `0 false off no`, any
/// ASCII case).
pub fn parse_bool(s: &Vec<char>) -> (r: Option<bool>)
    ensures
        r == spec_parse_bool(s@),
{
    let l = to_ascii_lower(s);
    if chars_eq_str(&l, "1") || chars_eq_str(&l, "true") || chars_eq_str(&l, "on")
        || chars_eq_str(&l, "yes") {
        Some(true)
    } else if chars_eq_str(&l, "0") || chars_eq_str(&l, "false") || chars_eq_str(&l, "off")
        || chars_eq_str(&l, "no") {
        Some(false)
    } else {
        None
    }
}

proof fn lemma_views_drop_first(w: Seq<Vec<char>>)
    requires
        w.len() > 0,
    ensures
        views(w.remove(0)) == views(w).drop_first(),
        views(w)[0] == w[0]@,
{
    assert(views(w.remove(0)) =~= views(w).drop_first());
}

impl DebugRegistry {
    /// An empty registry.
    pub fn new() -> (r: Self)
        ensures
            r@ == Seq::<CVarView>::empty(),
            registry_wf(r@),
    {
        let r = DebugRegistry { cvars: Vec::new() };
        assert(r@ =~= Seq::<CVarView>::empty());
        r
    }

    /// Registers (or resets to) the default cvars.
    pub fn register_defaults(&mut self)
        ensures
            final(self)@ == default_cvars(),
            registry_wf(final(self)@),
    {
        self.cvars = vec![
            CVar {
                name: "cam.fly",
                value: CVarValue::Bool(false),
                help: "client: debug flycam (view-only unmount; F8)",
            },
            CVar {
                name: "draw.grid",
                value: CVarValue::Bool(true),
                help: "client: world-space debug grid on y = 0",
            },
            CVar {
                name: "draw.lineup",
                value: CVarValue::Bool(false),
                help: "client: blaster lineup (armed Kenney row; grip/import check)",
            },
            CVar {
                name: "draw.tracers",
                value: CVarValue::Bool(false),
                help: "client: debug projectile tracers (038)",
            },
            CVar {
                name: "hud.look",
                value: CVarValue::Bool(true),
                help: "client: look isolation (dx aY pre/post/end why) on top banner",
            },
            CVar { name: "hud.net", value: CVarValue::Bool(true), help: "client: top FPS / tick banner" },
            CVar {
                name: "hud.residual",
                value: CVarValue::Bool(true),
                help: "client: fire residual fold / fall on top banner",
            },
        ];
        assert(self@ =~= default_cvars());
    }

    /// Position of the cvar named `name`.
    fn find_index(&self, name: &Vec<char>) -> (r: Option<usize>)
        ensures
            r matches Some(i) ==> find(self@, name@) == Some(i as int) && i < self.cvars@.len()
                && self@.len() == self.cvars@.len() && self@[i as int] == self.cvars@[i as int].model(),
            r is None ==> find(self@, name@) is None,
    {
        proof {
            lemma_find_from_bounds(self@, name@, 0);
        }
        let n = self.cvars.len();
        let mut i: usize = 0;
        while i < n
            invariant
                n == self.cvars@.len(),
                i <= n,
                find(self@, name@) == find_from(self@, name@, i as int),
            decreases n - i,
        {
            if chars_eq_str(name, self.cvars[i].name) {
                return Some(i);
            }
            i = i + 1;
        }
        None
    }

    /// The value of cvar `name`, if it exists.
    pub fn get_bool(&self, name: &str) -> (r: Option<bool>)
        ensures
            r == lookup(self@, name@),
    {
        let key = chars_of(name);
        self.get_value(&key)
    }

    fn get_value(&self, name: &Vec<char>) -> (r: Option<bool>)
        ensures
            r == lookup(self@, name@),
    {
        match self.find_index(name) {
            Some(i) => match self.cvars[i].value {
                CVarValue::Bool(v) => Some(v),
            },
            None => None,
        }
    }

    /// Sets cvar `name` when it exists.
    fn set_bool(&mut self, name: &Vec<char>, value: bool)
        ensures
            final(self)@ == set_value(old(self)@, name@, value),
    {
        if let Some(i) = self.find_index(name) {
            let mut c = self.cvars[i];
            c.value = CVarValue::Bool(value);
            self.cvars.set(i, c);
            assert(self@ =~= set_value(old(self)@, name@, value));
        }
    }

    /// Parse and run a console line. Returns a human-readable response.
    pub fn execute(&mut self, line: &str) -> (out: String)
        ensures
            (final(self)@, out@) == spec_execute(old(self)@, line@),
    {
        let chars = chars_of(line);
        let mut ws = split_words(&chars);
        if ws.len() == 0 {
            return String::new();
        }
        let ghost w = views(ws@);
        let ghost ws0 = ws@;
        let head = ws.remove(0);
        proof {
            lemma_views_drop_first(ws0);
        }
        let args = ws;
        assert(head@ == w[0]);
        assert(views(args@) == w.drop_first());
        if chars_eq_str(&head, "help") || chars_eq_str(&head, "?") {
            self.cmd_help()
        } else if chars_eq_str(&head, "grid") {
            self.cmd_grid(&args)
        } else if chars_eq_str(&head, "flycam") || chars_eq_str(&head, "fly") {
            self.cmd_flycam(&args)
        } else if chars_eq_str(&head, "lineup") {
            self.cmd_lineup(&args)
        } else if chars_eq_str(&head, "nethud") {
            self.cmd_nethud(&args)
        } else if chars_eq_str(&head, "residualhud") || chars_eq_str(&head, "kickhud") {
            self.cmd_residualhud(&args)
        } else if chars_eq_str(&head, "lookhud") {
            self.cmd_lookhud(&args)
        } else if chars_eq_str(&head, "remount") {
            let key = chars_of("cam.fly");
            self.set_bool(&key, false);
            string_from("cam.fly = 0 (remount)")
        } else if chars_eq_str(&head, "screenshot") || chars_eq_str(&head, "shot") {
            string_from("__REQUEST_SCREENSHOT__")
        } else if chars_eq_str(&head, "mp") {
            self.cmd_mp(&args)
        } else if chars_eq_str(&head, "blaster") {
            self.cmd_blaster(&args)
        } else if self.find_index(&head).is_some() {
            self.cmd_cvar(&head, &args)
        } else {
            let mut s = string_from("unknown: '");
            push_chars(&mut s, &head);
            push_str(&mut s, "'. type 'help'.");
            s
        }
    }

    fn cmd_blaster(&self, args: &Vec<Vec<char>>) -> (out: String)
        ensures
            out@ == blaster_reply(views(args@)),
    {
        if args.len() == 0 {
            return string_from("usage: blaster <a-r>");
        }
        let raw = &args[0];
        assert(raw@ == views(args@)[0]);
        if raw.len() == 1 && 'a' <= raw[0] && raw[0] <= 'r' {
            let mut s = string_from("__REQUEST_BLASTER_");
            push_char(&mut s, raw[0]);
            s
        } else {
            let mut s = string_from("usage: blaster <a-r> (got '");
            push_chars(&mut s, raw);
            push_str(&mut s, "')");
            s
        }
    }

    fn cmd_mp(&self, args: &Vec<Vec<char>>) -> (out: String)
        ensures
            out@ == mp_reply(views(args@)),
    {
        if args.len() == 0 {
            return string_from("__REQUEST_MP_STATUS__");
        }
        let a = &args[0];
        assert(a@ == views(args@)[0]);
        if chars_eq_str(a, "status") {
            string_from("__REQUEST_MP_STATUS__")
        } else if chars_eq_str(a, "join") {
            string_from("__REQUEST_MP_JOIN__")
        } else if chars_eq_str(a, "leave") {
            string_from("__REQUEST_MP_LEAVE__")
        } else {
            let mut s = string_from("usage: mp [join|leave|status] (unknown '");
            push_chars(&mut s, a);
            push_str(&mut s, "')");
            s
        }
    }

    fn cmd_help(&self) -> (out: String)
        ensures
            out@ == help_text(self@),
    {
        let mut s = string_from(
            "commands:\n  help              this list\n  grid [on|off|toggle]  set draw.grid\n  flycam|fly [on|off|toggle]  debug flycam (F8)\n  lineup [on|off|toggle]  blaster lineup (armed characters)\n  nethud [on|off|toggle]  top FPS / tick banner\n  residualhud [on|off|toggle]  fire residual fold / fall\n  lookhud [on|off|toggle]  look isolation: dx aY pre/post/end\n  remount           leave flycam, restore self view\n  screenshot|shot   capture frame (F9)\n  mp join|leave|status  WebTransport shared tick + remotes\n  blaster <a-r>     equip letter on active slot (038; flips if needed)\ncvars (get: name · set: name <value>):",
        );
        let n = self.cvars.len();
        let mut i: usize = 0;
        while i < n
            invariant
                n == self.cvars@.len(),
                n == self@.len(),
                i <= n,
                s@ == help_head() + help_cvar_lines(self@.take(i as int)),
            decreases n - i,
        {
            let c = self.cvars[i];
            push_str(&mut s, "\n  ");
            push_str(&mut s, c.name);
            push_str(&mut s, " = ");
            let v = match c.value {
                CVarValue::Bool(v) => v,
            };
            push_str(&mut s, digit_str(v));
            push_str(&mut s, "  — ");
            push_str(&mut s, c.help);
            proof {
                let t = self@.take(i + 1);
                assert(t.drop_last() =~= self@.take(i as int));
                assert(t.last() == c.model());
            }
            i = i + 1;
        }
        assert(self@.take(n as int) =~= self@);
        s
    }

    fn cmd_grid(&mut self, args: &Vec<Vec<char>>) -> (out: String)
        ensures
            (final(self)@, out@) == bool_toggle(old(self)@, "draw.grid"@, views(args@), "grid"@),
    {
        self.cmd_bool_toggle("draw.grid", args, "grid")
    }

    fn cmd_flycam(&mut self, args: &Vec<Vec<char>>) -> (out: String)
        ensures
            (final(self)@, out@) == bool_toggle(old(self)@, "cam.fly"@, views(args@), "flycam"@),
    {
        self.cmd_bool_toggle("cam.fly", args, "flycam")
    }

    fn cmd_lineup(&mut self, args: &Vec<Vec<char>>) -> (out: String)
        ensures
            (final(self)@, out@) == bool_toggle(
                old(self)@,
                "draw.lineup"@,
                views(args@),
                "lineup"@,
            ),
    {
        self.cmd_bool_toggle("draw.lineup", args, "lineup")
    }

    fn cmd_nethud(&mut self, args: &Vec<Vec<char>>) -> (out: String)
        ensures
            (final(self)@, out@) == bool_toggle(old(self)@, "hud.net"@, views(args@), "nethud"@),
    {
        self.cmd_bool_toggle("hud.net", args, "nethud")
    }

    fn cmd_residualhud(&mut self, args: &Vec<Vec<char>>) -> (out: String)
        ensures
            (final(self)@, out@) == bool_toggle(
                old(self)@,
                "hud.residual"@,
                views(args@),
                "residualhud"@,
            ),
    {
        self.cmd_bool_toggle("hud.residual", args, "residualhud")
    }

    fn cmd_lookhud(&mut self, args: &Vec<Vec<char>>) -> (out: String)
        ensures
            (final(self)@, out@) == bool_toggle(old(self)@, "hud.look"@, views(args@), "lookhud"@),
    {
        self.cmd_bool_toggle("hud.look", args, "lookhud")
    }

    fn cmd_bool_toggle(&mut self, cvar: &str, args: &Vec<Vec<char>>, usage_name: &str) -> (out:
        String)
        ensures
            (final(self)@, out@) == bool_toggle(old(self)@, cvar@, views(args@), usage_name@),
    {
        let key = chars_of(cvar);
        if args.len() == 0 || chars_eq_str(&args[0], "toggle") {
            let cur = match self.get_value(&key) {
                Some(b) => b,
                None => false,
            };
            self.set_bool(&key, !cur);
            let mut s = string_from(cvar);
            push_str(&mut s, " = ");
            push_str(&mut s, digit_str(!cur));
            s
        } else {
            assert(args@[0]@ == views(args@)[0]);
            match parse_bool(&args[0]) {
                Some(b) => {
                    self.set_bool(&key, b);
                    let mut s = string_from(cvar);
                    push_str(&mut s, " = ");
                    push_str(&mut s, digit_str(b));
                    s
                },
                None => {
                    let mut s = string_from("usage: ");
                    push_str(&mut s, usage_name);
                    push_str(&mut s, " [on|off|toggle]");
                    s
                },
            }
        }
    }

    fn cmd_cvar(&mut self, name: &Vec<char>, args: &Vec<Vec<char>>) -> (out: String)
        ensures
            (final(self)@, out@) == cvar_cmd(old(self)@, name@, views(args@)),
    {
        if args.len() == 0 {
            return self.format_cvar(name);
        }
        assert(args@[0]@ == views(args@)[0]);
        match parse_bool(&args[0]) {
            Some(b) => {
                self.set_bool(name, b);
                let mut s = string_of(name);
                push_str(&mut s, " = ");
                push_str(&mut s, digit_str(b));
                s
            },
            None => {
                let mut s = string_from("usage: ");
                push_chars(&mut s, name);
                push_str(&mut s, " <0|1|on|off>");
                s
            },
        }
    }

    fn format_cvar(&self, name: &Vec<char>) -> (out: String)
        ensures
            out@ == spec_format_cvar(self@, name@),
    {
        match self.find_index(name) {
            Some(i) => {
                let c = self.cvars[i];
                let v = match c.value {
                    CVarValue::Bool(v) => v,
                };
                let mut s = string_of(name);
                push_str(&mut s, " = ");
                push_str(&mut s, digit_str(v));
                push_str(&mut s, "  — ");
                push_str(&mut s, c.help);
                s
            },
            None => {
                let mut s = string_from("unknown cvar: ");
                push_chars(&mut s, name);
                s
            },
        }
    }
}

} // verus!
