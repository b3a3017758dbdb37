//! In-engine debug subsystem: commands, cvars and the console shell, and the
//! requests they raise for the host.

pub mod registry;
pub mod shell;

use vstd::prelude::*;

use crate::text::{chars_of, chars_starts_with, chars_eq_str, string_from};
use registry::{lookup, spec_execute, CVarView, DebugRegistry, registry_wf};
use shell::{shell_push_log, DebugShell, ShellModel};

verus! {

/// Something the console asks the host to do.
#[derive(Debug, Clone, Copy, PartialEq, Eq, Structural)]
pub enum DebugHostRequest {
    Screenshot,
    MpJoin,
    MpLeave,
    MpStatus,
    Blaster(u8),
}

pub struct DebugTools {
    pub registry: DebugRegistry,
    pub shell: DebugShell,
    toggle_requested: bool,
    screenshot_requested: bool,
    host_requests: Vec<DebugHostRequest>,
}

/// The abstract state of the debug tools.
pub struct ToolsModel {
    pub registry: Seq<CVarView>,
    pub shell: ShellModel,
    pub toggle_requested: bool,
    pub screenshot_requested: bool,
    pub host_requests: Seq<DebugHostRequest>,
}

impl View for DebugTools {
    type V = ToolsModel;

    closed spec fn view(&self) -> ToolsModel {
        ToolsModel {
            registry: self.registry@,
            shell: self.shell@,
            toggle_requested: self.toggle_requested,
            screenshot_requested: self.screenshot_requested,
            host_requests: self.host_requests@,
        }
    }
}

/// The prefix of a blaster request reply.
pub open spec fn blaster_prefix() -> Seq<char> {
    "__REQUEST_BLASTER_"@
}

/// The low byte of a character's code point (what `c as u8` keeps).
pub open spec fn low_byte(c: char) -> u8 {
    ((c as u32) % 256) as u8
}

/// How a registry reply is routed: the host request it raises, the message
/// shown instead, and whether it queues a screenshot.
pub open spec fn route(reply: Seq<char>) -> (Option<DebugHostRequest>, Seq<char>, bool) {
    if reply == "__REQUEST_SCREENSHOT__"@ {
        (Some(DebugHostRequest::Screenshot), "screenshot queued"@, true)
    } else if reply == "__REQUEST_MP_JOIN__"@ {
        (Some(DebugHostRequest::MpJoin), "mp: join requested"@, false)
    } else if reply == "__REQUEST_MP_LEAVE__"@ {
        (Some(DebugHostRequest::MpLeave), "mp: leave requested"@, false)
    } else if reply == "__REQUEST_MP_STATUS__"@ {
        (Some(DebugHostRequest::MpStatus), seq![], false)
    } else if blaster_prefix().len() <= reply.len() && reply.take(blaster_prefix().len() as int)
        == blaster_prefix() {
        let letter: u8 = if reply.len() > blaster_prefix().len() {
            low_byte(reply[blaster_prefix().len() as int])
        } else {
            0
        };
        if 97 <= letter <= 114 {
            (Some(DebugHostRequest::Blaster(letter)), seq![], false)
        } else {
            (None, "usage: blaster <a-r>"@, false)
        }
    } else {
        (None, reply, false)
    }
}

/// The shell after showing `msg` (nothing is logged for an empty message).
pub open spec fn log_if_any(s: ShellModel, msg: Seq<char>) -> ShellModel {
    if msg.len() > 0 {
        shell_push_log(s, msg)
    } else {
        s
    }
}

/// What a console line does to the debug tools, and its reply.
/// `mouse_sens_reply` is the mouse-sensitivity command's reply when the line
/// is such a command.
pub open spec fn tools_execute(m: ToolsModel, line: Seq<char>, mouse_sens_reply: Option<Seq<char>>) -> (
    ToolsModel,
    Seq<char>,
) {
    match mouse_sens_reply {
        Some(out) => (ToolsModel { shell: log_if_any(m.shell, out), ..m }, out),
        None => {
            let (reg, reply) = spec_execute(m.registry, line);
            let (req, msg, shot) = route(reply);
            let requests = match req {
                Some(r) => m.host_requests.push(r),
                None => m.host_requests,
            };
            (
                ToolsModel {
                    registry: reg,
                    shell: log_if_any(m.shell, msg),
                    host_requests: requests,
                    screenshot_requested: m.screenshot_requested || shot,
                    ..m
                },
                msg,
            )
        },
    }
}

impl DebugTools {
    pub fn new() -> (r: Self)
        ensures
            r@.registry == registry::default_cvars(),
            r@.shell == DebugShell::new_model(),
            !r@.toggle_requested,
            !r@.screenshot_requested,
            r@.host_requests == Seq::<DebugHostRequest>::empty(),
    {
        let mut registry = DebugRegistry::new();
        registry.register_defaults();
        Self {
            registry,
            shell: DebugShell::new(),
            toggle_requested: false,
            screenshot_requested: false,
            host_requests: Vec::new(),
        }
    }

    /// Runs a console line. `mouse_sens_reply` is the reply of the
    /// mouse-sensitivity command when `line` is one (the caller owns that
    /// float setting); otherwise the registry runs the line and request
    /// replies are turned into host requests. Non-empty replies are logged.
    pub fn execute(&mut self, line: &str, mouse_sens_reply: Option<String>) -> (out: String)
        ensures
            (final(self)@, out@) == tools_execute(
                old(self)@,
                line@,
                match mouse_sens_reply {
                    Some(s) => Some(s@),
                    None => None,
                },
            ),
    {
        if let Some(out) = mouse_sens_reply {
            if !out.as_str().is_empty() {
                self.shell.push_log(out.as_str());
            }
            return out;
        }
        let reply = self.registry.execute(line);
        let rc = chars_of(reply.as_str());
        let msg: String = if chars_eq_str(&rc, "__REQUEST_SCREENSHOT__") {
            self.host_requests.push(DebugHostRequest::Screenshot);
            self.request_screenshot();
            string_from("screenshot queued")
        } else if chars_eq_str(&rc, "__REQUEST_MP_JOIN__") {
            self.host_requests.push(DebugHostRequest::MpJoin);
            string_from("mp: join requested")
        } else if chars_eq_str(&rc, "__REQUEST_MP_LEAVE__") {
            self.host_requests.push(DebugHostRequest::MpLeave);
            string_from("mp: leave requested")
        } else if chars_eq_str(&rc, "__REQUEST_MP_STATUS__") {
            self.host_requests.push(DebugHostRequest::MpStatus);
            String::new()
        } else if chars_starts_with(&rc, "__REQUEST_BLASTER_") {
            let p = chars_of("__REQUEST_BLASTER_");
            let letter: u8 = if rc.len() > p.len() {
                (rc[p.len()] as u32 % 256) as u8
            } else {
                0
            };
            if 97 <= letter && letter <= 114 {
                self.host_requests.push(DebugHostRequest::Blaster(letter));
                String::new()
            } else {
                string_from("usage: blaster <a-r>")
            }
        } else {
            reply
        };
        if !msg.as_str().is_empty() {
            self.shell.push_log(msg.as_str());
        }
        msg
    }

    /// The host requests raised since the last call, oldest first.
    pub fn take_host_requests(&mut self) -> (r: Vec<DebugHostRequest>)
        ensures
            r@ == old(self)@.host_requests,
            final(self)@ == (ToolsModel { host_requests: seq![], ..old(self)@ }),
    {
        let mut r: Vec<DebugHostRequest> = Vec::new();
        std::mem::swap(&mut r, &mut self.host_requests);
        assert(self@.host_requests =~= Seq::<DebugHostRequest>::empty());
        r
    }

    /// Queues a frame capture.
    pub fn request_screenshot(&mut self)
        ensures
            final(self)@ == (ToolsModel { screenshot_requested: true, ..old(self)@ }),
    {
        self.screenshot_requested = true;
    }

    /// Whether a capture was queued since the last call.
    pub fn take_screenshot_request(&mut self) -> (r: bool)
        ensures
            r == old(self)@.screenshot_requested,
            final(self)@ == (ToolsModel { screenshot_requested: false, ..old(self)@ }),
    {
        let v = self.screenshot_requested;
        self.screenshot_requested = false;
        v
    }

    pub fn draw_grid(&self) -> (r: bool)
        ensures
            r == lookup(self@.registry, "draw.grid"@).unwrap_or(false),
    {
        self.registry.get_bool("draw.grid").unwrap_or(false)
    }

    pub fn draw_lineup(&self) -> (r: bool)
        ensures
            r == lookup(self@.registry, "draw.lineup"@).unwrap_or(false),
    {
        self.registry.get_bool("draw.lineup").unwrap_or(false)
    }

    pub fn net_hud(&self) -> (r: bool)
        ensures
            r == lookup(self@.registry, "hud.net"@).unwrap_or(true),
    {
        self.registry.get_bool("hud.net").unwrap_or(true)
    }

    pub fn residual_hud(&self) -> (r: bool)
        ensures
            r == lookup(self@.registry, "hud.residual"@).unwrap_or(true),
    {
        self.registry.get_bool("hud.residual").unwrap_or(true)
    }

    pub fn draw_tracers(&self) -> (r: bool)
        ensures
            r == lookup(self@.registry, "draw.tracers"@).unwrap_or(false),
    {
        self.registry.get_bool("draw.tracers").unwrap_or(false)
    }

    pub fn flycam_wanted(&self) -> (r: bool)
        ensures
            r == lookup(self@.registry, "cam.fly"@).unwrap_or(false),
    {
        self.registry.get_bool("cam.fly").unwrap_or(false)
    }

    /// Flips `cam.fly` (the reply is dropped).
    pub fn toggle_flycam_wanted(&mut self)
        ensures
            final(self)@ == (ToolsModel {
                registry: spec_execute(old(self)@.registry, "flycam toggle"@).0,
                ..old(self)@
            }),
    {
        let _ = self.registry.execute("flycam toggle");
    }

    pub fn is_open(&self) -> (r: bool)
        ensures
            r == self@.shell.open,
    {
        self.shell.is_open()
    }

    /// Asks for the console to open or close at the next `apply_toggle`.
    pub fn request_toggle(&mut self)
        ensures
            final(self)@ == (ToolsModel { toggle_requested: true, ..old(self)@ }),
    {
        self.toggle_requested = true;
    }

    /// Opens or closes the console if asked to; opening focuses the input.
    pub fn apply_toggle(&mut self)
        ensures
            old(self)@.toggle_requested ==> final(self)@ == (ToolsModel {
                toggle_requested: false,
                shell: ShellModel {
                    open: !old(self)@.shell.open,
                    focus_input: if !old(self)@.shell.open {
                        true
                    } else {
                        old(self)@.shell.focus_input
                    },
                    ..old(self)@.shell
                },
                ..old(self)@
            }),
            !old(self)@.toggle_requested ==> final(self)@ == old(self)@,
    {
        if self.toggle_requested {
            self.toggle_requested = false;
            let open = self.shell.is_open();
            self.shell.set_open(!open);
        }
    }
}

} // verus!
