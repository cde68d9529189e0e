//! The terminal side: which emulator events require a redraw, and how the
//! external terminal backends are launched.

use vstd::prelude::*;
use std::sync::Arc;
use std::sync::atomic::AtomicBool;

verus! {

/// The events the terminal emulator reports, as far as redrawing cares.
#[derive(Clone, Copy, Debug, PartialEq, Eq, Structural)]
pub enum TermEventKind {
    Wakeup,
    Bell,
    ResetTitle,
    Exit,
    Other,
}

/// New output, a bell, a title reset and the shell's exit all need a redraw.
pub open spec fn marks_dirty(kind: TermEventKind) -> bool {
    match kind {
        TermEventKind::Wakeup | TermEventKind::Bell | TermEventKind::ResetTitle
        | TermEventKind::Exit => true,
        TermEventKind::Other => false,
    }
}

/// Receives the terminal emulator's events and raises the shared "needs
/// redraw" flag.
#[derive(Clone)]
pub struct TermEventHandler {
    pub dirty: Arc<AtomicBool>,
}

impl TermEventHandler {
    /// Handles one event; returns whether it raised the redraw flag.
    pub fn send_event(&self, kind: TermEventKind) -> (marked: bool)
        ensures
            marked == marks_dirty(kind),
    {
        match kind {
            TermEventKind::Wakeup | TermEventKind::Bell | TermEventKind::ResetTitle
            | TermEventKind::Exit => {
                self.dirty.store(true, std::sync::atomic::Ordering::Relaxed);
                true
            },
            TermEventKind::Other => false,
        }
    }
}

/// The external terminal programs that can host the shell.
#[derive(Clone, Copy, Debug, PartialEq, Eq, Structural)]
pub enum TerminalBackend {
    Foot,
    Kitty,
}

/// A program and its arguments.
pub struct LaunchCommand {
    pub program: &'static str,
    pub args: Vec<&'static str>,
}

/// The views of a list of string slices.
pub open spec fn str_views(v: Seq<&'static str>) -> Seq<Seq<char>> {
    v.map_values(|s: &'static str| s@)
}

/// The command that starts `backend` with the application id / window class
/// "termix", running zellij.
pub fn launch_command(backend: TerminalBackend) -> (c: LaunchCommand)
    ensures
        c.program@ == (match backend {
            TerminalBackend::Foot => "foot"@,
            TerminalBackend::Kitty => "kitty"@,
        }),
        str_views(c.args@) == seq![
            match backend {
                TerminalBackend::Foot => "--app-id"@,
                TerminalBackend::Kitty => "--class"@,
            },
            "termix"@,
            "--"@,
            "zellij"@,
        ],
{
    match backend {
        TerminalBackend::Foot => {
            let args = vec!["--app-id", "termix", "--", "zellij"];
            assert(str_views(args@) =~= seq!["--app-id"@, "termix"@, "--"@, "zellij"@]);
            LaunchCommand { program: "foot", args }
        },
        TerminalBackend::Kitty => {
            let args = vec!["--class", "termix", "--", "zellij"];
            assert(str_views(args@) =~= seq!["--class"@, "termix"@, "--"@, "zellij"@]);
            LaunchCommand { program: "kitty", args }
        },
    }
}

} // verus!
