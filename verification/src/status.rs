//! What the engine tells its user about a session.

use crate::numbers::{decimal, to_decimal};
use crate::text::{joined, joined3};
use vstd::prelude::*;
use vstd::string::*;

verus! {

/// A status transition of a session.
#[derive(Debug, Clone)]
pub enum EngineStatus {
    Connecting { name: String },
    Streaming { name: String },
    /// Connected and healthy, but the capture has produced no real (non-zero)
    /// audio for a few seconds: usually nothing is playing on this PC, the most
    /// common cause of no sound, and one that the user can fix.
    StreamingSilent { name: String },
    /// The session is up but something needs the user's attention, such as a
    /// receiver whose clock-sync queries never arrive.
    Warning { name: String, message: String },
    Reconnecting { name: String, attempt: u32 },
    Failed(String),
    Stopped,
}

/// A status, with its texts as characters.
pub enum StatusView {
    Connecting(Seq<char>),
    Streaming(Seq<char>),
    StreamingSilent(Seq<char>),
    Warning(Seq<char>, Seq<char>),
    Reconnecting(Seq<char>, u32),
    Failed(Seq<char>),
    Stopped,
}

impl View for EngineStatus {
    type V = StatusView;

    open spec fn view(&self) -> StatusView {
        match self {
            EngineStatus::Connecting { name } => StatusView::Connecting(name@),
            EngineStatus::Streaming { name } => StatusView::Streaming(name@),
            EngineStatus::StreamingSilent { name } => StatusView::StreamingSilent(name@),
            EngineStatus::Warning { name, message } => StatusView::Warning(name@, message@),
            EngineStatus::Reconnecting { name, attempt } => StatusView::Reconnecting(
                name@,
                *attempt,
            ),
            EngineStatus::Failed(e) => StatusView::Failed(e@),
            EngineStatus::Stopped => StatusView::Stopped,
        }
    }
}

impl StatusView {
    /// No status follows this one.
    pub open spec fn is_terminal(self) -> bool {
        self is Failed || self is Stopped
    }
}

/// The view of a status that may not be there.
pub open spec fn status_view(s: Option<EngineStatus>) -> Option<StatusView> {
    match s {
        Some(st) => Some(st@),
        None => None,
    }
}

/// What the command line does after it has told of a status.
#[derive(Debug, Clone, Copy, PartialEq, Eq, Structural)]
pub enum CliNext {
    /// Wait for the next status.
    Continue,
    /// Exit with a failure.
    Fail,
    /// The session is over.
    Done,
}

/// How the command line tells of a status.
#[derive(Debug)]
pub struct CliReport {
    pub line: Option<String>,
    /// The line goes to the error output.
    pub is_error: bool,
    pub next: CliNext,
}

/// The line that the command line prints for a status.
pub open spec fn cli_line(s: StatusView) -> Option<Seq<char>> {
    match s {
        StatusView::Connecting(name) => Some("connecting to "@ + name + "…"@),
        StatusView::Streaming(name) => Some("✓ streaming to "@ + name + " — Ctrl-C to stop"@),
        StatusView::StreamingSilent(name) => Some(
            "· connected to "@ + name + " — nothing is playing on this PC"@,
        ),
        StatusView::Warning(name, message) => Some("⚠ "@ + name + ": "@ + message),
        StatusView::Reconnecting(name, attempt) => Some(
            "↻ reconnecting to "@ + name + " (attempt "@ + decimal(attempt as nat) + ")…"@,
        ),
        StatusView::Failed(e) => Some("✗ "@ + e),
        StatusView::Stopped => None,
    }
}

/// How the command line tells of a status: warnings and failures go to the
/// error output, a failure ends the program, and `Stopped` ends the report.
pub fn cli_report(s: &EngineStatus) -> (r: CliReport)
    ensures
        match cli_line(s@) {
            Some(line) => r.line matches Some(l) && l@ == line,
            None => r.line is None,
        },
        r.is_error == (s is Warning || s is Failed),
        r.next == (if s is Failed {
            CliNext::Fail
        } else if s is Stopped {
            CliNext::Done
        } else {
            CliNext::Continue
        }),
{
    match s {
        EngineStatus::Connecting { name } => CliReport {
            line: Some(joined3("connecting to ", name.as_str(), "…")),
            is_error: false,
            next: CliNext::Continue,
        },
        EngineStatus::Streaming { name } => CliReport {
            line: Some(joined3("✓ streaming to ", name.as_str(), " — Ctrl-C to stop")),
            is_error: false,
            next: CliNext::Continue,
        },
        EngineStatus::StreamingSilent { name } => CliReport {
            line: Some(
                joined3("· connected to ", name.as_str(), " — nothing is playing on this PC"),
            ),
            is_error: false,
            next: CliNext::Continue,
        },
        EngineStatus::Warning { name, message } => {
            let mut line: String = joined3("⚠ ", name.as_str(), ": ");
            line.append(message.as_str());
            CliReport { line: Some(line), is_error: true, next: CliNext::Continue }
        },
        EngineStatus::Reconnecting { name, attempt } => {
            let mut line: String = joined3("↻ reconnecting to ", name.as_str(), " (attempt ");
            line.append(to_decimal(*attempt as u64).as_str());
            line.append(")…");
            CliReport { line: Some(line), is_error: false, next: CliNext::Continue }
        },
        EngineStatus::Failed(e) => CliReport {
            line: Some(joined("✗ ", e.as_str())),
            is_error: true,
            next: CliNext::Fail,
        },
        EngineStatus::Stopped => CliReport { line: None, is_error: false, next: CliNext::Done },
    }
}

/// The command line goes on after a status exactly when more can follow it.
pub proof fn law_report_ends_with_the_session(s: EngineStatus, r: CliReport)
    requires
        r.next == (if s is Failed {
            CliNext::Fail
        } else if s is Stopped {
            CliNext::Done
        } else {
            CliNext::Continue
        }),
    ensures
        r.next == CliNext::Continue <==> !s@.is_terminal(),
{
}

} // verus!
