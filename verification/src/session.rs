//! The edit-session protocol between the viewer and the process that owns
//! the design: session actions (save or discard), their progress phases and
//! results, command identifiers, and when a new edit may start.

use vstd::prelude::*;
use crate::text::{push_str, trim, str_chars, trim_chars, string_from_chars};
use std::time::Duration;

verus! {

/// What a session action does with the pending edits.
#[derive(Clone, Copy, Debug, PartialEq, Eq, Structural)]
pub enum SessionActionKind {
    Save,
    Discard,
}

pub open spec fn action_label(kind: SessionActionKind) -> Seq<char> {
    match kind {
        SessionActionKind::Save => "save"@,
        SessionActionKind::Discard => "discard"@,
    }
}

impl SessionActionKind {
    /// `save` or `discard`, the protocol's name for the action.
    pub fn label(self) -> (r: &'static str)
        ensures
            r@ == action_label(self),
    {
        match self {
            SessionActionKind::Save => "save",
            SessionActionKind::Discard => "discard",
        }
    }
}

/// The phases a session action reports while it runs.
#[derive(Clone, Copy, Debug, PartialEq, Eq, Structural)]
pub enum SessionActionProgressPhase {
    Queued,
    Saving,
    Discarding,
    VerifyingArtifacts,
    RefreshingLayoutImage,
    Published,
    ReloadingGeometry,
    Completed,
    Failed,
}

pub open spec fn phase_label(phase: SessionActionProgressPhase) -> Seq<char> {
    match phase {
        SessionActionProgressPhase::Queued => "Queued"@,
        SessionActionProgressPhase::Saving => "Saving in ECC"@,
        SessionActionProgressPhase::Discarding => "Discarding edits"@,
        SessionActionProgressPhase::VerifyingArtifacts => "Verifying artifacts"@,
        SessionActionProgressPhase::RefreshingLayoutImage => "Refreshing layout image"@,
        SessionActionProgressPhase::Published => "Published"@,
        SessionActionProgressPhase::ReloadingGeometry => "Reloading geometry"@,
        SessionActionProgressPhase::Completed => "Completed"@,
        SessionActionProgressPhase::Failed => "Failed"@,
    }
}

impl SessionActionProgressPhase {
    /// The text shown for the phase.
    pub fn label(self) -> (r: &'static str)
        ensures
            r@ == phase_label(self),
    {
        match self {
            SessionActionProgressPhase::Queued => "Queued",
            SessionActionProgressPhase::Saving => "Saving in ECC",
            SessionActionProgressPhase::Discarding => "Discarding edits",
            SessionActionProgressPhase::VerifyingArtifacts => "Verifying artifacts",
            SessionActionProgressPhase::RefreshingLayoutImage => "Refreshing layout image",
            SessionActionProgressPhase::Published => "Published",
            SessionActionProgressPhase::ReloadingGeometry => "Reloading geometry",
            SessionActionProgressPhase::Completed => "Completed",
            SessionActionProgressPhase::Failed => "Failed",
        }
    }

    /// Whether the action has ended: completed or failed.
    pub fn is_terminal(self) -> (r: bool)
        ensures
            r == (self == SessionActionProgressPhase::Completed || self
                == SessionActionProgressPhase::Failed),
    {
        match self {
            SessionActionProgressPhase::Completed | SessionActionProgressPhase::Failed => true,
            _ => false,
        }
    }
}

/// A progress report of a running session action.
pub struct SessionActionProgress {
    pub command_id: u64,
    pub action: SessionActionKind,
    pub phase: SessionActionProgressPhase,
    pub percent: u8,
    pub message: String,
}

impl SessionActionProgress {
    /// A progress report with the given fields.
    pub fn new(
        action: SessionActionKind,
        command_id: u64,
        phase: SessionActionProgressPhase,
        percent: u8,
        message: String,
    ) -> (p: Self)
        ensures
            p.action == action,
            p.command_id == command_id,
            p.phase == phase,
            p.percent == percent,
            p.message@ == message@,
    {
        SessionActionProgress { command_id, action, phase, percent, message }
    }
}

/// The answer to a session action command.
pub struct SessionActionResult {
    pub command_id: u64,
    pub action: SessionActionKind,
    pub accepted: bool,
    pub geometry_manifest_path: Option<String>,
    pub message: Option<String>,
}

/// `<action> completed` or `<action> rejected`, followed by `: <detail>`
/// when the result carries a message that is not blank.
pub open spec fn result_message(
    action: SessionActionKind,
    accepted: bool,
    message: Option<Seq<char>>,
) -> Seq<char> {
    let detail = match message {
        Some(m) => trim(m),
        None => Seq::empty(),
    };
    let outcome = if accepted {
        "completed"@
    } else {
        "rejected"@
    };
    if detail.len() == 0 {
        action_label(action) + " "@ + outcome
    } else {
        action_label(action) + " "@ + outcome + ": "@ + detail
    }
}

/// The status line for a session action result (see `result_message`).
pub fn session_action_result_message(result: &SessionActionResult) -> (r: String)
    ensures
        r@ == result_message(
            result.action,
            result.accepted,
            match result.message {
                Some(m) => Some(m@),
                None => None,
            },
        ),
{
    let detail: Vec<char> = match &result.message {
        Some(m) => trim_chars(&str_chars(m.as_str())),
        None => Vec::new(),
    };
    let mut r = String::new();
    push_str(&mut r, result.action.label());
    push_str(&mut r, " ");
    if result.accepted {
        push_str(&mut r, "completed");
    } else {
        push_str(&mut r, "rejected");
    }
    if detail.len() > 0 {
        push_str(&mut r, ": ");
        let d = string_from_chars(&detail);
        push_str(&mut r, d.as_str());
    }
    r
}

/// The largest integer that JavaScript numbers hold exactly.
pub const MAX_JAVASCRIPT_SAFE_INTEGER: u64 = 9_007_199_254_740_991;

/// Hands out the next command identifier: the counter's value, after which
/// the counter moves up by one (staying at its maximum once there).
pub fn next_native_command_id(counter: &mut u32) -> (id: u64)
    ensures
        id == *old(counter) as u64,
        id <= MAX_JAVASCRIPT_SAFE_INTEGER,
        *final(counter) == if *old(counter) == u32::MAX {
            u32::MAX
        } else {
            (*old(counter) + 1) as u32
        },
{
    let command_id = *counter as u64;
    if *counter < u32::MAX {
        *counter = *counter + 1;
    }
    command_id
}

/// A new edit command may start only when no draft, pending edit or
/// pending session action exists.
pub fn can_start_edit_command(
    has_draft: bool,
    has_pending_edit: bool,
    has_pending_session_action: bool,
) -> (r: bool)
    ensures
        r == (!has_draft && !has_pending_edit && !has_pending_session_action),
{
    !has_draft && !has_pending_edit && !has_pending_session_action
}

/// How often, in milliseconds, the viewer repaints to poll for the result
/// of a pending command.
pub const EDIT_POLL_INTERVAL_MS: u64 = 100;

/// The value `Duration::from_millis` gives for a count of milliseconds.
pub uninterp spec fn duration_from_millis(ms: u64) -> Duration;

/// `Duration::from_millis`: the duration of `ms` milliseconds, which
/// depends on `ms` alone.
#[verifier::external_body]
fn millis(ms: u64) -> (d: Duration)
    ensures
        d == duration_from_millis(ms),
{
    Duration::from_millis(ms)
}

/// The repaint interval while a command is pending: every
/// `EDIT_POLL_INTERVAL_MS` milliseconds; none when nothing is pending.
pub fn edit_poll_repaint_interval(has_pending_command: bool) -> (interval: Option<Duration>)
    ensures
        interval == if has_pending_command {
            Some(duration_from_millis(EDIT_POLL_INTERVAL_MS))
        } else {
            None
        },
{
    if has_pending_command {
        Some(millis(EDIT_POLL_INTERVAL_MS))
    } else {
        None
    }
}

} // verus!
