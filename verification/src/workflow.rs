//! The viewer's side of the edit-session protocol as a state machine.
//!
//! The viewer drags an instance into a draft, sends the draft as an edit
//! command, waits for the result and reloads the geometry; it asks for a
//! session action (save or discard), follows its progress reports, and
//! reloads the published geometry when the action was accepted. Files are
//! written and read by the caller; each method here takes what the caller
//! read or the outcome of what it wrote, and decides the next state and
//! what the caller does next.

use vstd::prelude::*;
use crate::edits::{
    EditResultAction, GeometryEditCommand, GeometryEditOp, GeometryEditResult, GeometryEditStatus,
    edit_result_action, edit_status_text, opt_view, reloads_after, with_diagnostic,
};
use crate::geometry::{Rect32, sat_add_i32, translate_rect};
use crate::session::{
    SessionActionKind, SessionActionProgress, SessionActionProgressPhase, SessionActionResult,
    action_label, next_native_command_id, result_message, session_action_result_message,
};
use crate::text::{decimal, push_decimal, push_str, string_from_str};
use crate::selection::{OwnerRef, ShapeKind, ShapeRecord, ShapeState, kind_raw, state_raw};
use crate::visibility::{OwnerType, instance_move_is_allowed, owner_type_of_raw};

verus! {

/// A session action the viewer waits for.
#[derive(Clone, Copy, Debug, PartialEq, Eq, Structural)]
pub struct PendingSessionAction {
    pub action: SessionActionKind,
    pub command_id: u64,
}

/// A dragged instance that has not been sent yet.
pub struct EditDraft {
    pub command_id: u64,
    pub shape_id: u64,
    pub expected_version: u32,
    pub instance_name: Option<String>,
    pub original_bbox: Rect32,
    pub requested_bbox: Rect32,
}

/// The viewer's state in the protocol.
pub struct EditSession {
    /// Edits were applied that no save or discard has settled.
    pub session_dirty: bool,
    pub draft: Option<EditDraft>,
    /// An edit command waits for its result.
    pub pending_edit: bool,
    pub pending_session_action: Option<PendingSessionAction>,
    /// The window closes once the pending session action succeeds.
    pub close_after_session_action: bool,
    pub close_confirmation_visible: bool,
    pub progress: Option<SessionActionProgress>,
    /// The status line of the last step.
    pub last_message: Option<String>,
    pub next_command_counter: u32,
    pub has_command_dir: bool,
    pub has_result_dir: bool,
}

/// A progress report as values.
pub struct ProgressView {
    pub command_id: u64,
    pub action: SessionActionKind,
    pub phase: SessionActionProgressPhase,
    pub percent: u8,
    pub message: Seq<char>,
}

/// A draft as values.
pub struct DraftView {
    pub command_id: u64,
    pub shape_id: u64,
    pub expected_version: u32,
    pub instance_name: Option<Seq<char>>,
    pub original_bbox: Rect32,
    pub requested_bbox: Rect32,
}

/// The protocol state as values.
pub struct SessionView {
    pub session_dirty: bool,
    pub draft: Option<DraftView>,
    pub pending_edit: bool,
    pub pending_session_action: Option<PendingSessionAction>,
    pub close_after_session_action: bool,
    pub close_confirmation_visible: bool,
    pub progress: Option<ProgressView>,
    pub last_message: Option<Seq<char>>,
    pub next_command_counter: u32,
    pub has_command_dir: bool,
    pub has_result_dir: bool,
}

pub open spec fn progress_view(p: SessionActionProgress) -> ProgressView {
    ProgressView {
        command_id: p.command_id,
        action: p.action,
        phase: p.phase,
        percent: p.percent,
        message: p.message@,
    }
}

pub open spec fn draft_view(d: EditDraft) -> DraftView {
    DraftView {
        command_id: d.command_id,
        shape_id: d.shape_id,
        expected_version: d.expected_version,
        instance_name: opt_view(d.instance_name),
        original_bbox: d.original_bbox,
        requested_bbox: d.requested_bbox,
    }
}

impl View for EditSession {
    type V = SessionView;

    open spec fn view(&self) -> SessionView {
        SessionView {
            session_dirty: self.session_dirty,
            draft: match self.draft {
                Some(d) => Some(draft_view(d)),
                None => None,
            },
            pending_edit: self.pending_edit,
            pending_session_action: self.pending_session_action,
            close_after_session_action: self.close_after_session_action,
            close_confirmation_visible: self.close_confirmation_visible,
            progress: match self.progress {
                Some(p) => Some(progress_view(p)),
                None => None,
            },
            last_message: opt_view(self.last_message),
            next_command_counter: self.next_command_counter,
            has_command_dir: self.has_command_dir,
            has_result_dir: self.has_result_dir,
        }
    }
}

/// The counter after handing out an identifier.
pub open spec fn bumped(counter: u32) -> u32 {
    if counter == u32::MAX {
        counter
    } else {
        (counter + 1) as u32
    }
}

/// The state with a new status line.
pub open spec fn with_message(v: SessionView, m: Seq<char>) -> SessionView {
    SessionView { last_message: Some(m), ..v }
}

/// A draft, a pending edit or a pending session action blocks new work.
pub open spec fn busy(v: SessionView) -> bool {
    v.draft is Some || v.pending_edit || v.pending_session_action is Some
}

/// Why a session action cannot be requested now, if it cannot.
pub open spec fn request_refusal(v: SessionView) -> Option<Seq<char>> {
    if !v.session_dirty {
        Some("there are no uncommitted layout edits"@)
    } else if busy(v) {
        Some("wait for the current edit to finish"@)
    } else if !v.has_command_dir {
        Some("edit command directory is missing"@)
    } else if !v.has_result_dir {
        Some("edit result directory is missing"@)
    } else {
        None
    }
}

/// The state after a request: the refusal reported, or an identifier
/// handed out for the command.
pub open spec fn after_request(v: SessionView) -> SessionView {
    match request_refusal(v) {
        Some(m) => with_message(v, m),
        None => SessionView { next_command_counter: bumped(v.next_command_counter), ..v },
    }
}

/// The progress report made by the viewer itself.
pub open spec fn own_progress(
    action: SessionActionKind,
    command_id: u64,
    phase: SessionActionProgressPhase,
    percent: u8,
    message: Seq<char>,
) -> ProgressView {
    ProgressView { command_id, action, phase, percent, message }
}

/// The state once the command file was written (`error` is `None`) or
/// failed to be written.
pub open spec fn after_command_written(
    v: SessionView,
    action: SessionActionKind,
    command_id: u64,
    close_after: bool,
    error: Option<Seq<char>>,
) -> SessionView {
    match error {
        None => SessionView {
            pending_session_action: Some(PendingSessionAction { action, command_id }),
            progress: Some(
                own_progress(
                    action,
                    command_id,
                    SessionActionProgressPhase::Queued,
                    0,
                    action_label(action) + " request queued"@,
                ),
            ),
            close_after_session_action: close_after,
            last_message: Some(action_label(action) + " pending"@),
            ..v
        },
        Some(e) => {
            let m = "failed to request "@ + action_label(action) + ": "@ + e;
            SessionView {
                progress: Some(
                    own_progress(action, command_id, SessionActionProgressPhase::Failed, 100, m),
                ),
                last_message: Some(m),
                ..v
            }
        },
    }
}

/// A report is taken when it is about the pending action and its percent
/// is at most 100; otherwise it is ignored.
pub open spec fn after_progress_report(v: SessionView, p: ProgressView) -> SessionView {
    match v.pending_session_action {
        Some(pa) => if p.action == pa.action && p.command_id == pa.command_id && p.percent <= 100 {
            SessionView { progress: Some(p), ..v }
        } else {
            v
        },
        None => v,
    }
}

/// The pending action failed with the given message: nothing pending, no
/// close, a failed report.
pub open spec fn session_failed(v: SessionView, pa: PendingSessionAction, m: Seq<char>) -> SessionView {
    SessionView {
        pending_session_action: None,
        close_after_session_action: false,
        progress: Some(
            own_progress(pa.action, pa.command_id, SessionActionProgressPhase::Failed, 100, m),
        ),
        last_message: Some(m),
        ..v
    }
}

/// The result answers the pending action: same action and identifier.
pub open spec fn result_matches(r: SessionActionResult, pa: PendingSessionAction) -> bool {
    r.action == pa.action && r.command_id == pa.command_id
}

/// The state after the result file of the pending action was read
/// (`None`: it could not be read or parsed).
pub open spec fn after_session_result(
    v: SessionView,
    pa: PendingSessionAction,
    result: Option<SessionActionResult>,
) -> SessionView {
    match result {
        Some(r) => if !result_matches(r, pa) {
            session_failed(v, pa, "received a mismatched session action result"@)
        } else if !r.accepted {
            session_failed(v, pa, result_message(r.action, r.accepted, opt_view(r.message)))
        } else {
            SessionView {
                pending_session_action: None,
                close_after_session_action: false,
                progress: Some(
                    own_progress(
                        pa.action,
                        pa.command_id,
                        SessionActionProgressPhase::ReloadingGeometry,
                        95,
                        "Reloading published geometry"@,
                    ),
                ),
                ..v
            }
        },
        None => session_failed(v, pa, "failed to read session action result"@),
    }
}

/// An accepted session action whose published geometry is to be
/// reloaded.
pub struct SessionReload {
    pub action: SessionActionKind,
    pub command_id: u64,
    pub close_after: bool,
    pub message: String,
    pub geometry_manifest_path: Option<String>,
}

/// The state once the reload finished (`error` is `None`) or failed.
pub open spec fn after_session_reload(
    v: SessionView,
    action: SessionActionKind,
    command_id: u64,
    message: Seq<char>,
    error: Option<Seq<char>>,
) -> SessionView {
    match error {
        None => SessionView {
            session_dirty: false,
            close_confirmation_visible: false,
            last_message: Some(message),
            progress: Some(
                own_progress(action, command_id, SessionActionProgressPhase::Completed, 100, message),
            ),
            ..v
        },
        Some(e) => {
            let m = action_label(action) + " completed but geometry reload failed: "@ + e;
            SessionView {
                last_message: Some(m),
                progress: Some(
                    own_progress(action, command_id, SessionActionProgressPhase::Failed, 100, m),
                ),
                ..v
            }
        },
    }
}

/// The state after a drag: the draft's requested box is its original box
/// moved by `(dx, dy)`.
pub open spec fn after_drag(v: SessionView, dx: i32, dy: i32) -> SessionView {
    match v.draft {
        Some(d) => SessionView {
            draft: Some(
                DraftView {
                    requested_bbox: Rect32 {
                        lx: sat_add_i32(d.original_bbox.lx, dx),
                        ly: sat_add_i32(d.original_bbox.ly, dy),
                        hx: sat_add_i32(d.original_bbox.hx, dx),
                        hy: sat_add_i32(d.original_bbox.hy, dy),
                    },
                    ..d
                },
            ),
            ..v
        },
        None => v,
    }
}

/// The state after committing: the draft is gone; a missing directory is
/// reported.
pub open spec fn after_commit(v: SessionView) -> SessionView {
    match v.draft {
        None => v,
        Some(d) => {
            let cleared = SessionView { draft: None, ..v };
            if !v.has_command_dir {
                with_message(cleared, "edit command directory is missing"@)
            } else if !v.has_result_dir {
                with_message(cleared, "edit result directory is missing"@)
            } else {
                cleared
            }
        },
    }
}

/// The command a draft becomes: move the shape to the requested box.
pub open spec fn draft_command(d: DraftView) -> GeometryEditCommand {
    GeometryEditCommand {
        command_id: d.command_id,
        shape_id: d.shape_id,
        expected_version: d.expected_version,
        op: GeometryEditOp::MoveShape,
        requested_bbox: d.requested_bbox,
    }
}

/// The state once the edit command file was written or failed to be.
pub open spec fn after_edit_written(v: SessionView, command_id: u64, error: Option<Seq<char>>) -> SessionView {
    match error {
        None => SessionView {
            pending_edit: true,
            last_message: Some("command "@ + decimal(command_id as nat) + " pending"@),
            ..v
        },
        Some(e) => with_message(v, "failed to write edit command: "@ + e),
    }
}

/// An accepted or adjusted edit changed the design.
pub open spec fn edit_applied(status: GeometryEditStatus) -> bool {
    status == GeometryEditStatus::Accepted || status == GeometryEditStatus::AdjustedAccepted
}

/// The state once an edit result is settled with its status line.
pub open spec fn edit_settled(v: SessionView, status: GeometryEditStatus, message: Seq<char>) -> SessionView {
    SessionView {
        session_dirty: v.session_dirty || edit_applied(status),
        last_message: Some(message),
        pending_edit: false,
        ..v
    }
}

/// The status line for an edit result (see `edit_result_action`).
pub open spec fn edit_result_text(r: GeometryEditResult) -> Seq<char> {
    with_diagnostic(
        edit_status_text(r.status, r.shape_id, r.new_version, r.committed_bbox),
        opt_view(r.message),
    )
}

/// The state after the edit result file was read (`None`: unreadable).
pub open spec fn after_edit_result(v: SessionView, result: Option<GeometryEditResult>) -> SessionView {
    match result {
        None => SessionView {
            last_message: Some("failed to read edit result"@),
            pending_edit: false,
            ..v
        },
        Some(r) => if reloads_after(r.status) {
            v
        } else {
            edit_settled(v, r.status, edit_result_text(r))
        },
    }
}

/// The state once the reload after an edit finished or failed.
pub open spec fn after_edit_reload(
    v: SessionView,
    status: GeometryEditStatus,
    message: Seq<char>,
    error: Option<Seq<char>>,
) -> SessionView {
    match error {
        None => edit_settled(v, status, message),
        Some(e) => SessionView {
            last_message: Some("failed to reload geometry: "@ + e),
            pending_edit: false,
            ..v
        },
    }
}

/// What the caller does after a session result.
pub enum SessionResultStep {
    /// The action ended; nothing to reload.
    Finished,
    /// Reload the published geometry, then call `finish_session_reload`.
    Reload(SessionReload),
}

/// What the caller does after an edit result.
pub enum EditResultStep {
    /// The result could not be read; the selection stays.
    Unreadable,
    /// Select the shape; the result is settled.
    Settled { selected_shape_id: Option<u64> },
    /// Select the shape, reload the geometry, then call
    /// `finish_edit_reload` with the status and message.
    Reload {
        selected_shape_id: Option<u64>,
        status: GeometryEditStatus,
        message: String,
        geometry_manifest_path: Option<String>,
    },
}

fn set_message(target: &mut Option<String>, text: &str)
    ensures
        opt_view(*final(target)) == Some(text@),
{
    *target = Some(string_from_str(text));
}

fn failed_progress(action: SessionActionKind, command_id: u64, message: &String) -> (p:
    SessionActionProgress)
    ensures
        progress_view(p) == own_progress(
            action,
            command_id,
            SessionActionProgressPhase::Failed,
            100,
            message@,
        ),
{
    SessionActionProgress::new(
        action,
        command_id,
        SessionActionProgressPhase::Failed,
        100,
        copy_string(message),
    )
}

fn copy_string(s: &String) -> (c: String)
    ensures
        c@ == s@,
{
    string_from_str(s.as_str())
}

/// A shape the pointer may drag: a live rectangle that is shown, owned by
/// an instance bounding box.
pub open spec fn movable(shape: ShapeRecord, shown: bool, owner: Option<&OwnerRef>) -> bool {
    &&& shape.state == state_raw(ShapeState::Alive)
    &&& shape.kind == kind_raw(ShapeKind::Rect)
    &&& shown
    &&& owner matches Some(o) && owner_type_of_raw(o.owner_type) == Some(OwnerType::InstanceBBox)
}

/// A shown live rectangle whose owner is of a type that cannot be moved.
pub open spec fn move_unsupported(shape: ShapeRecord, shown: bool, owner: Option<&OwnerRef>) -> bool {
    &&& shape.state == state_raw(ShapeState::Alive)
    &&& shape.kind == kind_raw(ShapeKind::Rect)
    &&& shown
    &&& owner matches Some(o) && owner_type_of_raw(o.owner_type) != Some(OwnerType::InstanceBBox)
}

impl EditSession {
    /// Asks for a session action. Returns the command identifier to write,
    /// or `None` with the refusal reported (see `request_refusal`).
    pub fn request_session_action(&mut self) -> (command_id: Option<u64>)
        ensures
            final(self)@ == after_request(old(self)@),
            command_id == match request_refusal(old(self)@) {
                Some(_) => None,
                None => Some(old(self).next_command_counter as u64),
            },
    {
        if !self.session_dirty {
            set_message(&mut self.last_message, "there are no uncommitted layout edits");
            return None;
        }
        if self.draft.is_some() || self.pending_edit || self.pending_session_action.is_some() {
            set_message(&mut self.last_message, "wait for the current edit to finish");
            return None;
        }
        if !self.has_command_dir {
            set_message(&mut self.last_message, "edit command directory is missing");
            return None;
        }
        if !self.has_result_dir {
            set_message(&mut self.last_message, "edit result directory is missing");
            return None;
        }
        let id = next_native_command_id(&mut self.next_command_counter);
        Some(id)
    }

    /// Records whether the command file of a requested session action was
    /// written (`error` holds the failure's text).
    pub fn session_command_written(
        &mut self,
        action: SessionActionKind,
        command_id: u64,
        close_after: bool,
        error: Option<String>,
    )
        ensures
            final(self)@ == after_command_written(
                old(self)@,
                action,
                command_id,
                close_after,
                opt_view(error),
            ),
    {
        match error {
            None => {
                let mut queued = String::new();
                push_str(&mut queued, action.label());
                push_str(&mut queued, " request queued");
                let mut pending = String::new();
                push_str(&mut pending, action.label());
                push_str(&mut pending, " pending");
                self.pending_session_action = Some(PendingSessionAction { action, command_id });
                self.progress = Some(
                    SessionActionProgress::new(
                        action,
                        command_id,
                        SessionActionProgressPhase::Queued,
                        0,
                        queued,
                    ),
                );
                self.close_after_session_action = close_after;
                self.last_message = Some(pending);
            },
            Some(e) => {
                let mut m = String::new();
                push_str(&mut m, "failed to request ");
                push_str(&mut m, action.label());
                push_str(&mut m, ": ");
                push_str(&mut m, e.as_str());
                self.progress = Some(failed_progress(action, command_id, &m));
                self.last_message = Some(m);
            },
        }
    }

    /// Takes a progress report read from the progress file when it is
    /// about the pending action (see `after_progress_report`).
    pub fn session_progress_reported(&mut self, report: SessionActionProgress)
        ensures
            final(self)@ == after_progress_report(old(self)@, progress_view(report)),
    {
        match self.pending_session_action {
            Some(pa) => {
                if report.action == pa.action && report.command_id == pa.command_id
                    && report.percent <= 100 {
                    self.progress = Some(report);
                }
            },
            None => {},
        }
    }

    /// Takes the result read for the pending session action (`None`: the
    /// file could not be read or parsed). An accepted, matching result asks
    /// for a reload; anything else ends the action.  With no action
    /// pending, nothing changes.
    pub fn session_result_arrived(&mut self, result: Option<SessionActionResult>) -> (step:
        SessionResultStep)
        ensures
            match old(self).pending_session_action {
                None => final(self)@ == old(self)@ && step is Finished,
                Some(pa) => {
                    &&& final(self)@ == after_session_result(old(self)@, pa, result)
                    &&& match step {
                        SessionResultStep::Finished => !(result matches Some(r) && result_matches(
                            r,
                            pa,
                        ) && r.accepted),
                        SessionResultStep::Reload(reload) => result matches Some(r)
                            && result_matches(r, pa) && r.accepted && reload.action == r.action
                            && reload.command_id == r.command_id && reload.close_after == old(
                            self,
                        ).close_after_session_action && reload.message@ == result_message(
                            r.action,
                            r.accepted,
                            opt_view(r.message),
                        ) && opt_view(reload.geometry_manifest_path) == opt_view(
                            r.geometry_manifest_path,
                        ),
                    }
                },
            },
    {
        let pa = match self.pending_session_action {
            Some(pa) => pa,
            None => {
                return SessionResultStep::Finished;
            },
        };
        let r = match result {
            Some(r) => r,
            None => {
                let m = string_from_str("failed to read session action result");
                self.fail_session(pa, m);
                return SessionResultStep::Finished;
            },
        };
        if !(r.action == pa.action && r.command_id == pa.command_id) {
            let m = string_from_str("received a mismatched session action result");
            self.fail_session(pa, m);
            return SessionResultStep::Finished;
        }
        let close_after = self.close_after_session_action;
        let message = session_action_result_message(&r);
        if !r.accepted {
            self.fail_session(pa, message);
            return SessionResultStep::Finished;
        }
        self.close_after_session_action = false;
        self.pending_session_action = None;
        self.progress = Some(
            SessionActionProgress::new(
                pa.action,
                pa.command_id,
                SessionActionProgressPhase::ReloadingGeometry,
                95,
                string_from_str("Reloading published geometry"),
            ),
        );
        SessionResultStep::Reload(
            SessionReload {
                action: r.action,
                command_id: r.command_id,
                close_after,
                message,
                geometry_manifest_path: r.geometry_manifest_path,
            },
        )
    }

    fn fail_session(&mut self, pa: PendingSessionAction, message: String)
        ensures
            final(self)@ == session_failed(old(self)@, pa, message@),
    {
        self.progress = Some(failed_progress(pa.action, pa.command_id, &message));
        self.pending_session_action = None;
        self.close_after_session_action = false;
        self.last_message = Some(message);
    }

    /// Records the end of the reload after an accepted session action
    /// (`error` holds the failure's text). Returns whether the window may
    /// now close: it was asked to close after the action and the reload
    /// succeeded.
    pub fn finish_session_reload(&mut self, reload: SessionReload, error: Option<String>) -> (close:
        bool)
        ensures
            final(self)@ == after_session_reload(
                old(self)@,
                reload.action,
                reload.command_id,
                reload.message@,
                opt_view(error),
            ),
            close == (error is None && reload.close_after),
    {
        match error {
            None => {
                self.session_dirty = false;
                self.close_confirmation_visible = false;
                self.progress = Some(
                    SessionActionProgress::new(
                        reload.action,
                        reload.command_id,
                        SessionActionProgressPhase::Completed,
                        100,
                        copy_string(&reload.message),
                    ),
                );
                self.last_message = Some(reload.message);
                reload.close_after
            },
            Some(e) => {
                let mut m = String::new();
                push_str(&mut m, reload.action.label());
                push_str(&mut m, " completed but geometry reload failed: ");
                push_str(&mut m, e.as_str());
                self.progress = Some(failed_progress(reload.action, reload.command_id, &m));
                self.last_message = Some(m);
                false
            },
        }
    }

    /// Whether the selected shape may be dragged (see `movable`); `shown`
    /// is whether the canvas shows it and `owner_type_label` names its
    /// owner's type.  A shape whose owner cannot be moved is reported.
    pub fn check_drag_target(
        &mut self,
        shape: &ShapeRecord,
        shown: bool,
        owner: Option<&OwnerRef>,
        owner_type_label: &str,
    ) -> (ok: bool)
        ensures
            ok == movable(*shape, shown, owner),
            final(self)@ == if move_unsupported(*shape, shown, owner) {
                with_message(old(self)@, "instance move is not supported for "@ + owner_type_label@)
            } else {
                old(self)@
            },
    {
        if shape.state != ShapeState::Alive.raw() || shape.kind != ShapeKind::Rect.raw() || !shown {
            return false;
        }
        let o = match owner {
            Some(o) => o,
            None => {
                return false;
            },
        };
        if !instance_move_is_allowed(o.owner_type) {
            let mut m = string_from_str("instance move is not supported for ");
            push_str(&mut m, owner_type_label);
            self.last_message = Some(m);
            return false;
        }
        true
    }

    /// Answers the window's close request: with uncommitted edits the
    /// confirmation is shown and the close is cancelled (`true`); otherwise
    /// nothing changes and the window may close.
    pub fn close_requested(&mut self) -> (cancel: bool)
        ensures
            cancel == old(self).session_dirty,
            final(self)@ == if old(self).session_dirty {
                SessionView { close_confirmation_visible: true, ..old(self)@ }
            } else {
                old(self)@
            },
    {
        if self.session_dirty {
            self.close_confirmation_visible = true;
            true
        } else {
            false
        }
    }

    /// Whether the close confirmation is on screen: it was asked for and no
    /// session action is under way.
    pub fn shows_close_confirmation(&self) -> (r: bool)
        ensures
            r == (self.close_confirmation_visible && self.pending_session_action is None),
    {
        self.close_confirmation_visible && self.pending_session_action.is_none()
    }

    /// "Keep editing" in the close confirmation: the confirmation goes away.
    pub fn keep_editing(&mut self)
        ensures
            final(self)@ == (SessionView { close_confirmation_visible: false, ..old(self)@ }),
    {
        self.close_confirmation_visible = false;
    }

    /// Whether the viewer may look for a snapshot written by another
    /// program: not while a draft, an edit or a session action is under
    /// way.
    pub fn may_check_external_snapshot(&self) -> (r: bool)
        ensures
            r == !busy(self@),
    {
        !(self.pending_edit || self.pending_session_action.is_some() || self.draft.is_some())
    }

    /// Reports how reloading a changed snapshot ended (`error` holds the
    /// failure's text).
    pub fn finish_external_snapshot_refresh(&mut self, error: Option<String>)
        ensures
            final(self)@ == match error {
                None => with_message(old(self)@, "geometry snapshot refreshed"@),
                Some(e) => with_message(old(self)@, "failed to refresh geometry: "@ + e@),
            },
    {
        match error {
            None => set_message(&mut self.last_message, "geometry snapshot refreshed"),
            Some(e) => {
                let mut m = string_from_str("failed to refresh geometry: ");
                push_str(&mut m, e.as_str());
                self.last_message = Some(m);
            },
        }
    }

    /// Whether a new edit may start; when it may not, the refusal is
    /// reported.
    pub fn try_begin_edit(&mut self) -> (ok: bool)
        ensures
            ok == !busy(old(self)@),
            final(self)@ == if ok {
                old(self)@
            } else {
                with_message(old(self)@, "wait for the current edit to finish"@)
            },
    {
        if self.draft.is_some() || self.pending_edit || self.pending_session_action.is_some() {
            set_message(&mut self.last_message, "wait for the current edit to finish");
            false
        } else {
            true
        }
    }

    /// Starts a draft for an instance at its current box, under a new
    /// command identifier.
    pub fn start_draft(
        &mut self,
        shape_id: u64,
        expected_version: u32,
        instance_name: Option<String>,
        bbox: Rect32,
    )
        ensures
            final(self)@ == (SessionView {
                draft: Some(
                    DraftView {
                        command_id: old(self).next_command_counter as u64,
                        shape_id,
                        expected_version,
                        instance_name: opt_view(instance_name),
                        original_bbox: bbox,
                        requested_bbox: bbox,
                    },
                ),
                next_command_counter: bumped(old(self).next_command_counter),
                ..old(self)@
            }),
    {
        let command_id = next_native_command_id(&mut self.next_command_counter);
        self.draft = Some(
            EditDraft {
                command_id,
                shape_id,
                expected_version,
                instance_name,
                original_bbox: bbox,
                requested_bbox: bbox,
            },
        );
    }

    /// Moves the draft's requested box to its original box shifted by
    /// `(dx, dy)` database units.
    pub fn drag_draft(&mut self, dx: i32, dy: i32)
        ensures
            final(self)@ == after_drag(old(self)@, dx, dy),
    {
        match &mut self.draft {
            Some(d) => {
                d.requested_bbox = translate_rect(d.original_bbox, dx, dy);
            },
            None => {},
        }
    }

    /// Turns the draft into an edit command to write, with the instance
    /// name; `None` when there is no draft or a directory is missing (then
    /// reported).
    pub fn commit_draft(&mut self) -> (command: Option<(GeometryEditCommand, Option<String>)>)
        ensures
            final(self)@ == after_commit(old(self)@),
            match command {
                Some((c, name)) => old(self)@.draft matches Some(d) && c == draft_command(d)
                    && opt_view(name) == d.instance_name && old(self).has_command_dir
                    && old(self).has_result_dir,
                None => old(self).draft is None || !old(self).has_command_dir
                    || !old(self).has_result_dir,
            },
    {
        let mut taken: Option<EditDraft> = None;
        std::mem::swap(&mut taken, &mut self.draft);
        let draft = match taken {
            Some(d) => d,
            None => {
                return None;
            },
        };
        if !self.has_command_dir {
            set_message(&mut self.last_message, "edit command directory is missing");
            return None;
        }
        if !self.has_result_dir {
            set_message(&mut self.last_message, "edit result directory is missing");
            return None;
        }
        let command = GeometryEditCommand {
            command_id: draft.command_id,
            shape_id: draft.shape_id,
            expected_version: draft.expected_version,
            op: GeometryEditOp::MoveShape,
            requested_bbox: draft.requested_bbox,
        };
        Some((command, draft.instance_name))
    }

    /// Records whether the edit command file was written.
    pub fn edit_command_written(&mut self, command_id: u64, error: Option<String>)
        ensures
            final(self)@ == after_edit_written(old(self)@, command_id, opt_view(error)),
    {
        match error {
            None => {
                let mut m = String::new();
                push_str(&mut m, "command ");
                push_decimal(&mut m, command_id);
                push_str(&mut m, " pending");
                self.pending_edit = true;
                self.last_message = Some(m);
            },
            Some(e) => {
                let mut m = String::new();
                push_str(&mut m, "failed to write edit command: ");
                push_str(&mut m, e.as_str());
                self.last_message = Some(m);
            },
        }
    }

    /// Takes the result read for the pending edit (`None`: unreadable).
    pub fn edit_result_arrived(&mut self, result: Option<GeometryEditResult>) -> (step: EditResultStep)
        ensures
            final(self)@ == after_edit_result(old(self)@, result),
            match result {
                None => step is Unreadable,
                Some(r) => if reloads_after(r.status) {
                    step matches EditResultStep::Reload {
                        selected_shape_id,
                        status,
                        message,
                        geometry_manifest_path,
                    } && selected_shape_id == Some(r.shape_id) && status == r.status && message@
                        == edit_result_text(r) && opt_view(geometry_manifest_path) == opt_view(
                        r.geometry_manifest_path,
                    )
                } else {
                    step == (EditResultStep::Settled { selected_shape_id: Some(r.shape_id) })
                },
            },
    {
        let r = match result {
            None => {
                set_message(&mut self.last_message, "failed to read edit result");
                self.pending_edit = false;
                return EditResultStep::Unreadable;
            },
            Some(r) => r,
        };
        let action: EditResultAction = edit_result_action(&r);
        if action.reload_snapshot {
            return EditResultStep::Reload {
                selected_shape_id: action.selected_shape_id,
                status: r.status,
                message: action.message,
                geometry_manifest_path: r.geometry_manifest_path,
            };
        }
        self.settle_edit(r.status, action.message);
        EditResultStep::Settled { selected_shape_id: action.selected_shape_id }
    }

    fn settle_edit(&mut self, status: GeometryEditStatus, message: String)
        ensures
            final(self)@ == edit_settled(old(self)@, status, message@),
    {
        if status == GeometryEditStatus::Accepted || status
            == GeometryEditStatus::AdjustedAccepted {
            self.session_dirty = true;
        }
        self.last_message = Some(message);
        self.pending_edit = false;
    }

    /// Records the end of the reload after an edit (`error` holds the
    /// failure's text).
    pub fn finish_edit_reload(
        &mut self,
        status: GeometryEditStatus,
        message: String,
        error: Option<String>,
    )
        ensures
            final(self)@ == after_edit_reload(old(self)@, status, message@, opt_view(error)),
    {
        match error {
            None => self.settle_edit(status, message),
            Some(e) => {
                let mut m = String::new();
                push_str(&mut m, "failed to reload geometry: ");
                push_str(&mut m, e.as_str());
                self.last_message = Some(m);
                self.pending_edit = false;
            },
        }
    }
}

} // verus!
