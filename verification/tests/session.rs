use chip_viewer_native::selection::{OwnerRef, ShapeRecord};
use chip_viewer_native::visibility::OwnerType;
use chip_viewer_native::edits::{
    edit_result_action, GeometryEditOp, GeometryEditResult, GeometryEditStatus,
};
use chip_viewer_native::geometry::Rect32;
use chip_viewer_native::session::{
    can_start_edit_command, edit_poll_repaint_interval, next_native_command_id,
    session_action_result_message, SessionActionKind, SessionActionProgress,
    SessionActionProgressPhase, SessionActionResult, MAX_JAVASCRIPT_SAFE_INTEGER,
};
use chip_viewer_native::workflow::{EditResultStep, EditSession, SessionResultStep};

#[test]
fn pending_edit_polling_requests_periodic_repaint() {
    assert_eq!(
        edit_poll_repaint_interval(true),
        Some(std::time::Duration::from_millis(100))
    );
    assert_eq!(edit_poll_repaint_interval(false), None);
}

#[test]
fn pending_edit_or_session_action_blocks_a_new_edit_command() {
    assert!(can_start_edit_command(false, false, false));
    assert!(!can_start_edit_command(true, false, false));
    assert!(!can_start_edit_command(false, true, false));
    assert!(!can_start_edit_command(false, false, true));
}

#[test]
fn native_command_ids_are_javascript_safe_and_monotonic() {
    let mut counter = 1;
    assert_eq!(next_native_command_id(&mut counter), 1);
    assert_eq!(next_native_command_id(&mut counter), 2);

    let mut last_counter = u32::MAX;
    let last_id = next_native_command_id(&mut last_counter);
    assert_eq!(last_id, u64::from(u32::MAX));
    assert!(last_id <= MAX_JAVASCRIPT_SAFE_INTEGER);
}

#[test]
fn session_action_result_message_includes_status_and_diagnostic() {
    let result = SessionActionResult {
        action: SessionActionKind::Discard,
        accepted: false,
        command_id: 17,
        geometry_manifest_path: None,
        message: Some("source changed".to_string()),
    };

    assert_eq!(
        session_action_result_message(&result),
        "discard rejected: source changed"
    );
}

#[test]
fn session_action_result_message_omits_a_blank_diagnostic() {
    let result = SessionActionResult {
        action: SessionActionKind::Save,
        accepted: true,
        command_id: 3,
        geometry_manifest_path: None,
        message: Some("   ".to_string()),
    };
    assert_eq!(session_action_result_message(&result), "save completed");
}

#[test]
fn progress_phases_name_themselves_and_end_on_completion_or_failure() {
    assert_eq!(SessionActionProgressPhase::Saving.label(), "Saving in ECC");
    assert!(SessionActionProgressPhase::Completed.is_terminal());
    assert!(SessionActionProgressPhase::Failed.is_terminal());
    assert!(!SessionActionProgressPhase::VerifyingArtifacts.is_terminal());
}

fn edit_result(status: GeometryEditStatus) -> GeometryEditResult {
    GeometryEditResult {
        command_id: 1,
        shape_id: 7,
        new_version: 3,
        status,
        committed_bbox: Rect32 {
            lx: 0,
            ly: 0,
            hx: 10,
            hy: 10,
        },
        message: None,
        geometry_manifest_path: None,
    }
}

#[test]
fn edit_result_action_reloads_for_accepted_adjusted_and_conflict() {
    let accepted = edit_result_action(&edit_result(GeometryEditStatus::Accepted));
    let adjusted = edit_result_action(&edit_result(GeometryEditStatus::AdjustedAccepted));
    let conflict = edit_result_action(&edit_result(GeometryEditStatus::Conflict));

    assert!(accepted.reload_snapshot);
    assert!(adjusted.reload_snapshot);
    assert!(conflict.reload_snapshot);
    assert!(conflict.message.contains("retry"));
    assert_eq!(conflict.selected_shape_id, Some(7));
}

#[test]
fn edit_result_action_does_not_reload_for_rejected() {
    let rejected = edit_result_action(&edit_result(GeometryEditStatus::Rejected));

    assert!(!rejected.reload_snapshot);
    assert!(rejected.message.contains("rejected"));
    assert!(rejected.message.contains("restored"));
    assert_eq!(rejected.selected_shape_id, Some(7));
}

#[test]
fn edit_result_action_includes_diagnostic_message() {
    let mut result = edit_result(GeometryEditStatus::Rejected);
    result.message = Some("apply-edit failed".to_string());

    let rejected = edit_result_action(&result);

    assert!(rejected.message.contains("apply-edit failed"));
}

#[test]
fn edit_result_messages_name_shape_version_and_box() {
    assert_eq!(
        edit_result_action(&edit_result(GeometryEditStatus::Accepted)).message,
        "edit accepted: shape 7 version 3"
    );
    let mut adjusted = edit_result(GeometryEditStatus::AdjustedAccepted);
    adjusted.committed_bbox = Rect32 {
        lx: -5,
        ly: 0,
        hx: 10,
        hy: 12,
    };
    adjusted.message = Some("  snapped to grid ".to_string());
    assert_eq!(
        edit_result_action(&adjusted).message,
        "edit adjusted: shape 7 version 3 bbox -5 0 10 12: snapped to grid"
    );
}

fn session(dirty: bool) -> EditSession {
    EditSession {
        session_dirty: dirty,
        draft: None,
        pending_edit: false,
        pending_session_action: None,
        close_after_session_action: false,
        close_confirmation_visible: true,
        progress: None,
        last_message: None,
        next_command_counter: 5,
        has_command_dir: true,
        has_result_dir: true,
    }
}

#[test]
fn a_clean_session_refuses_session_actions() {
    let mut s = session(false);
    assert_eq!(s.request_session_action(), None);
    assert_eq!(
        s.last_message.as_deref(),
        Some("there are no uncommitted layout edits")
    );
    assert_eq!(s.next_command_counter, 5);
}

#[test]
fn a_busy_session_refuses_session_actions() {
    let mut s = session(true);
    s.pending_edit = true;
    assert_eq!(s.request_session_action(), None);
    assert_eq!(
        s.last_message.as_deref(),
        Some("wait for the current edit to finish")
    );
    let mut missing = session(true);
    missing.has_result_dir = false;
    assert_eq!(missing.request_session_action(), None);
    assert_eq!(
        missing.last_message.as_deref(),
        Some("edit result directory is missing")
    );
}

fn progress(s: &EditSession) -> &SessionActionProgress {
    s.progress.as_ref().unwrap()
}

#[test]
fn a_save_round_trip_settles_the_session() {
    let mut s = session(true);
    let id = s.request_session_action().unwrap();
    assert_eq!(id, 5);
    s.session_command_written(SessionActionKind::Save, id, true, None);
    assert_eq!(s.last_message.as_deref(), Some("save pending"));
    assert_eq!(progress(&s).phase, SessionActionProgressPhase::Queued);
    assert_eq!(progress(&s).message, "save request queued");

    s.session_progress_reported(SessionActionProgress::new(
        SessionActionKind::Save,
        id,
        SessionActionProgressPhase::VerifyingArtifacts,
        50,
        "Verifying published artifacts".to_string(),
    ));
    assert_eq!(progress(&s).percent, 50);
    s.session_progress_reported(SessionActionProgress::new(
        SessionActionKind::Save,
        id + 1,
        SessionActionProgressPhase::Published,
        90,
        "other".to_string(),
    ));
    assert_eq!(progress(&s).percent, 50);

    let step = s.session_result_arrived(Some(SessionActionResult {
        command_id: id,
        action: SessionActionKind::Save,
        accepted: true,
        geometry_manifest_path: Some("/tmp/geometry.manifest".to_string()),
        message: None,
    }));
    let reload = match step {
        SessionResultStep::Reload(reload) => reload,
        SessionResultStep::Finished => panic!("an accepted result asks for a reload"),
    };
    assert_eq!(reload.message, "save completed");
    assert_eq!(
        reload.geometry_manifest_path.as_deref(),
        Some("/tmp/geometry.manifest")
    );
    assert!(s.pending_session_action.is_none());
    assert_eq!(progress(&s).phase, SessionActionProgressPhase::ReloadingGeometry);

    let close = s.finish_session_reload(reload, None);
    assert!(close);
    assert!(!s.session_dirty);
    assert!(!s.close_confirmation_visible);
    assert_eq!(progress(&s).phase, SessionActionProgressPhase::Completed);
    assert_eq!(s.last_message.as_deref(), Some("save completed"));
}

#[test]
fn a_mismatched_result_fails_the_pending_action() {
    let mut s = session(true);
    let id = s.request_session_action().unwrap();
    s.session_command_written(SessionActionKind::Discard, id, true, None);
    let step = s.session_result_arrived(Some(SessionActionResult {
        command_id: id + 7,
        action: SessionActionKind::Discard,
        accepted: true,
        geometry_manifest_path: None,
        message: None,
    }));
    assert!(matches!(step, SessionResultStep::Finished));
    assert!(s.session_dirty);
    assert!(s.pending_session_action.is_none());
    assert!(!s.close_after_session_action);
    assert_eq!(progress(&s).phase, SessionActionProgressPhase::Failed);
    assert_eq!(
        s.last_message.as_deref(),
        Some("received a mismatched session action result")
    );
}

#[test]
fn a_failed_write_or_reload_is_reported() {
    let mut s = session(true);
    let id = s.request_session_action().unwrap();
    s.session_command_written(SessionActionKind::Save, id, false, Some("disk full".to_string()));
    assert!(s.pending_session_action.is_none());
    assert_eq!(s.last_message.as_deref(), Some("failed to request save: disk full"));

    let mut t = session(true);
    let id = t.request_session_action().unwrap();
    t.session_command_written(SessionActionKind::Save, id, false, None);
    let step = t.session_result_arrived(Some(SessionActionResult {
        command_id: id,
        action: SessionActionKind::Save,
        accepted: true,
        geometry_manifest_path: None,
        message: Some("saved".to_string()),
    }));
    let reload = match step {
        SessionResultStep::Reload(reload) => reload,
        SessionResultStep::Finished => panic!("an accepted result asks for a reload"),
    };
    assert!(!t.finish_session_reload(reload, Some("bad manifest".to_string())));
    assert!(t.session_dirty);
    assert_eq!(
        t.last_message.as_deref(),
        Some("save completed but geometry reload failed: bad manifest")
    );
}

#[test]
fn an_edit_draft_becomes_a_move_command() {
    let mut s = session(false);
    assert!(s.try_begin_edit());
    let bbox = Rect32 {
        lx: 0,
        ly: 0,
        hx: 10,
        hy: 20,
    };
    s.start_draft(11, 3, Some("u_sram_0".to_string()), bbox);
    assert!(!s.try_begin_edit());
    s.drag_draft(5, -2);
    let (command, name) = s.commit_draft().unwrap();
    assert_eq!(command.command_id, 5);
    assert_eq!(command.shape_id, 11);
    assert_eq!(command.expected_version, 3);
    assert_eq!(command.op, GeometryEditOp::MoveShape);
    assert_eq!(
        command.requested_bbox,
        Rect32 {
            lx: 5,
            ly: -2,
            hx: 15,
            hy: 18,
        }
    );
    assert_eq!(name.as_deref(), Some("u_sram_0"));
    assert!(s.draft.is_none());

    s.edit_command_written(command.command_id, None);
    assert!(s.pending_edit);
    assert_eq!(s.last_message.as_deref(), Some("command 5 pending"));

    let step = s.edit_result_arrived(Some(edit_result(GeometryEditStatus::Accepted)));
    match step {
        EditResultStep::Reload {
            selected_shape_id,
            status,
            message,
            ..
        } => {
            assert_eq!(selected_shape_id, Some(7));
            s.finish_edit_reload(status, message, None);
        }
        _ => panic!("an accepted edit is reloaded"),
    }
    assert!(!s.pending_edit);
    assert!(s.session_dirty);
    assert_eq!(
        s.last_message.as_deref(),
        Some("edit accepted: shape 7 version 3")
    );
}

#[test]
fn a_rejected_edit_settles_without_reload() {
    let mut s = session(false);
    s.pending_edit = true;
    let step = s.edit_result_arrived(Some(edit_result(GeometryEditStatus::Rejected)));
    assert!(matches!(
        step,
        EditResultStep::Settled {
            selected_shape_id: Some(7)
        }
    ));
    assert!(!s.pending_edit);
    assert!(!s.session_dirty);

    let mut unreadable = session(false);
    unreadable.pending_edit = true;
    assert!(matches!(
        unreadable.edit_result_arrived(None),
        EditResultStep::Unreadable
    ));
    assert_eq!(
        unreadable.last_message.as_deref(),
        Some("failed to read edit result")
    );
}

#[test]
fn only_visible_live_instance_boxes_can_be_dragged() {
    let shape = ShapeRecord {
        state: 1,
        kind: 1,
        ..ShapeRecord::default()
    };
    let instance = OwnerRef {
        owner_type: OwnerType::InstanceBBox as u8,
        ..OwnerRef::default()
    };
    let net = OwnerRef {
        owner_type: OwnerType::NetWireSegment as u8,
        ..OwnerRef::default()
    };

    let mut s = session(false);
    assert!(s.check_drag_target(&shape, true, Some(&instance), "instance bbox"));
    assert_eq!(s.last_message, None);

    assert!(!s.check_drag_target(&shape, false, Some(&instance), "instance bbox"));
    assert!(!s.check_drag_target(&shape, true, None, "none"));
    let deleted = ShapeRecord { state: 2, ..shape };
    assert!(!s.check_drag_target(&deleted, true, Some(&instance), "instance bbox"));
    let line = ShapeRecord { kind: 2, ..shape };
    assert!(!s.check_drag_target(&line, true, Some(&instance), "instance bbox"));
    assert_eq!(s.last_message, None);

    assert!(!s.check_drag_target(&shape, true, Some(&net), "net wire"));
    assert_eq!(
        s.last_message.as_deref(),
        Some("instance move is not supported for net wire")
    );
}

#[test]
fn external_snapshots_are_checked_only_when_idle() {
    let mut s = session(false);
    assert!(s.may_check_external_snapshot());
    s.pending_edit = true;
    assert!(!s.may_check_external_snapshot());
    let mut waiting = session(true);
    let id = waiting.request_session_action().unwrap();
    waiting.session_command_written(SessionActionKind::Save, id, false, None);
    assert!(!waiting.may_check_external_snapshot());

    let mut idle = session(false);
    idle.finish_external_snapshot_refresh(None);
    assert_eq!(idle.last_message.as_deref(), Some("geometry snapshot refreshed"));
    idle.finish_external_snapshot_refresh(Some("manifest is gone".to_string()));
    assert_eq!(
        idle.last_message.as_deref(),
        Some("failed to refresh geometry: manifest is gone")
    );
    assert!(idle.may_check_external_snapshot());
}

#[test]
fn closing_with_unsaved_edits_asks_first() {
    let mut clean = session(false);
    clean.close_confirmation_visible = false;
    assert!(!clean.close_requested());
    assert!(!clean.close_confirmation_visible);

    let mut dirty = session(true);
    dirty.close_confirmation_visible = false;
    assert!(dirty.close_requested());
    assert!(dirty.shows_close_confirmation());
    dirty.keep_editing();
    assert!(!dirty.shows_close_confirmation());

    assert!(dirty.close_requested());
    let id = dirty.request_session_action().unwrap();
    dirty.session_command_written(SessionActionKind::Discard, id, true, None);
    assert!(dirty.close_confirmation_visible);
    assert!(!dirty.shows_close_confirmation());
}

#[test]
fn a_result_without_a_pending_action_changes_nothing() {
    let mut s = session(true);
    let step = s.session_result_arrived(None);
    assert!(matches!(step, SessionResultStep::Finished));
    assert_eq!(s.last_message, None);
    assert!(s.progress.is_none());
    assert!(s.session_dirty);
    assert_eq!(s.next_command_counter, 5);
}
