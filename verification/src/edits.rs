//! Geometry edit commands and their results: what the viewer asks the
//! design process to do with a shape, and what it makes of the answer.

use vstd::prelude::*;
use crate::geometry::Rect32;
use crate::text::{decimal, int_decimal, trim, str_chars, trim_chars, push_str, push_decimal,
    push_int_decimal, push_chars};

verus! {

/// The edit operations the viewer requests.
#[derive(Clone, Copy, Debug, PartialEq, Eq, Structural)]
pub enum GeometryEditOp {
    MoveShape,
}

/// A request to change one shape's geometry.
#[derive(Clone, Copy, Debug, PartialEq, Eq, Structural)]
pub struct GeometryEditCommand {
    pub command_id: u64,
    pub shape_id: u64,
    pub expected_version: u32,
    pub op: GeometryEditOp,
    pub requested_bbox: Rect32,
}

/// How the design process answered an edit.
#[derive(Clone, Copy, Debug, PartialEq, Eq, Structural)]
pub enum GeometryEditStatus {
    Accepted,
    AdjustedAccepted,
    Rejected,
    Conflict,
}

/// The answer to an edit command.
pub struct GeometryEditResult {
    pub command_id: u64,
    pub shape_id: u64,
    pub new_version: u32,
    pub status: GeometryEditStatus,
    pub committed_bbox: Rect32,
    pub message: Option<String>,
    pub geometry_manifest_path: Option<String>,
}

/// What the viewer does with an edit result: whether it reloads the
/// geometry, which shape it selects, and the status line.
pub struct EditResultAction {
    pub reload_snapshot: bool,
    pub selected_shape_id: Option<u64>,
    pub message: String,
}

/// Whether the geometry is reloaded after a result: for every status but
/// a rejection.
pub open spec fn reloads_after(status: GeometryEditStatus) -> bool {
    status != GeometryEditStatus::Rejected
}

/// The status line of an edit result before its diagnostic.
pub open spec fn edit_status_text(
    status: GeometryEditStatus,
    shape_id: u64,
    new_version: u32,
    bbox: Rect32,
) -> Seq<char> {
    match status {
        GeometryEditStatus::Accepted => "edit accepted: shape "@ + decimal(shape_id as nat)
            + " version "@ + decimal(new_version as nat),
        GeometryEditStatus::AdjustedAccepted => "edit adjusted: shape "@ + decimal(shape_id as nat)
            + " version "@ + decimal(new_version as nat) + " bbox "@ + int_decimal(bbox.lx as int)
            + " "@ + int_decimal(bbox.ly as int) + " "@ + int_decimal(bbox.hx as int) + " "@
            + int_decimal(bbox.hy as int),
        GeometryEditStatus::Rejected => "edit rejected: shape "@ + decimal(shape_id as nat)
            + " restored to original geometry"@,
        GeometryEditStatus::Conflict => "edit conflict: shape "@ + decimal(shape_id as nat)
            + " refreshed; retry the edit"@,
    }
}

/// A status line followed by `: <diagnostic>` when the result carries a
/// diagnostic that is not blank.
pub open spec fn with_diagnostic(message: Seq<char>, diagnostic: Option<Seq<char>>) -> Seq<char> {
    match diagnostic {
        Some(d) if trim(d).len() > 0 => message + ": "@ + trim(d),
        _ => message,
    }
}

/// The view of an optional string.
pub open spec fn opt_view(s: Option<String>) -> Option<Seq<char>> {
    match s {
        Some(t) => Some(t@),
        None => None,
    }
}

/// The action for an edit result: reload unless rejected, select the
/// edited shape, and report the status with its diagnostic.
pub fn edit_result_action(result: &GeometryEditResult) -> (action: EditResultAction)
    ensures
        action.reload_snapshot == reloads_after(result.status),
        action.selected_shape_id == Some(result.shape_id),
        action.message@ == with_diagnostic(
            edit_status_text(result.status, result.shape_id, result.new_version, result.committed_bbox),
            opt_view(result.message),
        ),
{
    let mut message = String::new();
    let reload_snapshot = match result.status {
        GeometryEditStatus::Accepted => {
            push_str(&mut message, "edit accepted: shape ");
            push_decimal(&mut message, result.shape_id);
            push_str(&mut message, " version ");
            push_decimal(&mut message, result.new_version as u64);
            true
        },
        GeometryEditStatus::AdjustedAccepted => {
            push_str(&mut message, "edit adjusted: shape ");
            push_decimal(&mut message, result.shape_id);
            push_str(&mut message, " version ");
            push_decimal(&mut message, result.new_version as u64);
            push_str(&mut message, " bbox ");
            push_int_decimal(&mut message, result.committed_bbox.lx as i64);
            push_str(&mut message, " ");
            push_int_decimal(&mut message, result.committed_bbox.ly as i64);
            push_str(&mut message, " ");
            push_int_decimal(&mut message, result.committed_bbox.hx as i64);
            push_str(&mut message, " ");
            push_int_decimal(&mut message, result.committed_bbox.hy as i64);
            true
        },
        GeometryEditStatus::Rejected => {
            push_str(&mut message, "edit rejected: shape ");
            push_decimal(&mut message, result.shape_id);
            push_str(&mut message, " restored to original geometry");
            false
        },
        GeometryEditStatus::Conflict => {
            push_str(&mut message, "edit conflict: shape ");
            push_decimal(&mut message, result.shape_id);
            push_str(&mut message, " refreshed; retry the edit");
            true
        },
    };
    assert(message@ =~= edit_status_text(
        result.status,
        result.shape_id,
        result.new_version,
        result.committed_bbox,
    ));
    append_edit_diagnostic(&mut message, &result.message);
    EditResultAction { reload_snapshot, selected_shape_id: Some(result.shape_id), message }
}

/// Appends `: <diagnostic>` when the diagnostic is not blank.
pub fn append_edit_diagnostic(message: &mut String, diagnostic: &Option<String>)
    ensures
        final(message)@ == with_diagnostic(old(message)@, opt_view(*diagnostic)),
{
    match diagnostic {
        Some(d) => {
            let trimmed = trim_chars(&str_chars(d.as_str()));
            if trimmed.len() > 0 {
                push_str(message, ": ");
                push_chars(message, &trimmed);
            }
        },
        None => {},
    }
}

} // verus!
