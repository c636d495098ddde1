//! Errors of the editing commands.

use vstd::prelude::*;
use crate::text::{append_decimal, append_signed_decimal, chars_to_string, concat_str, spec_decimal, spec_signed_decimal};

verus! {

/// What can go wrong with a command.
#[derive(Debug)]
pub enum CommandError {
    /// The command could not run; the text says why.
    ExecutionFailed(String),
    /// The command could not be undone; the text says why.
    UndoFailed(String),
    /// There is no command to undo.
    NothingToUndo,
    /// There is no command to redo.
    NothingToRedo,
}

impl CommandError {
    /// The message shown for this error.
    pub fn message(&self) -> (r: String)
        ensures
            r@ == (match self {
                CommandError::ExecutionFailed(s) => "실행 중 오류: "@ + s@,
                CommandError::UndoFailed(s) => "Undo 중 오류: "@ + s@,
                CommandError::NothingToUndo => "Undo할 커맨드 없음"@,
                CommandError::NothingToRedo => "Redo할 커맨드 없음"@,
            }),
    {
        match self {
            CommandError::ExecutionFailed(s) => concat_str("실행 중 오류: ", s.as_str()),
            CommandError::UndoFailed(s) => concat_str("Undo 중 오류: ", s.as_str()),
            CommandError::NothingToUndo => String::from_str("Undo할 커맨드 없음"),
            CommandError::NothingToRedo => String::from_str("Redo할 커맨드 없음"),
        }
    }
}


/// Whether `e` is `ExecutionFailed` with the text `m`.
pub open spec fn failed_with(e: CommandError, m: Seq<char>) -> bool {
    e matches CommandError::ExecutionFailed(t) && t@ == m
}

/// Whether `e` is `UndoFailed` with the text `m`.
pub open spec fn undo_failed_with(e: CommandError, m: Seq<char>) -> bool {
    e matches CommandError::UndoFailed(t) && t@ == m
}

/// "page index out of bounds: {index} (document has {len} pages)".
pub open spec fn msg_out_of_bounds_of(index: nat, len: nat) -> Seq<char> {
    "page index out of bounds: "@ + spec_decimal(index) + " (document has "@ + spec_decimal(len) + " pages)"@
}

/// "page index out of bounds: {index}".
pub open spec fn msg_out_of_bounds(index: nat) -> Seq<char> {
    "page index out of bounds: "@ + spec_decimal(index)
}

/// "page index out of bounds during undo: {index}".
pub open spec fn msg_out_of_bounds_during_undo(index: nat) -> Seq<char> {
    "page index out of bounds during undo: "@ + spec_decimal(index)
}

/// "degrees must be a multiple of 90, got {degrees}; valid: 90, 180, 270, -90, ...".
pub open spec fn msg_not_right_angle(degrees: int) -> Seq<char> {
    "degrees must be a multiple of 90, got "@ + spec_signed_decimal(degrees) + "; valid: 90, 180, 270, -90, ..."@
}

/// "invalid range {start}-{end}: start > end".
pub open spec fn msg_start_after_end(start: nat, end: nat) -> Seq<char> {
    "invalid range "@ + spec_decimal(start) + "-"@ + spec_decimal(end) + ": start > end"@
}

/// "invalid range spec: {token}".
pub open spec fn msg_bad_range_spec(token: Seq<char>) -> Seq<char> {
    "invalid range spec: "@ + token
}

/// "page numbers are 1-based, got 0".
pub open spec fn msg_one_based() -> Seq<char> {
    "page numbers are 1-based, got 0"@
}

/// "document has no pages".
pub open spec fn msg_no_pages() -> Seq<char> {
    "document has no pages"@
}

/// "undo called before execute".
pub open spec fn msg_undo_before_execute() -> Seq<char> {
    "undo called before execute"@
}

/// "page index out of bounds: {index} (document has {len} pages)".
pub fn out_of_bounds_of(index: usize, len: usize) -> (r: String)
    ensures
        r@ == msg_out_of_bounds_of(index as nat, len as nat),
{
    let mut s = String::from_str("page index out of bounds: ");
    append_decimal(&mut s, index as u64);
    s.append(" (document has ");
    append_decimal(&mut s, len as u64);
    s.append(" pages)");
    s
}

/// "page index out of bounds: {index}".
pub fn out_of_bounds(index: u64) -> (r: String)
    ensures
        r@ == msg_out_of_bounds(index as nat),
{
    let mut s = String::from_str("page index out of bounds: ");
    append_decimal(&mut s, index);
    s
}

/// "page index out of bounds during undo: {index}".
pub fn out_of_bounds_during_undo(index: usize) -> (r: String)
    ensures
        r@ == msg_out_of_bounds_during_undo(index as nat),
{
    let mut s = String::from_str("page index out of bounds during undo: ");
    append_decimal(&mut s, index as u64);
    s
}

/// "degrees must be a multiple of 90, got {degrees}; valid: 90, 180, 270, -90, ...".
pub fn not_right_angle(degrees: i32) -> (r: String)
    ensures
        r@ == msg_not_right_angle(degrees as int),
{
    let mut s = String::from_str("degrees must be a multiple of 90, got ");
    append_signed_decimal(&mut s, degrees as i64);
    s.append("; valid: 90, 180, 270, -90, ...");
    s
}

/// "invalid range {start}-{end}: start > end".
pub fn start_after_end(start: u64, end: u64) -> (r: String)
    ensures
        r@ == msg_start_after_end(start as nat, end as nat),
{
    let mut s = String::from_str("invalid range ");
    append_decimal(&mut s, start);
    s.append("-");
    append_decimal(&mut s, end);
    s.append(": start > end");
    s
}

/// "invalid range spec: {token}".
pub fn bad_range_spec(token: &[char]) -> (r: String)
    ensures
        r@ == msg_bad_range_spec(token@),
{
    let t = chars_to_string(token);
    concat_str("invalid range spec: ", t.as_str())
}

} // verus!
