//! Size-based rotation of the daemon log: when a write would reach the size
//! limit, the numbered backups shift up by one and the current file becomes
//! backup 1.
use vstd::prelude::*;
use crate::text;

verus! {

/// The daemon log's file name.
pub const DAEMON_LOG: &'static str = "speck.log";

/// The size at which the daemon log rotates: 10 MiB.
pub const DAEMON_LOG_MAX_BYTES: u64 = 10485760;

/// How many numbered backups the daemon log keeps.
pub const DAEMON_LOG_MAX_FILES: usize = 5;

/// Whether a write of `incoming` bytes, after `written` bytes, rotates the
/// log first: when it would reach `max_bytes`.
pub fn should_rotate(written: u64, incoming: usize, max_bytes: u64) -> (r: bool)
    ensures
        r == (written + incoming >= max_bytes),
{
    (written as u128) + (incoming as u128) >= (max_bytes as u128)
}

/// The name of backup `i` of `filename`: `{filename}.{i}`.
pub open spec fn backup_name(filename: Seq<char>, i: int) -> Seq<char> {
    filename + "."@ + text::decimal_text(i as nat)
}

fn backup(filename: &str, i: usize) -> (r: String)
    ensures
        r@ == backup_name(filename@, i as int),
{
    let mut r = text::concat2(filename, ".");
    text::push_decimal(&mut r, i as u64);
    r
}

/// The renames of one rotation, in the order they are made: each backup
/// from `max_files - 1` down to 1 moves one number up (replacing what is
/// there), then the current file becomes backup 1. A rename whose source is
/// missing is skipped.
pub fn rotation_moves(filename: &str, max_files: usize) -> (r: Vec<(String, String)>)
    ensures
        r@.len() == (if max_files > 0 { max_files } else { 1 }),
        forall|k: int|
            0 <= k < r@.len() - 1 ==> (#[trigger] r@[k]).0@ == backup_name(
                filename@,
                max_files - 1 - k,
            ) && r@[k].1@ == backup_name(filename@, max_files - k),
        r@[r@.len() - 1].0@ == filename@,
        r@[r@.len() - 1].1@ == backup_name(filename@, 1),
{
    let mut r: Vec<(String, String)> = Vec::new();
    let mut i: usize = if max_files > 0 {
        max_files - 1
    } else {
        0
    };
    while i >= 1
        invariant
            max_files > 0 ==> i <= max_files - 1,
            max_files == 0 ==> i == 0,
            r@.len() == (if max_files > 0 { max_files - 1 - i } else { 0 }),
            forall|k: int|
                0 <= k < r@.len() ==> (#[trigger] r@[k]).0@ == backup_name(
                    filename@,
                    max_files - 1 - k,
                ) && r@[k].1@ == backup_name(filename@, max_files - k),
        decreases i,
    {
        r.push((backup(filename, i), backup(filename, i + 1)));
        i -= 1;
    }
    r.push((text::string_of(filename), backup(filename, 1)));
    r
}

} // verus!
