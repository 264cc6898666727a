//! Small pieces of the script runtime that stand on their own: sizes for
//! its allocator, the states of its task queue, and texts it reports.

use vstd::prelude::*;
use crate::text::concat3;

verus! {

/// The alignment of everything the allocator hands out: that of the
/// largest value the engine allocates.
pub const ALLOC_ALIGN: usize = 8;

/// The larger of the two numbers.
pub fn max(a: usize, b: usize) -> (r: usize)
    ensures
        r >= a,
        r >= b,
        r == a || r == b,
{
    if a < b {
        b
    } else {
        a
    }
}

/// The size rounded up to the next multiple of the alignment.
pub fn round_size(size: usize) -> (r: usize)
    requires
        size <= usize::MAX - 7,
    ensures
        r % 8 == 0,
        size <= r < size + 8,
{
    let blocks = if size % ALLOC_ALIGN == 0 {
        size / ALLOC_ALIGN
    } else {
        size / ALLOC_ALIGN + 1
    };
    blocks * ALLOC_ALIGN
}

/// What polling the task queue found.
#[derive(Debug, Clone, Copy, PartialEq, Eq)]
pub enum TaskPoll {
    Empty,
    Pending,
    Progress,
    Done,
}

/// The identifier of the current execution context. It is kept for
/// callers that still ask for it and is always zero.
pub fn current_id() -> (r: u64)
    ensures
        r == 0,
{
    0
}

/// Whether the bytes start with the byte order mark of UTF-8.
pub open spec fn has_bom(bytes: Seq<u8>) -> bool {
    bytes.len() >= 3 && bytes[0] == 0xEF && bytes[1] == 0xBB && bytes[2] == 0xBF
}

/// The bytes without a leading byte order mark.
pub fn strip_bom(bytes: Vec<u8>) -> (r: Vec<u8>)
    ensures
        r@ == (if has_bom(bytes@) {
            bytes@.skip(3)
        } else {
            bytes@
        }),
{
    if bytes.len() >= 3 && bytes[0] == 0xEF && bytes[1] == 0xBB && bytes[2] == 0xBF {
        let mut head = bytes;
        let rest = head.split_off(3);
        assert(rest@ =~= bytes@.skip(3));
        rest
    } else {
        bytes
    }
}

/// The text that reports a failed change of permissions.
pub fn chmod_error(path: &str) -> (r: String)
    ensures
        r@ == "Can't set permissions of \""@ + path@ + "\""@,
{
    concat3("Can't set permissions of \"", path, "\"")
}

/// The text that reports a failed renaming.
pub fn rename_error(from: &str, to: &str) -> (r: String)
    ensures
        r@ == "Can't rename file/folder from \""@ + from@ + "\" to \""@ + to@ + "\""@,
{
    let mut out = concat3("Can't rename file/folder from \"", from, "\" to \"");
    out.append(to);
    out.append("\"");
    out
}

} // verus!
