//! Error numbers of Linux, and which of them an error of the daemon becomes.

use crate::ipc::{IpcError, IpcErrorView};
use crate::text::same;
use vstd::prelude::*;

verus! {

/// Operation not permitted.
pub const EPERM: i32 = 1;

/// No such file or directory.
pub const ENOENT: i32 = 2;

/// Input/output error.
pub const EIO: i32 = 5;

/// Bad file descriptor.
pub const EBADF: i32 = 9;

/// Device or resource busy.
pub const EBUSY: i32 = 16;

/// File exists.
pub const EEXIST: i32 = 17;

/// Not a directory.
pub const ENOTDIR: i32 = 20;

/// Is a directory.
pub const EISDIR: i32 = 21;

/// Invalid argument.
pub const EINVAL: i32 = 22;

/// Result too large.
pub const ERANGE: i32 = 34;

/// Directory not empty.
pub const ENOTEMPTY: i32 = 39;

/// No data available.
pub const ENODATA: i32 = 61;

/// What an error becomes by default.
pub open spec fn errno_of(e: IpcErrorView) -> i32 {
    if e is Busy {
        EBUSY
    } else {
        EIO
    }
}

/// What an error becomes where a file is opened for its content: a file that
/// is gone is no I/O error.
pub open spec fn read_errno_of(e: IpcErrorView) -> i32 {
    if e == IpcErrorView::ServerError("not_found"@) {
        ENOENT
    } else {
        errno_of(e)
    }
}

/// What an error becomes where names are made, moved or removed.
pub open spec fn namespace_errno_of(e: IpcErrorView) -> i32 {
    match e {
        IpcErrorView::ServerError(why) => if why == "parent_not_found"@ || why == "unknown_path"@
            || why == "old_path_not_found"@ || why == "new_parent_not_found"@ {
            ENOENT
        } else if why == "path_is_folder"@ {
            EISDIR
        } else if why == "path_is_file"@ {
            ENOTDIR
        } else if why == "not_empty"@ {
            ENOTEMPTY
        } else if why == "path_exists"@ || why == "new_path_exists"@ {
            EEXIST
        } else {
            EIO
        },
        _ => errno_of(e),
    }
}

/// What an error becomes by default.
pub fn ipc_error_to_errno(e: &IpcError) -> (r: i32)
    ensures
        r == errno_of(e@),
{
    match e {
        IpcError::Busy => EBUSY,
        _ => EIO,
    }
}

/// What an error becomes where a file is opened for its content.
pub fn read_error_to_errno(e: &IpcError) -> (r: i32)
    ensures
        r == read_errno_of(e@),
{
    match e {
        IpcError::ServerError(why) => if same(why.as_str(), "not_found") {
            ENOENT
        } else {
            EIO
        },
        _ => ipc_error_to_errno(e),
    }
}

/// What an error becomes where names are made, moved or removed.
pub fn namespace_err_to_errno(e: &IpcError) -> (r: i32)
    ensures
        r == namespace_errno_of(e@),
{
    match e {
        IpcError::ServerError(msg) => {
            let why = msg.as_str();
            if same(why, "parent_not_found") || same(why, "unknown_path") || same(
                why,
                "old_path_not_found",
            ) || same(why, "new_parent_not_found") {
                ENOENT
            } else if same(why, "path_is_folder") {
                EISDIR
            } else if same(why, "path_is_file") {
                ENOTDIR
            } else if same(why, "not_empty") {
                ENOTEMPTY
            } else if same(why, "path_exists") || same(why, "new_path_exists") {
                EEXIST
            } else {
                EIO
            }
        },
        _ => ipc_error_to_errno(e),
    }
}

proof fn lemma_reasons()
    ensures
        "parent_not_found"@.len() == 16 && "parent_not_found"@[0] == 'p',
        "unknown_path"@.len() == 12 && "unknown_path"@[0] == 'u',
        "old_path_not_found"@.len() == 18,
        "new_parent_not_found"@.len() == 20,
        "path_is_folder"@.len() == 14,
        "path_is_file"@.len() == 12 && "path_is_file"@[0] == 'p',
        "not_empty"@.len() == 9 && "not_empty"@[4] == 'e',
        "path_exists"@.len() == 11,
        "new_path_exists"@.len() == 15,
{
    reveal_strlit("parent_not_found");
    reveal_strlit("unknown_path");
    reveal_strlit("old_path_not_found");
    reveal_strlit("new_parent_not_found");
    reveal_strlit("path_is_folder");
    reveal_strlit("path_is_file");
    reveal_strlit("not_empty");
    reveal_strlit("path_exists");
    reveal_strlit("new_path_exists");
}

/// Each error number comes of exactly these errors: 16 of a file in use; where
/// a file is opened for its content, 2 of one that is gone; where names are
/// made, moved or removed, 2, 17, 20, 21 and 39 of the reasons that say so; and
/// 5 of all else.
pub proof fn error_numbers_have_their_reasons(e: IpcErrorView)
    ensures
        errno_of(e) == 16 <==> e is Busy,
        errno_of(e) == 5 <==> !(e is Busy),
        read_errno_of(e) == 2 <==> e == IpcErrorView::ServerError("not_found"@),
        read_errno_of(e) == 16 <==> e is Busy,
        read_errno_of(e) == 5 <==> !(e is Busy) && e != IpcErrorView::ServerError("not_found"@),
        namespace_errno_of(e) == 16 <==> e is Busy,
        namespace_errno_of(e) == 2 <==> e == IpcErrorView::ServerError("parent_not_found"@) || e
            == IpcErrorView::ServerError("unknown_path"@) || e == IpcErrorView::ServerError(
            "old_path_not_found"@,
        ) || e == IpcErrorView::ServerError("new_parent_not_found"@),
        namespace_errno_of(e) == 17 <==> e == IpcErrorView::ServerError("path_exists"@) || e
            == IpcErrorView::ServerError("new_path_exists"@),
        namespace_errno_of(e) == 20 <==> e == IpcErrorView::ServerError("path_is_file"@),
        namespace_errno_of(e) == 21 <==> e == IpcErrorView::ServerError("path_is_folder"@),
        namespace_errno_of(e) == 39 <==> e == IpcErrorView::ServerError("not_empty"@),
        [2i32, 5, 16, 17, 20, 21, 39]@.contains(namespace_errno_of(e)),
{
    lemma_reasons();
    let all = [2i32, 5, 16, 17, 20, 21, 39]@;
    assert(all[0] == 2 && all[1] == 5 && all[2] == 16 && all[3] == 17 && all[4] == 20 && all[5]
        == 21 && all[6] == 39);
}

}
