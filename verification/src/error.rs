//! Protocol error strings for I/O failures.

use vstd::prelude::*;

verus! {

/// Protocol error string for hash mismatch.
pub fn hash_mismatch() -> (s: &'static str)
    ensures
        s@ == "HASH_MISMATCH"@,
{
    "HASH_MISMATCH"
}

/// The kinds of I/O failure that the protocol reports.
#[derive(Debug, Clone, Copy, PartialEq, Eq, Structural)]
pub enum IoErrorKind {
    FileNotFound,
    PermissionDenied,
    InvalidUtf8,
    ReadFailure,
    WriteFailure,
}

/// The cause of a failed file-system operation, as the operating system
/// reported it.
#[derive(Debug, Clone, Copy, PartialEq, Eq, Structural)]
pub enum IoErrorCause {
    NotFound,
    PermissionDenied,
    Other,
}

/// The protocol string of an I/O failure kind.
pub open spec fn io_error_text(kind: IoErrorKind) -> Seq<char> {
    match kind {
        IoErrorKind::FileNotFound => "IO_ERROR: file not found"@,
        IoErrorKind::PermissionDenied => "IO_ERROR: permission denied"@,
        IoErrorKind::InvalidUtf8 => "IO_ERROR: invalid UTF-8"@,
        IoErrorKind::ReadFailure => "IO_ERROR: read failure"@,
        IoErrorKind::WriteFailure => "IO_ERROR: write failure"@,
    }
}

/// Every I/O failure is reported with the `IO_ERROR:` prefix.
pub proof fn lemma_io_error_prefix(kind: IoErrorKind)
    ensures
        io_error_text(kind).len() >= 9,
        io_error_text(kind).subrange(0, 9) == "IO_ERROR:"@,
{
    reveal_strlit("IO_ERROR:");
    reveal_strlit("IO_ERROR: file not found");
    reveal_strlit("IO_ERROR: permission denied");
    reveal_strlit("IO_ERROR: invalid UTF-8");
    reveal_strlit("IO_ERROR: read failure");
    reveal_strlit("IO_ERROR: write failure");
    assert(io_error_text(kind).subrange(0, 9) =~= "IO_ERROR:"@);
}

/// The kind reported for a failed file-system operation on the buffer:
/// a missing file or a refused permission as such, anything else as a
/// write failure.
pub open spec fn buffer_failure_kind(cause: IoErrorCause) -> IoErrorKind {
    match cause {
        IoErrorCause::NotFound => IoErrorKind::FileNotFound,
        IoErrorCause::PermissionDenied => IoErrorKind::PermissionDenied,
        IoErrorCause::Other => IoErrorKind::WriteFailure,
    }
}

/// Computes `buffer_failure_kind`.
pub fn buffer_failure(cause: IoErrorCause) -> (kind: IoErrorKind)
    ensures
        kind == buffer_failure_kind(cause),
{
    match cause {
        IoErrorCause::NotFound => IoErrorKind::FileNotFound,
        IoErrorCause::PermissionDenied => IoErrorKind::PermissionDenied,
        IoErrorCause::Other => IoErrorKind::WriteFailure,
    }
}

/// The protocol string of an I/O failure kind.
pub fn io_error(kind: IoErrorKind) -> (s: String)
    ensures
        s@ == io_error_text(kind),
{
    match kind {
        IoErrorKind::FileNotFound => String::from_str("IO_ERROR: file not found"),
        IoErrorKind::PermissionDenied => String::from_str("IO_ERROR: permission denied"),
        IoErrorKind::InvalidUtf8 => String::from_str("IO_ERROR: invalid UTF-8"),
        IoErrorKind::ReadFailure => String::from_str("IO_ERROR: read failure"),
        IoErrorKind::WriteFailure => String::from_str("IO_ERROR: write failure"),
    }
}

/// Map the cause of a failed read to the reported kind.
pub fn map_io_error_read(cause: IoErrorCause) -> (kind: IoErrorKind)
    ensures
        kind == match cause {
            IoErrorCause::NotFound => IoErrorKind::FileNotFound,
            IoErrorCause::PermissionDenied => IoErrorKind::PermissionDenied,
            IoErrorCause::Other => IoErrorKind::ReadFailure,
        },
{
    match cause {
        IoErrorCause::NotFound => IoErrorKind::FileNotFound,
        IoErrorCause::PermissionDenied => IoErrorKind::PermissionDenied,
        IoErrorCause::Other => IoErrorKind::ReadFailure,
    }
}

/// Map the cause of a failed write to the reported kind.
pub fn map_io_error_write(cause: IoErrorCause) -> (kind: IoErrorKind)
    ensures
        kind == match cause {
            IoErrorCause::PermissionDenied => IoErrorKind::PermissionDenied,
            _ => IoErrorKind::WriteFailure,
        },
{
    match cause {
        IoErrorCause::PermissionDenied => IoErrorKind::PermissionDenied,
        _ => IoErrorKind::WriteFailure,
    }
}

} // verus!
