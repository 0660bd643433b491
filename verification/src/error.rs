//! The flat set of outcomes that every operation of the core reports.

use vstd::prelude::*;

verus! {

/// Outcome of an operation. `Success` is the only non-failure.
#[derive(Clone, Copy, Debug, PartialEq, Eq, Structural)]
pub enum ErrorKind {
    /// Operation completed.
    Success,
    /// A required input was absent.
    NullPointer,
    /// Source file missing or unreadable.
    FileNotFound,
    /// Destination not writable.
    PermissionDenied,
    /// Write failed due to space exhaustion.
    DiskFull,
    /// Path could not be decoded or did not meet a type constraint.
    InvalidPath,
    /// Read or write failure not otherwise classified.
    IoFailed,
    /// Cancellation observed.
    Cancelled,
    /// Memory allocation failed.
    BufferAllocFailed,
    /// Key length is not 32.
    InvalidKeySize,
    /// Magic mismatch, version mismatch or truncated frame.
    InvalidFormat,
    /// The AEAD primitive failed while sealing.
    EncryptionFailed,
    /// The AEAD primitive failed while opening, tag mismatch included.
    DecryptionFailed,
}

impl ErrorKind {
    /// The integer that stands for this outcome at a host boundary:
    /// zero for success, a distinct negative number for each failure.
    pub open spec fn spec_code(self) -> int {
        match self {
            ErrorKind::Success => 0,
            ErrorKind::NullPointer => -1,
            ErrorKind::FileNotFound => -2,
            ErrorKind::PermissionDenied => -3,
            ErrorKind::DiskFull => -4,
            ErrorKind::InvalidPath => -5,
            ErrorKind::IoFailed => -6,
            ErrorKind::Cancelled => -7,
            ErrorKind::BufferAllocFailed => -8,
            ErrorKind::InvalidKeySize => -9,
            ErrorKind::InvalidFormat => -10,
            ErrorKind::EncryptionFailed => -11,
            ErrorKind::DecryptionFailed => -12,
        }
    }

    /// Host-facing integer code of this outcome.
    pub fn code(self) -> (c: i32)
        ensures
            c == self.spec_code(),
    {
        match self {
            ErrorKind::Success => 0,
            ErrorKind::NullPointer => -1,
            ErrorKind::FileNotFound => -2,
            ErrorKind::PermissionDenied => -3,
            ErrorKind::DiskFull => -4,
            ErrorKind::InvalidPath => -5,
            ErrorKind::IoFailed => -6,
            ErrorKind::Cancelled => -7,
            ErrorKind::BufferAllocFailed => -8,
            ErrorKind::InvalidKeySize => -9,
            ErrorKind::InvalidFormat => -10,
            ErrorKind::EncryptionFailed => -11,
            ErrorKind::DecryptionFailed => -12,
        }
    }

    /// The outcome that a host-facing integer stands for, if any.
    pub fn from_code(c: i32) -> (k: Option<ErrorKind>)
        ensures
            match k {
                Some(kind) => kind.spec_code() == c,
                None => forall|kind: ErrorKind| kind.spec_code() != c,
            },
    {
        if c == 0 {
            Some(ErrorKind::Success)
        } else if c == -1 {
            Some(ErrorKind::NullPointer)
        } else if c == -2 {
            Some(ErrorKind::FileNotFound)
        } else if c == -3 {
            Some(ErrorKind::PermissionDenied)
        } else if c == -4 {
            Some(ErrorKind::DiskFull)
        } else if c == -5 {
            Some(ErrorKind::InvalidPath)
        } else if c == -6 {
            Some(ErrorKind::IoFailed)
        } else if c == -7 {
            Some(ErrorKind::Cancelled)
        } else if c == -8 {
            Some(ErrorKind::BufferAllocFailed)
        } else if c == -9 {
            Some(ErrorKind::InvalidKeySize)
        } else if c == -10 {
            Some(ErrorKind::InvalidFormat)
        } else if c == -11 {
            Some(ErrorKind::EncryptionFailed)
        } else if c == -12 {
            Some(ErrorKind::DecryptionFailed)
        } else {
            None
        }
    }
}

} // verus!
