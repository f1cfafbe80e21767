//! Typed errors of the file system.
use vstd::prelude::*;
use crate::text::{concat2, concat3, decimal, decimal_text};
use crate::uri::{display, UriView, VfsUri};

verus! {

/// What can go wrong in an operation of the file system.
#[derive(Debug)]
pub enum VfsError {
    NotFound(VfsUri),
    AlreadyExists(VfsUri),
    PermissionDenied(VfsUri),
    NotADirectory(VfsUri),
    IsADirectory(VfsUri),
    DirectoryNotEmpty(VfsUri),
    InvalidUri(String),
    InvalidTarget(String),
    NoProvider(String),
    NotSupported { capability: String },
    Cancelled,
    TooLarge { limit: u64 },
    Io { message: String },
    Provider { code: String, message: String },
}

/// An error with its uris and texts as sequences.
pub enum ErrorView {
    NotFound(UriView),
    AlreadyExists(UriView),
    PermissionDenied(UriView),
    NotADirectory(UriView),
    IsADirectory(UriView),
    DirectoryNotEmpty(UriView),
    InvalidUri(Seq<char>),
    InvalidTarget(Seq<char>),
    NoProvider(Seq<char>),
    NotSupported { capability: Seq<char> },
    Cancelled,
    TooLarge { limit: u64 },
    Io { message: Seq<char> },
    Provider { code: Seq<char>, message: Seq<char> },
}

impl View for VfsError {
    type V = ErrorView;

    open spec fn view(&self) -> ErrorView {
        match self {
            VfsError::NotFound(u) => ErrorView::NotFound(u@),
            VfsError::AlreadyExists(u) => ErrorView::AlreadyExists(u@),
            VfsError::PermissionDenied(u) => ErrorView::PermissionDenied(u@),
            VfsError::NotADirectory(u) => ErrorView::NotADirectory(u@),
            VfsError::IsADirectory(u) => ErrorView::IsADirectory(u@),
            VfsError::DirectoryNotEmpty(u) => ErrorView::DirectoryNotEmpty(u@),
            VfsError::InvalidUri(s) => ErrorView::InvalidUri(s@),
            VfsError::InvalidTarget(s) => ErrorView::InvalidTarget(s@),
            VfsError::NoProvider(s) => ErrorView::NoProvider(s@),
            VfsError::NotSupported { capability } => ErrorView::NotSupported {
                capability: capability@,
            },
            VfsError::Cancelled => ErrorView::Cancelled,
            VfsError::TooLarge { limit } => ErrorView::TooLarge { limit: *limit },
            VfsError::Io { message } => ErrorView::Io { message: message@ },
            VfsError::Provider { code, message } => ErrorView::Provider {
                code: code@,
                message: message@,
            },
        }
    }
}

impl Clone for VfsError {
    fn clone(&self) -> (r: VfsError)
        ensures
            r@ == self@,
    {
        match self {
            VfsError::NotFound(u) => VfsError::NotFound(u.clone()),
            VfsError::AlreadyExists(u) => VfsError::AlreadyExists(u.clone()),
            VfsError::PermissionDenied(u) => VfsError::PermissionDenied(u.clone()),
            VfsError::NotADirectory(u) => VfsError::NotADirectory(u.clone()),
            VfsError::IsADirectory(u) => VfsError::IsADirectory(u.clone()),
            VfsError::DirectoryNotEmpty(u) => VfsError::DirectoryNotEmpty(u.clone()),
            VfsError::InvalidUri(s) => VfsError::InvalidUri(s.clone()),
            VfsError::InvalidTarget(s) => VfsError::InvalidTarget(s.clone()),
            VfsError::NoProvider(s) => VfsError::NoProvider(s.clone()),
            VfsError::NotSupported { capability } => VfsError::NotSupported {
                capability: capability.clone(),
            },
            VfsError::Cancelled => VfsError::Cancelled,
            VfsError::TooLarge { limit } => VfsError::TooLarge { limit: *limit },
            VfsError::Io { message } => VfsError::Io { message: message.clone() },
            VfsError::Provider { code, message } => VfsError::Provider {
                code: code.clone(),
                message: message.clone(),
            },
        }
    }
}

impl ErrorView {
    /// The stable code of an error, by which clients tell errors apart.
    pub open spec fn code(self) -> Seq<char> {
        match self {
            ErrorView::NotFound(_) => "not_found"@,
            ErrorView::AlreadyExists(_) => "already_exists"@,
            ErrorView::PermissionDenied(_) => "permission_denied"@,
            ErrorView::NotADirectory(_) => "not_a_directory"@,
            ErrorView::IsADirectory(_) => "is_a_directory"@,
            ErrorView::DirectoryNotEmpty(_) => "directory_not_empty"@,
            ErrorView::InvalidUri(_) => "invalid_uri"@,
            ErrorView::InvalidTarget(_) => "invalid_target"@,
            ErrorView::NoProvider(_) => "no_provider"@,
            ErrorView::NotSupported { .. } => "not_supported"@,
            ErrorView::Cancelled => "cancelled"@,
            ErrorView::TooLarge { .. } => "too_large"@,
            ErrorView::Io { .. } => "io"@,
            ErrorView::Provider { .. } => "provider"@,
        }
    }

    /// The uri that an error is about, where it is about one.
    pub open spec fn uri(self) -> Option<UriView> {
        match self {
            ErrorView::NotFound(u) => Some(u),
            ErrorView::AlreadyExists(u) => Some(u),
            ErrorView::PermissionDenied(u) => Some(u),
            ErrorView::NotADirectory(u) => Some(u),
            ErrorView::IsADirectory(u) => Some(u),
            ErrorView::DirectoryNotEmpty(u) => Some(u),
            _ => None,
        }
    }

    /// The message of an error.
    pub open spec fn message(self) -> Seq<char> {
        match self {
            ErrorView::NotFound(u) => "not found: "@ + display(u),
            ErrorView::AlreadyExists(u) => "already exists: "@ + display(u),
            ErrorView::PermissionDenied(u) => "permission denied: "@ + display(u),
            ErrorView::NotADirectory(u) => "not a directory: "@ + display(u),
            ErrorView::IsADirectory(u) => "is a directory: "@ + display(u),
            ErrorView::DirectoryNotEmpty(u) => "directory not empty: "@ + display(u),
            ErrorView::InvalidUri(s) => "invalid uri: "@ + s,
            ErrorView::InvalidTarget(s) => "invalid target: "@ + s,
            ErrorView::NoProvider(s) => "no provider for scheme: "@ + s,
            ErrorView::NotSupported { capability } => "not supported: "@ + capability,
            ErrorView::Cancelled => "cancelled"@,
            ErrorView::TooLarge { limit } => "too large: limit is "@ + decimal(limit as nat)
                + " bytes"@,
            ErrorView::Io { message } => "io error: "@ + message,
            ErrorView::Provider { code, message } => "provider error ["@ + code + "]: "@ + message,
        }
    }
}

/// The kinds of i/o failure that have an error of their own.
#[derive(Clone, Copy, Debug, PartialEq, Eq, Structural)]
pub enum IoKind {
    NotFound,
    PermissionDenied,
    AlreadyExists,
    DirectoryNotEmpty,
    Other,
}

/// An i/o failure as the platform reported it.
#[derive(Debug)]
pub struct IoFailure {
    pub kind: IoKind,
    /// The code of the operating system, where there is one.
    pub raw_os_error: Option<i32>,
    /// Whether the codes of the operating system are those of a unix.
    pub unix: bool,
    pub message: String,
}

/// The unix code of "directory not empty".
pub const ENOTEMPTY: i32 = 39;

/// The error for an i/o failure in an operation on `uri`.  Some platforms
/// report a directory that is not empty by its code alone.
pub open spec fn io_error(e: IoFailure, uri: UriView) -> ErrorView {
    match e.kind {
        IoKind::NotFound => ErrorView::NotFound(uri),
        IoKind::PermissionDenied => ErrorView::PermissionDenied(uri),
        IoKind::AlreadyExists => ErrorView::AlreadyExists(uri),
        IoKind::DirectoryNotEmpty => ErrorView::DirectoryNotEmpty(uri),
        IoKind::Other => if e.unix && e.raw_os_error == Some(ENOTEMPTY) {
            ErrorView::DirectoryNotEmpty(uri)
        } else {
            ErrorView::Io { message: e.message@ }
        },
    }
}

impl VfsError {
    /// The stable code of the error, by which clients tell errors apart.
    pub fn code(&self) -> (r: &'static str)
        ensures
            r@ == self@.code(),
    {
        match self {
            VfsError::NotFound(_) => "not_found",
            VfsError::AlreadyExists(_) => "already_exists",
            VfsError::PermissionDenied(_) => "permission_denied",
            VfsError::NotADirectory(_) => "not_a_directory",
            VfsError::IsADirectory(_) => "is_a_directory",
            VfsError::DirectoryNotEmpty(_) => "directory_not_empty",
            VfsError::InvalidUri(_) => "invalid_uri",
            VfsError::InvalidTarget(_) => "invalid_target",
            VfsError::NoProvider(_) => "no_provider",
            VfsError::NotSupported { .. } => "not_supported",
            VfsError::Cancelled => "cancelled",
            VfsError::TooLarge { .. } => "too_large",
            VfsError::Io { .. } => "io",
            VfsError::Provider { .. } => "provider",
        }
    }

    /// The uri that the error is about, where it is about one.
    pub fn uri(&self) -> (r: Option<&VfsUri>)
        ensures
            r is Some == self@.uri() is Some,
            r matches Some(u) ==> self@.uri() == Some(u@),
    {
        match self {
            VfsError::NotFound(u) => Some(u),
            VfsError::AlreadyExists(u) => Some(u),
            VfsError::PermissionDenied(u) => Some(u),
            VfsError::NotADirectory(u) => Some(u),
            VfsError::IsADirectory(u) => Some(u),
            VfsError::DirectoryNotEmpty(u) => Some(u),
            _ => None,
        }
    }

    /// The error for an i/o failure met while operating on `uri`.
    pub fn from_io(err: IoFailure, uri: &VfsUri) -> (r: VfsError)
        ensures
            r@ == io_error(err, uri@),
    {
        match err.kind {
            IoKind::NotFound => VfsError::NotFound(uri.clone()),
            IoKind::PermissionDenied => VfsError::PermissionDenied(uri.clone()),
            IoKind::AlreadyExists => VfsError::AlreadyExists(uri.clone()),
            IoKind::DirectoryNotEmpty => VfsError::DirectoryNotEmpty(uri.clone()),
            IoKind::Other => {
                let not_empty = match err.raw_os_error {
                    Some(code) => err.unix && code == ENOTEMPTY,
                    None => false,
                };
                if not_empty {
                    VfsError::DirectoryNotEmpty(uri.clone())
                } else {
                    VfsError::Io { message: err.message }
                }
            },
        }
    }

    /// The message of the error.
    pub fn to_string(&self) -> (r: String)
        ensures
            r@ == self@.message(),
    {
        match self {
            VfsError::NotFound(u) => concat2("not found: ", u.to_string().as_str()),
            VfsError::AlreadyExists(u) => concat2("already exists: ", u.to_string().as_str()),
            VfsError::PermissionDenied(u) => concat2("permission denied: ", u.to_string().as_str()),
            VfsError::NotADirectory(u) => concat2("not a directory: ", u.to_string().as_str()),
            VfsError::IsADirectory(u) => concat2("is a directory: ", u.to_string().as_str()),
            VfsError::DirectoryNotEmpty(u) => concat2(
                "directory not empty: ",
                u.to_string().as_str(),
            ),
            VfsError::InvalidUri(s) => concat2("invalid uri: ", s.as_str()),
            VfsError::InvalidTarget(s) => concat2("invalid target: ", s.as_str()),
            VfsError::NoProvider(s) => concat2("no provider for scheme: ", s.as_str()),
            VfsError::NotSupported { capability } => concat2(
                "not supported: ",
                capability.as_str(),
            ),
            VfsError::Cancelled => "cancelled".to_owned(),
            VfsError::TooLarge { limit } => concat3(
                "too large: limit is ",
                decimal_text(*limit).as_str(),
                " bytes",
            ),
            VfsError::Io { message } => concat2("io error: ", message.as_str()),
            VfsError::Provider { code, message } => {
                let head = concat3("provider error [", code.as_str(), "]: ");
                concat2(head.as_str(), message.as_str())
            },
        }
    }
}

/// The view of a result that may hold an error.
pub open spec fn unit_view(r: Result<(), VfsError>) -> Result<(), ErrorView> {
    match r {
        Ok(()) => Ok(()),
        Err(e) => Err(e@),
    }
}

} // verus!
