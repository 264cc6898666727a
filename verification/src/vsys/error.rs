//! The errors of the virtual system layer, and the form in which they
//! cross a C boundary.

use vstd::prelude::*;
use crate::text::{concat, concat3, contains_char};

verus! {

/// The decimal text of an integer: its digits, behind a `-` where it is
/// negative.
pub open spec fn decimal(n: int) -> Seq<char> {
    crate::text::decimal_text(n)
}

/// `i32`'s `to_string`: the decimal text of the number, which is its
/// digits without leading zeros, behind a `-` where it is negative.
#[verifier::external_body]
pub(crate) fn int_text(n: i32) -> (r: String)
    ensures
        r@ == decimal(n as int),
{
    n.to_string()
}

/// What went wrong in an operation of the layer.
#[derive(Debug, Clone, PartialEq, Eq)]
pub enum VsysError {
    /// An error of the underlying system, by its text.
    Io(String),
    PermissionDenied(String),
    NotFound(String),
    /// The operation is not supported by this implementation.
    NotSupported(String),
    InvalidArgument(String),
    ModuleResolution { specifier: String, message: String },
    ModuleLoad { path: String, message: String },
    Custom { code: i32, message: String },
}

/// What an operation of the layer gives.
pub type VsysResult<T> = Result<T, VsysError>;

/// The kinds of system error that the layer tells apart.
#[derive(Debug, Clone, Copy, PartialEq, Eq)]
pub enum IoKind {
    NotFound,
    PermissionDenied,
    Other,
}

/// The text that describes the error.
pub open spec fn described(e: VsysError) -> Seq<char> {
    match e {
        VsysError::Io(m) => "I/O error: "@ + m@,
        VsysError::PermissionDenied(m) => "Permission denied: "@ + m@,
        VsysError::NotFound(m) => "Not found: "@ + m@,
        VsysError::NotSupported(m) => "Not supported: "@ + m@,
        VsysError::InvalidArgument(m) => "Invalid argument: "@ + m@,
        VsysError::ModuleResolution { specifier, message } => "Cannot resolve module '"@
            + specifier@ + "': "@ + message@,
        VsysError::ModuleLoad { path, message } => "Cannot load module '"@ + path@ + "': "@
            + message@,
        VsysError::Custom { code, message } => "Error (code "@ + decimal(code as int) + "): "@
            + message@,
    }
}

/// The number under which the error crosses a C boundary.
pub open spec fn code_of(e: VsysError) -> int {
    match e {
        VsysError::Io(_) => -1,
        VsysError::PermissionDenied(_) => -2,
        VsysError::NotFound(_) => -3,
        VsysError::NotSupported(_) => -4,
        VsysError::InvalidArgument(_) => -5,
        VsysError::ModuleResolution { .. } => -6,
        VsysError::ModuleLoad { .. } => -7,
        VsysError::Custom { code, .. } => code as int,
    }
}

impl VsysError {
    /// The text that describes the error.
    pub fn message(&self) -> (r: String)
        ensures
            r@ == described(*self),
    {
        match self {
            VsysError::Io(m) => concat("I/O error: ", m.as_str()),
            VsysError::PermissionDenied(m) => concat("Permission denied: ", m.as_str()),
            VsysError::NotFound(m) => concat("Not found: ", m.as_str()),
            VsysError::NotSupported(m) => concat("Not supported: ", m.as_str()),
            VsysError::InvalidArgument(m) => concat("Invalid argument: ", m.as_str()),
            VsysError::ModuleResolution { specifier, message } => {
                let mut out = concat3("Cannot resolve module '", specifier.as_str(), "': ");
                out.append(message.as_str());
                out
            },
            VsysError::ModuleLoad { path, message } => {
                let mut out = concat3("Cannot load module '", path.as_str(), "': ");
                out.append(message.as_str());
                out
            },
            VsysError::Custom { code, message } => {
                let number = int_text(*code);
                let mut out = concat3("Error (code ", number.as_str(), "): ");
                out.append(message.as_str());
                out
            },
        }
    }

    /// The error for a failure of the underlying system: a missing file
    /// and a refused access keep their kind, everything else is an I/O error.
    pub fn from_io(kind: IoKind, text: String) -> (r: Self)
        ensures
            r == (match kind {
                IoKind::NotFound => VsysError::NotFound(text),
                IoKind::PermissionDenied => VsysError::PermissionDenied(text),
                IoKind::Other => VsysError::Io(text),
            }),
    {
        match kind {
            IoKind::NotFound => VsysError::NotFound(text),
            IoKind::PermissionDenied => VsysError::PermissionDenied(text),
            IoKind::Other => VsysError::Io(text),
        }
    }
}

/// An error in the form in which it crosses a C boundary: a number, and a
/// text that holds no NUL character.
#[derive(Debug, Clone, PartialEq, Eq)]
pub struct CVsysError {
    pub code: i32,
    /// The text; none for success.
    pub message: Option<String>,
}

/// The text that crosses the boundary for `text`: the text itself unless it
/// holds a NUL character, which a C string cannot hold.
pub open spec fn c_text(text: Seq<char>) -> Seq<char> {
    if text.contains('\0') {
        "Unknown error"@
    } else {
        text
    }
}

impl CVsysError {
    /// The code of success.
    pub const OK: i32 = 0;

    /// The code of an error of the underlying system.
    pub const ERR_IO: i32 = -1;

    /// The code of a denied permission.
    pub const ERR_PERMISSION_DENIED: i32 = -2;

    /// The code of something that was not found.
    pub const ERR_NOT_FOUND: i32 = -3;

    /// The code of an operation that is not supported.
    pub const ERR_NOT_SUPPORTED: i32 = -4;

    /// The code of an invalid argument.
    pub const ERR_INVALID_ARGUMENT: i32 = -5;

    /// The code of a module that could not be resolved.
    pub const ERR_MODULE_RESOLUTION: i32 = -6;

    /// The code of a module that could not be loaded.
    pub const ERR_MODULE_LOAD: i32 = -7;

    /// Success: the code `OK` and no text.
    pub fn ok() -> (r: Self)
        ensures
            r.code == 0,
            r.message is None,
    {
        CVsysError { code: Self::OK, message: None }
    }

    /// The error in its C form: the code of its kind (its own code for a
    /// custom error) and its description.
    pub fn from_error(e: &VsysError) -> (r: Self)
        ensures
            r.code == code_of(*e),
            r.message matches Some(text) && text@ == c_text(described(*e)),
    {
        let code = match e {
            VsysError::Io(_) => Self::ERR_IO,
            VsysError::PermissionDenied(_) => Self::ERR_PERMISSION_DENIED,
            VsysError::NotFound(_) => Self::ERR_NOT_FOUND,
            VsysError::NotSupported(_) => Self::ERR_NOT_SUPPORTED,
            VsysError::InvalidArgument(_) => Self::ERR_INVALID_ARGUMENT,
            VsysError::ModuleResolution { .. } => Self::ERR_MODULE_RESOLUTION,
            VsysError::ModuleLoad { .. } => Self::ERR_MODULE_LOAD,
            VsysError::Custom { code, .. } => *code,
        };
        let text = e.message();
        let text = if contains_char(text.as_str(), '\0') {
            String::from_str("Unknown error")
        } else {
            text
        };
        CVsysError { code, message: Some(text) }
    }
}

} // verus!
