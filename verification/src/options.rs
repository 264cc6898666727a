//! The options of the filesystem calls that scripts make.

use vstd::prelude::*;

verus! {

/// How a file is read.
pub struct ReadFileOptions {
    pub encoding: Option<String>,
}

/// How a file is written.
pub struct WriteFileOptions {
    pub mode: Option<u32>,
}

/// How a directory is made.
pub struct MkdirOptions {
    pub recursive: bool,
    pub mode: Option<u32>,
}

impl Default for MkdirOptions {
    fn default() -> (r: Self)
        ensures
            !r.recursive,
            r.mode is None,
    {
        MkdirOptions { recursive: false, mode: None }
    }
}

/// How a directory is listed.
pub struct ReaddirOptions {
    pub with_file_types: bool,
}

impl Default for ReaddirOptions {
    fn default() -> (r: Self)
        ensures
            !r.with_file_types,
    {
        ReaddirOptions { with_file_types: false }
    }
}

/// How a file or directory is removed.
pub struct RmOptions {
    pub recursive: bool,
    pub force: bool,
}

impl Default for RmOptions {
    fn default() -> (r: Self)
        ensures
            !r.recursive,
            !r.force,
    {
        RmOptions { recursive: false, force: false }
    }
}

/// Where a line of the console goes.
#[derive(Debug, Clone, PartialEq, Eq)]
pub enum LogType {
    Stdio,
    Trace,
}

} // verus!
