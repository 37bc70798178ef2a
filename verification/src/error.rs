//! Errors from loading content and parsing input.

use vstd::prelude::*;

verus! {

/// How reading a file's contents failed.
#[derive(Debug, Clone, Copy, PartialEq, Eq, Structural)]
pub enum IoFailure {
    /// The file ended before a fixed-size part of it was read.
    UnexpectedEof,
    /// A text file was not valid UTF-8.
    InvalidUtf8,
}

/// Errors from loading meshes and GIFs or parsing countdown durations.
#[derive(Debug)]
pub enum Error {
    /// Reading a file failed
    Io(IoFailure),
    /// The file extension isn't one zoa can load
    UnsupportedFormat(String),
    /// The file was read but its contents are invalid (or contain nothing to draw)
    InvalidData(String),
    /// A countdown duration string couldn't be parsed
    InvalidDuration(String),
}

} // verus!
