//! The reasons for which an entry, a folder or an event is given up.

use vstd::prelude::*;

verus! {

/// Why a name was rejected, a path could not be derived or a step failed.
#[derive(Clone, Copy, Debug, PartialEq, Eq, Structural)]
pub enum ClipError {
    /// The text does not spell a calendar time as `YYYY-MM-DD_HH-MM-SS`.
    TimestampParse,
    /// A file name does not have the shape `<timestamp>-<token>.mp4`.
    FilenameGrammar,
    /// The token of a file name is none of the four camera tokens.
    UnknownCameraToken,
    /// Listing, reading metadata, writing, renaming or deleting failed.
    Filesystem,
    /// The video tool could not be started or reported failure.
    ExternalTool,
    /// No target path can be derived, as for a folder without a parent.
    PathConstruction,
}

impl ClipError {
    /// A short sentence for logs.
    pub fn message(&self) -> (r: &'static str)
        ensures
            r@ == self.message_text(),
    {
        match self {
            ClipError::TimestampParse => "the text is not a timestamp",
            ClipError::FilenameGrammar => "the file name does not follow the clip grammar",
            ClipError::UnknownCameraToken => "the file name names no known camera",
            ClipError::Filesystem => "the file system refused the operation",
            ClipError::ExternalTool => "the video tool failed",
            ClipError::PathConstruction => "no target path can be derived",
        }
    }

    /// The sentence that [`ClipError::message`] returns.
    pub open spec fn message_text(self) -> Seq<char> {
        match self {
            ClipError::TimestampParse => "the text is not a timestamp"@,
            ClipError::FilenameGrammar => "the file name does not follow the clip grammar"@,
            ClipError::UnknownCameraToken => "the file name names no known camera"@,
            ClipError::Filesystem => "the file system refused the operation"@,
            ClipError::ExternalTool => "the video tool failed"@,
            ClipError::PathConstruction => "no target path can be derived"@,
        }
    }
}

} // verus!
