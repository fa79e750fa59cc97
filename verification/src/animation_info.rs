//! The number of frames of the animation, as the configuration gives it or as a command
//! prints it.

use crate::config::FrameCountSource;
use crate::text::{parse_usize, parsed_number, trim, trimmed};
use vstd::prelude::*;

verus! {

/// What a command that was run to the end left behind.
#[derive(Debug, Clone, PartialEq, Eq)]
pub struct CommandOutput {
    /// Whether the command ended with exit code zero.
    pub success: bool,
    /// What the command printed.
    pub stdout: String,
}

/// Why a command did not give the number of frames.
#[derive(Debug, Clone, Copy, PartialEq, Eq)]
pub enum FrameCountError {
    /// The command ended with an exit code other than zero.
    NonZeroExit,
    /// What the command printed is not a number that fits.
    NotANumber,
}

/// The number that the output of a command stands for: its text, without the white space
/// around it, read as a decimal number.
pub open spec fn printed_count(stdout: Seq<char>) -> Option<usize> {
    match parsed_number(trimmed(stdout)) {
        Some(value) => if value <= usize::MAX {
            Some(value as usize)
        } else {
            None
        },
        None => None,
    }
}

/// The number of frames that a source gives, where `output` is what its command left
/// behind. A hardcoded number needs no command.
pub open spec fn resolved(source: FrameCountSource, output: CommandOutput) -> Result<
    usize,
    FrameCountError,
> {
    match source {
        FrameCountSource::Hardcoded { hardcoded } => Ok(hardcoded),
        FrameCountSource::Command { .. } => if !output.success {
            Err(FrameCountError::NonZeroExit)
        } else {
            match printed_count(output.stdout@) {
                Some(count) => Ok(count),
                None => Err(FrameCountError::NotANumber),
            }
        },
    }
}

/// Reads the number of frames from the output of a command.
pub fn read_frame_count(output: &CommandOutput) -> (count: Result<usize, FrameCountError>)
    ensures
        count == (if !output.success {
            Err::<usize, FrameCountError>(FrameCountError::NonZeroExit)
        } else {
            match printed_count(output.stdout@) {
                Some(count) => Ok::<usize, FrameCountError>(count),
                None => Err::<usize, FrameCountError>(FrameCountError::NotANumber),
            }
        }),
{
    if !output.success {
        return Err(FrameCountError::NonZeroExit);
    }
    let text = trim(output.stdout.as_str());
    match parse_usize(text.as_str()) {
        Some(count) => Ok(count),
        None => Err(FrameCountError::NotANumber),
    }
}

impl FrameCountSource {
    /// The number of frames where the configuration holds it; `None` where a command has
    /// to be run for it.
    pub fn hardcoded(&self) -> (count: Option<usize>)
        ensures
            count == (match *self {
                FrameCountSource::Hardcoded { hardcoded } => Some(hardcoded),
                FrameCountSource::Command { .. } => None::<usize>,
            }),
    {
        match self {
            FrameCountSource::Hardcoded { hardcoded } => Some(*hardcoded),
            FrameCountSource::Command { .. } => None,
        }
    }

    /// Gives the number of frames, with what the command of the source left behind.
    pub fn resolve(&self, output: &CommandOutput) -> (count: Result<usize, FrameCountError>)
        ensures
            count == resolved(*self, *output),
    {
        match self {
            FrameCountSource::Hardcoded { hardcoded } => Ok(*hardcoded),
            FrameCountSource::Command { .. } => read_frame_count(output),
        }
    }
}

} // verus!
