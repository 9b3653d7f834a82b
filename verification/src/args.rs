//! What the launcher is told on the command line.

use vstd::prelude::*;
use crate::text::chars_of;
use crate::text::parse_usize;
use crate::text::piece;
use crate::text::split;
use crate::text::split_ranges;
use crate::text::usize_of;

verus! {

/// A memory unit asked for on the command line.
#[derive(Debug, Clone)]
pub enum MemoryInput {
    /// A buffer of `size` bytes in memory.
    Virtual { size: usize },
    /// A file at `path`, mapped with at least `size` bytes.
    FileMap { size: usize, path: String },
}

/// The text does not describe a memory unit.
#[derive(Debug)]
pub struct NotAValidMemoryError;

/// The arguments of the launcher.
pub struct Args {
    /// The shared memory units, in the order of their indices.
    pub memory: Vec<MemoryInput>,
    /// Names of the libraries of foreign functions, in the order of search.
    pub library: Vec<String>,
    /// The assembly files to run, each as a program of its own.
    pub files: Vec<String>,
}

impl MemoryInput {
    /// What a text asks for: a size alone is a buffer in memory; a size, a
    /// colon and a path is a mapped file, whose path ends before a second
    /// colon. `None` for any other text.
    pub open spec fn described(text: Seq<char>) -> Option<(usize, Option<Seq<char>>)> {
        match usize_of(text) {
            Some(size) => Some((size, None)),
            None => {
                let pieces = split(text, ':');
                if pieces.len() >= 2 {
                    match usize_of(pieces[0]) {
                        Some(size) => Some((size, Some(pieces[1]))),
                        None => None,
                    }
                } else {
                    None
                }
            },
        }
    }

    /// Reads a memory unit from `SIZE` or `SIZE:PATH`, see [`MemoryInput::described`].
    pub fn from_str(s: &str) -> (unit: Result<MemoryInput, NotAValidMemoryError>)
        ensures
            match Self::described(s@) {
                Some((size, None)) => unit matches Ok(MemoryInput::Virtual { size: given })
                    && given == size,
                Some((size, Some(path))) => unit matches Ok(
                    MemoryInput::FileMap { size: given, path: file },
                ) && given == size && file@ == path,
                None => unit is Err,
            },
    {
        let chars = chars_of(s);
        match parse_usize(chars.as_slice()) {
            Some(size) => {
                return Ok(MemoryInput::Virtual { size });
            },
            None => {},
        }
        let ranges = split_ranges(chars.as_slice(), ':');
        if ranges.len() < 2 {
            return Err(NotAValidMemoryError);
        }
        let first = ranges[0];
        let second = ranges[1];
        let head = vstd::slice::slice_subrange(chars.as_slice(), first.0, first.1);
        match parse_usize(head) {
            Some(size) => Ok(MemoryInput::FileMap { size, path: piece(s, second.0, second.1) }),
            None => Err(NotAValidMemoryError),
        }
    }
}

} // verus!
