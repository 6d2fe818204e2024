//! Types shared by every section: the file format version, integers,
//! positions, errors with a line number, and the versioned conversion traits.
use vstd::prelude::*;

use crate::text::{chars_of, string_from_chars};

verus! {

/// Version of the `.osu` file format.
pub type Version = usize;

/// Integer type used for most numeric values of the format.
pub type Integer = i32;

/// Oldest file format version the library reads.
pub const MIN_VERSION: usize = 3;

/// Newest file format version the library reads.
pub const LATEST_VERSION: usize = 14;

/// A position on the playfield.
#[derive(Clone, Copy, Debug, Default, PartialEq, Eq, Hash)]
pub struct Position {
    /// Horizontal coordinate.
    pub x: Integer,
    /// Vertical coordinate.
    pub y: Integer,
}

/// An error together with the index of the line where it was found.
#[derive(Clone, Debug, PartialEq, Eq, Hash)]
pub struct Error<E> {
    /// Index of the line where the error happened, counted from the start of
    /// the input given to the parser.
    pub line_index: usize,
    /// What went wrong.
    pub error: E,
}

impl<E> Error<E> {
    /// Creates an error found on the given line.
    pub fn new(error: E, line_index: usize) -> (r: Self)
        ensures
            r.error == error,
            r.line_index == line_index,
    {
        Error { line_index, error }
    }

    /// Index of the line where the error happened.
    pub fn line_index(&self) -> (r: usize)
        ensures
            r == self.line_index,
    {
        self.line_index
    }

    /// What went wrong.
    pub fn error(&self) -> (r: &E)
        ensures
            *r == self.error,
    {
        &self.error
    }
}

/// The view of an optional string.
pub open spec fn opt_text(o: Option<String>) -> Option<Seq<char>> {
    match o {
        Some(s) => Some(s@),
        None => None,
    }
}

/// Conversion of a value into the text it has in a given version of the
/// format; `None` where the value does not exist in that version.
pub trait VersionedToString: View + Sized {
    /// The text of a value, by its view.
    spec fn text_of(v: Self::V, version: Version) -> Option<Seq<char>>;

    /// The text of `self` in `version`, as characters.
    fn to_chars(&self, version: Version) -> (r: Option<Vec<char>>)
        ensures
            r is Some <==> Self::text_of(self@, version) is Some,
            r matches Some(c) ==> Self::text_of(self@, version) == Some(c@),
    ;

    /// The text of `self` in `version`.
    fn to_string(&self, version: Version) -> (r: Option<String>)
        ensures
            opt_text(r) == Self::text_of(self@, version),
    {
        match self.to_chars(version) {
            Some(c) => Some(string_from_chars(&c)),
            None => None,
        }
    }
}

/// The outcome of reading a value, by the views of what was read.
pub open spec fn parse_view<T: View, E>(r: Result<Option<T>, E>) -> Result<Option<T::V>, E> {
    match r {
        Ok(Some(x)) => Ok(Some(x@)),
        Ok(None) => Ok(None),
        Err(e) => Err(e),
    }
}

/// Reading a value from the text it has in a given version of the format;
/// `Ok(None)` where the value does not exist in that version.
pub trait VersionedFromStr: View + Sized {
    /// Error reading a value.
    type Err;

    /// What reading `s` gives, by the view of the value.
    spec fn parse_text(s: Seq<char>, version: Version) -> Result<Option<Self::V>, Self::Err>;

    /// Reads a value from characters.
    fn from_chars(s: &[char], version: Version) -> (r: Result<Option<Self>, Self::Err>)
        ensures
            parse_view(r) == Self::parse_text(s@, version),
    ;

    /// Reads a value from a string.
    fn from_str(s: &str, version: Version) -> (r: Result<Option<Self>, Self::Err>)
        ensures
            parse_view(r) == Self::parse_text(s@, version),
    {
        let c = chars_of(s);
        Self::from_chars(c.as_slice(), version)
    }
}

} // verus!
