//! Errors of the library, classified as the loader and the renderers need.
use vstd::prelude::*;

verus! {

/// The class of an error.
#[derive(Clone, Copy, Debug, PartialEq, Eq, Structural)]
pub enum ErrorKind {
    /// Malformed front matter, chapter directive or structured data.
    ConfigParser,
    /// An option that the schema refuses: unknown key or wrong type.
    BookOption,
    /// A chapter, template or book file that could not be found.
    FileNotFound,
    /// Content that could not be decoded or parsed into tokens.
    Parser,
    /// A template that did not compile.
    Template,
    /// A failure while producing output.
    Render,
    /// Anything else, such as an unknown format.
    Default,
}

/// An error, with the line of the input it was found at when there is one.
#[derive(Clone, Debug)]
pub struct Error {
    pub kind: ErrorKind,
    pub line: Option<usize>,
    pub msg: String,
    /// The file the error was found in, where one is known.
    pub file: Option<String>,
}

impl Error {
    pub fn new(kind: ErrorKind, line: Option<usize>, msg: &str) -> (r: Error)
        ensures
            r.kind == kind,
            r.line == line,
            r.msg@ == msg@,
            r.file is None,
    {
        Error { kind, line, msg: msg.to_string(), file: None }
    }

    /// The same error, found in `file`.
    pub fn in_file(self, file: &str) -> (r: Error)
        ensures
            r.kind == self.kind,
            r.line == self.line,
            r.msg@ == self.msg@,
            r.file matches Some(f) && f@ == file@,
    {
        Error { file: Some(file.to_string()), ..self }
    }

    pub fn is_book_option(&self) -> (r: bool)
        ensures
            r == (self.kind == ErrorKind::BookOption),
    {
        self.kind == ErrorKind::BookOption
    }

    pub fn is_config_parser(&self) -> (r: bool)
        ensures
            r == (self.kind == ErrorKind::ConfigParser),
    {
        self.kind == ErrorKind::ConfigParser
    }

    /// The message of the error.
    pub fn message(&self) -> (r: String)
        ensures
            r@ == self.msg@,
    {
        self.msg.clone()
    }
}

} // verus!
