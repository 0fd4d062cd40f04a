//! A safe, verified object model for TableGen records.
//!
//! TableGen is the declarative description language of the LLVM project. Its
//! compiler turns description files into a graph of classes, definitions and
//! typed values. This crate holds such a graph as plain data and offers
//! read-only views over it: records, their fields, and the values of those
//! fields with fallible conversions to Rust types.
//!
//! The compiler itself is not part of this crate. A [`TableGenParser`]
//! collects the source code and the search paths that the compiler is to
//! read, in the order in which they were given. Whoever runs the compiler
//! hands its answers back: whether it accepted a piece of source, and in the
//! end the graph that it made, as a [`raw::RecordGraph`]. From then on a
//! [`RecordKeeper`] owns the graph, and everything else borrows from it.

/// Error types.
pub mod error;
/// TableGen initialization values.
pub mod init;
/// The object model of the compiler as plain data.
pub mod raw;
/// TableGen records and record values.
pub mod record;
/// TableGen record keeper.
pub mod record_keeper;
/// Views of byte strings.
pub mod string_ref;

use crate::error::{find_nul, first_nul, lemma_first_nul, NulError, TableGenError};
pub use crate::init::TypedInit;
use crate::raw::RecordGraph;
pub use crate::record::Record;
pub use crate::record::RecordValue;
pub use crate::record_keeper::RecordKeeper;
use vstd::prelude::*;
use vstd::slice::slice_to_vec;
use vstd::string::StringSliceAdditionalSpecFns;

verus! {

/// One piece of TableGen source code that a parser was given.
#[derive(Debug, PartialEq, Eq)]
pub enum Source {
    /// Source code, free of NUL bytes.
    Text(Vec<u8>),
    /// The path of a file that holds source code.
    File(String),
}

/// Builder struct that collects TableGen source code and with it becomes a
/// [`RecordKeeper`], once the compiler has read the code.
#[derive(Debug, PartialEq, Eq)]
pub struct TableGenParser {
    sources: Vec<Source>,
    search_paths: Vec<String>,
}

/// Whether no text among the pieces of source code holds a NUL byte.
pub open spec fn free_of_nul(sources: Seq<Source>) -> bool {
    forall|i: int|
        0 <= i < sources.len() ==> ((#[trigger] sources[i]) matches Source::Text(text)
            ==> first_nul(text@) is None)
}

impl TableGenParser {
    /// The pieces of source code, in the order in which they were added.
    pub closed spec fn sources(&self) -> Seq<Source> {
        self.sources@
    }

    #[verifier::type_invariant]
    spec fn inv(&self) -> bool {
        free_of_nul(self.sources@)
    }

    /// The directories to search for files, in the order in which they were
    /// added.
    pub closed spec fn search_paths(&self) -> Seq<String> {
        self.search_paths@
    }

    /// Whether `bytes` is kept as the last piece of source code, after the
    /// pieces that `before` holds.
    pub open spec fn added_text(&self, before: &Self, bytes: Seq<u8>) -> bool {
        &&& self.search_paths() == before.search_paths()
        &&& self.sources().len() == before.sources().len() + 1
        &&& self.sources().drop_last() == before.sources()
        &&& self.sources().last() matches Source::Text(text)
        &&& text@ == bytes
    }

    /// Whether `path` is kept as the last piece of source code, after the
    /// pieces that `before` holds.
    pub open spec fn added_file(&self, before: &Self, path: Seq<char>) -> bool {
        &&& self.search_paths() == before.search_paths()
        &&& self.sources().len() == before.sources().len() + 1
        &&& self.sources().drop_last() == before.sources()
        &&& self.sources().last() matches Source::File(file)
        &&& file@ == path
    }

    /// Whether `path` is kept as the last search path, after the paths that
    /// `before` holds.
    pub open spec fn added_search_path(&self, before: &Self, path: Seq<char>) -> bool {
        &&& self.sources() == before.sources()
        &&& self.search_paths().len() == before.search_paths().len() + 1
        &&& self.search_paths().drop_last() == before.search_paths()
        &&& self.search_paths().last()@ == path
    }

    /// Initializes a new TableGen parser.
    pub fn new() -> (parser: Self)
        ensures
            parser.sources().len() == 0,
            parser.search_paths().len() == 0,
    {
        Self { sources: Vec::new(), search_paths: Vec::new() }
    }

    /// Returns the pieces of source code, in the order in which they were
    /// added.
    pub fn source_list(&self) -> (sources: &Vec<Source>)
        ensures
            sources@ == self.sources(),
            free_of_nul(sources@),
    {
        proof {
            use_type_invariant(self);
        }
        &self.sources
    }

    /// Returns the directories to search for files, in the order in which
    /// they were added.
    pub fn search_path_list(&self) -> (paths: &Vec<String>)
        ensures
            paths@ == self.search_paths(),
    {
        &self.search_paths
    }

    /// Adds a piece of source code after the pieces that are there.
    fn push(self, source: Source) -> (parser: Self)
        requires
            source matches Source::Text(text) ==> first_nul(text@) is None,
        ensures
            parser.search_paths() == self.search_paths(),
            parser.sources() == self.sources().push(source),
            parser.sources().drop_last() == self.sources(),
    {
        proof {
            use_type_invariant(&self);
        }
        let TableGenParser { mut sources, search_paths } = self;
        sources.push(source);
        assert(sources@.drop_last() == self.sources@);
        TableGenParser { sources, search_paths }
    }

    /// Adds the given path to the list of directories that are searched for
    /// files.
    ///
    /// `is_dir` says whether there is such a directory. If there is none,
    /// the path is refused.
    pub fn add_include_path(self, path: &str, is_dir: bool) -> (res: Result<Self, TableGenError>)
        ensures
            is_dir ==> res is Ok && res->Ok_0.added_search_path(&self, path@),
            !is_dir ==> res is Err && res->Err_0 == TableGenError::InvalidSource,
    {
        if !is_dir {
            return Err(TableGenError::InvalidSource);
        }
        proof {
            use_type_invariant(&self);
        }
        let TableGenParser { sources, mut search_paths } = self;
        search_paths.push(String::from_str(path));
        assert(search_paths@.drop_last() == self.search_paths@);
        Ok(TableGenParser { sources, search_paths })
    }

    /// Reads TableGen source code from the file at the given path.
    ///
    /// `accepted` says whether the compiler could read the file. If it could
    /// not, the file is refused.
    pub fn add_source_file(self, path: &str, accepted: bool) -> (res: Result<Self, TableGenError>)
        ensures
            accepted ==> res is Ok && res->Ok_0.added_file(&self, path@),
            !accepted ==> res is Err && res->Err_0 == TableGenError::InvalidSource,
    {
        if !accepted {
            return Err(TableGenError::InvalidSource);
        }
        Ok(self.push(Source::File(String::from_str(path))))
    }

    /// Adds the given TableGen source string, which has to end with a NUL
    /// byte and may hold no other.
    ///
    /// The string is kept without the NUL byte. `accepted` says whether the
    /// compiler took the string. A string that is not terminated as
    /// described, or that the compiler did not take, is refused.
    pub fn add_source_raw(self, source: &[u8], accepted: bool) -> (res: Result<
        Self,
        TableGenError,
    >)
        ensures
            first_nul(source@) == Some(source@.len() - 1) && accepted ==> res is Ok
                && res->Ok_0.added_text(&self, source@.drop_last()),
            !(first_nul(source@) == Some(source@.len() - 1) && accepted) ==> res is Err
                && res->Err_0 == TableGenError::InvalidSource,
    {
        proof {
            lemma_first_nul(source@);
        }
        match find_nul(source) {
            Some(position) => {
                let len = source.len();
                if position + 1 != len || !accepted {
                    return Err(TableGenError::InvalidSource);
                }
                let mut text = slice_to_vec(source);
                text.pop();
                proof {
                    lemma_first_nul(text@);
                    assert forall|j: int| 0 <= j < text@.len() implies text@[j] == source@[j] by {}
                }
                Ok(self.push(Source::Text(text)))
            },
            None => Err(TableGenError::InvalidSource),
        }
    }

    /// Adds the given TableGen source string.
    ///
    /// The string is copied. `accepted` says whether the compiler took the
    /// string. A string that holds a NUL byte cannot be handed to the
    /// compiler and is refused, whatever `accepted` says; the error tells
    /// where the first NUL byte is.
    pub fn add_source(self, source: &str, accepted: bool) -> (res: Result<Self, TableGenError>)
        ensures
            first_nul(source.spec_bytes()) is None && accepted ==> res is Ok
                && res->Ok_0.added_text(&self, source.spec_bytes()),
            first_nul(source.spec_bytes()) is None && !accepted ==> res is Err && res->Err_0
                == TableGenError::InvalidSource,
            first_nul(source.spec_bytes()) matches Some(position) ==> res is Err && ({
                &&& res->Err_0 matches TableGenError::InvalidSourceString(e)
                &&& e.spec_nul_position() == position
                &&& e.spec_bytes() == source.spec_bytes()
            }),
    {
        match NulError::check(slice_to_vec(source.as_bytes())) {
            Err(e) => Err(TableGenError::InvalidSourceString(e)),
            Ok(text) => {
                if !accepted {
                    return Err(TableGenError::InvalidSource);
                }
                Ok(self.push(Source::Text(text)))
            },
        }
    }

    /// Turns the parser into a [`RecordKeeper`].
    ///
    /// `parsed` is the graph that the compiler made of the source code, or
    /// `None` if it found the code to be wrong.
    pub fn parse(self, parsed: Option<RecordGraph>) -> (res: Result<RecordKeeper, TableGenError>)
        ensures
            parsed matches Some(graph) ==> res is Ok && res->Ok_0@ == graph
                && res->Ok_0.spec_parser() == self,
            parsed is None ==> res is Err && res->Err_0 == TableGenError::Parse,
    {
        match parsed {
            Some(graph) => Ok(RecordKeeper::from_raw(graph, self)),
            None => Err(TableGenError::Parse),
        }
    }
}

impl Default for TableGenParser {
    fn default() -> (parser: Self)
        ensures
            parser.sources().len() == 0,
            parser.search_paths().len() == 0,
    {
        Self::new()
    }
}

} // verus!
