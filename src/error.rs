use vstd::prelude::*;

verus! {

/// An error reported by the analysis, with the message and, where known,
/// the 1-based line and 0-based column of the statement that caused it.
#[derive(Debug)]
pub enum Error {
    AnalyzerError(String, usize, usize),
    ParserError(String, usize, usize),
    Msg(String),
}

impl Error {
    /// The message without its position.
    pub open spec fn message_view(&self) -> Seq<char> {
        match self {
            Error::AnalyzerError(m, _, _) => m@,
            Error::ParserError(m, _, _) => m@,
            Error::Msg(m) => m@,
        }
    }

    pub fn message(&self) -> (r: &String)
        ensures
            r@ == self.message_view(),
    {
        match self {
            Error::AnalyzerError(m, _, _) => m,
            Error::ParserError(m, _, _) => m,
            Error::Msg(m) => m,
        }
    }
}

} // verus!
