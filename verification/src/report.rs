//! Lexical diagnostics: a reported error with its line, the offending
//! excerpt, and a message. Non-fatal by design: the scanner records
//! reports and keeps scanning; the driver decides what is fatal.

use vstd::prelude::*;

verus! {

/// One recoverable lexical error.
#[derive(Debug, Clone, PartialEq, Eq)]
pub struct Report {
    pub line: u32,
    pub context: String,
    pub message: String,
}

/// The mathematical image of a `Report`.
pub struct ReportModel {
    pub line: int,
    pub context: Seq<char>,
    pub message: Seq<char>,
}

impl View for Report {
    type V = ReportModel;

    open spec fn view(&self) -> ReportModel {
        ReportModel { line: self.line as int, context: self.context@, message: self.message@ }
    }
}

impl Report {
    pub fn new(line: u32, context: &str, message: &str) -> (r: Report)
        ensures
            r@.line == line as int,
            r@.context == context@,
            r@.message == message@,
    {
        Report { line, context: String::from_str(context), message: String::from_str(message) }
    }
}

} // verus!
