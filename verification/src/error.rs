//! What a failed parse reports.

use vstd::prelude::*;
use vstd::string::*;

verus! {

/// Why a parse failed.
#[derive(Debug, Clone, Copy, PartialEq, Eq, Structural)]
pub enum ErrorKind {
    /// The token belongs to another category than the grammar asks for.
    UnexpectedCategory,
    /// The token's text is not the text the grammar asks for.
    UnexpectedText,
    /// A keyword or symbol stands where the grammar has no rule for it.
    Unrecognized,
    /// The tokens ran out where the grammar asks for more.
    PrematureEnd,
    /// The construct is nested deeper than the parser is allowed to descend.
    TooDeep,
}

/// A failed parse: what was asked for, what stood there, and where.
#[derive(Debug, PartialEq, Eq)]
pub struct ParseError {
    pub kind: ErrorKind,
    /// Index of the offending token in the sequence that holds it; the length
    /// of that sequence where the tokens ran out.
    pub position: usize,
    /// Index of each block token that encloses the offending token, innermost
    /// first; empty when the failure lies in the outermost sequence.
    pub path: Vec<usize>,
    /// The category or text that the grammar asks for.
    pub expected: String,
    /// The text of the offending token; empty where the tokens ran out.
    pub found: String,
}

/// A failed parse as a mathematical value.
pub struct ErrorView {
    pub kind: ErrorKind,
    pub position: nat,
    pub path: Seq<nat>,
    pub expected: Seq<char>,
    pub found: Seq<char>,
}

impl ErrorView {
    /// Where a cursor over the outermost sequence rests after this failure: on
    /// the offending token, or on the outermost block that encloses it.
    pub open spec fn cursor(self) -> nat {
        if self.path.len() == 0 {
            self.position
        } else {
            self.path.last()
        }
    }

    /// The failure as seen from the sequence that holds the block token at
    /// index `block`, inside which it happened.
    pub open spec fn within(self, block: nat) -> ErrorView {
        ErrorView { path: self.path.push(block), ..self }
    }

    /// The failure in words.
    pub open spec fn message(self) -> Seq<char> {
        if self.kind == ErrorKind::PrematureEnd {
            "expected '"@ + self.expected + "', found end of source >:("@
        } else if self.kind == ErrorKind::TooDeep {
            "nesting too deep at '"@ + self.found + "'"@
        } else {
            "expected '"@ + self.expected + "', found '"@ + self.found + "'"@
        }
    }
}

impl View for ParseError {
    type V = ErrorView;

    open spec fn view(&self) -> ErrorView {
        ErrorView {
            kind: self.kind,
            position: self.position as nat,
            path: Seq::new(self.path@.len(), |i: int| self.path@[i] as nat),
            expected: self.expected@,
            found: self.found@,
        }
    }
}

impl Clone for ParseError {
    fn clone(&self) -> (copy: Self)
        ensures
            copy@ == self@,
    {
        let path = self.path.clone();
        assert(path@ =~= self.path@);
        let copy = ParseError {
            kind: self.kind,
            position: self.position,
            path,
            expected: self.expected.clone(),
            found: self.found.clone(),
        };
        assert(copy@.path =~= self@.path);
        copy
    }
}

impl ParseError {
    /// A failure at `position` of the sequence being read.
    pub fn new(kind: ErrorKind, position: usize, expected: &str, found: &str) -> (error: ParseError)
        ensures
            error@ == (ErrorView {
                kind,
                position: position as nat,
                path: Seq::empty(),
                expected: expected@,
                found: found@,
            }),
    {
        let error = ParseError {
            kind,
            position,
            path: Vec::new(),
            expected: expected.to_owned(),
            found: found.to_owned(),
        };
        assert(error@.path =~= Seq::empty());
        error
    }

    /// The same failure, as seen from the sequence that holds the block token
    /// at index `block`.
    pub fn within(self, block: usize) -> (error: ParseError)
        ensures
            error@ == self@.within(block as nat),
    {
        let mut error = self;
        error.path.push(block);
        assert(error@.path =~= self@.path.push(block as nat));
        error
    }

    /// The failure in words.
    pub fn message(&self) -> (text: String)
        ensures
            text@ == self@.message(),
    {
        match self.kind {
            ErrorKind::PrematureEnd => {
                let mut text = "expected '".to_owned();
                text.append(self.expected.as_str());
                text.append("', found end of source >:(");
                text
            },
            ErrorKind::TooDeep => {
                let mut text = "nesting too deep at '".to_owned();
                text.append(self.found.as_str());
                text.append("'");
                text
            },
            _ => {
                let mut text = "expected '".to_owned();
                text.append(self.expected.as_str());
                text.append("', found '");
                text.append(self.found.as_str());
                text.append("'");
                text
            },
        }
    }
}

} // verus!
