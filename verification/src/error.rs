use vstd::prelude::*;
use vstd::string::StringExecFns;
use crate::text::{signed_decimal, signed_decimal_text};

verus! {

/// The kinds of failure that a run can report.
#[derive(Debug, Clone, Copy, PartialEq, Eq, Structural)]
pub enum LoxErrorKind {
    /// The scanner met a malformed token.
    ScannerError,
    /// The parser met a violation of the grammar, on the given line.
    SyntaxError(i32),
    /// Operand types do not fit the operator or the call.
    TypeError,
    /// A name was read or assigned that is not defined.
    NameError,
    /// Any other failure while running.
    RuntimeError,
    /// A static violation of scoping or control flow.
    ResolvingError,
    /// A property was asked of something that has none by that name.
    AttributeError,
}

/// A failure: its kind and a short message.
#[derive(Debug, Clone, Copy)]
pub struct LoxError {
    pub message: &'static str,
    pub kind: LoxErrorKind,
}

impl LoxError {
    /// The name of the kind, with the line for a syntax error.
    pub fn describe(&self) -> (text: String)
        ensures
            text@ == describe_kind(self.kind),
    {
        match self.kind {
            LoxErrorKind::ScannerError => "ScannerError".to_owned(),
            LoxErrorKind::SyntaxError(line) => {
                let mut text = "SyntaxError: line ".to_owned();
                let number = signed_decimal_text(line);
                text.append(number.as_str());
                text
            },
            LoxErrorKind::TypeError => "TypeError".to_owned(),
            LoxErrorKind::NameError => "NameError".to_owned(),
            LoxErrorKind::RuntimeError => "RuntimeError".to_owned(),
            LoxErrorKind::ResolvingError => "ResolvingError".to_owned(),
            LoxErrorKind::AttributeError => "AttributeError".to_owned(),
        }
    }
}

/// The text that names a kind of error.
pub open spec fn describe_kind(kind: LoxErrorKind) -> Seq<char> {
    match kind {
        LoxErrorKind::ScannerError => "ScannerError"@,
        LoxErrorKind::SyntaxError(line) => "SyntaxError: line "@ + signed_decimal(line as int),
        LoxErrorKind::TypeError => "TypeError"@,
        LoxErrorKind::NameError => "NameError"@,
        LoxErrorKind::RuntimeError => "RuntimeError"@,
        LoxErrorKind::ResolvingError => "ResolvingError"@,
        LoxErrorKind::AttributeError => "AttributeError"@,
    }
}

} // verus!
