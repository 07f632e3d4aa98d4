//! The three families of errors, told apart by the range of their codes.

use crate::ast::Span;
use crate::parsing::ast_parser::{Construct, ParseError};
use crate::parsing::parser::LexError;
use crate::text::{push_decimal, push_text};
use crate::value::Value;
use vstd::prelude::*;

verus! {

/// The first code of the internal errors: the toolchain contradicts itself.
pub const CODE_INTERNAL: u16 = 0;

/// The first code of the runtime errors: a value-level failure of a valid
/// program.
pub const CODE_RUNTIME: u16 = 1000;

/// The first code of the compile errors: the source text is not a program.
pub const CODE_COMPILE: u16 = 2000;

/// An error together with the name of the source in which it arose.
#[derive(Debug, PartialEq)]
pub struct MsError {
    pub src_id: String,
    pub error_type: MsErrorType,
}

/// An error of one of the three families.
#[derive(Debug, PartialEq)]
pub enum MsErrorType {
    Internal(InternalError),
    Runtime(RuntimeError),
    Compile(CompileError),
}

impl MsErrorType {
    /// The code of the error: the base of its family plus the number of the
    /// error within the family.
    pub open spec fn spec_code(&self) -> int {
        match *self {
            MsErrorType::Internal(e) => CODE_INTERNAL + e.spec_raw_code(),
            MsErrorType::Runtime(e) => CODE_RUNTIME + e.spec_raw_code(),
            MsErrorType::Compile(e) => CODE_COMPILE + e.spec_raw_code(),
        }
    }

    /// The code of the error. Its range alone tells the family.
    pub fn code(&self) -> (code: u16)
        ensures
            code == self.spec_code(),
            self is Internal <==> CODE_INTERNAL <= code < CODE_RUNTIME,
            self is Runtime <==> CODE_RUNTIME <= code < CODE_COMPILE,
            self is Compile <==> CODE_COMPILE <= code,
    {
        match self {
            MsErrorType::Internal(item) => item.code(),
            MsErrorType::Runtime(item) => item.code(),
            MsErrorType::Compile(item) => item.code(),
        }
    }
}

impl MsError {
    /// The code of the error. Its range alone tells the family.
    pub fn code(&self) -> (code: u16)
        ensures
            code == self.error_type.spec_code(),
            self.error_type is Internal <==> CODE_INTERNAL <= code < CODE_RUNTIME,
            self.error_type is Runtime <==> CODE_RUNTIME <= code < CODE_COMPILE,
            self.error_type is Compile <==> CODE_COMPILE <= code,
    {
        self.error_type.code()
    }
}

/// The toolchain contradicts itself. Always fatal.
#[derive(Debug, Clone, Copy, PartialEq, Eq, Structural)]
#[non_exhaustive]
pub enum InternalError {
    /// The program uses what the toolchain does not implement yet.
    NotImplemented,
    /// The instruction at this index was reserved and never filled in.
    UnpatchedOpCode(usize),
}

impl InternalError {
    /// The number of the error within its family.
    pub open spec fn spec_raw_code(&self) -> int {
        match *self {
            InternalError::NotImplemented => 0,
            InternalError::UnpatchedOpCode(_) => 1,
        }
    }

    /// The wording of the error.
    pub open spec fn spec_message(&self) -> Seq<char> {
        match *self {
            InternalError::NotImplemented => "Operation not implemented"@,
            InternalError::UnpatchedOpCode(index) => "OpCode at "@ + crate::text::decimal(
                index as nat,
            ) + " is unpatched"@,
        }
    }

    /// The number of the error within its family.
    pub fn raw_code(&self) -> (code: u16)
        ensures
            code == self.spec_raw_code(),
    {
        match self {
            InternalError::NotImplemented => 0,
            InternalError::UnpatchedOpCode(_) => 1,
        }
    }

    /// The code of the error: the base of its family plus its number within
    /// the family.
    pub fn code(&self) -> (code: u16)
        ensures
            code == CODE_INTERNAL + self.spec_raw_code(),
    {
        self.raw_code() + CODE_INTERNAL
    }

    /// The wording of the error.
    pub fn message(&self) -> (text: String)
        ensures
            text@ == self.spec_message(),
    {
        match self {
            InternalError::NotImplemented => "Operation not implemented".to_owned(),
            InternalError::UnpatchedOpCode(index) => {
                let mut text = "OpCode at ".to_owned();
                push_decimal(&mut text, *index);
                push_text(&mut text, " is unpatched");
                text
            },
        }
    }
}

/// A value-level failure raised by a valid program.
#[derive(Debug, Clone, Copy, PartialEq)]
#[non_exhaustive]
pub enum RuntimeError {
    /// The program raised this value.
    Custom(Value),
}

impl RuntimeError {
    /// The number of the error within its family.
    pub open spec fn spec_raw_code(&self) -> int {
        match *self {
            RuntimeError::Custom(_) => 0,
        }
    }

    /// The number of the error within its family.
    pub fn raw_code(&self) -> (code: u16)
        ensures
            code == self.spec_raw_code(),
    {
        match self {
            RuntimeError::Custom(_) => 0,
        }
    }

    /// The code of the error: the base of its family plus its number within
    /// the family.
    pub fn code(&self) -> (code: u16)
        ensures
            code == CODE_RUNTIME + self.spec_raw_code(),
    {
        self.raw_code() + CODE_RUNTIME
    }
}

/// The source text is not a program.
#[derive(Debug, PartialEq)]
#[non_exhaustive]
pub enum CompileError {
    /// What is wrong, where, and the constructs that were being read there,
    /// innermost first.
    Compilation(String, Span, Vec<(String, Span)>),
}

/// The wording and the span of each construct of a diagnostic.
pub open spec fn labels(contexts: Seq<(Construct, Span)>) -> Seq<(Seq<char>, Span)> {
    Seq::new(contexts.len(), |i: int| (contexts[i].0.spec_label(), contexts[i].1))
}

impl CompileError {
    /// The number of the error within its family.
    pub open spec fn spec_raw_code(&self) -> int {
        match *self {
            CompileError::Compilation(_, _, _) => 0,
        }
    }

    /// What is wrong.
    pub open spec fn reason(&self) -> Seq<char> {
        match *self {
            CompileError::Compilation(reason, _, _) => reason@,
        }
    }

    /// Where it is wrong.
    pub open spec fn span(&self) -> Span {
        match *self {
            CompileError::Compilation(_, span, _) => span,
        }
    }

    /// The constructs that were being read, as (wording, span) pairs.
    pub open spec fn contexts(&self) -> Seq<(Seq<char>, Span)> {
        match *self {
            CompileError::Compilation(_, _, contexts) => Seq::new(
                contexts@.len(),
                |i: int| (contexts@[i].0@, contexts@[i].1),
            ),
        }
    }

    /// The number of the error within its family.
    pub fn raw_code(&self) -> (code: u16)
        ensures
            code == self.spec_raw_code(),
    {
        match self {
            CompileError::Compilation(_, _, _) => 0,
        }
    }

    /// The code of the error: the base of its family plus its number within
    /// the family.
    pub fn code(&self) -> (code: u16)
        ensures
            code == CODE_COMPILE + self.spec_raw_code(),
    {
        self.raw_code() + CODE_COMPILE
    }

    /// The wording of the error.
    pub fn message(&self) -> (text: String)
        ensures
            text@ == "Parsing error: "@ + self.reason(),
    {
        match self {
            CompileError::Compilation(reason, _, _) => {
                let mut text = "Parsing error: ".to_owned();
                push_text(&mut text, reason.as_str());
                text
            },
        }
    }

    /// The compile error that reports a failure with its reason, its place
    /// and the constructs around it.
    pub fn from_compilation(reason: String, span: Span, contexts: Vec<(String, Span)>) -> (error:
        CompileError)
        ensures
            error == CompileError::Compilation(reason, span, contexts),
    {
        CompileError::Compilation(reason, span, contexts)
    }

    /// The compile error that reports what the parser could not read, with
    /// the constructs around it.
    pub fn from_parse(error: &ParseError) -> (out: CompileError)
        ensures
            out.reason() == error.kind.spec_reason(),
            out.span() == error.span,
            out.contexts() == labels(error@.contexts),
    {
        let mut contexts: Vec<(String, Span)> = Vec::new();
        let mut i: usize = 0;
        while i < error.contexts.len()
            invariant
                i <= error.contexts@.len(),
                contexts@.len() == i,
                forall|j: int|
                    0 <= j < i ==> (#[trigger] contexts@[j]).0@ == error.contexts@[j].0.spec_label()
                        && contexts@[j].1 == error.contexts@[j].1,
            decreases error.contexts@.len() - i,
        {
            let construct = error.contexts[i].0;
            contexts.push((construct.label(), error.contexts[i].1));
            i += 1;
        }
        let out = CompileError::Compilation(error.kind.reason(), error.span, contexts);
        proof {
            assert(out.contexts() =~= labels(error@.contexts));
        }
        out
    }

    /// The compile error that reports what the lexer could not read.
    pub fn from_lex(error: &LexError) -> (out: CompileError)
        ensures
            out.reason() == error.kind.spec_reason(),
            out.span() == error.span,
            out.contexts().len() == 0,
    {
        CompileError::Compilation(error.kind.reason(), error.span, Vec::new())
    }
}

} // verus!
