//! A small scripting-language toolchain: a lexer, a precedence parser, a
//! register-allocating bytecode compiler and the stepping rules of the
//! interpreter, with the value model and the error taxonomy they share.
//!
//! Numbers are carried as IEEE-754 binary64 bit patterns. Arithmetic on them,
//! and turning them into text and back, is left to the host that drives the
//! interpreter; everything that decides is proved here.

pub mod text;
pub mod ast;
pub mod errors;
pub mod frame_lag;
pub mod parsing;
pub mod value;
pub mod vm;

use crate::ast::{AST, Body, Spanned, Statement};
use crate::errors::{CompileError, InternalError, MsError, MsErrorType};
use crate::parsing::ast_parser::{
    ast_parser, errors_view, parsed, strip_comments, without_comments, ParseError,
};
use crate::parsing::parser::{lex, lexer, LexError};
use crate::parsing::tree::{body_view, expr_view, nodes_view, statement_view, ExprView};
use crate::vm::chunk::{chunk_of, Chunk};
use crate::vm::lowering::{compilable, prints_literal, program};
use crate::vm::op_code::OpCode;
use crate::vm::register::StackIndex;
use vstd::prelude::*;

verus! {

/// Whether `error` reports the failure of the lexer `found` in the source
/// `src_id`.
pub open spec fn reports_lex(error: MsError, src_id: Seq<char>, found: LexError) -> bool {
    &&& error.src_id@ == src_id
    &&& error.error_type matches MsErrorType::Compile(compile)
    &&& compile.reason() == found.kind.spec_reason()
    &&& compile.span() == found.span
    &&& compile.contexts().len() == 0
}

/// Whether `error` reports the failure of the parser `found` in the source
/// `src_id`.
pub open spec fn reports_parse(
    error: MsError,
    src_id: Seq<char>,
    found: crate::parsing::ast_parser::ParseErrorView,
) -> bool {
    &&& error.src_id@ == src_id
    &&& error.error_type matches MsErrorType::Compile(compile)
    &&& compile.reason() == found.kind.spec_reason()
    &&& compile.span() == found.span
    &&& compile.contexts() == crate::errors::labels(found.contexts)
}

/// The tokens of a source text that the parser reads: all but the comments.
pub open spec fn read_tokens(src: Seq<char>) -> crate::parsing::ast_parser::Tokens {
    without_comments(lex(src).tokens, lex(src).tokens.len() as int)
}

/// The text `print`, a blank and a number literal goes through the stages
/// like this: it lexes without a diagnostic, it parses without a diagnostic,
/// and every tree of the parse compiles to three instructions, which set
/// the first register to the number that the literal writes, print it, and
/// end the run. The literal is handed on as it is written.
pub proof fn print_of_a_number_compiles(literal: Seq<char>, body: Seq<Spanned<Statement>>)
    requires
        crate::parsing::parser::number_end(literal, 0) == Some(literal.len() as int),
        body_view(body) == parsed(read_tokens("print "@ + literal)).steps,
    ensures
        lex("print "@ + literal).errors.len() == 0,
        parsed(read_tokens("print "@ + literal)).errors.len() == 0,
        compilable(body),
        program(body).code == seq![
            OpCode::SetNumber(StackIndex(0), literal),
            OpCode::Print { value: StackIndex(0), output: StackIndex(0) },
            OpCode::Return(None),
        ],
        program(body).next_register == 1,
{
    let src = "print "@ + literal;
    crate::parsing::parser::print_of_a_number_lexes(literal);
    let tokens = lex(src).tokens;
    assert(without_comments(tokens, 0) =~= Seq::empty());
    assert(without_comments(tokens, 1) =~= seq![tokens[0]]);
    assert(without_comments(tokens, 2) =~= tokens);
    assert(read_tokens(src) == tokens);
    crate::parsing::ast_parser::print_of_a_number_parses(tokens, literal);
    let steps = parsed(tokens).steps;
    assert(body.len() == 1);
    assert(steps[0] == (statement_view(body[0].0), body[0].1));
    let expr = body[0].0->Expression_0;
    assert(body[0].0 is Expression);
    assert(expr.0 is Call);
    let callee = expr.0->Call_0;
    let args = expr.0->Call_1;
    assert(expr_view(callee.0) == ExprView::Path("print"@));
    assert(callee.0 is Path);
    let listed = nodes_view(args@);
    assert(listed.len() == 1);
    assert(listed[0].0 == expr_view(args@[0].0));
    assert(args@[0].0 is Value);
    assert(prints_literal(body[0].0, literal));
    crate::vm::lowering::print_of_a_literal(body, literal);
}

fn lex_diagnostics(src_id: &str, errors: &Vec<LexError>) -> (out: Vec<MsError>)
    ensures
        out@.len() == errors@.len(),
        forall|i: int| 0 <= i < out@.len() ==> reports_lex(#[trigger] out@[i], src_id@, errors@[i]),
{
    let mut out: Vec<MsError> = Vec::new();
    let mut i: usize = 0;
    while i < errors.len()
        invariant
            i <= errors@.len(),
            out@.len() == i,
            forall|j: int| 0 <= j < i ==> reports_lex(#[trigger] out@[j], src_id@, errors@[j]),
        decreases errors@.len() - i,
    {
        let compile = CompileError::from_lex(&errors[i]);
        out.push(MsError { src_id: src_id.to_owned(), error_type: MsErrorType::Compile(compile) });
        i += 1;
    }
    out
}

fn parse_diagnostics(src_id: &str, errors: &Vec<ParseError>) -> (out: Vec<MsError>)
    ensures
        out@.len() == errors@.len(),
        forall|i: int|
            0 <= i < out@.len() ==> reports_parse(#[trigger] out@[i], src_id@, errors@[i]@),
{
    let mut out: Vec<MsError> = Vec::new();
    let mut i: usize = 0;
    while i < errors.len()
        invariant
            i <= errors@.len(),
            out@.len() == i,
            forall|j: int| 0 <= j < i ==> reports_parse(#[trigger] out@[j], src_id@, errors@[j]@),
        decreases errors@.len() - i,
    {
        let compile = CompileError::from_parse(&errors[i]);
        out.push(MsError { src_id: src_id.to_owned(), error_type: MsErrorType::Compile(compile) });
        i += 1;
    }
    out
}

/// Compiles the source text `src`, which goes by the name `src_id` in
/// diagnostics.
///
/// The text is read into tokens, the tokens without the comments are parsed,
/// and the tree is compiled. The first stage that fails ends the work: its
/// diagnostics are given, all of them, in the order of the text. A text that
/// lexes and parses and that the compiler cannot compile gives the one
/// diagnostic `NotImplemented`.
pub fn compile(src_id: &str, src: &str) -> (result: Result<Chunk, Vec<MsError>>)
    ensures
        match result {
            Ok(chunk) => {
                &&& lex(src@).errors.len() == 0
                &&& parsed(read_tokens(src@)).errors.len() == 0
                &&& chunk@.well_formed()
                &&& exists|body: Body|
                    body_view(body@) == parsed(read_tokens(src@)).steps && compilable(body@)
                        && chunk@ == chunk_of(program(body@))
            },
            Err(errors) => {
                &&& errors@.len() > 0
                &&& if lex(src@).errors.len() > 0 {
                    &&& errors@.len() == lex(src@).errors.len()
                    &&& forall|i: int|
                        0 <= i < errors@.len() ==> reports_lex(
                            #[trigger] errors@[i],
                            src_id@,
                            lex(src@).errors[i],
                        )
                } else if parsed(read_tokens(src@)).errors.len() > 0 {
                    &&& errors@.len() == parsed(read_tokens(src@)).errors.len()
                    &&& forall|i: int|
                        0 <= i < errors@.len() ==> reports_parse(
                            #[trigger] errors@[i],
                            src_id@,
                            parsed(read_tokens(src@)).errors[i],
                        )
                } else {
                    &&& errors@.len() == 1
                    &&& errors@[0].src_id@ == src_id@
                    &&& errors@[0].error_type == MsErrorType::Internal(
                        InternalError::NotImplemented,
                    )
                    &&& exists|body: Body|
                        body_view(body@) == parsed(read_tokens(src@)).steps && !compilable(body@)
                }
            },
        },
{
    let tokens = match lexer(src) {
        Ok(tokens) => tokens,
        Err(errors) => {
            return Err(lex_diagnostics(src_id, &errors));
        },
    };
    let stripped = strip_comments(tokens);
    let body = match ast_parser(&stripped) {
        Ok(body) => body,
        Err(errors) => {
            let out = parse_diagnostics(src_id, &errors);
            proof {
                assert forall|i: int| 0 <= i < out@.len() implies reports_parse(
                    #[trigger] out@[i],
                    src_id@,
                    parsed(read_tokens(src@)).errors[i],
                ) by {
                    assert(errors_view(errors@)[i] == errors@[i]@);
                }
            }
            return Err(out);
        },
    };
    let ast = match AST::from_body(body) {
        Ok(ast) => ast,
        Err(error) => {
            let mut errors: Vec<MsError> = Vec::new();
            errors.push(error);
            return Err(errors);
        },
    };
    match crate::vm::chunk::compile(ast) {
        Ok(chunk) => Ok(chunk),
        Err(error) => {
            let mut errors: Vec<MsError> = Vec::new();
            errors.push(
                MsError { src_id: src_id.to_owned(), error_type: MsErrorType::Internal(error) },
            );
            Err(errors)
        },
    }
}

} // verus!
