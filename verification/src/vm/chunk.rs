//! The compiled unit and the compiler that makes it.

use crate::ast::{AST, BinaryOp, Body, Comparison, Expr, Path, Span, Spanned, Statement, Value};
use crate::errors::InternalError;
use crate::parsing::parser::{byte_offset, clip};
use crate::text::{
    chars_of, decimal, decimal_chars, push_chars, push_repeated, push_text, same_text,
};
use crate::vm::context::{code_view, strings_view, FunctionCompilationContext};
use crate::vm::effects::{can_have_side_effects, side_effects};
use crate::vm::ledger::{
    flag_keeps_no_trash, owes, owes_chain, owes_declared, owes_facts, owes_get, owes_no_trash,
    owes_nothing, owes_release, owes_same, owes_take, owes_target, scratch_of,
};
use crate::vm::lowering::{
    arithmetic, assignment, binary_logic, binary_op, body_supported, body_weight,
    body_weight_grows, branches_supported, branches_weight, comparison, comparison_chain,
    compilable, conditional, expression, function_call, is_print, links, links_supported,
    links_weight, links_weight_grows, literal, may_be_function, otherwise_weight, path, program,
    statement, statement_supported, statement_weight, statements, supported, weight, while_loop,
};
use crate::vm::lowering::{
    after_branch, before_branch, before_loop_body, conditional_ok, loop_condition, loop_exit,
    statement_ok, statements_ok, while_ok,
};
use crate::vm::model::{get_register_keeps, inv_facts, Model};
use crate::vm::op_code::{line, ConstantIndex, OpCode};
use crate::vm::register::StackIndex;
use vstd::prelude::*;

verus! {

broadcast use vstd::std_specs::vec::group_vec_axioms;

/// A compiled unit as contracts see it.
pub struct ChunkView {
    /// The instructions, in order
    pub code: Seq<OpCode<Seq<char>>>,
    /// The span of each instruction
    pub spans: Seq<Span>,
    /// The string constants, each once
    pub strings: Seq<Seq<char>>,
    /// The number of registers that a run needs
    pub stack_size: usize,
}

/// A compiled unit: instructions, the span of each for diagnostics, the pool
/// of string constants, and the number of registers that a run needs. It is
/// made by `compile` and read-only afterwards.
#[derive(Debug)]
pub struct Chunk {
    code: Vec<OpCode<String>>,
    spans: Vec<Span>,
    strings: Vec<String>,
    stack_size: usize,
}

impl View for Chunk {
    type V = ChunkView;

    closed spec fn view(&self) -> ChunkView {
        ChunkView {
            code: code_view(self.code@),
            spans: self.spans@,
            strings: strings_view(self.strings@),
            stack_size: self.stack_size,
        }
    }
}

/// The compiled unit that a state of the compiler amounts to.
pub open spec fn chunk_of(m: Model) -> ChunkView {
    ChunkView { code: m.code, spans: m.spans, strings: m.strings, stack_size: m.next_register }
}

impl ChunkView {
    /// Whether the unit can be run: every instruction has its span and names
    /// registers below the stack size only, and no instruction is a reserved
    /// place that was never filled in.
    pub open spec fn well_formed(self) -> bool {
        &&& self.code.len() == self.spans.len()
        &&& forall|i: int|
            0 <= i < self.code.len() ==> (#[trigger] self.code[i]).fits(self.stack_size as int)
                && !self.code[i].is_unpatched()
    }
}

impl Chunk {
    /// Every compiled unit can be run.
    #[verifier::type_invariant]
    pub closed spec fn runnable(&self) -> bool {
        self@.well_formed()
    }

    pub(crate) fn assemble(
        code: Vec<OpCode<String>>,
        spans: Vec<Span>,
        strings: Vec<String>,
        stack_size: usize,
    ) -> (chunk: Chunk)
        requires
            (ChunkView {
                code: code_view(code@),
                spans: spans@,
                strings: strings_view(strings@),
                stack_size,
            }).well_formed(),
        ensures
            chunk@ == (ChunkView {
                code: code_view(code@),
                spans: spans@,
                strings: strings_view(strings@),
                stack_size,
            }),
    {
        Chunk { code, spans, strings, stack_size }
    }

    /// The string constant at `index`.
    pub fn get_constant(&self, index: &ConstantIndex) -> (text: &str)
        requires
            index.0 < self@.strings.len(),
        ensures
            text@ == self@.strings[index.0 as int],
    {
        self.strings[index.0].as_str()
    }

    /// The instructions.
    pub fn code(&self) -> (code: &Vec<OpCode<String>>)
        ensures
            code_view(code@) == self@.code,
            self@.well_formed(),
    {
        proof {
            use_type_invariant(self);
        }
        &self.code
    }

    /// The span of each instruction.
    pub fn spans(&self) -> (spans: &Vec<Span>)
        ensures
            spans@ == self@.spans,
            self@.well_formed(),
    {
        proof {
            use_type_invariant(self);
        }
        &self.spans
    }

    /// The number of registers that a run needs.
    pub fn stack_size(&self) -> (size: usize)
        ensures
            size == self@.stack_size,
    {
        self.stack_size
    }
}

/// Whether the condition and the body of a branch can be lowered.
pub open spec fn branch_supported(branch: (Spanned<Spanned<Expr>>, Body)) -> bool {
    supported(branch.0.0.0) && body_supported(branch.1@, branch.1@.len() as int)
}

/// The characters of `chars[..n]` that start at a byte of `span`.
pub open spec fn excerpt_upto(chars: Seq<char>, span: Span, n: int) -> Seq<char>
    decreases n,
{
    if n <= 0 || n > chars.len() {
        Seq::empty()
    } else if span.start <= byte_offset(chars, n - 1) < span.end {
        excerpt_upto(chars, span, n - 1).push(chars[n - 1])
    } else {
        excerpt_upto(chars, span, n - 1)
    }
}

/// The text of `chars` that `span` covers: the characters that start at a
/// byte of the span.
pub open spec fn excerpt(chars: Seq<char>, span: Span) -> Seq<char> {
    excerpt_upto(chars, span, chars.len() as int)
}

/// The length of the longest line among the first `n` instructions.
pub open spec fn widest(code: Seq<OpCode<Seq<char>>>, n: int) -> nat
    decreases n,
{
    if n <= 0 || n > code.len() {
        0
    } else if line(code[n - 1]).len() > widest(code, n - 1) {
        line(code[n - 1]).len()
    } else {
        widest(code, n - 1)
    }
}

/// `count` blanks.
pub open spec fn blanks(count: int) -> Seq<char> {
    Seq::new(
        if count > 0 {
            count as nat
        } else {
            0
        },
        |i: int| ' ',
    )
}

/// `prefix` followed by the line that lists instruction `i`: its index,
/// right-aligned among the indices; its text, padded to the widest text; and
/// the source that its span covers.
pub open spec fn with_line(prefix: Seq<char>, chunk: ChunkView, source: Seq<char>, i: int) -> Seq<
    char,
> {
    let id = decimal(i as nat);
    let width = decimal((chunk.code.len() - 1) as nat).len();
    let text = line(chunk.code[i]);
    prefix + blanks(width - id.len()) + id + ": "@ + text + blanks(
        widest(chunk.code, chunk.code.len() as int) - text.len(),
    ) + "  |  "@ + excerpt(source, chunk.spans[i])
}

/// The lines of the first `n` instructions, with a line break between two.
pub open spec fn listing_upto(chunk: ChunkView, source: Seq<char>, n: int) -> Seq<char>
    decreases n,
{
    if n <= 0 || n > chunk.code.len() {
        Seq::empty()
    } else if n == 1 {
        with_line(Seq::empty(), chunk, source, 0)
    } else {
        with_line(listing_upto(chunk, source, n - 1) + "\n"@, chunk, source, n - 1)
    }
}

/// The listing of a compiled unit.
pub open spec fn listing(chunk: ChunkView, source: Seq<char>) -> Seq<char> {
    listing_upto(chunk, source, chunk.code.len() as int)
}

/// Every line of a listing ends with the separator and the source that the
/// span of its instruction covers.
pub proof fn line_ends_with_excerpt(prefix: Seq<char>, chunk: ChunkView, source: Seq<char>, i: int)
    requires
        0 <= i < chunk.code.len(),
    ensures
        with_line(prefix, chunk, source, i).len() >= excerpt(source, chunk.spans[i]).len() + 5,
        with_line(prefix, chunk, source, i).subrange(
            with_line(prefix, chunk, source, i).len() - excerpt(source, chunk.spans[i]).len(),
            with_line(prefix, chunk, source, i).len() as int,
        ) == excerpt(source, chunk.spans[i]),
        with_line(prefix, chunk, source, i).subrange(
            with_line(prefix, chunk, source, i).len() - excerpt(source, chunk.spans[i]).len() - 5,
            with_line(prefix, chunk, source, i).len() - excerpt(source, chunk.spans[i]).len(),
        ) == "  |  "@,
{
    reveal_strlit("  |  ");
    let tail = excerpt(source, chunk.spans[i]);
    let whole = with_line(prefix, chunk, source, i);
    assert(whole.subrange(whole.len() - tail.len(), whole.len() as int) =~= tail);
    assert(whole.subrange(whole.len() - tail.len() - 5, whole.len() - tail.len()) =~= "  |  "@);
}

/// The text of `source` that `span` covers.
fn excerpt_of(chars: &Vec<char>, span: &Span) -> (text: Vec<char>)
    ensures
        text@ == excerpt(chars@, *span),
{
    let mut text: Vec<char> = Vec::new();
    let mut offset: usize = 0;
    let mut i: usize = 0;
    while i < chars.len()
        invariant
            i <= chars@.len(),
            offset == clip(byte_offset(chars@, i as int)),
            byte_offset(chars@, i as int) >= 0,
            text@ == excerpt_upto(chars@, *span, i as int),
        decreases chars@.len() - i,
    {
        if span.start <= offset && offset < span.end {
            text.push(chars[i]);
        }
        let u: u32 = chars[i] as u32;
        let w: usize = if u < 0x80 {
            1
        } else if u < 0x800 {
            2
        } else if u < 0x10000 {
            3
        } else {
            4
        };
        offset = if offset > usize::MAX - w {
            usize::MAX
        } else {
            offset + w
        };
        i += 1;
    }
    text
}

/// The listing of a compiled unit: one line for each instruction, with its
/// index, its text and the source that its span covers.
pub fn pretty_print(chunk: &Chunk, source: &str) -> (text: String)
    ensures
        text@ == listing(chunk@, source@),
{
    let chars = chars_of(source);
    let code = chunk.code();
    let spans = chunk.spans();
    let n = code.len();
    let mut lines: Vec<String> = Vec::new();
    let mut align: usize = 0;
    let mut i: usize = 0;
    while i < n
        invariant
            n == code@.len(),
            code_view(code@) == chunk@.code,
            i <= n,
            lines@.len() == i,
            forall|j: int| 0 <= j < i ==> (#[trigger] lines@[j])@ == line(chunk@.code[j]),
            align == widest(chunk@.code, i as int),
        decreases n - i,
    {
        let text = code[i].pretty_print();
        let width = text.as_str().unicode_len();
        if width > align {
            align = width;
        }
        lines.push(text);
        i += 1;
    }
    let mut out = String::new();
    if n == 0 {
        return out;
    }
    let id_len = decimal_chars(n - 1).len();
    let mut k: usize = 0;
    while k < n
        invariant
            n == code@.len(),
            n == spans@.len(),
            n > 0,
            chars@ == source@,
            spans@ == chunk@.spans,
            code_view(code@) == chunk@.code,
            k <= n,
            lines@.len() == n,
            forall|j: int| 0 <= j < n ==> (#[trigger] lines@[j])@ == line(chunk@.code[j]),
            align == widest(chunk@.code, n as int),
            id_len == decimal((n - 1) as nat).len(),
            out@ == listing_upto(chunk@, source@, k as int),
        decreases n - k,
    {
        if k > 0 {
            push_text(&mut out, "\n");
        }
        let ghost before = out@;
        proof {
            assert(Seq::<char>::empty() + blanks(0) =~= blanks(0));
        }
        let id = decimal_chars(k);
        let width = lines[k].as_str().unicode_len();
        proof {
            widest_bounds(chunk@.code, n as int, k as int);
        }
        let pad_id = if id_len > id.len() {
            id_len - id.len()
        } else {
            0
        };
        push_repeated(&mut out, ' ', pad_id);
        push_chars(&mut out, &id);
        push_text(&mut out, ": ");
        push_text(&mut out, lines[k].as_str());
        push_repeated(&mut out, ' ', align - width);
        push_text(&mut out, "  |  ");
        let tail = excerpt_of(&chars, &spans[k]);
        push_chars(&mut out, &tail);
        proof {
            assert(blanks(id_len - id@.len()) =~= Seq::new(pad_id as nat, |i: int| ' '));
            assert(blanks(align - width) =~= Seq::new((align - width) as nat, |i: int| ' '));
            assert(out@ == with_line(before, chunk@, source@, k as int));
        }
        k += 1;
    }
    out
}

/// No line is wider than the widest.
proof fn widest_bounds(code: Seq<OpCode<Seq<char>>>, n: int, k: int)
    requires
        0 <= k < n <= code.len(),
    ensures
        line(code[k]).len() <= widest(code, n),
    decreases n,
{
    if k < n - 1 {
        widest_bounds(code, n - 1, k);
    }
}

fn plus(a: usize, b: usize) -> (sum: Option<usize>)
    ensures
        sum == (if a + b <= usize::MAX {
            Some((a + b) as usize)
        } else {
            None
        }),
{
    if a > usize::MAX - b {
        None
    } else {
        Some(a + b)
    }
}

/// Whether the compiler can lower `expr`.
#[verifier::loop_isolation(false)]
pub fn is_supported(expr: &Expr) -> (can: bool)
    ensures
        can == supported(*expr),
    decreases *expr,
{
    match expr {
        Expr::Value(_) => true,
        Expr::Path(_) => true,
        Expr::Comparison(lhs, chain) => {
            if !is_supported(&lhs.0) {
                return false;
            }
            let mut i: usize = 0;
            while i < chain.len()
                invariant
                    i <= chain@.len(),
                    links_supported(chain@, i as int),
                decreases chain@.len() - i,
            {
                if !is_supported(&chain[i].1.0) {
                    proof {
                        if links_supported(chain@, chain@.len() as int) {
                            links_supported_at(chain@, i as int, chain@.len() as int);
                        }
                    }
                    return false;
                }
                i += 1;
            }
            true
        },
        Expr::Binary(lhs, _, rhs) => is_supported(&lhs.0) && is_supported(&rhs.0),
        Expr::Call(callee, args) => {
            let print = match &callee.0 {
                Expr::Path(Path::AnyScope(name)) => same_text(name.as_str(), "print"),
                _ => false,
            };
            print && args.len() == 1 && is_supported(&args[0].0)
        },
        _ => false,
    }
}

/// The registers that lowering `expr` may take, where `expr` can be lowered
/// and the count fits.
#[verifier::loop_isolation(false)]
pub fn expression_budget(expr: &Expr) -> (budget: Option<usize>)
    ensures
        match budget {
            Some(w) => supported(*expr) && w == weight(*expr),
            None => !supported(*expr) || weight(*expr) > usize::MAX,
        },
    decreases *expr,
{
    match expr {
        Expr::Value(_) => Some(1),
        Expr::Path(_) => Some(1),
        Expr::Comparison(lhs, chain) => {
            let first = match expression_budget(&lhs.0) {
                Some(w) => w,
                None => {
                    return None;
                },
            };
            let mut total = match plus(first, 3) {
                Some(w) => w,
                None => {
                    return None;
                },
            };
            let mut i: usize = 0;
            while i < chain.len()
                invariant
                    i <= chain@.len(),
                    links_supported(chain@, i as int),
                    total == 3 + weight(lhs.0) + links_weight(chain@, i as int),
                decreases chain@.len() - i,
            {
                proof {
                    links_weight_grows(chain@, i + 1, chain@.len() as int);
                    if links_supported(chain@, chain@.len() as int) {
                        links_supported_at(chain@, i as int, chain@.len() as int);
                    }
                }
                let link = match expression_budget(&chain[i].1.0) {
                    Some(w) => w,
                    None => {
                        return None;
                    },
                };
                let with_link = match plus(link, 1) {
                    Some(w) => w,
                    None => {
                        return None;
                    },
                };
                total = match plus(total, with_link) {
                    Some(w) => w,
                    None => {
                        return None;
                    },
                };
                i += 1;
            }
            Some(total)
        },
        Expr::Binary(lhs, _, rhs) => {
            let left = match expression_budget(&lhs.0) {
                Some(w) => w,
                None => {
                    return None;
                },
            };
            let right = match expression_budget(&rhs.0) {
                Some(w) => w,
                None => {
                    return None;
                },
            };
            match plus(left, right) {
                Some(w) => plus(w, 2),
                None => None,
            }
        },
        Expr::Call(callee, args) => {
            let print = match &callee.0 {
                Expr::Path(Path::AnyScope(name)) => same_text(name.as_str(), "print"),
                _ => false,
            };
            if !print || args.len() != 1 {
                return None;
            }
            match expression_budget(&args[0].0) {
                Some(w) => plus(w, 2),
                None => None,
            }
        },
        _ => None,
    }
}

/// The registers that lowering `statement` may take, where it can be lowered
/// and the count fits.
#[verifier::loop_isolation(false)]
pub fn statement_budget(statement: &Statement) -> (budget: Option<usize>)
    ensures
        match budget {
            Some(w) => statement_supported(*statement) && w == statement_weight(*statement),
            None => !statement_supported(*statement) || statement_weight(*statement) > usize::MAX,
        },
    decreases *statement,
{
    match statement {
        Statement::Expression(expr) => {
            if !is_supported(&expr.0) {
                return Some(1);
            }
            match expression_budget(&expr.0) {
                Some(w) => plus(w, 1),
                None => None,
            }
        },
        Statement::Assignment(lhs, rhs) => {
            if !matches!(lhs.0, Expr::Path(_)) {
                return None;
            }
            match expression_budget(&rhs.0) {
                Some(w) => plus(w, 2),
                None => None,
            }
        },
        Statement::If(branches, otherwise) => {
            let tail = match otherwise {
                Some(body) => match body_budget(body) {
                    Some(w) => w,
                    None => {
                        return None;
                    },
                },
                None => 0,
            };
            let n = branches.len();
            let mut i: usize = n;
            let mut total: usize = 0;
            while i > 0
                invariant
                    n == branches@.len(),
                    i <= n,
                    total == branches_weight(branches@, i as int),
                    forall|j: int|
                        i <= j < n ==> branch_supported(#[trigger] branches@[j]),
                decreases i,
            {
                i -= 1;
                proof {
                    branches_weight_grows(branches@, 0, i as int);
                    if branches_supported(branches@, n as int) {
                        branches_supported_all(branches@, n as int);
                    }
                }
                let condition = match expression_budget(&branches[i].0.0.0) {
                    Some(w) => w,
                    None => {
                        return None;
                    },
                };
                let body = match body_budget(&branches[i].1) {
                    Some(w) => w,
                    None => {
                        return None;
                    },
                };
                let branch = match plus(condition, body) {
                    Some(w) => match plus(w, 1) {
                        Some(w) => w,
                        None => {
                            return None;
                        },
                    },
                    None => {
                        return None;
                    },
                };
                total = match plus(total, branch) {
                    Some(w) => w,
                    None => {
                        return None;
                    },
                };
                proof {
                    assert(branch_supported(branches@[i as int]));
                }
            }
            proof {
                branches_supported_from(branches@, n as int);
            }
            match plus(total, tail) {
                Some(w) => plus(w, 2),
                None => None,
            }
        },
        Statement::While(condition, body) => {
            let head = match expression_budget(&condition.0.0) {
                Some(w) => w,
                None => {
                    return None;
                },
            };
            let tail = match body_budget(body) {
                Some(w) => w,
                None => {
                    return None;
                },
            };
            match plus(head, tail) {
                Some(w) => plus(w, 1),
                None => None,
            }
        },
        _ => None,
    }
}

/// The registers that lowering `body` may take, where it can be lowered and
/// the count fits.
#[verifier::loop_isolation(false)]
pub fn body_budget(body: &Body) -> (budget: Option<usize>)
    ensures
        match budget {
            Some(w) => body_supported(body@, body@.len() as int) && w == body_weight(
                body@,
                body@.len() as int,
            ),
            None => !body_supported(body@, body@.len() as int) || body_weight(
                body@,
                body@.len() as int,
            ) > usize::MAX,
        },
    decreases *body,
{
    let mut total: usize = 0;
    let mut i: usize = 0;
    while i < body.len()
        invariant
            i <= body@.len(),
            body_supported(body@, i as int),
            total == body_weight(body@, i as int),
        decreases body@.len() - i,
    {
        proof {
            body_weight_grows(body@, i + 1, body@.len() as int);
            if body_supported(body@, body@.len() as int) {
                body_supported_at(body@, i as int, body@.len() as int);
            }
        }
        let one = match statement_budget(&body[i].0) {
            Some(w) => w,
            None => {
                return None;
            },
        };
        let with_one = match plus(one, 1) {
            Some(w) => w,
            None => {
                return None;
            },
        };
        total = match plus(total, with_one) {
            Some(w) => w,
            None => {
                return None;
            },
        };
        i += 1;
    }
    Some(total)
}

/// The weight of the branches from `from` on is at most that of all.
proof fn branches_weight_grows(branches: Seq<(Spanned<Spanned<Expr>>, Body)>, from: int, to: int)
    requires
        0 <= from <= to <= branches.len(),
    ensures
        branches_weight(branches, to) <= branches_weight(branches, from),
    decreases to - from,
{
    if from < to {
        branches_weight_grows(branches, from + 1, to);
    }
}

/// Branches that can each be lowered can be lowered together.
proof fn branches_supported_from(branches: Seq<(Spanned<Spanned<Expr>>, Body)>, n: int)
    requires
        0 <= n <= branches.len(),
        forall|j: int|
            0 <= j < n ==> branch_supported(#[trigger] branches[j]),
    ensures
        branches_supported(branches, n),
    decreases n,
{
    if n > 0 {
        branches_supported_from(branches, n - 1);
    }
}

/// Compiles a program.
///
/// Gives the compiled unit of every program that can be compiled: the
/// instructions that its statements are lowered to, in order, followed by
/// the instruction that ends the run. The unit can be run. A program that
/// uses what the compiler does not implement, or that may take more
/// registers than can be counted, is refused as `NotImplemented`. An
/// expression statement that can have no side effects where it stands
/// yields no code, whatever it is made of.
pub fn compile(ast: AST) -> (result: Result<Chunk, InternalError>)
    ensures
        match result {
            Ok(chunk) => compilable(ast.statements()@) && chunk@ == chunk_of(
                program(ast.statements()@),
            ) && chunk@.well_formed(),
            Err(error) => !compilable(ast.statements()@) && error == InternalError::NotImplemented,
        },
{
    let body = ast.into_body();
    let budget = body_budget(&body);
    if budget.is_none() {
        return Err(InternalError::NotImplemented);
    }
    let mut ctx = FunctionCompilationContext::new();
    match compile_body(&body, &mut ctx) {
        Ok(_) => {},
        Err(error) => {
            return Err(error);
        },
    }
    ctx.emit(OpCode::Return(None), Span { start: 0, end: 0 });
    proof {
        inv_facts(ctx@);
        assert forall|i: int| 0 <= i < ctx@.code.len() implies !(
        #[trigger] ctx@.code[i]).is_unpatched() by {
            assert(!ctx@.patches.contains(i as usize));
        }
    }
    Ok(ctx.into_chunk())
}

/// Whether `register` can be the target of an expression: if it is given, it
/// is a register in use.
pub open spec fn target_ok(m: Model, register: Option<StackIndex>) -> bool {
    register matches Some(t) ==> t.0 < m.next_register && !m.free.contains(t.0)
}

/// What lowering an expression does to the registers.
///
/// Locals and reserved places are as before and no instruction is lost. At
/// most `budget` new registers were taken. Every scratch register that was
/// taken is free again, but for the register `r` that holds the value where
/// no target was given and `r` is no local.
pub open spec fn evaluated(
    before: Model,
    after: Model,
    register: Option<StackIndex>,
    r: StackIndex,
    budget: nat,
) -> bool {
    &&& after.locals == before.locals
    &&& before.next_register <= after.next_register <= before.next_register + budget
    &&& after.patches == before.patches
    &&& after.code.len() >= before.code.len()
    &&& r.0 < after.next_register
    &&& match register {
        Some(t) => r == t && owes(before, after, Set::empty()),
        None => owes(before, after, scratch_of(after, r)),
    }
}

/// Whether two states agree on registers and locals.
pub open spec fn same_registers(a: Model, b: Model) -> bool {
    a.free == b.free && a.locals == b.locals && a.next_register == b.next_register
}

/// What is owed once the target of an expression is settled.
proof fn after_actualize(before: Model, register: Option<StackIndex>)
    requires
        before.inv(),
        before.next_register < usize::MAX,
        target_ok(before, register),
    ensures
        match register {
            Some(t) => owes(before, before.actualize(register).0, Set::empty()),
            None => owes(
                before,
                before.actualize(register).0,
                scratch_of(before.actualize(register).0, before.actualize(register).1),
            ),
        },
{
    owes_nothing(before);
    match register {
        Some(t) => {},
        None => {
            get_register_keeps(before);
            owes_get(before, before, Set::empty());
            let (m, r) = before.get_register();
            assert(Set::<usize>::empty().insert(r.0) =~= scratch_of(m, r));
        },
    }
}

/// Two operands that were lowered one after the other and whose registers
/// were given back owe nothing.
proof fn operands_settle(
    opened: Model,
    m2: Model,
    m2b: Model,
    m3: Model,
    m4: Model,
    m5: Model,
    done: Model,
    l: StackIndex,
    r: StackIndex,
)
    requires
        owes(opened, m2, scratch_of(m2, l)),
        same_registers(m2, m2b),
        m2b.inv(),
        owes(m2b, m3, scratch_of(m3, r)),
        same_registers(m3, m4),
        m5 == m4.release_if_unused(l).0,
        done == m5.release_if_unused(r).0,
    ensures
        owes(opened, done, Set::empty()),
{
    owes_same(opened, m2, m2b, scratch_of(m2, l));
    owes_chain(opened, m2b, m3, scratch_of(m2, l), scratch_of(m3, r));
    let live = scratch_of(m2, l) + scratch_of(m3, r);
    owes_same(opened, m3, m4, live);
    owes_facts(m2b, m3, scratch_of(m3, r));
    owes_release(opened, m4, live, l);
    let live5 = live.remove(l.0);
    if !m5.bound(r.0) && !live5.contains(r.0) {
        assert(r.0 == l.0);
        assert(m5.free.contains(r.0));
    }
    owes_release(opened, m5, live5, r);
    assert(live5.remove(r.0) =~= Set::empty());
}

/// The end of an operation whose target was given back while its operands
/// were lowered: the target is taken back, and nothing else is owed.
proof fn bracket(
    before: Model,
    opened: Model,
    done: Model,
    after: Model,
    register: Option<StackIndex>,
    output: StackIndex,
    released: bool,
)
    requires
        before.inv(),
        before.next_register < usize::MAX,
        target_ok(before, register),
        (opened, output, released) == before.actualize_and_release_if_unused(register),
        owes(opened, done, Set::empty()),
        opened.inv(),
        done.inv(),
        after == (if released {
            done.take_back_register(output)
        } else {
            done
        }),
    ensures
        released ==> done.free.contains(output.0),
        match register {
            Some(t) => output == t && owes(before, after, Set::empty()),
            None => owes(before, after, scratch_of(after, output)),
        },
{
    owes_facts(opened, done, Set::empty());
    match register {
        Some(t) => {
            assert((opened, released) == before.release_if_unused(t));
            assert(output == t);
            if released {
                assert(opened == before.release_register(t));
                assert(opened.free.contains(output.0));
                assert(done.free.contains(output.0));
                owes_take(opened, done, Set::empty(), output);
                assert(Set::<usize>::empty().insert(output.0) =~= set![t.0]);
                owes_target(before, opened, after, t);
            } else {
                assert(opened == before);
            }
        },
        None => {
            get_register_keeps(before);
            owes_nothing(before);
            owes_get(before, before, Set::empty());
            let (g, r) = before.get_register();
            assert(output == r);
            assert(released);
            assert(opened == g.release_register(r));
            assert(g.release_if_unused(r).0 == opened);
            owes_release(before, g, Set::empty().insert(r.0), r);
            assert(Set::<usize>::empty().insert(r.0).remove(r.0) =~= Set::empty());
            assert(opened.free.contains(output.0));
            assert(done.free.contains(output.0));
            owes_take(opened, done, Set::empty(), output);
            owes_chain(before, opened, after, Set::empty(), Set::empty().insert(output.0));
            assert(!after.bound(output.0));
            assert(Set::<usize>::empty() + Set::<usize>::empty().insert(output.0) =~= scratch_of(
                after,
                output,
            ));
        },
    }
}

/// The instruction that compares two registers.
pub fn comparison_op(comp: Comparison, lhs: StackIndex, rhs: StackIndex, output: StackIndex) -> (op:
    OpCode<String>)
    ensures
        op@ == comparison(comp, lhs, rhs, output),
        !op.is_unpatched(),
        forall|limit: int|
            lhs.0 < limit && rhs.0 < limit && output.0 < limit ==> #[trigger] op.fits(limit),
{
    match comp {
        Comparison::Eq => OpCode::Equals { lhs, rhs, output },
        Comparison::NotEq => OpCode::NotEquals { lhs, rhs, output },
        Comparison::Gt => OpCode::GreaterThan { lhs, rhs, output },
        Comparison::Lt => OpCode::LessThan { lhs, rhs, output },
        Comparison::GtEq => OpCode::GreaterOrEquals { lhs, rhs, output },
        Comparison::LtEq => OpCode::LessOrEquals { lhs, rhs, output },
    }
}

/// Lowers a variable into `register`, or into a register of the compiler's
/// choice. Gives the register that holds the value.
pub fn compile_path(
    path: &Path,
    span: Span,
    register: Option<StackIndex>,
    ctx: &mut FunctionCompilationContext,
    suppress_call: bool,
) -> (r: StackIndex)
    requires
        old(ctx).wf(),
        old(ctx)@.next_register < usize::MAX,
        target_ok(old(ctx)@, register),
    ensures
        final(ctx).wf(),
        (final(ctx)@, r) == crate::vm::lowering::path(
            old(ctx)@,
            path->AnyScope_0@,
            span,
            register,
            suppress_call,
        ),
        evaluated(old(ctx)@, final(ctx)@, register, r, 1),
{
    let ghost before = ctx@;
    proof {
        owes_nothing(before);
        after_actualize(before, register);
    }
    match path {
        Path::AnyScope(ident) => {
            if suppress_call || !ctx.can_be_function(ident.as_str()) {
                match (ctx.local_register(ident.as_str()), register) {
                    (Some(index), None) => index,
                    (Some(index), Some(output)) => {
                        ctx.emit(OpCode::Copy { source: index, output }, span);
                        proof {
                            owes_same(before, before, ctx@, Set::empty());
                        }
                        output
                    },
                    (None, _) => {
                        let target = ctx.actualize(register);
                        let ghost taken = ctx@;
                        ctx.emit(OpCode::ReadVariable(target, ident.clone()), span);
                        proof {
                            if register is Some {
                                owes_same(before, taken, ctx@, Set::empty());
                            } else {
                                owes_same(before, taken, ctx@, scratch_of(taken, target));
                            }
                        }
                        target
                    },
                }
            } else {
                let target = ctx.actualize(register);
                let ghost taken = ctx@;
                let input = match ctx.local_register(ident.as_str()) {
                    Some(index) => index,
                    None => {
                        ctx.emit(OpCode::ReadVariable(target, ident.clone()), span);
                        target
                    },
                };
                ctx.emit(OpCode::Call0 { function: input, output: target }, span);
                proof {
                    if register is Some {
                        owes_same(before, taken, ctx@, Set::empty());
                    } else {
                        owes_same(before, taken, ctx@, scratch_of(taken, target));
                    }
                }
                target
            }
        },
    }
}

/// Lowers an expression into `register`, or into a register of the
/// compiler's choice where none is given. Gives the register that holds the
/// value: `register` where one is given.
#[verifier::rlimit(50)]
pub fn compile_expressions(
    e: &Spanned<Expr>,
    register: Option<StackIndex>,
    ctx: &mut FunctionCompilationContext,
    suppress_call: bool,
) -> (r: StackIndex)
    requires
        old(ctx).wf(),
        supported(e.0),
        old(ctx)@.next_register + weight(e.0) <= usize::MAX,
        target_ok(old(ctx)@, register),
    ensures
        final(ctx).wf(),
        (final(ctx)@, r) == expression(old(ctx)@, e.0, e.1, register, suppress_call),
        evaluated(old(ctx)@, final(ctx)@, register, r, weight(e.0)),
    decreases weight(e.0), 1int,
{
    let ghost origin = ctx@;
    ctx.clear_assignment_spans();
    let span = e.1;
    let ghost before = ctx@;
    let r = match &e.0 {
        Expr::Value(val) => {
            proof {
                after_actualize(before, register);
            }
            let target = ctx.actualize(register);
            let ghost taken = ctx@;
            match val {
                Value::Null => ctx.emit(OpCode::SetNull(target), span),
                Value::Num(number) => ctx.emit(OpCode::SetNumber(target, number.clone()), span),
                Value::Boolean(condition) => {
                    let text = if *condition {
                        "1".to_owned()
                    } else {
                        "0".to_owned()
                    };
                    ctx.emit(OpCode::SetNumber(target, text), span)
                },
                Value::String(string) => {
                    let index = ctx.get_or_create_constant_index(string.as_str());
                    ctx.emit(OpCode::SetString(target, index), span)
                },
            }
            proof {
                if register is Some {
                    owes_same(before, taken, ctx@, Set::empty());
                } else {
                    owes_same(before, taken, ctx@, scratch_of(taken, target));
                }
            }
            target
        },
        Expr::Path(path) => compile_path(path, span, register, ctx, suppress_call),
        Expr::Comparison(lhs, comparisons) => compile_comparison_chain(
            lhs,
            comparisons,
            span,
            register,
            ctx,
        ),
        Expr::Binary(lhs, op, rhs) => compile_binary_op(lhs, op, rhs, span, register, ctx),
        Expr::Call(callee, arguments) => compile_function_call(
            callee,
            arguments,
            span,
            register,
            ctx,
        ),
        _ => {
            proof {
                assert(false);
            }
            StackIndex(0)
        },
    };
    proof {
        expression_steps(origin, e.0, e.1, register, suppress_call);
        owes_nothing(origin);
        owes_same(origin, origin, before, Set::empty());
        owes_chain(origin, before, ctx@, Set::empty(), match register {
            Some(t) => Set::empty(),
            None => scratch_of(ctx@, r),
        });
        let live = match register {
            Some(t) => Set::<usize>::empty(),
            None => scratch_of(ctx@, r),
        };
        assert(Set::<usize>::empty() + live =~= live);
    }
    r
}

/// Lowers a call. The one call that the compiler knows is `print` with one
/// argument.
pub fn compile_function_call(
    callee: &Spanned<Expr>,
    args: &Vec<Spanned<Expr>>,
    span: Span,
    register: Option<StackIndex>,
    ctx: &mut FunctionCompilationContext,
) -> (r: StackIndex)
    requires
        old(ctx).wf(),
        is_print(callee.0),
        args@.len() == 1,
        supported(args@[0].0),
        old(ctx)@.next_register + weight(args@[0].0) + 1 <= usize::MAX,
        target_ok(old(ctx)@, register),
    ensures
        final(ctx).wf(),
        (final(ctx)@, r) == function_call(old(ctx)@, args@[0], span, register),
        evaluated(old(ctx)@, final(ctx)@, register, r, weight(args@[0].0) + 1),
    decreases weight(args@[0].0) + 1, 0int,
{
    let ghost before = ctx@;
    proof {
        after_actualize(before, register);
    }
    let target = ctx.actualize(register);
    let ghost taken = ctx@;
    let ghost live = match register {
        Some(t) => Set::<usize>::empty(),
        None => scratch_of(taken, target),
    };
    let arg = compile_expressions(&args[0], Some(target), ctx, false);
    let ghost lowered = ctx@;
    ctx.emit(OpCode::Print { value: arg, output: target }, span);
    proof {
        function_call_steps(before, args@[0], span, register, taken, target, lowered, arg);
        owes_chain(before, taken, lowered, live, Set::empty());
        assert(live + Set::<usize>::empty() =~= live);
        owes_same(before, lowered, ctx@, live);
    }
    target
}

proof fn binary_op_is_logic(
    before: Model,
    lhs: Spanned<Expr>,
    op: BinaryOp,
    rhs: Spanned<Expr>,
    span: Span,
    register: Option<StackIndex>,
)
    requires
        op == BinaryOp::Or || op == BinaryOp::And,
    ensures
        binary_op(before, lhs, op, rhs, span, register) == binary_logic(
            before,
            lhs,
            rhs,
            op == BinaryOp::And,
            span,
            register,
        ),
{
    reveal(expression);
    reveal(function_call);
    reveal(binary_op);
    reveal(binary_logic);
    reveal(comparison_chain);
    reveal(links);
}

proof fn function_call_steps(
    before: Model,
    argument: Spanned<Expr>,
    span: Span,
    register: Option<StackIndex>,
    taken: Model,
    target: StackIndex,
    lowered: Model,
    arg: StackIndex,
)
    requires
        (taken, target) == before.actualize(register),
        (lowered, arg) == expression(taken, argument.0, argument.1, Some(target), false),
    ensures
        function_call(before, argument, span, register) == (
            lowered.emit(OpCode::Print { value: arg, output: target }, span),
            target,
        ),
{
    reveal(expression);
    reveal(function_call);
    reveal(binary_op);
    reveal(binary_logic);
    reveal(comparison_chain);
    reveal(links);
    let (m, r) = before.actualize(register);
    assert(m == taken && r == target);
    let (m2, a) = expression(m, argument.0, argument.1, Some(r), false);
    assert(m2 == lowered && a == arg);
}

/// What `expression` is for each kind of expression that can be lowered.
proof fn expression_steps(
    m: Model,
    expr: Expr,
    span: Span,
    register: Option<StackIndex>,
    suppress_call: bool,
)
    ensures
        expression(m, expr, span, register, suppress_call) == (match expr {
            Expr::Value(value) => literal(m.clear_assignment_spans(), value, span, register),
            Expr::Path(Path::AnyScope(name)) => path(
                m.clear_assignment_spans(),
                name@,
                span,
                register,
                suppress_call,
            ),
            Expr::Comparison(lhs, chain) => comparison_chain(
                m.clear_assignment_spans(),
                *lhs,
                chain@,
                span,
                register,
            ),
            Expr::Binary(lhs, op, rhs) => binary_op(
                m.clear_assignment_spans(),
                *lhs,
                op,
                *rhs,
                span,
                register,
            ),
            Expr::Call(callee, args) => if args@.len() >= 1 {
                function_call(m.clear_assignment_spans(), args@[0], span, register)
            } else {
                (m.clear_assignment_spans(), StackIndex(0))
            },
            _ => (m.clear_assignment_spans(), StackIndex(0)),
        }),
{
    reveal(expression);
    reveal(function_call);
    reveal(binary_op);
    reveal(binary_logic);
    reveal(comparison_chain);
    reveal(links);
}

proof fn binary_op_steps(
    before: Model,
    lhs: Spanned<Expr>,
    op: BinaryOp,
    rhs: Spanned<Expr>,
    span: Span,
    register: Option<StackIndex>,
    opened: Model,
    output: StackIndex,
    released: bool,
    m2: Model,
    l: StackIndex,
    m3: Model,
    r: StackIndex,
    m4: Model,
    done: Model,
    after: Model,
)
    requires
        op != BinaryOp::Or && op != BinaryOp::And,
        (opened, output, released) == before.actualize_and_release_if_unused(register),
        (m2, l) == expression(opened, lhs.0, lhs.1, None, false),
        (m3, r) == expression(m2, rhs.0, rhs.1, None, false),
        m4 == m3.emit(arithmetic(op, output, l, r), span),
        done == m4.release_if_unused(l).0.release_if_unused(r).0,
        after == (if released {
            done.take_back_register(output)
        } else {
            done
        }),
    ensures
        binary_op(before, lhs, op, rhs, span, register) == (after, output),
{
    reveal(expression);
    reveal(function_call);
    reveal(binary_op);
    reveal(binary_logic);
    reveal(comparison_chain);
    reveal(links);
    let (o, out, rel) = before.actualize_and_release_if_unused(register);
    assert(o == opened && out == output && rel == released);
    let (x2, xl) = expression(o, lhs.0, lhs.1, None, false);
    assert(x2 == m2 && xl == l);
    let (x3, xr) = expression(x2, rhs.0, rhs.1, None, false);
    assert(x3 == m3 && xr == r);
    let x4 = x3.emit(arithmetic(op, out, xl, xr), span);
    let x5 = x4.release_if_unused(xl).0;
    let x6 = x5.release_if_unused(xr).0;
    assert(x6 == done);
    let x7 = if rel {
        x6.take_back_register(out)
    } else {
        x6
    };
    assert(x7 == after);
    assert(binary_op(before, lhs, op, rhs, span, register) == (x7, out));
}

/// Lowers a binary operation into `register`, or into a register of the
/// compiler's choice.
#[verifier::rlimit(50)]
pub fn compile_binary_op(
    lhs: &Spanned<Expr>,
    op: &BinaryOp,
    rhs: &Spanned<Expr>,
    span: Span,
    register: Option<StackIndex>,
    ctx: &mut FunctionCompilationContext,
) -> (r: StackIndex)
    requires
        old(ctx).wf(),
        supported(lhs.0),
        supported(rhs.0),
        old(ctx)@.next_register + weight(lhs.0) + weight(rhs.0) + 2 <= usize::MAX,
        target_ok(old(ctx)@, register),
    ensures
        final(ctx).wf(),
        (final(ctx)@, r) == binary_op(old(ctx)@, *lhs, *op, *rhs, span, register),
        evaluated(old(ctx)@, final(ctx)@, register, r, weight(lhs.0) + weight(rhs.0) + 2),
    decreases weight(lhs.0) + weight(rhs.0) + 1, 1int,
{
    let op = *op;
    let is_and = matches!(op, BinaryOp::And);
    if matches!(op, BinaryOp::Or) || is_and {
        proof {
            binary_op_is_logic(ctx@, *lhs, op, *rhs, span, register);
        }
        return compile_binary_logic(lhs, rhs, is_and, span, register, ctx);
    }
    let ghost before = ctx@;
    let (output, released) = ctx.actualize_and_release_if_unused(register);
    let ghost opened = ctx@;
    let l = compile_expressions(lhs, None, ctx, false);
    let ghost m2 = ctx@;
    let r = compile_expressions(rhs, None, ctx, false);
    let ghost m3 = ctx@;
    let code = match op {
        BinaryOp::Add => OpCode::Add { output, lhs: l, rhs: r },
        BinaryOp::Sub => OpCode::Subtract { output, lhs: l, rhs: r },
        BinaryOp::Mul => OpCode::Multiply { output, lhs: l, rhs: r },
        BinaryOp::Div => OpCode::Divide { output, lhs: l, rhs: r },
        BinaryOp::Pow => OpCode::Pow { output, lhs: l, rhs: r },
        BinaryOp::Or => OpCode::FuzzyOr { output, lhs: l, rhs: r },
        BinaryOp::And => OpCode::FuzzyAnd { output, lhs: l, rhs: r },
    };
    ctx.emit(code, span);
    let ghost m4 = ctx@;
    ctx.release_if_unused(l);
    let ghost m5 = ctx@;
    ctx.release_if_unused(r);
    let ghost done = ctx@;
    proof {
        operands_settle(opened, m2, m2, m3, m4, m5, done, l, r);
        let after = if released {
            done.take_back_register(output)
        } else {
            done
        };
        bracket(before, opened, done, after, register, output, released);
        binary_op_steps(
            before,
            *lhs,
            op,
            *rhs,
            span,
            register,
            opened,
            output,
            released,
            m2,
            l,
            m3,
            r,
            m4,
            done,
            after,
        );
    }
    if released {
        ctx.take_back_register(output);
    }
    output
}

proof fn binary_logic_steps(
    before: Model,
    lhs: Spanned<Expr>,
    rhs: Spanned<Expr>,
    is_and: bool,
    span: Span,
    register: Option<StackIndex>,
    opened: Model,
    target: StackIndex,
    released: bool,
    m2: Model,
    l: StackIndex,
    m2b: Model,
    jump: usize,
    m3: Model,
    r: StackIndex,
    m3b: Model,
    m3c: Model,
    jump_out: usize,
    m3d: Model,
    m4: Model,
    done: Model,
    after: Model,
)
    requires
        (opened, target, released) == before.actualize_and_release_if_unused(register),
        (m2, l) == expression(opened, lhs.0, lhs.1, None, false),
        (m2b, jump) == m2.emit_reserve(span),
        (m3, r) == expression(m2b, rhs.0, rhs.1, None, false),
        m3b == (if is_and {
            m3.emit(OpCode::FuzzyAnd { output: target, lhs: l, rhs: r }, span)
        } else {
            m3.emit(OpCode::FuzzyOr { output: target, lhs: l, rhs: r }, span)
        }).mark_assignment_span(),
        (m3c, jump_out) == m3b.emit_reserve(Span { start: 0, end: 0 }),
        m3d == (if is_and {
            m3c.patch(jump, OpCode::JumpIfFalse(l, m3c.ops_length())).emit(
                OpCode::SetNumber(target, "0"@),
                span,
            )
        } else {
            m3c.patch(jump, OpCode::JumpIfAbsOneOrGreater(l, m3c.ops_length())).emit(
                OpCode::SetNumber(target, "1"@),
                span,
            )
        }).mark_assignment_span(),
        m4 == m3d.patch(jump_out, OpCode::Jump(m3d.ops_length())),
        done == m4.release_if_unused(l).0.release_if_unused(r).0,
        after == (if released {
            done.take_back_register(target)
        } else {
            done
        }),
    ensures
        binary_logic(before, lhs, rhs, is_and, span, register) == (after, target),
{
    reveal(expression);
    reveal(function_call);
    reveal(binary_op);
    reveal(binary_logic);
    reveal(comparison_chain);
    reveal(links);
    let (o, out, rel) = before.actualize_and_release_if_unused(register);
    assert(o == opened && out == target && rel == released);
    let (x2, xl) = expression(o, lhs.0, lhs.1, None, false);
    assert(x2 == m2 && xl == l);
    let (x2b, xj) = x2.emit_reserve(span);
    assert(x2b == m2b && xj == jump);
    let (x3, xr) = expression(x2b, rhs.0, rhs.1, None, false);
    assert(x3 == m3 && xr == r);
}

/// Lowers `and` and `or` with a short circuit into `register`, or into a
/// register of the compiler's choice.
#[verifier::rlimit(50)]
pub fn compile_binary_logic(
    lhs: &Spanned<Expr>,
    rhs: &Spanned<Expr>,
    is_and: bool,
    span: Span,
    register: Option<StackIndex>,
    ctx: &mut FunctionCompilationContext,
) -> (r: StackIndex)
    requires
        old(ctx).wf(),
        supported(lhs.0),
        supported(rhs.0),
        old(ctx)@.next_register + weight(lhs.0) + weight(rhs.0) + 2 <= usize::MAX,
        target_ok(old(ctx)@, register),
    ensures
        final(ctx).wf(),
        (final(ctx)@, r) == binary_logic(old(ctx)@, *lhs, *rhs, is_and, span, register),
        evaluated(old(ctx)@, final(ctx)@, register, r, weight(lhs.0) + weight(rhs.0) + 2),
    decreases weight(lhs.0) + weight(rhs.0) + 1, 0int,
{
    let ghost before = ctx@;
    let (target, released) = ctx.actualize_and_release_if_unused(register);
    let ghost opened = ctx@;
    let lhs_register = compile_expressions(lhs, None, ctx, false);
    let ghost m2 = ctx@;
    let jump = ctx.emit_reserve(span);
    let ghost jump_id = jump.0;
    let ghost m2b = ctx@;
    let rhs_register = compile_expressions(rhs, None, ctx, false);
    let ghost m3 = ctx@;
    if is_and {
        ctx.emit(OpCode::FuzzyAnd { output: target, lhs: lhs_register, rhs: rhs_register }, span);
    } else {
        ctx.emit(OpCode::FuzzyOr { output: target, lhs: lhs_register, rhs: rhs_register }, span);
    }
    ctx.mark_assignment_span();
    let ghost m3b = ctx@;
    let jump_out = ctx.emit_reserve(Span { start: 0, end: 0 });
    let ghost jump_out_id = jump_out.0;
    let ghost m3c = ctx@;
    if is_and {
        let here = ctx.ops_length();
        ctx.patch(jump, OpCode::JumpIfFalse(lhs_register, here));
        ctx.emit(OpCode::SetNumber(target, "0".to_owned()), span);
    } else {
        let here = ctx.ops_length();
        ctx.patch(jump, OpCode::JumpIfAbsOneOrGreater(lhs_register, here));
        ctx.emit(OpCode::SetNumber(target, "1".to_owned()), span);
    }
    ctx.mark_assignment_span();
    let ghost m3d = ctx@;
    let end = ctx.ops_length();
    ctx.patch(jump_out, OpCode::Jump(end));
    let ghost m4 = ctx@;
    ctx.release_if_unused(lhs_register);
    let ghost m5 = ctx@;
    ctx.release_if_unused(rhs_register);
    let ghost done = ctx@;
    proof {
        assert(m4.patches =~= before.patches);
        operands_settle(opened, m2, m2b, m3, m4, m5, done, lhs_register, rhs_register);
        let after = if released {
            done.take_back_register(target)
        } else {
            done
        };
        bracket(before, opened, done, after, register, target, released);
        binary_logic_steps(
            before,
            *lhs,
            *rhs,
            is_and,
            span,
            register,
            opened,
            target,
            released,
            m2,
            lhs_register,
            m2b,
            jump_id,
            m3,
            rhs_register,
            m3b,
            m3c,
            jump_out_id,
            m3d,
            m4,
            done,
            after,
        );
    }
    if released {
        ctx.take_back_register(target);
    }
    target
}

proof fn chain_single_steps(
    before: Model,
    lhs: Spanned<Expr>,
    chain: Seq<(Comparison, Spanned<Expr>)>,
    span: Span,
    register: Option<StackIndex>,
    opened: Model,
    target: StackIndex,
    released: bool,
    m2: Model,
    l: StackIndex,
    m3: Model,
    r: StackIndex,
    done: Model,
    after: Model,
)
    requires
        chain.len() == 1,
        (opened, target, released) == before.actualize_and_release_if_unused(register),
        (m2, l) == expression(opened, lhs.0, lhs.1, None, false),
        (m3, r) == expression(m2, chain[0].1.0, chain[0].1.1, None, false),
        done == m3.emit(comparison(chain[0].0, l, r, target), span).release_if_unused(
            l,
        ).0.release_if_unused(r).0,
        after == (if released {
            done.take_back_register(target)
        } else {
            done
        }),
    ensures
        comparison_chain(before, lhs, chain, span, register) == (after, target),
{
    reveal(expression);
    reveal(function_call);
    reveal(binary_op);
    reveal(binary_logic);
    reveal(comparison_chain);
    reveal(links);
    let (o, out, rel) = before.actualize_and_release_if_unused(register);
    assert(o == opened && out == target && rel == released);
    let (x2, xl) = expression(o, lhs.0, lhs.1, None, false);
    assert(x2 == m2 && xl == l);
    let (x3, xr) = expression(x2, chain[0].1.0, chain[0].1.1, None, false);
    assert(x3 == m3 && xr == r);
}

proof fn chain_general_steps(
    before: Model,
    lhs: Spanned<Expr>,
    chain: Seq<(Comparison, Spanned<Expr>)>,
    span: Span,
    register: Option<StackIndex>,
    opened: Model,
    target: StackIndex,
    released: bool,
    taken: Model,
    accumulator: StackIndex,
    started: Model,
    first: StackIndex,
    looped: Model,
    last: StackIndex,
    done: Model,
    after: Model,
)
    requires
        chain.len() != 1,
        (opened, target, released) == before.actualize_and_release_if_unused(register),
        (taken, accumulator) == opened.get_register(),
        (started, first) == expression(
            taken.emit(OpCode::SetNumber(accumulator, "1"@), Span { start: 0, end: 0 }),
            lhs.0,
            lhs.1,
            None,
            false,
        ),
        (looped, last) == links(started, lhs.1, chain, chain.len() as int, accumulator, first),
        done == (if target != accumulator {
            looped.release_if_unused(last).0.release_if_unused(accumulator).0.emit(
                OpCode::Copy { source: accumulator, output: target },
                span,
            )
        } else {
            looped.release_if_unused(last).0.release_if_unused(accumulator).0
        }),
        after == (if released {
            done.take_back_register(target)
        } else {
            done
        }),
    ensures
        comparison_chain(before, lhs, chain, span, register) == (after, target),
{
    reveal(expression);
    reveal(function_call);
    reveal(binary_op);
    reveal(binary_logic);
    reveal(comparison_chain);
    reveal(links);
    let (o, out, rel) = before.actualize_and_release_if_unused(register);
    assert(o == opened && out == target && rel == released);
    let (g, acc) = o.get_register();
    assert(g == taken && acc == accumulator);
    let e = g.emit(OpCode::SetNumber(acc, "1"@), Span { start: 0, end: 0 });
    let (x2, xf) = expression(e, lhs.0, lhs.1, None, false);
    assert(x2 == started && xf == first);
    let (x3, xl) = links(x2, lhs.1, chain, chain.len() as int, acc, xf);
    assert(x3 == looped && xl == last);
}

proof fn links_start(
    m: Model,
    lhs_span: Span,
    chain: Seq<(Comparison, Spanned<Expr>)>,
    accumulator: StackIndex,
    first: StackIndex,
)
    ensures
        links(m, lhs_span, chain, 0, accumulator, first) == (m, first),
{
    reveal(expression);
    reveal(function_call);
    reveal(binary_op);
    reveal(binary_logic);
    reveal(comparison_chain);
    reveal(links);
}

proof fn links_step(
    started: Model,
    lhs_span: Span,
    chain: Seq<(Comparison, Spanned<Expr>)>,
    n: int,
    accumulator: StackIndex,
    first: StackIndex,
    head: Model,
    lhs_register: StackIndex,
    m_a: Model,
    rhs_register: StackIndex,
    m_c: Model,
    scratch: StackIndex,
    tail: Model,
)
    requires
        0 < n <= chain.len(),
        (head, lhs_register) == links(started, lhs_span, chain, n - 1, accumulator, first),
        (m_a, rhs_register) == expression(head, chain[n - 1].1.0, chain[n - 1].1.1, None, false),
        (m_c, scratch) == m_a.release_if_unused(lhs_register).0.get_register(),
        tail == m_c.emit(
            comparison(chain[n - 1].0, lhs_register, rhs_register, scratch),
            Span {
                start: (if n == 1 {
                    lhs_span
                } else {
                    chain[n - 2].1.1
                }).start,
                end: chain[n - 1].1.1.end,
            },
        ).emit(
            OpCode::And { lhs: accumulator, rhs: scratch, output: accumulator },
            Span { start: lhs_span.start, end: chain[n - 1].1.1.end },
        ).release_if_unused(scratch).0.release_if_unused(lhs_register).0,
    ensures
        links(started, lhs_span, chain, n, accumulator, first) == (tail, rhs_register),
{
    reveal(expression);
    reveal(function_call);
    reveal(binary_op);
    reveal(binary_logic);
    reveal(comparison_chain);
    reveal(links);
    let (x, xl) = links(started, lhs_span, chain, n - 1, accumulator, first);
    assert(x == head && xl == lhs_register);
    let rhs = chain[n - 1].1;
    let (xa, xr) = expression(x, rhs.0, rhs.1, None, false);
    assert(xa == m_a && xr == rhs_register);
    let xb = xa.release_if_unused(xl).0;
    let (xc, xs) = xb.get_register();
    assert(xc == m_c && xs == scratch);
}

/// One link of a chain leaves the accumulator and the right operand owed.
proof fn link_settles(
    opened: Model,
    head: Model,
    m_a: Model,
    m_b: Model,
    m_c: Model,
    m_c2: Model,
    m_d: Model,
    tail: Model,
    accumulator: StackIndex,
    lhs_register: StackIndex,
    rhs_register: StackIndex,
    scratch: StackIndex,
)
    requires
        head.inv(),
        m_b.inv(),
        m_b.next_register < usize::MAX,
        owes(opened, head, set![accumulator.0] + scratch_of(head, lhs_register)),
        head.bound(lhs_register.0) || lhs_register != accumulator,
        owes(head, m_a, scratch_of(m_a, rhs_register)),
        m_b == m_a.release_if_unused(lhs_register).0,
        (m_c, scratch) == m_b.get_register(),
        same_registers(m_c, m_c2),
        m_d == m_c2.release_if_unused(scratch).0,
        tail == m_d.release_if_unused(lhs_register).0,
    ensures
        owes(opened, tail, set![accumulator.0] + scratch_of(tail, rhs_register)),
        tail.bound(rhs_register.0) || rhs_register != accumulator,
        scratch != accumulator,
{
    let live = set![accumulator.0] + scratch_of(head, lhs_register);
    let more = scratch_of(m_a, rhs_register);
    assert(live.contains(accumulator.0));
    owes_facts(opened, head, live);
    assert(!head.bound(accumulator.0));
    assert(lhs_register != accumulator);
    owes_chain(opened, head, m_a, live, more);
    owes_facts(head, m_a, more);
    assert(!more.contains(accumulator.0));
    if !head.bound(lhs_register.0) {
        assert(live.contains(lhs_register.0));
        assert(!more.contains(lhs_register.0));
    }
    owes_release(opened, m_a, live + more, lhs_register);
    let l1 = (live + more).remove(lhs_register.0);
    owes_get(opened, m_b, l1);
    get_register_keeps(m_b);
    owes_same(opened, m_c, m_c2, l1.insert(scratch.0));
    owes_release(opened, m_c2, l1.insert(scratch.0), scratch);
    assert(l1.insert(scratch.0).remove(scratch.0) =~= l1);
    if !m_d.bound(lhs_register.0) {
        assert(m_b.free.contains(lhs_register.0));
        assert(m_c.free.insert(scratch.0).contains(lhs_register.0));
        assert(m_d.free.contains(lhs_register.0));
    }
    owes_release(opened, m_d, l1, lhs_register);
    assert(tail.locals == m_a.locals);
    assert(scratch_of(tail, rhs_register) == more);
    assert(l1.remove(lhs_register.0) =~= set![accumulator.0] + more);
    assert(l1.contains(accumulator.0));
    if tail.bound(rhs_register.0) {
    } else {
        assert(more.contains(rhs_register.0));
    }
}

/// Lowers the links of a chain whose left operand is in `first`, each into
/// the accumulator. Gives the register of the last right operand.
fn compile_links(
    lhs_span: Span,
    chain: &Vec<(Comparison, Spanned<Expr>)>,
    accumulator: StackIndex,
    first: StackIndex,
    ctx: &mut FunctionCompilationContext,
    Ghost(opened): Ghost<Model>,
) -> (last: StackIndex)
    requires
        old(ctx).wf(),
        links_supported(chain@, chain@.len() as int),
        old(ctx)@.next_register + links_weight(chain@, chain@.len() as int) + 1 <= usize::MAX,
        first.0 < old(ctx)@.next_register,
        accumulator.0 < old(ctx)@.next_register,
        owes(opened, old(ctx)@, set![accumulator.0] + scratch_of(old(ctx)@, first)),
        old(ctx)@.bound(first.0) || first != accumulator,
    ensures
        final(ctx).wf(),
        (final(ctx)@, last) == links(
            old(ctx)@,
            lhs_span,
            chain@,
            chain@.len() as int,
            accumulator,
            first,
        ),
        final(ctx)@.patches == old(ctx)@.patches,
        final(ctx)@.code.len() >= old(ctx)@.code.len(),
        old(ctx)@.next_register <= final(ctx)@.next_register <= old(ctx)@.next_register
            + links_weight(chain@, chain@.len() as int),
        last.0 < final(ctx)@.next_register,
        owes(opened, final(ctx)@, set![accumulator.0] + scratch_of(final(ctx)@, last)),
        final(ctx)@.bound(last.0) || last != accumulator,
    decreases links_weight(chain@, chain@.len() as int) + 1, 0int,
{
    let ghost started = ctx@;
    let mut lhs_register = first;
    let mut previous: Span = lhs_span;
    let n = chain.len();
    let mut i: usize = 0;
    proof {
        links_start(started, lhs_span, chain@, accumulator, first);
    }
    while i < n
        invariant
            n == chain@.len(),
            i <= n,
            ctx.wf(),
            links_supported(chain@, n as int),
            started.next_register + links_weight(chain@, n as int) + 1 <= usize::MAX,
            (ctx@, lhs_register) == links(started, lhs_span, chain@, i as int, accumulator, first),
            previous == (if i == 0 {
                lhs_span
            } else {
                chain@[i - 1].1.1
            }),
            ctx@.patches == started.patches,
            ctx@.code.len() >= started.code.len(),
            started.next_register <= ctx@.next_register <= started.next_register + links_weight(
                chain@,
                i as int,
            ),
            lhs_register.0 < ctx@.next_register,
            accumulator.0 < ctx@.next_register,
            owes(opened, ctx@, set![accumulator.0] + scratch_of(ctx@, lhs_register)),
            ctx@.bound(lhs_register.0) || lhs_register != accumulator,
        decreases n - i,
    {
        proof {
            links_weight_grows(chain@, i + 1, n as int);
            links_supported_at(chain@, i as int, n as int);
        }
        let ghost head = ctx@;
        let comp = chain[i].0;
        let rhs = &chain[i].1;
        let rhs_register = compile_expressions(rhs, None, ctx, false);
        let ghost m_a = ctx@;
        ctx.release_if_unused(lhs_register);
        let ghost m_b = ctx@;
        let scratch = ctx.get_register();
        let ghost m_c = ctx@;
        proof {
            link_settles_start(opened, head, m_a, accumulator, lhs_register, rhs_register);
        }
        ctx.emit(
            comparison_op(comp, lhs_register, rhs_register, scratch),
            Span { start: previous.start, end: rhs.1.end },
        );
        ctx.emit(
            OpCode::And { lhs: accumulator, rhs: scratch, output: accumulator },
            Span { start: lhs_span.start, end: rhs.1.end },
        );
        let ghost m_c2 = ctx@;
        ctx.release_if_unused(scratch);
        let ghost m_d = ctx@;
        ctx.release_if_unused(lhs_register);
        proof {
            link_settles(
                opened,
                head,
                m_a,
                m_b,
                m_c,
                m_c2,
                m_d,
                ctx@,
                accumulator,
                lhs_register,
                rhs_register,
                scratch,
            );
            links_step(
                started,
                lhs_span,
                chain@,
                i + 1,
                accumulator,
                first,
                head,
                lhs_register,
                m_a,
                rhs_register,
                m_c,
                scratch,
                ctx@,
            );
        }
        lhs_register = rhs_register;
        previous = rhs.1;
        i += 1;
    }
    lhs_register
}

/// Lowers a comparison chain into `register`, or into a register of the
/// compiler's choice.
#[verifier::rlimit(50)]
pub fn compile_comparison_chain(
    lhs: &Spanned<Expr>,
    chain: &Vec<(Comparison, Spanned<Expr>)>,
    span: Span,
    register: Option<StackIndex>,
    ctx: &mut FunctionCompilationContext,
) -> (r: StackIndex)
    requires
        old(ctx).wf(),
        supported(lhs.0),
        links_supported(chain@, chain@.len() as int),
        old(ctx)@.next_register + weight(lhs.0) + links_weight(chain@, chain@.len() as int) + 3
            <= usize::MAX,
        target_ok(old(ctx)@, register),
    ensures
        final(ctx).wf(),
        (final(ctx)@, r) == comparison_chain(old(ctx)@, *lhs, chain@, span, register),
        evaluated(
            old(ctx)@,
            final(ctx)@,
            register,
            r,
            weight(lhs.0) + links_weight(chain@, chain@.len() as int) + 3,
        ),
    decreases weight(lhs.0) + links_weight(chain@, chain@.len() as int) + 2, 0int,
{
    let ghost before = ctx@;
    let (target, released) = ctx.actualize_and_release_if_unused(register);
    let ghost opened = ctx@;
    if chain.len() == 1 {
        proof {
            links_weight_grows(chain@, 0, 1);
            assert(links_supported(chain@, 1));
        }
        let comp = chain[0].0;
        let l = compile_expressions(lhs, None, ctx, false);
        let ghost m2 = ctx@;
        let r = compile_expressions(&chain[0].1, None, ctx, false);
        let ghost m3 = ctx@;
        ctx.emit(comparison_op(comp, l, r, target), span);
        let ghost m4 = ctx@;
        ctx.release_if_unused(l);
        let ghost m5 = ctx@;
        ctx.release_if_unused(r);
        proof {
            operands_settle(opened, m2, m2, m3, m4, m5, ctx@, l, r);
            let done = ctx@;
            chain_single_steps(
                before,
                *lhs,
                chain@,
                span,
                register,
                opened,
                target,
                released,
                m2,
                l,
                m3,
                r,
                done,
                if released {
                    done.take_back_register(target)
                } else {
                    done
                },
            );
        }
    } else {
        proof {
            owes_nothing(opened);
            owes_get(opened, opened, Set::empty());
            assert(Set::<usize>::empty().insert(opened.get_register().1.0) =~= set![
                opened.get_register().1.0,
            ]);
        }
        let accumulator = ctx.get_register();
        let ghost taken = ctx@;
        ctx.emit(OpCode::SetNumber(accumulator, "1".to_owned()), Span { start: 0, end: 0 });
        let ghost m1 = ctx@;
        let first = compile_expressions(lhs, None, ctx, false);
        let ghost started = ctx@;
        proof {
            owes_same(opened, taken, m1, set![accumulator.0]);
            owes_chain(opened, m1, started, set![accumulator.0], scratch_of(started, first));
            if !started.bound(first.0) {
                assert(scratch_of(started, first).contains(first.0));
            }
        }
        let lhs_register = compile_links(lhs.1, chain, accumulator, first, ctx, Ghost(opened));
        let ghost looped = ctx@;
        ctx.release_if_unused(lhs_register);
        let ghost m_e = ctx@;
        ctx.release_if_unused(accumulator);
        proof {
            let live = set![accumulator.0] + scratch_of(looped, lhs_register);
            owes_release(opened, looped, live, lhs_register);
            owes_facts(opened, looped, live);
            assert(live.contains(accumulator.0));
            owes_release(opened, m_e, live.remove(lhs_register.0), accumulator);
            assert(live.remove(lhs_register.0).remove(accumulator.0) =~= Set::empty());
        }
        let ghost m_f = ctx@;
        if target.0 != accumulator.0 {
            ctx.emit(OpCode::Copy { source: accumulator, output: target }, span);
            proof {
                owes_same(opened, m_f, ctx@, Set::empty());
            }
        }
        proof {
            let done = ctx@;
            chain_general_steps(
                before,
                *lhs,
                chain@,
                span,
                register,
                opened,
                target,
                released,
                taken,
                accumulator,
                started,
                first,
                looped,
                lhs_register,
                done,
                if released {
                    done.take_back_register(target)
                } else {
                    done
                },
            );
        }
    }
    let ghost done = ctx@;
    proof {
        bracket(
            before,
            opened,
            done,
            if released {
                done.take_back_register(target)
            } else {
                done
            },
            register,
            target,
            released,
        );
    }
    if released {
        ctx.take_back_register(target);
    }
    target
}

/// While a link is lowered the accumulator stays in use.
proof fn link_settles_start(
    opened: Model,
    head: Model,
    m_a: Model,
    accumulator: StackIndex,
    lhs_register: StackIndex,
    rhs_register: StackIndex,
)
    requires
        head.inv(),
        owes(opened, head, set![accumulator.0] + scratch_of(head, lhs_register)),
        owes(head, m_a, scratch_of(m_a, rhs_register)),
    ensures
        accumulator.0 < head.next_register,
        !head.bound(accumulator.0),
{
    let live = set![accumulator.0] + scratch_of(head, lhs_register);
    assert(live.contains(accumulator.0));
    owes_facts(opened, head, live);
}

proof fn links_supported_at(chain: Seq<(Comparison, Spanned<Expr>)>, i: int, n: int)
    requires
        0 <= i < n <= chain.len(),
        links_supported(chain, n),
    ensures
        supported(chain[i].1.0),
    decreases n - i,
{
    if i + 1 < n {
        links_supported_at(chain, i, n - 1);
    }
}

/// What lowering statements does to the registers: every register is free
/// or the home of a local again, at most `budget` new registers were taken,
/// no reserved place is left open and no instruction is lost.
pub open spec fn lowered(before: Model, after: Model, budget: nat) -> bool {
    &&& after.no_trash()
    &&& before.next_register <= after.next_register <= before.next_register + budget
    &&& after.patches == before.patches
    &&& after.code.len() >= before.code.len()
}

/// Whether the value of `expr` may be a function, as far as the compiler can
/// tell from its shape and from what it knows of the locals.
pub fn can_evaluate_to_function(expr: &Expr, ctx: &FunctionCompilationContext) -> (can: bool)
    ensures
        can == may_be_function(ctx@, *expr),
    decreases *expr,
{
    match expr {
        Expr::Value(_) => false,
        Expr::Path(path) => match path {
            Path::AnyScope(ident) => ctx.can_be_function(ident.as_str()),
        },
        Expr::List(_) => false,
        Expr::MapLiteral(_) => false,
        Expr::FunctionDefinition(_, _) => true,
        Expr::Comparison(_, _) => false,
        Expr::Binary(_, _, _) => false,
        Expr::Unary(_, rhs) => can_evaluate_to_function(&rhs.0, ctx),
        Expr::Call(_, _) => true,
        Expr::ExprIndex(_, _) => true,
        Expr::Index(_, _) => true,
        Expr::Error => true,
    }
}

/// Registers and locals that agree leave every register accounted for.
proof fn same_registers_no_trash(a: Model, b: Model)
    requires
        a.no_trash(),
        same_registers(a, b),
    ensures
        b.no_trash(),
{
    assert forall|r: usize| r < b.next_register implies b.free.contains(r) || b.bound(r) by {
        assert(a.free.contains(r) || a.bound(r));
    }
}

proof fn statement_steps(m: Model, s: Statement, span: Span)
    ensures
        statement(m, s, span) == (match s {
            Statement::Expression(expr) => if !side_effects(expr.0, m, false) {
                m
            } else {
                expression(m, expr.0, expr.1, None, false).0.release_if_unused(
                    expression(m, expr.0, expr.1, None, false).1,
                ).0
            },
            Statement::Assignment(lhs, rhs) => match lhs.0 {
                Expr::Path(Path::AnyScope(name)) => assignment(m, name@, rhs, span),
                _ => m,
            },
            Statement::If(branches, otherwise) => conditional(m, branches@, 0, otherwise).0,
            Statement::While(condition, body) => while_loop(m, condition, body@),
            _ => m,
        }),
{
    reveal(statement);
    reveal(statements);
    reveal(conditional);
    reveal(while_loop);
}

proof fn statements_steps(m: Model, body: Seq<Spanned<Statement>>, n: int)
    ensures
        statements(m, body, n) == (if n <= 0 || n > body.len() {
            m
        } else {
            statement(statements(m, body, n - 1), body[n - 1].0, body[n - 1].1)
        }),
{
    reveal(statement);
    reveal(statements);
    reveal(conditional);
    reveal(while_loop);
}

proof fn assignment_steps(
    before: Model,
    name: Seq<char>,
    rhs: Spanned<Expr>,
    span: Span,
    m1: Model,
    target: StackIndex,
    is_new: bool,
    m2: Model,
    after: Model,
)
    requires
        (m1, target, is_new) == (match before.local_register(name) {
            Some(register) => (before, register, false),
            None => (before.get_register().0, before.get_register().1, true),
        }),
        m2 == expression(m1, rhs.0, rhs.1, Some(target), false).0.patch_assignment_spans(
            m1.ops_length(),
            span,
        ),
        after == (if is_new {
            m2.new_local(name, target)
        } else {
            m2
        }).set_can_be_function(
            name,
            may_be_function(
                if is_new {
                    m2.new_local(name, target)
                } else {
                    m2
                },
                rhs.0,
            ),
        ),
    ensures
        assignment(before, name, rhs, span) == after,
{
    let (x1, lhs, new) = match before.local_register(name) {
        Some(register) => (before, register, false),
        None => {
            let (m, register) = before.get_register();
            (m, register, true)
        },
    };
    assert(x1 == m1 && lhs == target && new == is_new);
}

/// Lowers `name = rhs`.
pub fn compile_assignment(
    lhs: &Spanned<Expr>,
    rhs: &Spanned<Expr>,
    span: &Span,
    ctx: &mut FunctionCompilationContext,
)
    requires
        old(ctx).wf(),
        old(ctx)@.no_trash(),
        lhs.0 is Path,
        supported(rhs.0),
        old(ctx)@.next_register + weight(rhs.0) + 1 <= usize::MAX,
    ensures
        final(ctx).wf(),
        final(ctx)@ == assignment(old(ctx)@, lhs.0->Path_0->AnyScope_0@, *rhs, *span),
        lowered(old(ctx)@, final(ctx)@, weight(rhs.0) + 1),
        final(ctx)@.locals.contains_key(lhs.0->Path_0->AnyScope_0@),
        rhs.0 is Value || rhs.0 is Comparison || rhs.0 is Binary ==> !final(ctx)@.can_be_function(
            lhs.0->Path_0->AnyScope_0@,
        ),
        rhs.0 is Call ==> final(ctx)@.can_be_function(lhs.0->Path_0->AnyScope_0@),
{
    let ghost before = ctx@;
    match &lhs.0 {
        Expr::Path(path) => match path {
            Path::AnyScope(ident) => {
                proof {
                    owes_nothing(before);
                    owes_get(before, before, Set::empty());
                    inv_facts(before);
                }
                let (target, is_new) = match ctx.local_register(ident.as_str()) {
                    Some(register) => (register, false),
                    None => (ctx.get_register(), true),
                };
                let ghost m1 = ctx@;
                let ghost live = if is_new {
                    Set::<usize>::empty().insert(target.0)
                } else {
                    Set::<usize>::empty()
                };
                let ops_length = ctx.ops_length();
                let _ = compile_expressions(rhs, Some(target), ctx, false);
                let ghost lowered_rhs = ctx@;
                ctx.patch_assignment_spans(ops_length, *span);
                let ghost m2 = ctx@;
                proof {
                    owes_chain(before, m1, lowered_rhs, live, Set::empty());
                    assert(live + Set::<usize>::empty() =~= live);
                    owes_same(before, lowered_rhs, m2, live);
                    owes_facts(before, m2, live);
                    if is_new {
                        assert(live.contains(target.0));
                        assert(live =~= set![target.0]);
                        owes_declared(before, m2, ident@, target);
                    } else {
                        owes_no_trash(before, m2);
                    }
                }
                if is_new {
                    ctx.new_local(ident.as_str(), target);
                }
                let ghost m3 = ctx@;
                let flag = can_evaluate_to_function(&rhs.0, ctx);
                proof {
                    flag_keeps_no_trash(m3, ident@, flag);
                    assignment_steps(
                        before,
                        ident@,
                        *rhs,
                        *span,
                        m1,
                        target,
                        is_new,
                        m2,
                        m3.set_can_be_function(ident@, flag),
                    );
                    assert(m3.locals.contains_key(ident@));
                }
                ctx.set_can_be_function(ident.as_str(), flag);
            },
        },
        _ => {
            proof {
                assert(false);
            }
        },
    }
}

/// Lowers one statement.
pub fn compile_statement(s: &Spanned<Statement>, ctx: &mut FunctionCompilationContext) -> (result:
    Result<(), InternalError>)
    requires
        old(ctx).wf(),
        old(ctx)@.no_trash(),
        statement_supported(s.0),
        old(ctx)@.next_register + statement_weight(s.0) <= usize::MAX,
    ensures
        final(ctx).wf(),
        match result {
            Ok(_) => statement_ok(old(ctx)@, s.0) && final(ctx)@ == statement(
                old(ctx)@,
                s.0,
                s.1,
            ) && lowered(old(ctx)@, final(ctx)@, statement_weight(s.0)),
            Err(error) => !statement_ok(old(ctx)@, s.0) && error == InternalError::NotImplemented,
        },
    decreases statement_weight(s.0), 1int,
{
    let ghost before = ctx@;
    proof {
        statement_steps(before, s.0, s.1);
        statement_ok_steps(before, s.0);
    }
    match &s.0 {
        Statement::Expression(expr) => {
            // Expression statements without side effects are ignored
            if !can_have_side_effects(&expr.0, ctx, false) {
                return Ok(());
            }
            if !is_supported(&expr.0) {
                return Err(InternalError::NotImplemented);
            }
            let reg = compile_expressions(expr, None, ctx, false);
            let ghost m1 = ctx@;
            ctx.release_if_unused(reg);
            proof {
                owes_facts(before, m1, scratch_of(m1, reg));
                if !m1.bound(reg.0) {
                    assert(scratch_of(m1, reg).contains(reg.0));
                }
                owes_release(before, m1, scratch_of(m1, reg), reg);
                assert(scratch_of(m1, reg).remove(reg.0) =~= Set::empty());
                owes_no_trash(before, ctx@);
            }
            Ok(())
        },
        Statement::Assignment(lhs, rhs) => {
            compile_assignment(lhs, rhs, &s.1, ctx);
            Ok(())
        },
        Statement::If(chain, else_body) => {
            proof {
                branches_supported_all(chain@, chain@.len() as int);
            }
            match compile_if(chain, 0, else_body, &s.1, ctx) {
                Ok(_) => Ok(()),
                Err(error) => Err(error),
            }
        },
        Statement::While(condition, body) => compile_while(condition, body, &s.1, ctx),
        _ => {
            proof {
                assert(false);
            }
            Ok(())
        },
    }
}

/// Lowers the statements of a body in order.
pub fn compile_body(body: &Body, ctx: &mut FunctionCompilationContext) -> (result: Result<
    (),
    InternalError,
>)
    requires
        old(ctx).wf(),
        old(ctx)@.no_trash(),
        body_supported(body@, body@.len() as int),
        old(ctx)@.next_register + body_weight(body@, body@.len() as int) <= usize::MAX,
    ensures
        final(ctx).wf(),
        match result {
            Ok(_) => statements_ok(old(ctx)@, body@, body@.len() as int) && final(ctx)@
                == statements(old(ctx)@, body@, body@.len() as int) && lowered(
                old(ctx)@,
                final(ctx)@,
                body_weight(body@, body@.len() as int),
            ),
            Err(error) => !statements_ok(old(ctx)@, body@, body@.len() as int) && error
                == InternalError::NotImplemented,
        },
    decreases body_weight(body@, body@.len() as int), 2int,
{
    let n = body.len();
    let mut i: usize = 0;
    proof {
        statements_steps(ctx@, body@, 0);
        statements_ok_steps(ctx@, body@, 0);
    }
    while i < n
        invariant
            n == body@.len(),
            i <= n,
            ctx.wf(),
            body_supported(body@, n as int),
            old(ctx)@.next_register + body_weight(body@, n as int) <= usize::MAX,
            ctx@ == statements(old(ctx)@, body@, i as int),
            statements_ok(old(ctx)@, body@, i as int),
            lowered(old(ctx)@, ctx@, body_weight(body@, i as int)),
        decreases n - i,
    {
        proof {
            body_weight_grows(body@, i + 1, n as int);
            body_supported_at(body@, i as int, n as int);
            statements_steps(old(ctx)@, body@, i + 1);
            statements_ok_steps(old(ctx)@, body@, i + 1);
        }
        match compile_statement(&body[i], ctx) {
            Ok(_) => {},
            Err(error) => {
                proof {
                    if statements_ok(old(ctx)@, body@, n as int) {
                        statements_ok_upto(old(ctx)@, body@, i + 1, n as int);
                    }
                }
                return Err(error);
            },
        }
        i += 1;
    }
    Ok(())
}

/// What `statement_ok` is for each kind of statement.
proof fn statement_ok_steps(m: Model, s: Statement)
    ensures
        statement_ok(m, s) == (match s {
            Statement::Expression(expr) => !side_effects(expr.0, m, false) || supported(expr.0),
            Statement::If(branches, otherwise) => conditional_ok(m, branches@, 0, otherwise),
            Statement::While(condition, body) => while_ok(m, condition, body@),
            _ => true,
        }),
{
    reveal(statement_ok);
    reveal(statements_ok);
    reveal(conditional_ok);
    reveal(while_ok);
}

proof fn statements_ok_steps(m: Model, body: Seq<Spanned<Statement>>, n: int)
    ensures
        statements_ok(m, body, n) == (if n <= 0 || n > body.len() {
            true
        } else {
            statements_ok(m, body, n - 1) && statement_ok(
                statements(m, body, n - 1),
                body[n - 1].0,
            )
        }),
{
    reveal(statement_ok);
    reveal(statements_ok);
    reveal(conditional_ok);
    reveal(while_ok);
}

/// Statements that can be lowered where they stand: so can the first of
/// them.
proof fn statements_ok_upto(m: Model, body: Seq<Spanned<Statement>>, k: int, n: int)
    requires
        0 <= k <= n <= body.len(),
        statements_ok(m, body, n),
    ensures
        statements_ok(m, body, k),
    decreases n - k,
{
    if k < n {
        statements_ok_steps(m, body, n);
        statements_ok_upto(m, body, k, n - 1);
    }
}

proof fn conditional_ok_steps(
    m: Model,
    branches: Seq<(Spanned<Spanned<Expr>>, Body)>,
    from: int,
    otherwise: Option<Body>,
)
    ensures
        conditional_ok(m, branches, from, otherwise) == (if 0 <= from < branches.len() {
            statements_ok(
                before_branch(m, branches, from),
                branches[from].1@,
                branches[from].1@.len() as int,
            ) && conditional_ok(
                after_branch(m, branches, from, otherwise),
                branches,
                from + 1,
                otherwise,
            )
        } else {
            match otherwise {
                Some(body) => statements_ok(m, body@, body@.len() as int),
                None => true,
            }
        }),
{
    reveal(statement_ok);
    reveal(statements_ok);
    reveal(conditional_ok);
    reveal(while_ok);
}

proof fn while_ok_steps(m: Model, condition: Spanned<Spanned<Expr>>, body: Seq<Spanned<Statement>>)
    ensures
        while_ok(m, condition, body) == statements_ok(
            before_loop_body(m, condition),
            body,
            body.len() as int,
        ),
{
    reveal(statement_ok);
    reveal(statements_ok);
    reveal(conditional_ok);
    reveal(while_ok);
}

proof fn body_supported_at(body: Seq<Spanned<Statement>>, i: int, n: int)
    requires
        0 <= i < n <= body.len(),
        body_supported(body, n),
    ensures
        statement_supported(body[i].0),
    decreases n - i,
{
    if i + 1 < n {
        body_supported_at(body, i, n - 1);
    }
}

proof fn branches_supported_all(branches: Seq<(Spanned<Spanned<Expr>>, Body)>, n: int)
    requires
        0 <= n <= branches.len(),
        branches_supported(branches, n),
    ensures
        forall|i: int|
            0 <= i < n ==> branch_supported(#[trigger] branches[i]),
    decreases n,
{
    if n > 0 {
        branches_supported_all(branches, n - 1);
        assert forall|i: int| 0 <= i < n implies branch_supported(#[trigger] branches[i]) by {
            if i == n - 1 {
                assert(branches_supported(branches, n));
            }
        }
    }
}

/// The index of a reserved place, if there is one.
pub open spec fn slot_of(reserved: Option<crate::vm::context::ReservedOpSpace>) -> Option<usize> {
    match reserved {
        Some(place) => Some(place.0),
        None => None,
    }
}

proof fn conditional_branch_steps(
    before: Model,
    branches: Seq<(Spanned<Spanned<Expr>>, Body)>,
    from: int,
    otherwise: Option<Body>,
    m1: Model,
    condition_register: StackIndex,
    m2: Model,
    reserve: usize,
    m3: Model,
    end_jump: Option<usize>,
    m4: Model,
    end: usize,
    after: Model,
)
    requires
        0 <= from < branches.len(),
        (m1, condition_register) == expression(
            before,
            branches[from].0.0.0,
            branches[from].0.0.1,
            None,
            false,
        ),
        (m2, reserve) == m1.release_if_unused(condition_register).0.emit_reserve(
            branches[from].0.1,
        ),
        (m3, end_jump) == (if branches.len() - from > 1 || otherwise is Some {
            (
                statements(
                    m2,
                    branches[from].1@,
                    branches[from].1@.len() as int,
                ).emit_reserve(Span { start: 0, end: 0 }).0,
                Some(
                    statements(
                        m2,
                        branches[from].1@,
                        branches[from].1@.len() as int,
                    ).emit_reserve(Span { start: 0, end: 0 }).1,
                ),
            )
        } else {
            (statements(m2, branches[from].1@, branches[from].1@.len() as int), None)
        }),
        (m4, end) == conditional(m3, branches, from + 1, otherwise),
        after == (match end_jump {
            Some(id) => m4.patch(
                reserve,
                OpCode::JumpIfFalse(condition_register, m3.ops_length()),
            ).patch(id, OpCode::Jump(end)),
            None => m4.patch(reserve, OpCode::JumpIfFalse(condition_register, m3.ops_length())),
        }),
    ensures
        conditional(before, branches, from, otherwise) == (after, after.ops_length()),
{
    reveal(statement);
    reveal(statements);
    reveal(conditional);
    reveal(while_loop);
    let branch = branches[from];
    let (x1, xc) = expression(before, branch.0.0.0, branch.0.0.1, None, false);
    assert(x1 == m1 && xc == condition_register);
    let x1b = x1.release_if_unused(xc).0;
    let (x2, xr) = x1b.emit_reserve(branch.0.1);
    assert(x2 == m2 && xr == reserve);
    let xb = statements(x2, branch.1@, branch.1@.len() as int);
    let (x3, xe) = if branches.len() - from > 1 || otherwise is Some {
        let (m, id) = xb.emit_reserve(Span { start: 0, end: 0 });
        (m, Some(id))
    } else {
        (xb, None)
    };
    assert(x3 == m3 && xe == end_jump);
    let (x4, xend) = conditional(x3, branches, from + 1, otherwise);
    assert(x4 == m4 && xend == end);
}

proof fn conditional_end_steps(
    before: Model,
    branches: Seq<(Spanned<Spanned<Expr>>, Body)>,
    from: int,
    otherwise: Option<Body>,
)
    requires
        from >= branches.len(),
    ensures
        conditional(before, branches, from, otherwise) == (match otherwise {
            Some(body) => (
                statements(before, body@, body@.len() as int),
                statements(before, body@, body@.len() as int).ops_length(),
            ),
            None => (before, before.ops_length()),
        }),
{
    reveal(statement);
    reveal(statements);
    reveal(conditional);
    reveal(while_loop);
}

/// Lowers the branches of a conditional from `from` on, and its `else`.
/// Gives the index of the instruction that follows the conditional.
pub fn compile_if(
    ifs: &Vec<(Spanned<Spanned<Expr>>, Body)>,
    from: usize,
    else_body: &Option<Body>,
    _span: &Span,
    ctx: &mut FunctionCompilationContext,
) -> (result: Result<usize, InternalError>)
    requires
        old(ctx).wf(),
        old(ctx)@.no_trash(),
        from <= ifs@.len(),
        forall|i: int|
            0 <= i < ifs@.len() ==> branch_supported(#[trigger] ifs@[i]),
        else_body matches Some(body) ==> body_supported(body@, body@.len() as int),
        old(ctx)@.next_register + branches_weight(ifs@, from as int) + otherwise_weight(*else_body)
            <= usize::MAX,
    ensures
        final(ctx).wf(),
        match result {
            Ok(end) => conditional_ok(old(ctx)@, ifs@, from as int, *else_body) && (
                final(ctx)@,
                end,
            ) == conditional(old(ctx)@, ifs@, from as int, *else_body) && lowered(
                old(ctx)@,
                final(ctx)@,
                branches_weight(ifs@, from as int) + otherwise_weight(*else_body),
            ) && end == final(ctx)@.code.len(),
            Err(error) => !conditional_ok(old(ctx)@, ifs@, from as int, *else_body) && error
                == InternalError::NotImplemented,
        },
    decreases branches_weight(ifs@, from as int) + otherwise_weight(*else_body) + 1, 0int,
{
    let ghost before = ctx@;
    proof {
        conditional_ok_steps(before, ifs@, from as int, *else_body);
    }
    if from < ifs.len() {
        let branch = &ifs[from];
        let condition_register = compile_expressions(&branch.0.0, None, ctx, false);
        let ghost m1 = ctx@;
        ctx.release_if_unused(condition_register);
        let ghost m1b = ctx@;
        let reserve = ctx.emit_reserve(branch.0.1);
        let ghost reserve_id = reserve.0;
        let ghost m2 = ctx@;
        proof {
            owes_facts(before, m1, scratch_of(m1, condition_register));
            if !m1.bound(condition_register.0) {
                assert(scratch_of(m1, condition_register).contains(condition_register.0));
            }
            owes_release(before, m1, scratch_of(m1, condition_register), condition_register);
            assert(scratch_of(m1, condition_register).remove(condition_register.0) =~= Set::empty());
            owes_no_trash(before, m1b);
            same_registers_no_trash(m1b, m2);
            assert(m2 == before_branch(before, ifs@, from as int));
        }
        match compile_body(&branch.1, ctx) {
            Ok(_) => {},
            Err(error) => {
                return Err(error);
            },
        }
        let ghost m2b = ctx@;
        let end_jump = if ifs.len() - from > 1 || else_body.is_some() {
            Some(ctx.emit_reserve(Span { start: 0, end: 0 }))
        } else {
            None
        };
        let ghost end_jump_id = slot_of(end_jump);
        let ghost m3 = ctx@;
        proof {
            same_registers_no_trash(m2b, m3);
            assert(m3 == after_branch(before, ifs@, from as int, *else_body));
        }
        let next = ctx.ops_length();
        let end = match compile_if(ifs, from + 1, else_body, _span, ctx) {
            Ok(end) => end,
            Err(error) => {
                return Err(error);
            },
        };
        let ghost m4 = ctx@;
        ctx.patch(reserve, OpCode::JumpIfFalse(condition_register, next));
        let ghost m5 = ctx@;
        proof {
            same_registers_no_trash(m4, m5);
        }
        if let Some(end_jump) = end_jump {
            ctx.patch(end_jump, OpCode::Jump(end));
        }
        proof {
            same_registers_no_trash(m5, ctx@);
            assert(ctx@.patches =~= before.patches);
            conditional_branch_steps(
                before,
                ifs@,
                from as int,
                *else_body,
                m1,
                condition_register,
                m2,
                reserve_id,
                m3,
                end_jump_id,
                m4,
                end,
                ctx@,
            );
        }
    } else {
        proof {
            conditional_end_steps(before, ifs@, from as int, *else_body);
        }
        if let Some(body) = else_body {
            match compile_body(body, ctx) {
                Ok(_) => {},
                Err(error) => {
                    return Err(error);
                },
            }
        }
    }
    Ok(ctx.ops_length())
}

proof fn while_steps(
    before: Model,
    condition: Spanned<Spanned<Expr>>,
    body: Seq<Spanned<Statement>>,
    m1: Model,
    condition_register: StackIndex,
    m2: Model,
    jump: usize,
    m3: Model,
    after: Model,
)
    requires
        (m1, condition_register) == expression(
            before,
            condition.0.0,
            condition.0.1,
            None,
            false,
        ),
        (m2, jump) == m1.emit_reserve(condition.1),
        m3 == statements(
            m2.release_if_unused(condition_register).0,
            body,
            body.len() as int,
        ).emit(OpCode::Jump(before.ops_length()), Span { start: 0, end: 0 }),
        after == m3.patch(jump, OpCode::JumpIfFalse(condition_register, m3.ops_length())),
    ensures
        while_loop(before, condition, body) == after,
{
    reveal(statement);
    reveal(statements);
    reveal(conditional);
    reveal(while_loop);
    let (x1, xc) = expression(before, condition.0.0, condition.0.1, None, false);
    assert(x1 == m1 && xc == condition_register);
    let (x2, xj) = x1.emit_reserve(condition.1);
    assert(x2 == m2 && xj == jump);
}

/// How a loop is left: the instruction after the condition goes, if the
/// condition does not count as true, to the instruction that follows the
/// loop; and the last instruction of the loop goes back to the first
/// instruction of the condition. Between the two stand the instructions of
/// the body, which a condition that fails at once therefore never reaches.
pub open spec fn leaves_past_the_loop(
    before: Model,
    after: Model,
    condition: Spanned<Spanned<Expr>>,
) -> bool {
    let exit = loop_exit(before, condition);
    &&& before.code.len() <= exit < after.code.len() - 1
    &&& after.code[exit] == OpCode::<Seq<char>>::JumpIfFalse(
        loop_condition(before, condition),
        after.code.len() as usize,
    )
    &&& after.code[after.code.len() - 1] == OpCode::<Seq<char>>::Jump(before.code.len() as usize)
}

/// Lowers `while condition body end`.
pub fn compile_while(
    condition: &Spanned<Spanned<Expr>>,
    body: &Body,
    _span: &Span,
    ctx: &mut FunctionCompilationContext,
) -> (result: Result<(), InternalError>)
    requires
        old(ctx).wf(),
        old(ctx)@.no_trash(),
        supported(condition.0.0),
        body_supported(body@, body@.len() as int),
        old(ctx)@.next_register + weight(condition.0.0) + body_weight(body@, body@.len() as int)
            <= usize::MAX,
    ensures
        final(ctx).wf(),
        match result {
            Ok(_) => while_ok(old(ctx)@, *condition, body@) && final(ctx)@ == while_loop(
                old(ctx)@,
                *condition,
                body@,
            ) && lowered(
                old(ctx)@,
                final(ctx)@,
                weight(condition.0.0) + body_weight(body@, body@.len() as int),
            ) && leaves_past_the_loop(old(ctx)@, final(ctx)@, *condition),
            Err(error) => !while_ok(old(ctx)@, *condition, body@) && error
                == InternalError::NotImplemented,
        },
    decreases body_weight(body@, body@.len() as int) + 1, 0int,
{
    let ghost before = ctx@;
    proof {
        while_ok_steps(before, *condition, body@);
    }
    let start = ctx.ops_length();
    let condition_register = compile_expressions(&condition.0, None, ctx, false);
    let ghost m1 = ctx@;
    let jump = ctx.emit_reserve(condition.1);
    let ghost jump_id = jump.0;
    let ghost m2 = ctx@;
    ctx.release_if_unused(condition_register);
    let ghost m2b = ctx@;
    proof {
        owes_same(before, m1, m2, scratch_of(m1, condition_register));
        owes_facts(before, m2, scratch_of(m1, condition_register));
        if !m2.bound(condition_register.0) {
            assert(scratch_of(m1, condition_register).contains(condition_register.0));
        }
        owes_release(before, m2, scratch_of(m1, condition_register), condition_register);
        assert(scratch_of(m1, condition_register).remove(condition_register.0) =~= Set::empty());
        owes_no_trash(before, m2b);
        assert(m2b == before_loop_body(before, *condition));
    }
    match compile_body(body, ctx) {
        Ok(_) => {},
        Err(error) => {
            return Err(error);
        },
    }
    let ghost m2c = ctx@;
    ctx.emit(OpCode::Jump(start), Span { start: 0, end: 0 });
    let ghost m3 = ctx@;
    let end = ctx.ops_length();
    ctx.patch(jump, OpCode::JumpIfFalse(condition_register, end));
    proof {
        same_registers_no_trash(m2c, m3);
        same_registers_no_trash(m3, ctx@);
        assert(ctx@.patches =~= before.patches);
        inv_facts(m3);
        assert(jump_id == m1.code.len());
        assert(m2.code.len() == m1.code.len() + 1);
        assert(m2b.code == m2.code);
        assert(m3.code == m2c.code.push(OpCode::<Seq<char>>::Jump(start)));
        assert(ctx@.code == m3.code.update(
            jump_id as int,
            OpCode::<Seq<char>>::JumpIfFalse(condition_register, end),
        ));
        assert(leaves_past_the_loop(before, ctx@, *condition));
        while_steps(
            before,
            *condition,
            body@,
            m1,
            condition_register,
            m2,
            jump_id,
            m3,
            ctx@,
        );
    }
    Ok(())
}

} // verus!
