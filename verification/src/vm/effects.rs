//! What the compiler can tell of an expression without compiling it.

use crate::ast::{Comparison, Expr, Path, Spanned, UnaryOp};
use crate::vm::context::FunctionCompilationContext;
use crate::vm::model::Model;
use vstd::prelude::*;

verus! {

broadcast use vstd::std_specs::vec::group_vec_axioms;

/// Whether evaluating `expr` can do more than yield a value, given what the
/// compiler knows of the locals in the state `m`.
///
/// Literals and function definitions cannot. Calls and indexing can. Reading
/// a variable can if the variable may hold a function, because reading it
/// calls that function: a local that is known to hold none is read without
/// effect. A compound expression can if one of its parts can. `@name` reads
/// without calling. Where locals are kept in a map that may run code on
/// access (`use_locals_map`), every read of a variable can.
pub open spec fn side_effects(expr: Expr, m: Model, use_locals_map: bool) -> bool
    decreases expr,
{
    match expr {
        Expr::Value(_) => false,
        Expr::Path(Path::AnyScope(name)) => use_locals_map || m.can_be_function(name@),
        Expr::List(items) => any_side_effects(items@, items@.len() as int, m, use_locals_map),
        Expr::MapLiteral(items) => any_pair_side_effects(
            items@,
            items@.len() as int,
            m,
            use_locals_map,
        ),
        Expr::FunctionDefinition(_, _) => false,
        Expr::Comparison(lhs, chain) => side_effects(lhs.0, m, use_locals_map)
            || any_link_side_effects(chain@, chain@.len() as int, m, use_locals_map),
        Expr::Binary(lhs, _, rhs) => side_effects(lhs.0, m, use_locals_map) || side_effects(
            rhs.0,
            m,
            use_locals_map,
        ),
        Expr::Unary(op, inner) => if op != UnaryOp::AddressOf {
            side_effects(inner.0, m, use_locals_map)
        } else {
            match inner.0 {
                Expr::Path(_) => use_locals_map,
                Expr::Index(base, _) => side_effects(base.0, m, use_locals_map),
                _ => side_effects(inner.0, m, use_locals_map),
            }
        },
        Expr::Call(_, _) => true,
        Expr::ExprIndex(_, _) => true,
        Expr::Index(_, _) => true,
        Expr::Error => true,
    }
}

/// Whether one of the first `n` expressions can have side effects.
pub open spec fn any_side_effects(
    items: Seq<Spanned<Expr>>,
    n: int,
    m: Model,
    use_locals_map: bool,
) -> bool
    decreases items, n,
{
    if n <= 0 || n > items.len() {
        false
    } else {
        any_side_effects(items, n - 1, m, use_locals_map) || side_effects(
            items[n - 1].0,
            m,
            use_locals_map,
        )
    }
}

/// Whether a key or a value of the first `n` pairs can have side effects.
pub open spec fn any_pair_side_effects(
    items: Seq<(Spanned<Expr>, Spanned<Expr>)>,
    n: int,
    m: Model,
    use_locals_map: bool,
) -> bool
    decreases items, n,
{
    if n <= 0 || n > items.len() {
        false
    } else {
        any_pair_side_effects(items, n - 1, m, use_locals_map) || side_effects(
            items[n - 1].0.0,
            m,
            use_locals_map,
        ) || side_effects(items[n - 1].1.0, m, use_locals_map)
    }
}

/// Whether the operand of one of the first `n` links can have side effects.
pub open spec fn any_link_side_effects(
    chain: Seq<(Comparison, Spanned<Expr>)>,
    n: int,
    m: Model,
    use_locals_map: bool,
) -> bool
    decreases chain, n,
{
    if n <= 0 || n > chain.len() {
        false
    } else {
        any_link_side_effects(chain, n - 1, m, use_locals_map) || side_effects(
            chain[n - 1].1.0,
            m,
            use_locals_map,
        )
    }
}

/// Whether evaluating `expr` can do more than yield a value, given what the
/// compiler knows of the locals.
#[verifier::loop_isolation(false)]
pub fn can_have_side_effects(
    expr: &Expr,
    ctx: &FunctionCompilationContext,
    use_locals_map: bool,
) -> (can: bool)
    ensures
        can == side_effects(*expr, ctx@, use_locals_map),
    decreases *expr,
{
    match expr {
        Expr::Value(_) => false,
        Expr::Path(path) => match path {
            Path::AnyScope(ident) => use_locals_map || ctx.can_be_function(ident.as_str()),
        },
        Expr::List(items) => {
            let mut i: usize = 0;
            while i < items.len()
                invariant
                    i <= items@.len(),
                    !any_side_effects(items@, i as int, ctx@, use_locals_map),
                decreases items@.len() - i,
            {
                if can_have_side_effects(&items[i].0, ctx, use_locals_map) {
                    assert(any_side_effects(items@, i + 1, ctx@, use_locals_map));
                    proof {
                        any_side_effects_grows(
                            items@,
                            i + 1,
                            items@.len() as int,
                            ctx@,
                            use_locals_map,
                        );
                    }
                    return true;
                }
                i += 1;
            }
            false
        },
        Expr::MapLiteral(items) => {
            let mut i: usize = 0;
            while i < items.len()
                invariant
                    i <= items@.len(),
                    !any_pair_side_effects(items@, i as int, ctx@, use_locals_map),
                decreases items@.len() - i,
            {
                if can_have_side_effects(&items[i].0.0, ctx, use_locals_map)
                    || can_have_side_effects(&items[i].1.0, ctx, use_locals_map) {
                    assert(any_pair_side_effects(items@, i + 1, ctx@, use_locals_map));
                    proof {
                        any_pair_side_effects_grows(
                            items@,
                            i + 1,
                            items@.len() as int,
                            ctx@,
                            use_locals_map,
                        );
                    }
                    return true;
                }
                i += 1;
            }
            false
        },
        Expr::FunctionDefinition(_, _) => false,
        Expr::Comparison(lhs, chain) => {
            if can_have_side_effects(&lhs.0, ctx, use_locals_map) {
                return true;
            }
            let mut i: usize = 0;
            while i < chain.len()
                invariant
                    i <= chain@.len(),
                    !any_link_side_effects(chain@, i as int, ctx@, use_locals_map),
                decreases chain@.len() - i,
            {
                if can_have_side_effects(&chain[i].1.0, ctx, use_locals_map) {
                    assert(any_link_side_effects(chain@, i + 1, ctx@, use_locals_map));
                    proof {
                        any_link_side_effects_grows(
                            chain@,
                            i + 1,
                            chain@.len() as int,
                            ctx@,
                            use_locals_map,
                        );
                    }
                    return true;
                }
                i += 1;
            }
            false
        },
        Expr::Binary(lhs, _, rhs) => can_have_side_effects(&lhs.0, ctx, use_locals_map)
            || can_have_side_effects(&rhs.0, ctx, use_locals_map),
        Expr::Unary(op, inner) => {
            if !matches!(op, UnaryOp::AddressOf) {
                can_have_side_effects(&inner.0, ctx, use_locals_map)
            } else {
                match &inner.0 {
                    Expr::Path(_) => use_locals_map,
                    Expr::Index(base, _) => can_have_side_effects(&base.0, ctx, use_locals_map),
                    other => can_have_side_effects(other, ctx, use_locals_map),
                }
            }
        },
        Expr::Call(_, _) => true,
        Expr::ExprIndex(_, _) => true,
        Expr::Index(_, _) => true,
        Expr::Error => true,
    }
}

proof fn any_side_effects_grows(
    items: Seq<Spanned<Expr>>,
    n: int,
    upto: int,
    m: Model,
    use_locals_map: bool,
)
    requires
        0 <= n <= upto <= items.len(),
        any_side_effects(items, n, m, use_locals_map),
    ensures
        any_side_effects(items, upto, m, use_locals_map),
    decreases upto - n,
{
    if n < upto {
        any_side_effects_grows(items, n, upto - 1, m, use_locals_map);
    }
}

proof fn any_pair_side_effects_grows(
    items: Seq<(Spanned<Expr>, Spanned<Expr>)>,
    n: int,
    upto: int,
    m: Model,
    use_locals_map: bool,
)
    requires
        0 <= n <= upto <= items.len(),
        any_pair_side_effects(items, n, m, use_locals_map),
    ensures
        any_pair_side_effects(items, upto, m, use_locals_map),
    decreases upto - n,
{
    if n < upto {
        any_pair_side_effects_grows(items, n, upto - 1, m, use_locals_map);
    }
}

proof fn any_link_side_effects_grows(
    chain: Seq<(Comparison, Spanned<Expr>)>,
    n: int,
    upto: int,
    m: Model,
    use_locals_map: bool,
)
    requires
        0 <= n <= upto <= chain.len(),
        any_link_side_effects(chain, n, m, use_locals_map),
    ensures
        any_link_side_effects(chain, upto, m, use_locals_map),
    decreases upto - n,
{
    if n < upto {
        any_link_side_effects_grows(chain, n, upto - 1, m, use_locals_map);
    }
}

} // verus!
