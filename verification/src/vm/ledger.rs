//! Accounting for scratch registers: which registers an operation has taken
//! and not given back yet.

use crate::vm::model::{
    fresh, get_register_keeps, holds, inv_facts, new_local_keeps, set_can_be_function_keeps, Model,
};
use crate::vm::register::StackIndex;
use vstd::prelude::*;

verus! {

/// Since the state `before`, exactly the registers in `live` were taken and
/// not given back: the free registers of `after` together with `live` are
/// the free registers of `before` together with the new registers, no
/// register of `live` is free or holds a local, and the locals are as they
/// were.
#[verifier::opaque]
pub open spec fn owes(before: Model, after: Model, live: Set<usize>) -> bool {
    &&& after.locals == before.locals
    &&& before.next_register <= after.next_register
    &&& after.free + live == before.free + fresh(before.next_register, after.next_register)
    &&& after.free.disjoint(live)
    &&& forall|x: usize| live.contains(x) ==> !holds(after.locals, x) && x < after.next_register
}

/// The register `r` if no local lives in it, nothing if one does.
pub open spec fn scratch_of(m: Model, r: StackIndex) -> Set<usize> {
    if m.bound(r.0) {
        Set::empty()
    } else {
        set![r.0]
    }
}

/// What follows from what is owed: the locals are as they were, what is
/// owed is in use and no home of a local, and a register is free exactly if
/// it was free or is new, and is not owed.
pub proof fn owes_facts(a: Model, b: Model, live: Set<usize>)
    requires
        owes(a, b, live),
    ensures
        b.locals == a.locals,
        a.next_register <= b.next_register,
        forall|x: usize| #[trigger]
            live.contains(x) ==> !b.bound(x) && !b.free.contains(x) && x < b.next_register,
        forall|x: usize| #[trigger] a.free.contains(x) ==> b.free.contains(x) || live.contains(x),
        forall|x: usize| #[trigger]
            b.free.contains(x) ==> a.free.contains(x) || a.next_register <= x < b.next_register,
        forall|x: usize|
            a.next_register <= x < b.next_register ==> #[trigger] b.free.contains(x)
                || live.contains(x),
{
    reveal(owes);
    assert forall|x: usize| a.free.contains(x) implies b.free.contains(x) || live.contains(x) by {
        assert((a.free + fresh(a.next_register, b.next_register)).contains(x));
        assert((b.free + live).contains(x));
    }
    assert forall|x: usize| b.free.contains(x) implies a.free.contains(x) || a.next_register <= x
        < b.next_register by {
        assert((b.free + live).contains(x));
        assert((a.free + fresh(a.next_register, b.next_register)).contains(x));
    }
    assert forall|x: usize| a.next_register <= x < b.next_register implies b.free.contains(x)
        || live.contains(x) by {
        assert(fresh(a.next_register, b.next_register).contains(x));
        assert((a.free + fresh(a.next_register, b.next_register)).contains(x));
        assert((b.free + live).contains(x));
    }
}

/// Nothing is owed where nothing happened.
pub proof fn owes_nothing(m: Model)
    ensures
        owes(m, m, Set::empty()),
{
    reveal(owes);
    assert(m.free + Set::<usize>::empty() =~= m.free + fresh(m.next_register, m.next_register));
}

/// What is owed does not change where registers and locals do not.
pub proof fn owes_same(a: Model, b: Model, c: Model, live: Set<usize>)
    requires
        owes(a, b, live),
        c.free == b.free,
        c.locals == b.locals,
        c.next_register == b.next_register,
    ensures
        owes(a, c, live),
{
    reveal(owes);
}

/// What two steps owe together.
pub proof fn owes_chain(a: Model, b: Model, c: Model, first: Set<usize>, second: Set<usize>)
    requires
        owes(a, b, first),
        owes(b, c, second),
        b.inv(),
    ensures
        owes(a, c, first + second),
        first.disjoint(second),
{
    reveal(owes);
    inv_facts(b);
    assert forall|x: usize| !(first.contains(x) && second.contains(x)) by {
        if first.contains(x) && second.contains(x) {
            assert((c.free + second).contains(x));
            assert((b.free + fresh(b.next_register, c.next_register)).contains(x));
        }
    }
    assert forall|x: usize| (c.free + (first + second)).contains(x) <==> (a.free + fresh(
        a.next_register,
        c.next_register,
    )).contains(x) by {
        if c.free.contains(x) || second.contains(x) {
            assert((c.free + second).contains(x));
            assert((b.free + fresh(b.next_register, c.next_register)).contains(x));
            if b.free.contains(x) {
                assert((b.free + first).contains(x));
                assert((a.free + fresh(a.next_register, b.next_register)).contains(x));
            }
        }
        if first.contains(x) {
            assert((b.free + first).contains(x));
            assert((a.free + fresh(a.next_register, b.next_register)).contains(x));
        }
        if a.free.contains(x) || (a.next_register <= x < b.next_register) {
            assert((a.free + fresh(a.next_register, b.next_register)).contains(x));
            assert((b.free + first).contains(x));
            if b.free.contains(x) {
                assert((b.free + fresh(b.next_register, c.next_register)).contains(x));
                assert((c.free + second).contains(x));
            }
        }
        if b.next_register <= x < c.next_register {
            assert((b.free + fresh(b.next_register, c.next_register)).contains(x));
            assert((c.free + second).contains(x));
        }
    }
    assert(c.free + (first + second) =~= a.free + fresh(a.next_register, c.next_register));
    assert forall|x: usize| !(c.free.contains(x) && (first + second).contains(x)) by {
        if c.free.contains(x) && first.contains(x) {
            assert((c.free + second).contains(x));
            assert((b.free + fresh(b.next_register, c.next_register)).contains(x));
        }
    }
}

/// Giving back a register that is owed, free already or the home of a local
/// leaves the rest owed.
pub proof fn owes_release(a: Model, b: Model, live: Set<usize>, x: StackIndex)
    requires
        owes(a, b, live),
        live.contains(x.0) || b.bound(x.0) || b.free.contains(x.0),
    ensures
        owes(a, b.release_if_unused(x).0, live.remove(x.0)),
{
    reveal(owes);
    let c = b.release_if_unused(x).0;
    if b.bound(x.0) {
        assert(live.remove(x.0) =~= live);
    } else {
        assert(c.free + live.remove(x.0) =~= b.free + live);
    }
}

/// Taking a free register back adds it to what is owed.
pub proof fn owes_take(a: Model, b: Model, live: Set<usize>, x: StackIndex)
    requires
        owes(a, b, live),
        b.inv(),
        b.free.contains(x.0),
    ensures
        owes(a, b.take_back_register(x), live.insert(x.0)),
{
    reveal(owes);
    inv_facts(b);
    let c = b.take_back_register(x);
    assert(x.0 < b.next_register && !b.bound(x.0));
    assert(c.free + live.insert(x.0) =~= b.free + live);
    assert(c.free.disjoint(live.insert(x.0)));
    assert forall|y: usize| live.insert(x.0).contains(y) implies !holds(c.locals, y) && y
        < c.next_register by {
        if y != x.0 {
            assert(live.contains(y));
        }
    }
}

/// A register that is handed out is owed, and was not owed before.
pub proof fn owes_get(a: Model, b: Model, live: Set<usize>)
    requires
        owes(a, b, live),
        b.inv(),
        b.next_register < usize::MAX,
    ensures
        owes(a, b.get_register().0, live.insert(b.get_register().1.0)),
        !live.contains(b.get_register().1.0),
{
    reveal(owes);
    inv_facts(b);
    get_register_keeps(b);
    let (c, r) = b.get_register();
    assert(c.free.insert(r.0) == b.free + fresh(b.next_register, c.next_register));
    assert forall|x: usize| (c.free + live.insert(r.0)).contains(x) <==> (a.free + fresh(
        a.next_register,
        c.next_register,
    )).contains(x) by {
        if c.free.contains(x) || x == r.0 {
            assert(c.free.insert(r.0).contains(x));
            assert((b.free + fresh(b.next_register, c.next_register)).contains(x));
            if b.free.contains(x) {
                assert((b.free + live).contains(x));
                assert((a.free + fresh(a.next_register, b.next_register)).contains(x));
            }
        }
        if live.contains(x) {
            assert((b.free + live).contains(x));
            assert((a.free + fresh(a.next_register, b.next_register)).contains(x));
        }
        if a.free.contains(x) || (a.next_register <= x < b.next_register) {
            assert((a.free + fresh(a.next_register, b.next_register)).contains(x));
            assert((b.free + live).contains(x));
            if b.free.contains(x) {
                assert((b.free + fresh(b.next_register, c.next_register)).contains(x));
                assert(c.free.insert(r.0).contains(x));
            }
        }
        if b.next_register <= x < c.next_register {
            assert((b.free + fresh(b.next_register, c.next_register)).contains(x));
            assert(c.free.insert(r.0).contains(x));
        }
    }
    assert(c.free + live.insert(r.0) =~= a.free + fresh(a.next_register, c.next_register));
    assert forall|x: usize| !(c.free.contains(x) && live.insert(r.0).contains(x)) by {
        if c.free.contains(x) && live.contains(x) {
            assert(c.free.insert(r.0).contains(x));
            assert((b.free + fresh(b.next_register, c.next_register)).contains(x));
        }
    }
    if live.contains(r.0) {
        assert(c.free.insert(r.0).contains(r.0));
        assert((b.free + fresh(b.next_register, c.next_register)).contains(r.0));
    }
}

/// An operation into a given target that was given back at its start and
/// taken back at its end owes nothing.
pub proof fn owes_target(before: Model, opened: Model, after: Model, t: StackIndex)
    requires
        opened == before.release_register(t),
        t.0 < before.next_register,
        !before.free.contains(t.0),
        owes(opened, after, set![t.0]),
    ensures
        owes(before, after, Set::empty()),
{
    reveal(owes);
    assert forall|x: usize| (after.free + Set::<usize>::empty()).contains(x) <==> (before.free
        + fresh(before.next_register, after.next_register)).contains(x) by {
        if after.free.contains(x) {
            assert((after.free + set![t.0]).contains(x));
            assert((opened.free + fresh(opened.next_register, after.next_register)).contains(x));
        }
        if before.free.contains(x) || (before.next_register <= x < after.next_register) {
            assert((opened.free + fresh(opened.next_register, after.next_register)).contains(x));
            assert((after.free + set![t.0]).contains(x));
        }
    }
    assert(after.free + Set::<usize>::empty() =~= before.free + fresh(
        before.next_register,
        after.next_register,
    ));
}

/// Where every register was free or the home of a local, and nothing is
/// owed, every register is free or the home of a local.
pub proof fn owes_no_trash(a: Model, b: Model)
    requires
        a.no_trash(),
        owes(a, b, Set::empty()),
    ensures
        b.no_trash(),
{
    reveal(owes);
    assert forall|r: usize| r < b.next_register implies b.free.contains(r) || b.bound(r) by {
        if r < a.next_register {
            assert(a.free.contains(r) || a.bound(r));
            if a.free.contains(r) {
                assert((a.free + fresh(a.next_register, b.next_register)).contains(r));
                assert((b.free + Set::<usize>::empty()).contains(r));
            } else {
                assert(holds(a.locals, r));
                assert(holds(b.locals, r));
            }
        } else {
            assert(fresh(a.next_register, b.next_register).contains(r));
            assert((a.free + fresh(a.next_register, b.next_register)).contains(r));
            assert((b.free + Set::<usize>::empty()).contains(r));
        }
    }
}

/// Where every register but the owed one was free or the home of a local,
/// declaring a local in the owed register leaves every register free or the
/// home of a local.
pub proof fn owes_declared(a: Model, b: Model, name: Seq<char>, r: StackIndex)
    requires
        a.no_trash(),
        owes(a, b, set![r.0]),
        b.inv(),
        !b.locals.contains_key(name),
    ensures
        b.new_local(name, r).no_trash(),
        b.new_local(name, r).inv(),
{
    reveal(owes);
    inv_facts(b);
    assert(set![r.0].contains(r.0));
    assert(!b.bound(r.0) && r.0 < b.next_register && !b.free.contains(r.0));
    new_local_keeps(b, name, r);
    let c = b.new_local(name, r);
    assert forall|x: usize| x < c.next_register implies c.free.contains(x) || c.bound(x) by {
        if x != r.0 {
            if x < a.next_register {
                assert(a.free.contains(x) || a.bound(x));
                if a.free.contains(x) {
                    assert((a.free + fresh(a.next_register, b.next_register)).contains(x));
                    assert((b.free + set![r.0]).contains(x));
                } else {
                    assert(a.bound(x));
                    assert(b.bound(x));
                }
            } else {
                assert(fresh(a.next_register, b.next_register).contains(x));
                assert((a.free + fresh(a.next_register, b.next_register)).contains(x));
                assert((b.free + set![r.0]).contains(x));
            }
        }
    }
}

/// Recording whether a local may hold a function leaves every register free
/// or the home of a local.
pub proof fn flag_keeps_no_trash(m: Model, name: Seq<char>, flag: bool)
    requires
        m.inv(),
        m.no_trash(),
    ensures
        m.set_can_be_function(name, flag).no_trash(),
{
    set_can_be_function_keeps(m, name, flag);
    let after = m.set_can_be_function(name, flag);
    assert forall|r: usize| r < after.next_register implies after.free.contains(r) || after.bound(
        r,
    ) by {
        assert(m.free.contains(r) || m.bound(r));
    }
}

} // verus!
