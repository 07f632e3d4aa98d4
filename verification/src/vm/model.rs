//! The compiler's bookkeeping as mathematics: the state that compiling one
//! function carries, and what each of its operations does to it.

use crate::ast::Span;
use crate::vm::op_code::{BytecodeError, ConstantIndex, OpCode};
use crate::vm::register::StackIndex;
use vstd::prelude::*;

verus! {

/// What the compiler knows of a declared local.
#[derive(Debug, Copy, Clone, PartialEq, Eq, Structural)]
pub struct VariableInfo {
    /// The register that holds the local
    pub register: StackIndex,
    /// Whether the local may hold a function at this point. A bare read of a
    /// local that may hold one calls it.
    pub can_be_function: bool,
}

impl VariableInfo {
    /// Whether the local lives in `register`.
    pub fn uses(&self, register: StackIndex) -> (uses: bool)
        ensures
            uses == (self.register == register),
    {
        self.register.0 == register.0
    }
}

/// The state of compiling one function.
pub struct Model {
    /// The declared locals by name
    pub locals: Map<Seq<char>, VariableInfo>,
    /// The high-water mark: every register ever handed out is below it.
    pub next_register: usize,
    /// The registers that were handed out and given back
    pub free: Set<usize>,
    /// The indices of the instructions that are reserved and not yet filled in
    pub patches: Set<usize>,
    /// The indices of the instructions whose span an enclosing assignment
    /// takes over
    pub assignment_spans: Seq<usize>,
    /// The instructions emitted so far
    pub code: Seq<OpCode<Seq<char>>>,
    /// The span of each instruction
    pub spans: Seq<Span>,
    /// The string constants, each once
    pub strings: Seq<Seq<char>>,
}

/// The least element of a set of registers that is not empty.
pub open spec fn least(registers: Set<usize>) -> usize {
    choose|m: usize| registers.contains(m) && forall|x: usize| registers.contains(x) ==> m <= x
}

/// Whether two states differ in their registers at most: locals, reserved
/// places, marks, instructions, spans and strings are the same.
pub open spec fn same_tables(a: Model, b: Model) -> bool {
    &&& a.locals == b.locals
    &&& a.patches == b.patches
    &&& a.assignment_spans == b.assignment_spans
    &&& a.code == b.code
    &&& a.spans == b.spans
    &&& a.strings == b.strings
}

/// The registers `from..to`.
pub open spec fn fresh(from: usize, to: usize) -> Set<usize> {
    Set::new(|r: usize| from <= r < to)
}

/// The first place at or after `from` where `strings` holds `item`, or the
/// length of `strings` where there is none.
pub open spec fn position(strings: Seq<Seq<char>>, item: Seq<char>, from: int) -> int
    decreases strings.len() - from,
{
    if from < 0 || from >= strings.len() {
        strings.len() as int
    } else if strings[from] == item {
        from
    } else {
        position(strings, item, from + 1)
    }
}

/// Whether one of the locals lives in register `r`.
#[verifier::opaque]
pub open spec fn holds(locals: Map<Seq<char>, VariableInfo>, r: usize) -> bool {
    exists|name: Seq<char>| #[trigger] locals.contains_key(name) && locals[name].register.0 == r
}

impl Model {
    /// The state before anything is compiled.
    pub open spec fn start() -> Model {
        Model {
            locals: Map::empty(),
            next_register: 0,
            free: Set::empty(),
            patches: Set::empty(),
            assignment_spans: Seq::empty(),
            code: Seq::empty(),
            spans: Seq::empty(),
            strings: Seq::empty(),
        }
    }

    /// Whether a declared local lives in register `r`.
    pub open spec fn bound(self, r: usize) -> bool {
        holds(self.locals, r)
    }

    /// Every register below the high-water mark is free or bound to a local.
    pub open spec fn no_trash(self) -> bool {
        forall|r: usize|
            r < self.next_register ==> #[trigger] self.free.contains(r) || self.bound(r)
    }

    /// What holds of the state at every moment:
    /// - free registers and the registers of locals are below the high-water
    ///   mark, and no register is both;
    /// - no two locals share a register;
    /// - every instruction has its span, names registers below the
    ///   high-water mark only, and is a reserved place exactly if its index
    ///   is among the patches;
    /// - the marked instructions exist;
    /// - the string constants can be counted in a `usize`.
    #[verifier::opaque]
    pub open spec fn inv(self) -> bool {
        &&& forall|r: usize| self.free.contains(r) ==> r < self.next_register
        &&& forall|name: Seq<char>| #[trigger]
            self.locals.contains_key(name) ==> self.locals[name].register.0 < self.next_register
                && !self.free.contains(self.locals[name].register.0)
        &&& forall|a: Seq<char>, b: Seq<char>|
            #![trigger self.locals.contains_key(a), self.locals.contains_key(b)]
            self.locals.contains_key(a) && self.locals.contains_key(b)
                && self.locals[a].register == self.locals[b].register ==> a == b
        &&& self.code.len() == self.spans.len()
        &&& self.code.len() <= usize::MAX
        &&& self.strings.len() <= usize::MAX
        &&& forall|i: int|
            0 <= i < self.code.len() ==> (#[trigger] self.code[i]).fits(self.next_register as int)
        &&& forall|i: int|
            0 <= i < self.code.len() ==> ((#[trigger] self.code[i]).is_unpatched()
                <==> self.patches.contains(i as usize))
        &&& forall|p: usize| self.patches.contains(p) ==> p < self.code.len()
        &&& forall|i: int|
            0 <= i < self.assignment_spans.len() ==> (#[trigger] self.assignment_spans[i])
                < self.code.len()
    }

    /// Hands out a register: the least free one, or a new one at the
    /// high-water mark where none is free.
    #[verifier::opaque]
    pub open spec fn get_register(self) -> (Model, StackIndex) {
        if exists|r: usize| self.free.contains(r) {
            let r = least(self.free);
            (Model { free: self.free.remove(r), ..self }, StackIndex(r))
        } else {
            (
                Model { next_register: (self.next_register + 1) as usize, ..self },
                StackIndex(self.next_register),
            )
        }
    }

    /// Gives a register back.
    pub open spec fn release_register(self, register: StackIndex) -> Model {
        Model { free: self.free.insert(register.0), ..self }
    }

    /// Gives a register back unless a local lives in it. Says whether it did.
    pub open spec fn release_if_unused(self, register: StackIndex) -> (Model, bool) {
        if self.bound(register.0) {
            (self, false)
        } else {
            (self.release_register(register), true)
        }
    }

    /// The given register, or one handed out where none is given.
    pub open spec fn actualize(self, register: Option<StackIndex>) -> (Model, StackIndex) {
        match register {
            None => self.get_register(),
            Some(register) => (self, register),
        }
    }

    /// The target register of an operation, given back for the time in which
    /// the operands are computed, so that an operand may share it. Says
    /// whether it was given back.
    pub open spec fn actualize_and_release_if_unused(self, register: Option<StackIndex>) -> (
        Model,
        StackIndex,
        bool,
    ) {
        match register {
            None => {
                let (m, register) = self.get_register();
                (m.release_register(register), register, true)
            },
            Some(register) => {
                let (m, released) = self.release_if_unused(register);
                (m, register, released)
            },
        }
    }

    /// Takes a free register back into use.
    pub open spec fn take_back_register(self, register: StackIndex) -> Model {
        Model { free: self.free.remove(register.0), ..self }
    }

    /// The register of a declared local.
    pub open spec fn local_register(self, name: Seq<char>) -> Option<StackIndex> {
        if self.locals.contains_key(name) {
            Some(self.locals[name].register)
        } else {
            None
        }
    }

    /// Declares a local. Until an assignment says otherwise it may hold a
    /// function.
    pub open spec fn new_local(self, name: Seq<char>, register: StackIndex) -> Model {
        Model {
            locals: self.locals.insert(name, VariableInfo { register, can_be_function: true }),
            ..self
        }
    }

    /// Whether the variable may hold a function. One that is no declared
    /// local may.
    pub open spec fn can_be_function(self, name: Seq<char>) -> bool {
        if self.locals.contains_key(name) {
            self.locals[name].can_be_function
        } else {
            true
        }
    }

    /// Records whether a declared local may hold a function.
    pub open spec fn set_can_be_function(self, name: Seq<char>, can_be_function: bool) -> Model {
        if self.locals.contains_key(name) {
            Model {
                locals: self.locals.insert(
                    name,
                    VariableInfo { register: self.locals[name].register, can_be_function },
                ),
                ..self
            }
        } else {
            self
        }
    }

    /// Appends an instruction with its span.
    pub open spec fn emit(self, op: OpCode<Seq<char>>, span: Span) -> Model {
        Model { code: self.code.push(op), spans: self.spans.push(span), ..self }
    }

    /// Appends a reserved place and records its index as a patch. Gives the
    /// index.
    pub open spec fn emit_reserve(self, span: Span) -> (Model, usize) {
        let id = self.code.len() as usize;
        (
            Model {
                patches: self.patches.insert(id),
                ..self.emit(OpCode::Error(BytecodeError::UnpatchedOpCode), span)
            },
            id,
        )
    }

    /// Fills a reserved place in.
    pub open spec fn patch(self, id: usize, op: OpCode<Seq<char>>) -> Model {
        Model { patches: self.patches.remove(id), code: self.code.update(id as int, op), ..self }
    }

    /// The index of a string constant, which is added where the pool does not
    /// hold it yet.
    pub open spec fn constant_index(self, item: Seq<char>) -> (Model, ConstantIndex) {
        let at = position(self.strings, item, 0);
        if at < self.strings.len() {
            (self, ConstantIndex(at as usize))
        } else {
            (Model { strings: self.strings.push(item), ..self }, ConstantIndex(at as usize))
        }
    }

    /// How many instructions there are.
    pub open spec fn ops_length(self) -> usize {
        self.code.len() as usize
    }

    /// Gives the span of an assignment to the last instruction, if any was
    /// emitted since there were `ops_length` of them, and to every marked
    /// instruction.
    pub open spec fn patch_assignment_spans(self, ops_length: usize, span: Span) -> Model {
        let last = self.spans.len() - 1;
        Model {
            spans: Seq::new(
                self.spans.len(),
                |i: int|
                    if (self.code.len() != ops_length && i == last) || self.assignment_spans.contains(
                        i as usize,
                    ) {
                        span
                    } else {
                        self.spans[i]
                    },
            ),
            ..self
        }
    }

    /// Marks the last instruction.
    pub open spec fn mark_assignment_span(self) -> Model {
        Model {
            assignment_spans: self.assignment_spans.push((self.code.len() - 1) as usize),
            ..self
        }
    }

    /// Forgets the marks.
    pub open spec fn clear_assignment_spans(self) -> Model {
        Model { assignment_spans: Seq::empty(), ..self }
    }
}

/// `Model::start` is in order and holds no trash.
pub proof fn start_is_in_order()
    ensures
        Model::start().inv(),
        Model::start().no_trash(),
{
    reveal(Model::inv);
}

/// What `inv` says of a free register and of the register of a local.
pub proof fn inv_facts(m: Model)
    requires
        m.inv(),
    ensures
        forall|r: usize| #[trigger] m.free.contains(r) ==> r < m.next_register && !m.bound(r),
        forall|r: usize| #[trigger] m.bound(r) ==> r < m.next_register && !m.free.contains(r),
        forall|name: Seq<char>| #[trigger]
            m.locals.contains_key(name) ==> m.bound(m.locals[name].register.0),
        m.code.len() == m.spans.len(),
        m.code.len() <= usize::MAX,
        m.strings.len() <= usize::MAX,
        forall|p: usize| m.patches.contains(p) ==> p < m.code.len(),
        forall|i: int| 0 <= i < m.code.len() ==> (#[trigger] m.code[i]).fits(m.next_register as int),
        forall|i: int|
            0 <= i < m.code.len() ==> ((#[trigger] m.code[i]).is_unpatched() <==> m.patches.contains(
                i as usize,
            )),
{
    reveal(Model::inv);
    reveal(holds);
}

/// Handing out a register keeps the state in order. The register is below
/// the new high-water mark, in use, and no local lives in it; it came from
/// the free registers or is the one new register.
pub proof fn get_register_keeps(m: Model)
    requires
        m.inv(),
        m.next_register < usize::MAX,
    ensures
        m.get_register().0.inv(),
        m.get_register().1.0 < m.get_register().0.next_register,
        !m.get_register().0.free.contains(m.get_register().1.0),
        !m.get_register().0.bound(m.get_register().1.0),
        m.get_register().0.free.insert(m.get_register().1.0) == m.free + fresh(
            m.next_register,
            m.get_register().0.next_register,
        ),
        m.next_register <= m.get_register().0.next_register <= m.next_register + 1,
        same_tables(m, m.get_register().0),
{
    reveal(Model::inv);
    reveal(holds);
    reveal(Model::get_register);
    let (after, r) = m.get_register();
    if exists|x: usize| m.free.contains(x) {
        let x = choose|x: usize| m.free.contains(x);
        least_exists(m.free, m.next_register);
        assert(m.free.contains(r.0));
        assert(after.free.insert(r.0) =~= m.free + fresh(m.next_register, after.next_register));
        assert forall|i: int| 0 <= i < after.code.len() implies (#[trigger] after.code[i]).fits(
            after.next_register as int,
        ) by {
            assert(m.code[i].fits(m.next_register as int));
        }
    } else {
        assert(after.free.insert(r.0) =~= m.free + fresh(m.next_register, after.next_register));
        assert forall|i: int| 0 <= i < after.code.len() implies (#[trigger] after.code[i]).fits(
            after.next_register as int,
        ) by {
            fits_grows(m.code[i], m.next_register as int, after.next_register as int);
        }
    }
}

/// A set of registers below a bound that is not empty has a least element.
pub proof fn least_exists(registers: Set<usize>, bound: usize)
    requires
        exists|x: usize| registers.contains(x),
        forall|x: usize| registers.contains(x) ==> x < bound,
    ensures
        registers.contains(least(registers)),
        forall|x: usize| registers.contains(x) ==> least(registers) <= x,
{
    let m = least_below(registers, bound);
    assert(registers.contains(m) && forall|x: usize| registers.contains(x) ==> m <= x);
}

proof fn least_below(registers: Set<usize>, bound: usize) -> (m: usize)
    requires
        exists|x: usize| registers.contains(x),
        forall|x: usize| registers.contains(x) ==> x < bound,
    ensures
        registers.contains(m),
        forall|x: usize| registers.contains(x) ==> m <= x,
    decreases bound,
{
    let x = choose|x: usize| registers.contains(x);
    if forall|y: usize| registers.contains(y) ==> x <= y {
        x
    } else {
        let y = choose|y: usize| registers.contains(y) && y < x;
        let smaller = Set::new(|z: usize| registers.contains(z) && z < x);
        assert(smaller.contains(y));
        let m = least_below(smaller, x);
        assert forall|z: usize| registers.contains(z) implies m <= z by {
            if z < x {
                assert(smaller.contains(z));
            }
        }
        m
    }
}

/// An instruction that names registers below a limit names registers below
/// every greater limit.
pub proof fn fits_grows<S>(op: OpCode<S>, limit: int, greater: int)
    requires
        op.fits(limit),
        limit <= greater,
    ensures
        op.fits(greater),
{
}

/// Giving back a register that is in use, and in which no local lives, keeps
/// the state in order.
pub proof fn release_register_keeps(m: Model, register: StackIndex)
    requires
        m.inv(),
        register.0 < m.next_register,
        !m.bound(register.0),
    ensures
        m.release_register(register).inv(),
{
    reveal(Model::inv);
    reveal(holds);
    let after = m.release_register(register);
    assert forall|name: Seq<char>| #[trigger] after.locals.contains_key(name) implies !after.free.contains(
        after.locals[name].register.0,
    ) by {
        if after.locals[name].register.0 == register.0 {
            assert(m.locals.contains_key(name));
            assert(m.bound(register.0));
        }
    }
}

/// Taking a free register back keeps the state in order.
pub proof fn take_back_register_keeps(m: Model, register: StackIndex)
    requires
        m.inv(),
    ensures
        m.take_back_register(register).inv(),
{
    reveal(Model::inv);
}

/// Declaring a local in a register that is in use and holds no local keeps
/// the state in order.
pub proof fn new_local_keeps(m: Model, name: Seq<char>, register: StackIndex)
    requires
        m.inv(),
        register.0 < m.next_register,
        !m.free.contains(register.0),
        !m.bound(register.0),
    ensures
        m.new_local(name, register).inv(),
        m.new_local(name, register).bound(register.0),
        forall|r: usize| m.bound(r) && !m.locals.contains_key(name) ==> m.new_local(name, register).bound(r),
        forall|r: usize| m.new_local(name, register).bound(r) ==> m.bound(r) || r == register.0,
{
    reveal(Model::inv);
    reveal(holds);
    let after = m.new_local(name, register);
    assert(after.locals.contains_key(name));
    assert forall|a: Seq<char>, b: Seq<char>|
        after.locals.contains_key(a) && after.locals.contains_key(b) && after.locals[a].register
            == after.locals[b].register implies a == b by {
        if a != b {
            if a == name {
                assert(m.locals.contains_key(b));
                assert(m.bound(register.0));
            } else if b == name {
                assert(m.locals.contains_key(a));
                assert(m.bound(register.0));
            } else {
                assert(m.locals.contains_key(a) && m.locals.contains_key(b));
            }
        }
    }
    assert forall|r: usize| m.bound(r) && !m.locals.contains_key(name) implies after.bound(r) by {
        let n = choose|n: Seq<char>| #[trigger] m.locals.contains_key(n) && m.locals[n].register.0 == r;
        assert(after.locals.contains_key(n) && after.locals[n].register.0 == r);
    }
    assert forall|r: usize| after.bound(r) implies m.bound(r) || r == register.0 by {
        let n = choose|n: Seq<char>| #[trigger]
            after.locals.contains_key(n) && after.locals[n].register.0 == r;
        if n != name {
            assert(m.locals.contains_key(n) && m.locals[n].register.0 == r);
        }
    }
}

/// Recording whether a local may hold a function keeps the state in order and
/// moves no local.
pub proof fn set_can_be_function_keeps(m: Model, name: Seq<char>, can_be_function: bool)
    requires
        m.inv(),
    ensures
        m.set_can_be_function(name, can_be_function).inv(),
        forall|r: usize| m.bound(r) <==> m.set_can_be_function(name, can_be_function).bound(r),
{
    reveal(Model::inv);
    reveal(holds);
    let after = m.set_can_be_function(name, can_be_function);
    assert forall|n: Seq<char>| #[trigger] after.locals.contains_key(n) implies m.locals.contains_key(n)
        && after.locals[n].register == m.locals[n].register by {}
    assert forall|r: usize| m.bound(r) <==> after.bound(r) by {
        if m.bound(r) {
            let n = choose|n: Seq<char>| #[trigger]
                m.locals.contains_key(n) && m.locals[n].register.0 == r;
            assert(after.locals.contains_key(n) && after.locals[n].register.0 == r);
        }
        if after.bound(r) {
            let n = choose|n: Seq<char>| #[trigger]
                after.locals.contains_key(n) && after.locals[n].register.0 == r;
            assert(m.locals.contains_key(n) && m.locals[n].register.0 == r);
        }
    }
    assert forall|a: Seq<char>, b: Seq<char>|
        after.locals.contains_key(a) && after.locals.contains_key(b) && after.locals[a].register
            == after.locals[b].register implies a == b by {
        assert(m.locals.contains_key(a) && m.locals.contains_key(b));
    }
}

/// Appending an instruction that names registers in use keeps the state in
/// order.
pub proof fn emit_keeps(m: Model, op: OpCode<Seq<char>>, span: Span)
    requires
        m.inv(),
        op.fits(m.next_register as int),
        !op.is_unpatched(),
        m.code.len() < usize::MAX,
    ensures
        m.emit(op, span).inv(),
{
    reveal(Model::inv);
    let after = m.emit(op, span);
    assert forall|i: int| 0 <= i < after.code.len() implies ((#[trigger] after.code[i]).is_unpatched()
        <==> after.patches.contains(i as usize)) by {
        if i < m.code.len() {
            assert(after.code[i] == m.code[i]);
        } else {
            if m.patches.contains(i as usize) {
            }
        }
    }
    assert forall|i: int| 0 <= i < after.code.len() implies (#[trigger] after.code[i]).fits(
        after.next_register as int,
    ) by {
        if i < m.code.len() {
            assert(after.code[i] == m.code[i]);
        }
    }
}

/// Appending a reserved place keeps the state in order.
pub proof fn emit_reserve_keeps(m: Model, span: Span)
    requires
        m.inv(),
        m.code.len() < usize::MAX,
    ensures
        m.emit_reserve(span).0.inv(),
        !m.patches.contains(m.code.len() as usize),
{
    reveal(Model::inv);
    let (after, id) = m.emit_reserve(span);
    assert forall|i: int| 0 <= i < after.code.len() implies ((#[trigger] after.code[i]).is_unpatched()
        <==> after.patches.contains(i as usize)) by {
        if i < m.code.len() {
            assert(after.code[i] == m.code[i]);
        }
    }
    assert forall|i: int| 0 <= i < after.code.len() implies (#[trigger] after.code[i]).fits(
        after.next_register as int,
    ) by {
        if i < m.code.len() {
            assert(after.code[i] == m.code[i]);
        }
    }
}

/// Filling a reserved place in keeps the state in order.
pub proof fn patch_keeps(m: Model, id: usize, op: OpCode<Seq<char>>)
    requires
        m.inv(),
        m.patches.contains(id),
        op.fits(m.next_register as int),
        !op.is_unpatched(),
    ensures
        m.patch(id, op).inv(),
        id < m.code.len(),
{
    reveal(Model::inv);
    let after = m.patch(id, op);
    assert forall|i: int| 0 <= i < after.code.len() implies ((#[trigger] after.code[i]).is_unpatched()
        <==> after.patches.contains(i as usize)) by {
        if i != id {
            assert(after.code[i] == m.code[i]);
        }
    }
    assert forall|i: int| 0 <= i < after.code.len() implies (#[trigger] after.code[i]).fits(
        after.next_register as int,
    ) by {
        if i != id {
            assert(after.code[i] == m.code[i]);
        }
    }
}

/// Changes to the constant pool, to the spans and to the marks keep the
/// state in order as long as the marked instructions exist.
pub proof fn side_tables_keep(m: Model, after: Model)
    requires
        m.inv(),
        after.locals == m.locals,
        after.next_register == m.next_register,
        after.free == m.free,
        after.patches == m.patches,
        after.code == m.code,
        after.spans.len() == m.spans.len(),
        after.strings.len() <= usize::MAX,
        forall|i: int|
            0 <= i < after.assignment_spans.len() ==> (#[trigger] after.assignment_spans[i])
                < after.code.len(),
    ensures
        after.inv(),
{
    reveal(Model::inv);
}

/// Where `position` finds the item: at the first place at or after `from`
/// that holds it, or nowhere.
pub proof fn position_finds(strings: Seq<Seq<char>>, item: Seq<char>, from: int)
    requires
        0 <= from <= strings.len(),
    ensures
        from <= position(strings, item, from) <= strings.len(),
        position(strings, item, from) < strings.len() ==> strings[position(strings, item, from)]
            == item,
        forall|i: int| from <= i < position(strings, item, from) ==> strings[i] != item,
    decreases strings.len() - from,
{
    if from < strings.len() && strings[from] != item {
        position_finds(strings, item, from + 1);
    }
}

/// The index of a string constant names the constant: the pool holds the
/// item there, holds it nowhere before, and holds what it held.
pub proof fn constant_index_names(m: Model, item: Seq<char>)
    requires
        m.inv(),
    ensures
        m.constant_index(item).1.0 < m.constant_index(item).0.strings.len(),
        m.constant_index(item).0.strings[m.constant_index(item).1.0 as int] == item,
        forall|i: int|
            0 <= i < m.constant_index(item).1.0 ==> m.constant_index(item).0.strings[i] != item,
        m.strings.len() <= m.constant_index(item).0.strings.len() <= m.strings.len() + 1,
        forall|i: int|
            0 <= i < m.strings.len() ==> m.constant_index(item).0.strings[i] == m.strings[i],
{
    inv_facts(m);
    position_finds(m.strings, item, 0);
}

/// The marked instructions exist.
pub proof fn marks_exist(m: Model)
    requires
        m.inv(),
    ensures
        forall|i: int|
            0 <= i < m.assignment_spans.len() ==> (#[trigger] m.assignment_spans[i]) < m.code.len(),
{
    reveal(Model::inv);
}

/// The registers below the high-water mark in which a local lives.
pub open spec fn local_registers(m: Model) -> Set<usize> {
    Set::new(|r: usize| r < m.next_register && m.bound(r))
}

/// There are `n` registers below `n`.
pub proof fn count_below(n: usize)
    ensures
        fresh(0, n).finite(),
        fresh(0, n).len() == n,
    decreases n,
{
    if n == 0 {
        assert(fresh(0, n) =~= Set::empty());
    } else {
        count_below((n - 1) as usize);
        assert(fresh(0, n) =~= fresh(0, (n - 1) as usize).insert((n - 1) as usize));
    }
}

/// Where the state is in order and holds no trash, the registers of locals
/// and the free registers together are all registers that were ever handed
/// out, each once: their numbers add up to the high-water mark. No register
/// is leaked and none has two owners.
pub proof fn registers_are_accounted_for(m: Model)
    requires
        m.inv(),
        m.no_trash(),
    ensures
        local_registers(m).finite(),
        m.free.finite(),
        local_registers(m).disjoint(m.free),
        local_registers(m) + m.free == fresh(0, m.next_register),
        local_registers(m).len() + m.free.len() == m.next_register,
{
    inv_facts(m);
    count_below(m.next_register);
    let all = fresh(0, m.next_register);
    let locals = local_registers(m);
    assert(locals + m.free =~= all);
    assert(locals.subset_of(all));
    assert(m.free.subset_of(all));
    vstd::set_lib::lemma_len_subset(locals, all);
    vstd::set_lib::lemma_len_subset(m.free, all);
    vstd::set_lib::lemma_set_disjoint_lens(locals, m.free);
}

} // verus!
