//! The compiler's bookkeeping in compiled code: registers, locals, reserved
//! instructions and the instructions emitted so far. Every operation is
//! proved to do what `Model` says it does.

use crate::ast::Span;
use crate::vm::chunk::{chunk_of, Chunk};
use crate::vm::model::{
    constant_index_names, emit_keeps, emit_reserve_keeps, fresh, get_register_keeps, holds,
    inv_facts, least, marks_exist, new_local_keeps, patch_keeps, position,
    release_register_keeps, same_tables, set_can_be_function_keeps, side_tables_keep,
    start_is_in_order, take_back_register_keeps, Model, VariableInfo,
};
use crate::vm::op_code::{BytecodeError, ConstantIndex, OpCode};
use crate::vm::register::StackIndex;
use rustc_hash::{FxHashMap, FxHashSet};
use vstd::prelude::*;

verus! {

/// `rustc_hash::FxBuildHasher`, the hasher of the tables below. Nothing is
/// claimed of it.
#[verifier::external_type_specification]
#[verifier::external_body]
pub struct ExFxBuildHasher(rustc_hash::FxBuildHasher);

/// The bindings that a table of locals holds.
pub uninterp spec fn locals_of(table: FxHashMap<String, VariableInfo>) -> Map<
    Seq<char>,
    VariableInfo,
>;

/// The indices that a set of reserved instructions holds.
pub uninterp spec fn slots_of(set: FxHashSet<usize>) -> Set<usize>;

/// `FxHashMap::default`: a table that holds no binding.
#[verifier::external_body]
fn locals_new() -> (table: FxHashMap<String, VariableInfo>)
    ensures
        forall|name: Seq<char>| !locals_of(table).contains_key(name),
{
    FxHashMap::default()
}

/// `HashMap::get`: the binding of `name`, if the table holds one.
#[verifier::external_body]
fn locals_get(table: &FxHashMap<String, VariableInfo>, name: &str) -> (found: Option<VariableInfo>)
    ensures
        found == (if locals_of(*table).contains_key(name@) {
            Some(locals_of(*table)[name@])
        } else {
            None
        }),
{
    table.get(name).copied()
}

/// `HashMap::insert`: binds `name` to `info`, in place of what it was bound
/// to before.
#[verifier::external_body]
fn locals_insert(table: &mut FxHashMap<String, VariableInfo>, name: String, info: VariableInfo)
    ensures
        locals_of(*final(table)) == locals_of(*old(table)).insert(name@, info),
{
    table.insert(name, info);
}

/// `HashMap::values` with `Iterator::any`: whether some binding of the table
/// lives in `register`.
#[verifier::external_body]
fn locals_use(table: &FxHashMap<String, VariableInfo>, register: StackIndex) -> (used: bool)
    ensures
        used == (exists|name: Seq<char>| #[trigger]
            locals_of(*table).contains_key(name) && locals_of(*table)[name].register == register),
{
    table.values().any(|info| info.uses(register))
}

/// `FxHashSet::default`: a set that holds nothing.
#[verifier::external_body]
fn slots_new() -> (set: FxHashSet<usize>)
    ensures
        forall|slot: usize| !slots_of(set).contains(slot),
{
    FxHashSet::default()
}

/// `HashSet::insert`: adds `slot` to the set.
#[verifier::external_body]
fn slots_insert(set: &mut FxHashSet<usize>, slot: usize)
    ensures
        slots_of(*final(set)) == slots_of(*old(set)).insert(slot),
{
    set.insert(slot);
}

/// `HashSet::remove`: takes `slot` out of the set and says whether the set
/// held it.
#[verifier::external_body]
fn slots_remove(set: &mut FxHashSet<usize>, slot: usize) -> (held: bool)
    ensures
        held == slots_of(*old(set)).contains(slot),
        slots_of(*final(set)) == slots_of(*old(set)).remove(slot),
{
    set.remove(&slot)
}

/// The instructions of compiled code as contracts see them.
pub open spec fn code_view(code: Seq<OpCode<String>>) -> Seq<OpCode<Seq<char>>> {
    Seq::new(code.len(), |i: int| code[i]@)
}

/// The strings of compiled code as contracts see them.
pub open spec fn strings_view(strings: Seq<String>) -> Seq<Seq<char>> {
    Seq::new(strings.len(), |i: int| strings[i]@)
}

/// The elements of a sequence of registers.
pub open spec fn set_of(registers: Seq<usize>) -> Set<usize> {
    Set::new(|r: usize| registers.contains(r))
}

/// Whether a sequence of registers ascends strictly.
pub open spec fn ascending(registers: Seq<usize>) -> bool {
    forall|i: int, j: int| 0 <= i < j < registers.len() ==> registers[i] < registers[j]
}

proof fn least_is_first(registers: Seq<usize>)
    requires
        ascending(registers),
        registers.len() > 0,
    ensures
        least(set_of(registers)) == registers[0],
        set_of(registers.remove(0)) == set_of(registers).remove(registers[0]),
        ascending(registers.remove(0)),
{
    let set = set_of(registers);
    assert(registers.contains(registers[0]));
    assert(set.contains(registers[0]));
    assert forall|x: usize| set.contains(x) implies registers[0] <= x by {
        let i = choose|i: int| 0 <= i < registers.len() && registers[i] == x;
        assert(registers[i] == x);
    }
    let m = least(set);
    assert(set.contains(m) && forall|x: usize| set.contains(x) ==> m <= x);
    assert(m <= registers[0]);
    assert(registers[0] <= m);
    let rest = registers.remove(0);
    assert forall|x: usize| set_of(rest).contains(x) <==> set.remove(registers[0]).contains(
        x,
    ) by {
        if set_of(rest).contains(x) {
            let i = choose|i: int| 0 <= i < rest.len() && rest[i] == x;
            assert(registers[i + 1] == x);
            assert(registers[0] < registers[i + 1]);
        }
        if set.remove(registers[0]).contains(x) {
            let i = choose|i: int| 0 <= i < registers.len() && registers[i] == x;
            assert(i > 0);
            assert(rest[i - 1] == x);
        }
    }
    assert(set_of(rest) =~= set.remove(registers[0]));
}

proof fn insert_keeps_order(registers: Seq<usize>, at: int, r: usize)
    requires
        ascending(registers),
        0 <= at <= registers.len(),
        forall|i: int| 0 <= i < at ==> registers[i] < r,
        forall|i: int| at <= i < registers.len() ==> r < registers[i],
    ensures
        ascending(registers.insert(at, r)),
        set_of(registers.insert(at, r)) == set_of(registers).insert(r),
{
    let after = registers.insert(at, r);
    assert forall|x: usize| set_of(after).contains(x) <==> set_of(registers).insert(r).contains(
        x,
    ) by {
        if set_of(after).contains(x) {
            let i = choose|i: int| 0 <= i < after.len() && after[i] == x;
            if i < at {
                assert(registers[i] == x);
            } else if i > at {
                assert(registers[i - 1] == x);
            }
        }
        if set_of(registers).contains(x) {
            let i = choose|i: int| 0 <= i < registers.len() && registers[i] == x;
            if i < at {
                assert(after[i] == x);
            } else {
                assert(after[i + 1] == x);
            }
        }
        if x == r {
            assert(after[at] == x);
        }
    }
    assert(set_of(after) =~= set_of(registers).insert(r));
}

proof fn remove_keeps_order(registers: Seq<usize>, at: int)
    requires
        ascending(registers),
        0 <= at < registers.len(),
    ensures
        ascending(registers.remove(at)),
        set_of(registers.remove(at)) == set_of(registers).remove(registers[at]),
{
    let after = registers.remove(at);
    assert forall|x: usize| set_of(after).contains(x) <==> set_of(registers).remove(
        registers[at],
    ).contains(x) by {
        if set_of(after).contains(x) {
            let i = choose|i: int| 0 <= i < after.len() && after[i] == x;
            if i < at {
                assert(registers[i] == x);
            } else {
                assert(registers[i + 1] == x);
            }
        }
        if set_of(registers).remove(registers[at]).contains(x) {
            let i = choose|i: int| 0 <= i < registers.len() && registers[i] == x;
            if i < at {
                assert(after[i] == x);
            } else {
                assert(i > at);
                assert(after[i - 1] == x);
            }
        }
    }
    assert(set_of(after) =~= set_of(registers).remove(registers[at]));
}

/// The state of compiling one function.
pub struct FunctionCompilationContext {
    declared_variables: FxHashMap<String, VariableInfo>,
    next_register: usize,
    /// The free registers, ascending, so that the least comes first
    free_registers: Vec<usize>,
    patches: FxHashSet<usize>,
    assignment_spans: Vec<usize>,
    code: Vec<OpCode<String>>,
    spans: Vec<Span>,
    strings: Vec<String>,
}

/// The place of a reserved instruction, to be filled in once.
#[derive(Debug)]
pub struct ReservedOpSpace(pub usize);

impl View for FunctionCompilationContext {
    type V = Model;

    closed spec fn view(&self) -> Model {
        Model {
            locals: locals_of(self.declared_variables),
            next_register: self.next_register,
            free: set_of(self.free_registers@),
            patches: slots_of(self.patches),
            assignment_spans: self.assignment_spans@,
            code: code_view(self.code@),
            spans: self.spans@,
            strings: strings_view(self.strings@),
        }
    }
}

impl FunctionCompilationContext {
    /// Whether the free registers are kept in ascending order.
    pub closed spec fn ordered(&self) -> bool {
        ascending(self.free_registers@)
    }

    /// Whether the context is in order: its bookkeeping holds what `Model::inv`
    /// asks for.
    pub open spec fn wf(&self) -> bool {
        self.ordered() && self@.inv()
    }

    /// The context before anything is compiled.
    pub fn new() -> (ctx: FunctionCompilationContext)
        ensures
            ctx@ == Model::start(),
            ctx.wf(),
            ctx@.no_trash(),
    {
        let ctx = FunctionCompilationContext {
            declared_variables: locals_new(),
            next_register: 0,
            free_registers: Vec::new(),
            patches: slots_new(),
            assignment_spans: Vec::new(),
            code: Vec::new(),
            spans: Vec::new(),
            strings: Vec::new(),
        };
        proof {
            assert(ctx@.locals =~= Map::empty());
            assert(ctx@.free =~= Set::empty());
            assert(ctx@.patches =~= Set::empty());
            assert(ctx@.code =~= Seq::empty());
            assert(ctx@.strings =~= Seq::empty());
            start_is_in_order();
        }
        ctx
    }

    /// The compiled unit that holds what was emitted. Its stack has room for
    /// every register that was handed out.
    pub fn into_chunk(self) -> (chunk: Chunk)
        requires
            chunk_of(self@).well_formed(),
        ensures
            chunk@ == chunk_of(self@),
    {
        Chunk::assemble(self.code, self.spans, self.strings, self.next_register)
    }

    /// The given register, or one handed out where none is given.
    pub fn actualize(&mut self, register: Option<StackIndex>) -> (r: StackIndex)
        requires
            old(self).wf(),
            old(self)@.next_register < usize::MAX,
            register matches Some(t) ==> t.0 < old(self)@.next_register,
        ensures
            final(self).wf(),
            (final(self)@, r) == old(self)@.actualize(register),
            r.0 < final(self)@.next_register,
            register is None ==> !final(self)@.free.contains(r.0) && !final(self)@.bound(r.0)
                && final(self)@.free.insert(r.0) == old(self)@.free + fresh(
                old(self)@.next_register,
                final(self)@.next_register,
            ),
            old(self)@.next_register <= final(self)@.next_register <= old(self)@.next_register + 1,
            same_tables(old(self)@, final(self)@),
    {
        match register {
            None => self.get_register(),
            Some(reg) => reg,
        }
    }

    /// Hands out a register: the least free one, or a new one where none is
    /// free.
    pub fn get_register(&mut self) -> (r: StackIndex)
        requires
            old(self).wf(),
            old(self)@.next_register < usize::MAX,
        ensures
            final(self).wf(),
            (final(self)@, r) == old(self)@.get_register(),
            r.0 < final(self)@.next_register,
            !final(self)@.free.contains(r.0),
            !final(self)@.bound(r.0),
            final(self)@.free.insert(r.0) == old(self)@.free + fresh(
                old(self)@.next_register,
                final(self)@.next_register,
            ),
            old(self)@.next_register <= final(self)@.next_register <= old(self)@.next_register + 1,
            same_tables(old(self)@, final(self)@),
    {
        proof {
            get_register_keeps(self@);
            reveal(Model::get_register);
        }
        if self.free_registers.len() > 0 {
            proof {
                least_is_first(self.free_registers@);
                assert(self.free_registers@.contains(self.free_registers@[0]));
                assert(self@.free.contains(self.free_registers@[0]));
            }
            let r = self.free_registers.remove(0);
            StackIndex(r)
        } else {
            proof {
                assert forall|r: usize| !self@.free.contains(r) by {
                    if self.free_registers@.contains(r) {
                        let i = choose|i: int|
                            0 <= i < self.free_registers@.len() && self.free_registers@[i] == r;
                    }
                }
            }
            let next = self.next_register;
            self.next_register = next + 1;
            StackIndex(next)
        }
    }

    /// Gives a register back.
    pub fn release_register(&mut self, register: StackIndex)
        requires
            old(self).wf(),
            register.0 < old(self)@.next_register,
            !old(self)@.bound(register.0),
        ensures
            final(self).wf(),
            final(self)@ == old(self)@.release_register(register),
    {
        proof {
            release_register_keeps(self@, register);
        }
        let n = self.free_registers.len();
        let mut i: usize = 0;
        while i < n && self.free_registers[i] < register.0
            invariant
                n == self.free_registers@.len(),
                i <= n,
                *self == *old(self),
                self.ordered(),
                forall|j: int| 0 <= j < i ==> self.free_registers@[j] < register.0,
            decreases n - i,
        {
            i += 1;
        }
        if i < n && self.free_registers[i] == register.0 {
            proof {
                assert(self.free_registers@.contains(register.0));
                assert(self@.free.insert(register.0) =~= self@.free);
            }
            return ;
        }
        proof {
            insert_keeps_order(self.free_registers@, i as int, register.0);
        }
        self.free_registers.insert(i, register.0);
    }

    /// Gives a register back unless a local lives in it. Says whether it did.
    pub fn release_if_unused(&mut self, register: StackIndex) -> (released: bool)
        requires
            old(self).wf(),
            register.0 < old(self)@.next_register,
        ensures
            final(self).wf(),
            (final(self)@, released) == old(self)@.release_if_unused(register),
            released == !old(self)@.bound(register.0),
    {
        proof {
            reveal(holds);
        }
        if locals_use(&self.declared_variables, register) {
            return false;
        }
        self.release_register(register);
        true
    }

    /// The target register of an operation, given back for the time in which
    /// the operands are computed. Says whether it was given back.
    pub fn actualize_and_release_if_unused(&mut self, register: Option<StackIndex>) -> (r: (
        StackIndex,
        bool,
    ))
        requires
            old(self).wf(),
            old(self)@.next_register < usize::MAX,
            register matches Some(t) ==> t.0 < old(self)@.next_register,
        ensures
            final(self).wf(),
            (final(self)@, r.0, r.1) == old(self)@.actualize_and_release_if_unused(register),
            r.0.0 < final(self)@.next_register,
            r.1 == !final(self)@.bound(r.0.0),
            r.1 ==> final(self)@.free.contains(r.0.0),
            old(self)@.next_register <= final(self)@.next_register <= old(self)@.next_register + 1,
            register is None ==> final(self)@.free == old(self)@.free + fresh(
                old(self)@.next_register,
                final(self)@.next_register,
            ),
            register matches Some(t) ==> final(self)@.free == (if r.1 {
                old(self)@.free.insert(t.0)
            } else {
                old(self)@.free
            }),
            same_tables(old(self)@, final(self)@),
    {
        match register {
            None => {
                let register = self.get_register();
                self.release_register(register);
                (register, true)
            },
            Some(register) => (register, self.release_if_unused(register)),
        }
    }

    /// Takes a free register back into use.
    pub fn take_back_register(&mut self, register: StackIndex) -> (r: StackIndex)
        requires
            old(self).wf(),
            old(self)@.free.contains(register.0),
        ensures
            final(self).wf(),
            final(self)@ == old(self)@.take_back_register(register),
            r == register,
    {
        proof {
            take_back_register_keeps(self@, register);
        }
        let n = self.free_registers.len();
        let mut i: usize = 0;
        while i < n && self.free_registers[i] != register.0
            invariant
                n == self.free_registers@.len(),
                i <= n,
                *self == *old(self),
                forall|j: int| 0 <= j < i ==> self.free_registers@[j] != register.0,
            decreases n - i,
        {
            i += 1;
        }
        proof {
            let j = choose|j: int|
                0 <= j < self.free_registers@.len() && self.free_registers@[j] == register.0;
            assert(i < n);
            remove_keeps_order(self.free_registers@, i as int);
        }
        self.free_registers.remove(i);
        register
    }

    /// The register of a declared local.
    pub fn local_register(&self, ident: &str) -> (r: Option<StackIndex>)
        ensures
            r == self@.local_register(ident@),
            self.wf() ==> (r matches Some(index) ==> index.0 < self@.next_register
                && !self@.free.contains(index.0) && self@.bound(index.0)),
    {
        proof {
            if self.wf() {
                inv_facts(self@);
            }
        }
        match locals_get(&self.declared_variables, ident) {
            Some(info) => Some(info.register),
            None => None,
        }
    }

    /// Declares a local in a register that is in use and holds no local yet.
    pub fn new_local(&mut self, ident: &str, register: StackIndex)
        requires
            old(self).wf(),
            register.0 < old(self)@.next_register,
            !old(self)@.free.contains(register.0),
            !old(self)@.bound(register.0),
            !old(self)@.locals.contains_key(ident@),
        ensures
            final(self).wf(),
            final(self)@ == old(self)@.new_local(ident@, register),
    {
        proof {
            new_local_keeps(self@, ident@, register);
        }
        locals_insert(
            &mut self.declared_variables,
            ident.to_owned(),
            VariableInfo { register, can_be_function: true },
        );
    }

    /// Whether the variable may hold a function.
    pub fn can_be_function(&self, ident: &str) -> (can: bool)
        ensures
            can == self@.can_be_function(ident@),
    {
        match locals_get(&self.declared_variables, ident) {
            Some(info) => info.can_be_function,
            None => true,
        }
    }

    /// Records whether a declared local may hold a function.
    pub fn set_can_be_function(&mut self, ident: &str, can_be_function: bool)
        requires
            old(self).wf(),
        ensures
            final(self).wf(),
            final(self)@ == old(self)@.set_can_be_function(ident@, can_be_function),
    {
        proof {
            set_can_be_function_keeps(self@, ident@, can_be_function);
        }
        match locals_get(&self.declared_variables, ident) {
            Some(info) => {
                locals_insert(
                    &mut self.declared_variables,
                    ident.to_owned(),
                    VariableInfo { register: info.register, can_be_function },
                );
            },
            None => {},
        }
    }

    /// Appends an instruction with its span.
    pub fn emit(&mut self, code: OpCode<String>, span: Span)
        requires
            old(self).wf(),
            code.fits(old(self)@.next_register as int),
            !code.is_unpatched(),
        ensures
            final(self).wf(),
            final(self)@ == old(self)@.emit(code@, span),
    {
        proof {
            assert(code_view(self.code@.push(code)) =~= code_view(self.code@).push(code@));
        }
        let ghost before = self@;
        let ghost op = code@;
        self.code.push(code);
        self.spans.push(span);
        let n = self.code.len();
        proof {
            emit_keeps(before, op, span);
        }
    }

    /// Appends a reserved place and gives its handle.
    #[must_use]
    pub fn emit_reserve(&mut self, span: Span) -> (reserved: ReservedOpSpace)
        requires
            old(self).wf(),
        ensures
            final(self).wf(),
            (final(self)@, reserved.0) == old(self)@.emit_reserve(span),
            reserved.0 == old(self)@.code.len(),
            !old(self)@.patches.contains(reserved.0),
    {
        let code: OpCode<String> = OpCode::Error(BytecodeError::UnpatchedOpCode);
        proof {
            assert(code_view(self.code@.push(code)) =~= code_view(self.code@).push(code@));
        }
        let ghost before = self@;
        self.code.push(code);
        self.spans.push(span);
        let id = self.code.len() - 1;
        proof {
            emit_reserve_keeps(before, span);
        }
        slots_insert(&mut self.patches, id);
        ReservedOpSpace(id)
    }

    /// Fills a reserved place in.
    pub fn patch(&mut self, op: ReservedOpSpace, code: OpCode<String>)
        requires
            old(self).wf(),
            old(self)@.patches.contains(op.0),
            code.fits(old(self)@.next_register as int),
            !code.is_unpatched(),
        ensures
            final(self).wf(),
            final(self)@ == old(self)@.patch(op.0, code@),
    {
        proof {
            patch_keeps(self@, op.0, code@);
        }
        let reserved = slots_remove(&mut self.patches, op.0);
        proof {
            assert(code_view(self.code@.update(op.0 as int, code)) =~= code_view(
                self.code@,
            ).update(op.0 as int, code@));
        }
        // Only a place that is reserved is written.
        if reserved {
            self.code.set(op.0, code);
        }
    }

    /// The index of a string constant, which is added where the pool does not
    /// hold it yet.
    pub fn get_or_create_constant_index(&mut self, item: &str) -> (index: ConstantIndex)
        requires
            old(self).wf(),
        ensures
            final(self).wf(),
            (final(self)@, index) == old(self)@.constant_index(item@),
            index.0 < final(self)@.strings.len(),
            final(self)@.strings[index.0 as int] == item@,
            forall|i: int|
                0 <= i < old(self)@.strings.len() ==> final(self)@.strings[i] == old(
                    self,
                )@.strings[i],
    {
        proof {
            constant_index_names(self@, item@);
        }
        let wanted = item.to_owned();
        let n = self.strings.len();
        let mut i: usize = 0;
        while i < n
            invariant
                n == self.strings@.len(),
                i <= n,
                *self == *old(self),
                self.wf(),
                wanted@ == item@,
                position(self@.strings, item@, 0) == position(self@.strings, item@, i as int),
            decreases n - i,
        {
            if self.strings[i] == wanted {
                return ConstantIndex(i);
            }
            i += 1;
        }
        proof {
            assert(strings_view(self.strings@.push(wanted)) =~= strings_view(self.strings@).push(
                item@,
            ));
            marks_exist(self@);
        }
        let ghost before = self@;
        self.strings.push(wanted);
        let grown = self.strings.len();
        proof {
            assert(self@.assignment_spans == before.assignment_spans);
            assert(self@.code == before.code);
            assert(self@.strings.len() == grown);
            side_tables_keep(before, self@);
        }
        ConstantIndex(n)
    }

    /// Whether `register` is among the free registers.
    fn is_free(&self, register: usize) -> (free: bool)
        ensures
            free == self@.free.contains(register),
    {
        let n = self.free_registers.len();
        let mut i: usize = 0;
        while i < n
            invariant
                n == self.free_registers@.len(),
                i <= n,
                forall|j: int| 0 <= j < i ==> self.free_registers@[j] != register,
            decreases n - i,
        {
            if self.free_registers[i] == register {
                assert(self.free_registers@.contains(register));
                return true;
            }
            i += 1;
        }
        proof {
            if self.free_registers@.contains(register) {
                let j = choose|j: int|
                    0 <= j < self.free_registers@.len() && self.free_registers@[j] == register;
            }
        }
        false
    }

    /// Whether every register below the high-water mark is free or the home
    /// of a local: no register is leaked. The compiler keeps this true after
    /// every statement.
    pub fn check_for_trash(&self) -> (clean: bool)
        ensures
            clean == self@.no_trash(),
    {
        proof {
            reveal(holds);
        }
        let mut i: usize = 0;
        while i < self.next_register
            invariant
                i <= self.next_register,
                forall|r: usize| r < i ==> #[trigger] self@.free.contains(r) || self@.bound(r),
            decreases self.next_register - i,
        {
            if !self.is_free(i) && !locals_use(&self.declared_variables, StackIndex(i)) {
                proof {
                    reveal(holds);
                    assert(!self@.free.contains(i) && !self@.bound(i));
                }
                return false;
            }
            proof {
                reveal(holds);
            }
            i += 1;
        }
        true
    }

    /// How many instructions there are.
    pub fn ops_length(&self) -> (n: usize)
        ensures
            n == self@.ops_length(),
            n == self@.code.len(),
    {
        self.code.len()
    }

    /// Gives the span of an assignment to the last instruction, if any was
    /// emitted since there were `ops_length` of them, and to every marked
    /// instruction.
    pub fn patch_assignment_spans(&mut self, ops_length: usize, span: Span)
        requires
            old(self).wf(),
            old(self)@.code.len() >= ops_length,
        ensures
            final(self).wf(),
            final(self)@ == old(self)@.patch_assignment_spans(ops_length, span),
    {
        proof {
            inv_facts(self@);
            marks_exist(self@);
            assert(self@.assignment_spans == self.assignment_spans@);
            assert(self@.code.len() == self.code@.len());
            assert forall|j: int| 0 <= j < self.assignment_spans@.len() implies (
            #[trigger] self.assignment_spans@[j]) < self.code@.len() by {
                assert(self@.assignment_spans[j] < self@.code.len());
            }
        }
        let emitted = self.code.len() != ops_length;
        if emitted {
            let last = self.spans.len() - 1;
            self.spans.set(last, span);
        }
        let n = self.assignment_spans.len();
        let total = self.spans.len();
        let mut i: usize = 0;
        while i < n
            invariant
                n == self.assignment_spans@.len(),
                total == self.spans@.len(),
                i <= n,
                old(self).wf(),
                self.declared_variables == old(self).declared_variables,
                self.next_register == old(self).next_register,
                self.free_registers == old(self).free_registers,
                self.patches == old(self).patches,
                self.assignment_spans == old(self).assignment_spans,
                self.code == old(self).code,
                self.strings == old(self).strings,
                self.spans@.len() == old(self).spans@.len(),
                self.spans@.len() == self.code@.len(),
                forall|j: int|
                    0 <= j < self.assignment_spans@.len() ==> (#[trigger] self.assignment_spans@[j])
                        < self.code@.len(),
                forall|k: int|
                    0 <= k < self.spans@.len() ==> self.spans@[k] == (if (emitted && k
                        == self.spans@.len() - 1) || self.assignment_spans@.take(i as int).contains(
                        k as usize,
                    ) {
                        span
                    } else {
                        old(self).spans@[k]
                    }),
            decreases n - i,
        {
            let x = self.assignment_spans[i];
            proof {
                let before = self.assignment_spans@.take(i as int);
                let after = self.assignment_spans@.take(i + 1);
                assert(after == before.push(x));
                assert forall|k: usize| after.contains(k) <==> (before.contains(k) || k == x) by {
                    if after.contains(k) {
                        let j = choose|j: int| 0 <= j < after.len() && after[j] == k;
                        if j < before.len() {
                            assert(before[j] == k);
                        }
                    }
                    if before.contains(k) {
                        let j = choose|j: int| 0 <= j < before.len() && before[j] == k;
                        assert(after[j] == k);
                    }
                    if k == x {
                        assert(after[i as int] == k);
                    }
                }
            }
            self.spans.set(x, span);
            i += 1;
        }
        proof {
            assert(self.assignment_spans@.take(n as int) == self.assignment_spans@);
            assert(self@.spans =~= old(self)@.patch_assignment_spans(ops_length, span).spans);
            assert(self@.assignment_spans == self.assignment_spans@);
            assert(self@.code.len() == self.code@.len());
            inv_facts(old(self)@);
            assert(self@.strings == old(self)@.strings);
            side_tables_keep(old(self)@, self@);
        }
    }

    /// Marks the last instruction.
    pub fn mark_assignment_span(&mut self)
        requires
            old(self).wf(),
            old(self)@.code.len() > 0,
        ensures
            final(self).wf(),
            final(self)@ == old(self)@.mark_assignment_span(),
    {
        proof {
            marks_exist(self@);
        }
        let last = self.code.len() - 1;
        self.assignment_spans.push(last);
        proof {
            assert(self@.assignment_spans == old(self)@.assignment_spans.push(last));
            assert(self@.code.len() == self.code@.len());
            assert forall|i: int| 0 <= i < self@.assignment_spans.len() implies (
            #[trigger] self@.assignment_spans[i]) < self@.code.len() by {
                if i < old(self)@.assignment_spans.len() {
                    assert(old(self)@.assignment_spans[i] < old(self)@.code.len());
                }
            }
            inv_facts(old(self)@);
            assert(self@.strings == old(self)@.strings);
            side_tables_keep(old(self)@, self@);
        }
    }

    /// Forgets the marks.
    pub fn clear_assignment_spans(&mut self)
        requires
            old(self).wf(),
        ensures
            final(self).wf(),
            final(self)@ == old(self)@.clear_assignment_spans(),
    {
        self.assignment_spans.clear();
        proof {
            assert(self@.assignment_spans == self.assignment_spans@);
            inv_facts(old(self)@);
            assert(self@.strings == old(self)@.strings);
            side_tables_keep(old(self)@, self@);
        }
    }
}

} // verus!
