//! Carrying out an emission with LLVM: each planned operation becomes calls
//! appended at the builder's cursor.
use vstd::prelude::*;
use inkwell::builder::Builder;
use inkwell::module::Module;
use inkwell::types::{BasicType, IntType};
use inkwell::values::{BasicMetadataValueEnum, BasicValueEnum, FunctionValue, PointerValue};
use inkwell::AddressSpace;
use crate::emit::Emission;
use crate::ir::{IrOp, RESULT_SLOT_SIZE};
use crate::model::{ControlledGate, Gate, SemanticModel};

verus! {

#[verifier::external_type_specification]
#[verifier::external_body]
pub struct ExBuilder<'ctx>(Builder<'ctx>);

#[verifier::external_type_specification]
#[verifier::external_body]
pub struct ExModule<'ctx>(Module<'ctx>);

#[verifier::external_type_specification]
#[verifier::external_body]
pub struct ExIntType<'ctx>(IntType<'ctx>);

#[verifier::external_type_specification]
#[verifier::external_body]
pub struct ExFunctionValue<'ctx>(FunctionValue<'ctx>);

#[verifier::external_type_specification]
#[verifier::external_body]
pub struct ExBasicValueEnum<'ctx>(BasicValueEnum<'ctx>);

#[verifier::external_type_specification]
#[verifier::external_body]
pub struct ExPointerValue<'ctx>(PointerValue<'ctx>);

/// What LLVM prints for a function's type, e.g. `void (%Qubit*)`.
pub uninterp spec fn function_type_text(f: FunctionValue<'_>) -> Seq<char>;

/// Relies on inkwell's `FunctionType::print_to_string` (of the function's
/// `get_type`): the text of the function's type, fixed for the function.
#[verifier::external_body]
fn type_text<'ctx>(f: FunctionValue<'ctx>) -> (r: String)
    ensures
        r@ == function_type_text(f),
{
    f.get_type().print_to_string().to_string()
}

/// A printed function type whose return type is `void` or a pointer: the
/// text before its first space, which a `(` follows, is `void` or ends in `*`.
pub open spec fn plain_return_at(t: Seq<char>, i: int) -> bool {
    &&& 0 < i && i + 1 < t.len()
    &&& t[i] == ' ' && t[i + 1] == '('
    &&& forall|j: int| 0 <= j < i ==> t[j] != ' '
    &&& (t[i - 1] == '*' || (i == 4 && t[0] == 'v' && t[1] == 'o' && t[2] == 'i' && t[3] == 'd'))
}

pub open spec fn plain_return(t: Seq<char>) -> bool {
    exists|i: int| plain_return_at(t, i)
}

/// Whether the function returns nothing or a pointer, judged by its printed
/// type.
pub fn has_plain_return<'ctx>(f: FunctionValue<'ctx>) -> (r: bool)
    ensures
        r == plain_return(function_type_text(f)),
{
    let text = type_text(f);
    let t = text.as_str();
    let ghost tv = t@;
    let n = t.unicode_len();
    let mut i: usize = 0;
    while i < n && t.get_char(i) != ' '
        invariant
            n == tv.len(),
            tv == t@,
            i <= n,
            forall|j: int| 0 <= j < i ==> tv[j] != ' ',
        decreases n - i,
    {
        i = i + 1;
    }
    if i == 0 || i >= n - 1 || t.get_char(i + 1) != '(' {
        proof {
            assert forall|k: int| !plain_return_at(tv, k) by {
                if plain_return_at(tv, k) {
                    if k < i {
                    } else if k > i {
                        assert(tv[i as int] != ' ');
                    }
                }
            }
        }
        return false;
    }
    let star = t.get_char(i - 1) == '*';
    let void = i == 4 && t.get_char(0) == 'v' && t.get_char(1) == 'o' && t.get_char(2) == 'i'
        && t.get_char(3) == 'd';
    proof {
        if star || void {
            assert(plain_return_at(tv, i as int));
        } else {
            assert forall|k: int| !plain_return_at(tv, k) by {
                if plain_return_at(tv, k) {
                    if k < i {
                    } else if k > i {
                        assert(tv[i as int] != ' ');
                    }
                }
            }
        }
    }
    star || void
}

/// The lookups made so far: each name asked for and what the module gave.
pub struct Lookups<'ctx> {
    log: Ghost<Seq<(Seq<char>, Option<FunctionValue<'ctx>>)>>,
}

impl<'ctx> Lookups<'ctx> {
    pub fn new() -> (r: Lookups<'ctx>)
        ensures
            r.log() == Seq::<(Seq<char>, Option<FunctionValue<'ctx>>)>::empty(),
    {
        Lookups { log: Ghost(Seq::empty()) }
    }

    pub closed spec fn log(&self) -> Seq<(Seq<char>, Option<FunctionValue<'ctx>>)> {
        self.log@
    }

    /// Relies on inkwell's `Module::get_function`: the function of that name
    /// that the module declares, if any.
    #[verifier::external_body]
    fn get_function(&mut self, module: &Module<'ctx>, name: &str) -> (r: Option<FunctionValue<'ctx>>)
        ensures
            final(self).log() == old(self).log().push((name@, r)),
    {
        module.get_function(name)
    }
}

/// Why a module cannot be completed.
#[derive(Debug)]
pub enum LowerError {
    /// The module does not declare a runtime or intrinsic function.
    MissingDeclaration { name: &'static str },
    /// The declaration returns something other than nothing or a pointer.
    UnsupportedSignature { name: &'static str },
    /// The operation at this position needs a value that LLVM did not give.
    MissingValue { op: usize },
}

/// Nothing found is a missing declaration; a function found is kept where it
/// returns nothing or a pointer.
pub open spec fn resolution<'ctx>(found: Option<FunctionValue<'ctx>>, name: &'static str) -> Result<FunctionValue<'ctx>, LowerError> {
    match found {
        None => Err(LowerError::MissingDeclaration { name }),
        Some(f) => if plain_return(function_type_text(f)) {
            Ok(f)
        } else {
            Err(LowerError::UnsupportedSignature { name })
        },
    }
}

/// What a lookup of `name` resolves to: the function found, where it
/// returns nothing or a pointer.
pub fn resolved<'ctx>(found: Option<FunctionValue<'ctx>>, name: &'static str) -> (r: Result<FunctionValue<'ctx>, LowerError>)
    ensures
        r == resolution(found, name),
{
    match found {
        None => Err(LowerError::MissingDeclaration { name }),
        Some(f) => if has_plain_return(f) {
            Ok(f)
        } else {
            Err(LowerError::UnsupportedSignature { name })
        },
    }
}

/// Looks `name` up in the module and resolves it.
pub fn declared<'ctx>(lookups: &mut Lookups<'ctx>, module: &Module<'ctx>, name: &'static str) -> (r: Result<FunctionValue<'ctx>, LowerError>)
    ensures
        final(lookups).log() == old(lookups).log().push((name@, final(lookups).log().last().1)),
        r == resolution(final(lookups).log().last().1, name),
{
    let found = lookups.get_function(module, name);
    resolved(found, name)
}

/// The declaration that a lookup error names.
pub open spec fn error_name(e: LowerError) -> &'static str {
    match e {
        LowerError::MissingDeclaration { name } => name,
        LowerError::UnsupportedSignature { name } => name,
        LowerError::MissingValue { .. } => "",
    }
}

/// The names of the runtime functions that emitted code calls.
pub open spec fn runtime_declaration(name: Seq<char>) -> bool {
    ||| name == "__quantum__rt__qubit_allocate"@
    ||| name == "__quantum__rt__qubit_release"@
    ||| name == "__quantum__rt__array_create_1d"@
    ||| name == "__quantum__rt__array_get_element_ptr_1d"@
}

/// The names of the intrinsics that emitted code calls.
pub open spec fn intrinsic_declaration(name: Seq<char>) -> bool {
    ||| name == "__quantum__qis__h__body"@
    ||| name == "__quantum__qis__x__body"@
    ||| name == "__quantum__qis__y__body"@
    ||| name == "__quantum__qis__z__body"@
    ||| name == "__quantum__qis__s__body"@
    ||| name == "__quantum__qis__s__adj"@
    ||| name == "__quantum__qis__t__body"@
    ||| name == "__quantum__qis__t__adj"@
    ||| name == "__quantum__qis__reset__body"@
    ||| name == "__quantum__qis__cnot__body"@
    ||| name == "__quantum__qis__cz__body"@
    ||| name == "__quantum__qis__m__body"@
}

/// The runtime's qubit and array functions.
pub struct RuntimeLibrary<'ctx> {
    pub qubit_allocate: FunctionValue<'ctx>,
    pub qubit_release: FunctionValue<'ctx>,
    pub array_create_1d: FunctionValue<'ctx>,
    pub array_get_element_ptr_1d: FunctionValue<'ctx>,
}

impl<'ctx> RuntimeLibrary<'ctx> {
    /// Every function returns nothing or a pointer.
    pub open spec fn wf(&self) -> bool {
        plain_return(function_type_text(self.qubit_allocate)) && plain_return(function_type_text(self.qubit_release)) && plain_return(function_type_text(self.array_create_1d)) && plain_return(function_type_text(self.array_get_element_ptr_1d))
    }

    /// The lookups that resolved each field, in field order.
    pub open spec fn lookups(&self) -> Seq<(Seq<char>, Option<FunctionValue<'ctx>>)> {
        seq![
                ("__quantum__rt__qubit_allocate"@, Some(self.qubit_allocate)),
                ("__quantum__rt__qubit_release"@, Some(self.qubit_release)),
                ("__quantum__rt__array_create_1d"@, Some(self.array_create_1d)),
                ("__quantum__rt__array_get_element_ptr_1d"@, Some(self.array_get_element_ptr_1d))
        ]
    }

    /// Looks up the four runtime functions by name, in field order; fails at
    /// the first that is missing or returns something other than nothing or a
    /// pointer.
    pub fn new(lookups: &mut Lookups<'ctx>, module: &Module<'ctx>) -> (r: Result<RuntimeLibrary<'ctx>, LowerError>)
        ensures
            match r {
                Ok(v) => v.wf() && final(lookups).log() == old(lookups).log() + v.lookups(),
                Err(e) => final(lookups).log().len() > old(lookups).log().len()
                    && final(lookups).log().last().0 == error_name(e)@
                    && runtime_declaration(error_name(e)@)
                    && resolution(final(lookups).log().last().1, error_name(e)) == Err::<FunctionValue<'ctx>, LowerError>(e),
            },
    {
        let ghost start = lookups.log();
        let qubit_allocate = declared(lookups, module, "__quantum__rt__qubit_allocate")?;
        let qubit_release = declared(lookups, module, "__quantum__rt__qubit_release")?;
        let array_create_1d = declared(lookups, module, "__quantum__rt__array_create_1d")?;
        let array_get_element_ptr_1d = declared(lookups, module, "__quantum__rt__array_get_element_ptr_1d")?;
        let r = RuntimeLibrary { qubit_allocate, qubit_release, array_create_1d, array_get_element_ptr_1d };
        assert(lookups.log() =~= start + r.lookups());
        Ok(r)
    }
}

/// One intrinsic per gate, reset and measurement.
pub struct Intrinsics<'ctx> {
    pub h: FunctionValue<'ctx>,
    pub x: FunctionValue<'ctx>,
    pub y: FunctionValue<'ctx>,
    pub z: FunctionValue<'ctx>,
    pub s: FunctionValue<'ctx>,
    pub s_adj: FunctionValue<'ctx>,
    pub t: FunctionValue<'ctx>,
    pub t_adj: FunctionValue<'ctx>,
    pub reset: FunctionValue<'ctx>,
    pub cnot: FunctionValue<'ctx>,
    pub cz: FunctionValue<'ctx>,
    pub m: FunctionValue<'ctx>,
}

impl<'ctx> Intrinsics<'ctx> {
    pub open spec fn single_spec(&self, gate: Gate) -> FunctionValue<'ctx> {
        match gate {
            Gate::H => self.h,
            Gate::Reset => self.reset,
            Gate::S => self.s,
            Gate::Sdg => self.s_adj,
            Gate::T => self.t,
            Gate::Tdg => self.t_adj,
            Gate::X => self.x,
            Gate::Y => self.y,
            Gate::Z => self.z,
        }
    }

    pub open spec fn controlled_spec(&self, kind: ControlledGate) -> FunctionValue<'ctx> {
        match kind {
            ControlledGate::Cx => self.cnot,
            ControlledGate::Cz => self.cz,
        }
    }

    /// Every function returns nothing or a pointer.
    pub open spec fn wf(&self) -> bool {
        plain_return(function_type_text(self.h)) && plain_return(function_type_text(self.x)) && plain_return(function_type_text(self.y)) && plain_return(function_type_text(self.z)) && plain_return(function_type_text(self.s)) && plain_return(function_type_text(self.s_adj)) && plain_return(function_type_text(self.t)) && plain_return(function_type_text(self.t_adj)) && plain_return(function_type_text(self.reset)) && plain_return(function_type_text(self.cnot)) && plain_return(function_type_text(self.cz)) && plain_return(function_type_text(self.m))
    }

    /// The lookups that resolved each field, in field order.
    pub open spec fn lookups(&self) -> Seq<(Seq<char>, Option<FunctionValue<'ctx>>)> {
        seq![
                ("__quantum__qis__h__body"@, Some(self.h)),
                ("__quantum__qis__x__body"@, Some(self.x)),
                ("__quantum__qis__y__body"@, Some(self.y)),
                ("__quantum__qis__z__body"@, Some(self.z)),
                ("__quantum__qis__s__body"@, Some(self.s)),
                ("__quantum__qis__s__adj"@, Some(self.s_adj)),
                ("__quantum__qis__t__body"@, Some(self.t)),
                ("__quantum__qis__t__adj"@, Some(self.t_adj)),
                ("__quantum__qis__reset__body"@, Some(self.reset)),
                ("__quantum__qis__cnot__body"@, Some(self.cnot)),
                ("__quantum__qis__cz__body"@, Some(self.cz)),
                ("__quantum__qis__m__body"@, Some(self.m))
        ]
    }

    /// Looks up the twelve intrinsics by name, in field order; fails at the
    /// first that is missing or returns something other than nothing or a
    /// pointer.
    pub fn new(lookups: &mut Lookups<'ctx>, module: &Module<'ctx>) -> (r: Result<Intrinsics<'ctx>, LowerError>)
        ensures
            match r {
                Ok(v) => v.wf() && final(lookups).log() == old(lookups).log() + v.lookups(),
                Err(e) => final(lookups).log().len() > old(lookups).log().len()
                    && final(lookups).log().last().0 == error_name(e)@
                    && intrinsic_declaration(error_name(e)@)
                    && resolution(final(lookups).log().last().1, error_name(e)) == Err::<FunctionValue<'ctx>, LowerError>(e),
            },
    {
        let ghost start = lookups.log();
        let h = declared(lookups, module, "__quantum__qis__h__body")?;
        let x = declared(lookups, module, "__quantum__qis__x__body")?;
        let y = declared(lookups, module, "__quantum__qis__y__body")?;
        let z = declared(lookups, module, "__quantum__qis__z__body")?;
        let s = declared(lookups, module, "__quantum__qis__s__body")?;
        let s_adj = declared(lookups, module, "__quantum__qis__s__adj")?;
        let t = declared(lookups, module, "__quantum__qis__t__body")?;
        let t_adj = declared(lookups, module, "__quantum__qis__t__adj")?;
        let reset = declared(lookups, module, "__quantum__qis__reset__body")?;
        let cnot = declared(lookups, module, "__quantum__qis__cnot__body")?;
        let cz = declared(lookups, module, "__quantum__qis__cz__body")?;
        let m = declared(lookups, module, "__quantum__qis__m__body")?;
        let r = Intrinsics { h, x, y, z, s, s_adj, t, t_adj, reset, cnot, cz, m };
        assert(lookups.log() =~= start + r.lookups());
        Ok(r)
    }

    /// The intrinsic that carries out a single-qubit operation.
    pub fn single(&self, gate: Gate) -> (r: FunctionValue<'ctx>)
        ensures
            r == self.single_spec(gate),
    {
        match gate {
            Gate::H => self.h,
            Gate::Reset => self.reset,
            Gate::S => self.s,
            Gate::Sdg => self.s_adj,
            Gate::T => self.t,
            Gate::Tdg => self.t_adj,
            Gate::X => self.x,
            Gate::Y => self.y,
            Gate::Z => self.z,
        }
    }

    /// The intrinsic that carries out a controlled operation.
    pub fn controlled(&self, kind: ControlledGate) -> (r: FunctionValue<'ctx>)
        ensures
            r == self.controlled_spec(kind),
    {
        match kind {
            ControlledGate::Cx => self.cnot,
            ControlledGate::Cz => self.cz,
        }
    }
}

/// What the builder has been asked to append, in order, with the integer
/// constants made for the calls' arguments.
pub ghost enum Emitted<'ctx> {
    /// An integer constant made for the arguments of a later call.
    Constant { value: u64, result: BasicValueEnum<'ctx> },
    Call { function: FunctionValue<'ctx>, args: Seq<BasicValueEnum<'ctx>>, result: Option<BasicValueEnum<'ctx>> },
    Cast { slot: BasicValueEnum<'ctx>, value: BasicValueEnum<'ctx>, result: Option<PointerValue<'ctx>> },
    Store { ptr: PointerValue<'ctx>, value: BasicValueEnum<'ctx> },
    Return { value: BasicValueEnum<'ctx> },
}

/// The values that lowering has obtained so far: a handle per qubit, an
/// array per classical register, and the `results` array.
pub ghost struct Handles<'ctx> {
    pub qubits: Seq<Option<BasicValueEnum<'ctx>>>,
    pub arrays: Seq<Option<BasicValueEnum<'ctx>>>,
    pub results: Option<BasicValueEnum<'ctx>>,
}

/// A builder positioned in the entry function, with the declarations that
/// the emitted calls use, and the record of what it has appended.
pub struct Lowering<'ctx> {
    pub builder: Builder<'ctx>,
    pub i32_type: IntType<'ctx>,
    pub i64_type: IntType<'ctx>,
    pub runtime: RuntimeLibrary<'ctx>,
    pub intrinsics: Intrinsics<'ctx>,
    log: Ghost<Seq<Emitted<'ctx>>>,
}

pub open spec fn is_call<'ctx>(e: Emitted<'ctx>, function: FunctionValue<'ctx>, args: Seq<BasicValueEnum<'ctx>>) -> bool {
    e is Call && e->Call_function == function && e->Call_args == args
}

/// An array creation: the constants `element_size` and `count`, then the
/// runtime's array creation on them.
pub open spec fn is_array_creation<'ctx>(
    rt: RuntimeLibrary<'ctx>,
    entries: Seq<Emitted<'ctx>>,
    element_size: u64,
    count: u64,
) -> bool {
    &&& entries.len() == 3
    &&& entries[0] is Constant && entries[0]->Constant_value == element_size
    &&& entries[1] is Constant && entries[1]->Constant_value == count
    &&& is_call(entries[2], rt.array_create_1d, seq![entries[0]->Constant_result, entries[1]->Constant_result])
}

/// An element store: the constant `index`, the runtime's element pointer of
/// that slot of `array`, its cast to a pointer to `value`'s type, then the
/// store of `value`.
pub open spec fn is_element_store<'ctx>(
    rt: RuntimeLibrary<'ctx>,
    entries: Seq<Emitted<'ctx>>,
    array: BasicValueEnum<'ctx>,
    index: u64,
    value: BasicValueEnum<'ctx>,
) -> bool {
    &&& entries.len() == 4
    &&& entries[0] is Constant && entries[0]->Constant_value == index
    &&& is_call(entries[1], rt.array_get_element_ptr_1d, seq![array, entries[0]->Constant_result])
    &&& entries[1]->Call_result is Some
    &&& entries[2] == (Emitted::Cast { slot: entries[1]->Call_result->Some_0, value, result: entries[2]->Cast_result })
    &&& entries[2]->Cast_result is Some
    &&& entries[3] == (Emitted::Store { ptr: entries[2]->Cast_result->Some_0, value })
}

/// How many entries one operation appends.
pub open spec fn entry_count(op: IrOp) -> nat {
    match op {
        IrOp::AllocateEmptyResults => 3,
        IrOp::AllocateResults { .. } => 3,
        IrOp::AllocateRegister { .. } => 3,
        IrOp::SetElement { .. } => 4,
        IrOp::Measure { .. } => 5,
        _ => 1,
    }
}

/// The handles after `op` when its entries are `entries`; nothing where the
/// entries are not what `op` calls for.
pub open spec fn step<'ctx>(
    rt: RuntimeLibrary<'ctx>,
    intr: Intrinsics<'ctx>,
    h: Handles<'ctx>,
    op: IrOp,
    entries: Seq<Emitted<'ctx>>,
) -> Option<Handles<'ctx>> {
    let e = entries[0];
    if entries.len() != entry_count(op) {
        None
    } else {
        match op {
            IrOp::AllocateQubit { qubit } => if qubit < h.qubits.len() && is_call(e, rt.qubit_allocate, seq![]) {
                Some(Handles { qubits: h.qubits.update(qubit as int, e->Call_result), ..h })
            } else {
                None
            },
            IrOp::AllocateEmptyResults => if is_array_creation(rt, entries, RESULT_SLOT_SIZE, 0) {
                Some(Handles { results: entries[2]->Call_result, ..h })
            } else {
                None
            },
            IrOp::AllocateResults { element_size, count } => if is_array_creation(rt, entries, element_size, count as u64) {
                Some(Handles { results: entries[2]->Call_result, ..h })
            } else {
                None
            },
            IrOp::AllocateRegister { register, size } => if register < h.arrays.len()
                && is_array_creation(rt, entries, RESULT_SLOT_SIZE, size) {
                Some(Handles { arrays: h.arrays.update(register as int, entries[2]->Call_result), ..h })
            } else {
                None
            },
            IrOp::SetElement { index, register } => if register < h.arrays.len() && h.results is Some
                && h.arrays[register as int] is Some && is_element_store(
                rt,
                entries,
                h.results->Some_0,
                index as u64,
                h.arrays[register as int]->Some_0,
            ) {
                Some(h)
            } else {
                None
            },
            IrOp::Single { gate, qubit } => if qubit < h.qubits.len() && h.qubits[qubit as int] is Some
                && is_call(e, intr.single_spec(gate), seq![h.qubits[qubit as int]->Some_0]) {
                Some(h)
            } else {
                None
            },
            IrOp::Controlled { kind, control, target } => if control < h.qubits.len() && target
                < h.qubits.len() && h.qubits[control as int] is Some && h.qubits[target as int] is Some
                && is_call(
                e,
                intr.controlled_spec(kind),
                seq![h.qubits[control as int]->Some_0, h.qubits[target as int]->Some_0],
            ) {
                Some(h)
            } else {
                None
            },
            IrOp::Measure { qubit, register, bit } => if qubit < h.qubits.len() && register
                < h.arrays.len() && h.qubits[qubit as int] is Some && h.arrays[register as int] is Some
                && is_call(e, intr.m, seq![h.qubits[qubit as int]->Some_0]) && e->Call_result is Some
                && is_element_store(rt, entries.skip(1), h.arrays[register as int]->Some_0, bit, e->Call_result->Some_0) {
                Some(h)
            } else {
                None
            },
            IrOp::ReleaseQubit { qubit } => if qubit < h.qubits.len() && h.qubits[qubit as int] is Some
                && is_call(e, rt.qubit_release, seq![h.qubits[qubit as int]->Some_0]) {
                Some(h)
            } else {
                None
            },
            IrOp::ReturnResults => if h.results is Some && e == (Emitted::Return { value: h.results->Some_0 }) {
                Some(h)
            } else {
                None
            },
        }
    }
}

/// The handles after lowering `ops` from `h` with the entries `log`, where
/// each operation's entries are what it calls for, one after the other.
pub open spec fn run<'ctx>(
    rt: RuntimeLibrary<'ctx>,
    intr: Intrinsics<'ctx>,
    h: Handles<'ctx>,
    ops: Seq<IrOp>,
    log: Seq<Emitted<'ctx>>,
) -> Option<Handles<'ctx>>
    decreases ops.len(),
{
    if ops.len() == 0 {
        if log.len() == 0 {
            Some(h)
        } else {
            None
        }
    } else {
        let c = entry_count(ops.last());
        if log.len() < c {
            None
        } else {
            match run(rt, intr, h, ops.drop_last(), log.take(log.len() - c)) {
                None => None,
                Some(h2) => step(rt, intr, h2, ops.last(), log.skip(log.len() - c)),
            }
        }
    }
}

/// The value stored at position `k`, if there is one.
fn value_at<'ctx>(values: &Vec<Option<BasicValueEnum<'ctx>>>, k: usize) -> (r: Option<BasicValueEnum<'ctx>>)
    ensures
        k >= values@.len() ==> r is None,
        k < values@.len() ==> r == values@[k as int],
{
    if k < values.len() {
        values[k]
    } else {
        None
    }
}

fn nones<'ctx>(n: usize) -> (r: Vec<Option<BasicValueEnum<'ctx>>>)
    ensures
        r@ == Seq::new(n as nat, |i: int| None::<BasicValueEnum<'ctx>>),
{
    let mut v: Vec<Option<BasicValueEnum<'ctx>>> = Vec::new();
    while v.len() < n
        invariant
            v@.len() <= n,
            v@ == Seq::new(v@.len(), |i: int| None::<BasicValueEnum<'ctx>>),
        decreases n - v@.len(),
    {
        v.push(None);
        assert(v@ =~= Seq::new(v@.len(), |i: int| None::<BasicValueEnum<'ctx>>));
    }
    v
}

impl<'ctx> Lowering<'ctx> {
    /// What has been appended so far, in order.
    pub closed spec fn emitted(&self) -> Seq<Emitted<'ctx>> {
        self.log@
    }

    pub closed spec fn runtime_of(&self) -> RuntimeLibrary<'ctx> {
        self.runtime
    }

    pub closed spec fn intrinsics_of(&self) -> Intrinsics<'ctx> {
        self.intrinsics
    }

    /// The declarations that calls are appended to return nothing or a
    /// pointer.
    pub closed spec fn wf(&self) -> bool {
        self.runtime.wf() && self.intrinsics.wf()
    }

    /// A lowering with nothing appended yet.
    pub fn new(
        builder: Builder<'ctx>,
        i32_type: IntType<'ctx>,
        i64_type: IntType<'ctx>,
        runtime: RuntimeLibrary<'ctx>,
        intrinsics: Intrinsics<'ctx>,
    ) -> (r: Lowering<'ctx>)
        requires
            runtime.wf(),
            intrinsics.wf(),
        ensures
            r.wf(),
            r.runtime_of() == runtime,
            r.intrinsics_of() == intrinsics,
            r.emitted() == Seq::<Emitted<'ctx>>::empty(),
    {
        Lowering { builder, i32_type, i64_type, runtime, intrinsics, log: Ghost(Seq::empty()) }
    }

    pub closed spec fn same_setup(&self, other: &Lowering<'ctx>) -> bool {
        self.runtime == other.runtime && self.intrinsics == other.intrinsics && self.i32_type
            == other.i32_type && self.i64_type == other.i64_type
    }

    /// Relies on inkwell's `Builder::build_call`: appends a call at the cursor
    /// and hands back the value of the call, if the function returns one.
    #[verifier::external_body]
    fn build_call(&mut self, function: FunctionValue<'ctx>, args: &[BasicValueEnum<'ctx>], name: &str) -> (r: Option<BasicValueEnum<'ctx>>)
        requires
            plain_return(function_type_text(function)),
        ensures
            final(self).same_setup(old(self)),
            final(self).emitted() == old(self).emitted().push(Emitted::Call { function, args: args@, result: r }),
    {
        let args: Vec<BasicMetadataValueEnum<'ctx>> = args.iter().map(|a| (*a).into()).collect();
        self.builder.build_call(function, &args, name).try_as_basic_value().left()
    }

    /// Relies on inkwell's `Builder::build_pointer_cast`: appends a cast of
    /// `slot` to a pointer to `value`'s type; nothing where `slot` is no pointer.
    #[verifier::external_body]
    fn build_pointer_cast(&mut self, slot: BasicValueEnum<'ctx>, value: BasicValueEnum<'ctx>) -> (r: Option<PointerValue<'ctx>>)
        ensures
            final(self).same_setup(old(self)),
            final(self).emitted() == old(self).emitted().push(Emitted::Cast { slot, value, result: r }),
    {
        match slot {
            BasicValueEnum::PointerValue(p) => Some(
                self.builder.build_pointer_cast(p, value.get_type().ptr_type(AddressSpace::default()), ""),
            ),
            _ => None,
        }
    }

    /// Relies on inkwell's `Builder::build_store`: appends a store of `value`
    /// through `ptr`.
    #[verifier::external_body]
    fn build_store(&mut self, ptr: PointerValue<'ctx>, value: BasicValueEnum<'ctx>)
        requires
            old(self).emitted().len() > 0,
            old(self).emitted().last() is Cast,
            old(self).emitted().last()->Cast_value == value,
            old(self).emitted().last()->Cast_result == Some(ptr),
        ensures
            final(self).same_setup(old(self)),
            final(self).emitted() == old(self).emitted().push(Emitted::Store { ptr, value }),
    {
        self.builder.build_store(ptr, value);
    }

    /// Relies on inkwell's `Builder::build_return`: appends a return of `value`.
    #[verifier::external_body]
    fn build_return(&mut self, value: BasicValueEnum<'ctx>)
        ensures
            final(self).same_setup(old(self)),
            final(self).emitted() == old(self).emitted().push(Emitted::Return { value }),
    {
        self.builder.build_return(Some(&value));
    }

    /// Relies on inkwell's `IntType::const_int`: the constant `value` of type
    /// `ty`, without sign extension; nothing is appended to the function.
    #[verifier::external_body]
    fn const_int(&mut self, ty: IntType<'ctx>, value: u64) -> (r: BasicValueEnum<'ctx>)
        ensures
            final(self).same_setup(old(self)),
            final(self).emitted() == old(self).emitted().push(Emitted::Constant { value, result: r }),
    {
        ty.const_int(value, false).into()
    }

    /// A new array of `count` elements of `element_size` bytes.
    fn create_array(&mut self, element_size: u64, count: u64, name: &str) -> (r: Option<BasicValueEnum<'ctx>>)
        requires
            old(self).wf(),
        ensures
            final(self).same_setup(old(self)),
            final(self).emitted().len() == old(self).emitted().len() + 3,
            final(self).emitted().take(old(self).emitted().len() as int) == old(self).emitted(),
            is_array_creation(old(self).runtime, final(self).emitted().skip(old(self).emitted().len() as int), element_size, count),
            final(self).emitted().last()->Call_result == r,
    {
        let ghost start = self.emitted();
        let t32 = self.i32_type;
        let size = self.const_int(t32, element_size);
        let t64 = self.i64_type;
        let len = self.const_int(t64, count);
        let f = self.runtime.array_create_1d;
        let r = self.build_call(f, &[size, len], name);
        assert(self.emitted().take(start.len() as int) =~= start);
        let ghost entries = self.emitted().skip(start.len() as int);
        assert(entries[2]->Call_args =~= seq![entries[0]->Constant_result, entries[1]->Constant_result]);
        r
    }

    /// Stores `value` into element `index` of `array`; false where the
    /// runtime gave no element pointer or it could not be cast.
    fn store_element(&mut self, array: BasicValueEnum<'ctx>, index: u64, value: BasicValueEnum<'ctx>) -> (r: bool)
        requires
            old(self).wf(),
        ensures
            final(self).same_setup(old(self)),
            final(self).emitted().len() >= old(self).emitted().len(),
            final(self).emitted().take(old(self).emitted().len() as int) == old(self).emitted(),
            r ==> is_element_store(old(self).runtime, final(self).emitted().skip(old(self).emitted().len() as int), array, index, value),
    {
        let ghost start = self.emitted();
        let t64 = self.i64_type;
        let at = self.const_int(t64, index);
        let f = self.runtime.array_get_element_ptr_1d;
        let slot = self.build_call(f, &[array, at], "");
        match slot {
            None => {
                assert(self.emitted().take(start.len() as int) =~= start);
                false
            },
            Some(slot) => match self.build_pointer_cast(slot, value) {
                None => {
                    assert(self.emitted().take(start.len() as int) =~= start);
                    false
                },
                Some(ptr) => {
                    self.build_store(ptr, value);
                    assert(self.emitted().take(start.len() as int) =~= start);
                    let ghost entries = self.emitted().skip(start.len() as int);
                    assert(entries.len() == 4);
                    assert(entries[1]->Call_args =~= seq![array, at]);
                    true
                },
            },
        }
    }

    /// Appends the operations of `emission`, in order, at the cursor: the
    /// entries appended are, operation by operation, those that `step` calls
    /// for, starting with no handles. Allocations are named after their qubit
    /// or register, the top-level array `results`.
    pub fn lower(&mut self, model: &SemanticModel, emission: &Emission) -> (r: Result<(), LowerError>)
        requires
            old(self).wf(),
        ensures
            final(self).same_setup(old(self)),
            final(self).emitted().len() >= old(self).emitted().len(),
            final(self).emitted().take(old(self).emitted().len() as int) == old(self).emitted(),
            r is Ok ==> run(
                old(self).runtime_of(),
                old(self).intrinsics_of(),
                no_handles(emission.qubit_names@.len(), model.registers@.len()),
                emission.ops@,
                final(self).emitted().skip(old(self).emitted().len() as int),
            ) is Some,
            r matches Err(e) ==> e is MissingValue && e->op < emission.ops@.len(),
    {
        let ghost start = self.emitted();
        let ghost rt = self.runtime;
        let ghost intr = self.intrinsics;
        let ghost ops = emission.ops@;
        let ghost h0 = no_handles(emission.qubit_names@.len(), model.registers@.len());
        let mut qubits = nones(emission.qubit_names.len());
        let mut arrays = nones(model.registers.len());
        let mut results: Option<BasicValueEnum<'ctx>> = None;
        let n = emission.ops.len();
        let mut i: usize = 0;
        assert(ops.take(0) =~= Seq::<IrOp>::empty());
        assert(self.emitted().skip(start.len() as int) =~= Seq::<Emitted<'ctx>>::empty());
        assert(self.emitted().take(start.len() as int) =~= start);
        while i < n
            invariant
                n == ops.len(),
                ops == emission.ops@,
                i <= n,
                self.runtime == rt,
                self.intrinsics == intr,
                self.same_setup(old(self)),
                self.wf(),
                rt.wf(),
                intr.wf(),
                self.emitted().len() >= start.len(),
                self.emitted().take(start.len() as int) == start,
                start == old(self).emitted(),
                qubits@.len() == emission.qubit_names@.len(),
                arrays@.len() == model.registers@.len(),
                run(rt, intr, h0, ops.take(i as int), self.emitted().skip(start.len() as int))
                    == Some(Handles { qubits: qubits@, arrays: arrays@, results }),
            decreases n - i,
        {
            let ghost before = self.emitted();
            let ghost hb = Handles { qubits: qubits@, arrays: arrays@, results };
            let missing = Err(LowerError::MissingValue { op: i });
            let op = emission.ops[i];
            match op {
                IrOp::AllocateQubit { qubit } => {
                    if qubit >= qubits.len() {
                        return missing;
                    }
                    let name = emission.qubit_names[qubit].as_str();
                    let f = self.runtime.qubit_allocate;
                    let v = self.build_call(f, &[], name);
                    assert(self.emitted().last()->Call_args =~= seq![]);
                    qubits[qubit] = v;
                    assert(qubits@ =~= hb.qubits.update(qubit as int, v));
                },
                IrOp::AllocateEmptyResults => {
                    results = self.create_array(RESULT_SLOT_SIZE, 0, "results");
                },
                IrOp::AllocateResults { element_size, count } => {
                    results = self.create_array(element_size, count as u64, "results");
                },
                IrOp::AllocateRegister { register, size } => {
                    if register >= arrays.len() || register >= model.registers.len() {
                        return missing;
                    }
                    let name = model.registers[register].name.as_str();
                    let v = self.create_array(RESULT_SLOT_SIZE, size, name);
                    arrays[register] = v;
                },
                IrOp::SetElement { index, register } => match (results, value_at(&arrays, register)) {
                    (Some(top), Some(sub)) => {
                        if !self.store_element(top, index as u64, sub) {
                            proof {
                                assert(self.emitted().take(before.len() as int) == before);
                                assert(self.emitted().take(start.len() as int) =~= start);
                            }
                            return missing;
                        }
                    },
                    _ => {
                        return missing;
                    },
                },
                IrOp::Single { gate, qubit } => match value_at(&qubits, qubit) {
                    Some(q) => {
                        let f = self.intrinsics.single(gate);
                        self.build_call(f, &[q], "");
                        assert(self.emitted().last()->Call_args =~= seq![q]);
                    },
                    None => {
                        return missing;
                    },
                },
                IrOp::Controlled { kind, control, target } => match (
                    value_at(&qubits, control),
                    value_at(&qubits, target),
                ) {
                    (Some(c), Some(t)) => {
                        let f = self.intrinsics.controlled(kind);
                        self.build_call(f, &[c, t], "");
                        assert(self.emitted().last()->Call_args =~= seq![c, t]);
                    },
                    _ => {
                        return missing;
                    },
                },
                IrOp::Measure { qubit, register, bit } => match (
                    value_at(&qubits, qubit),
                    value_at(&arrays, register),
                ) {
                    (Some(q), Some(array)) => {
                        let f = self.intrinsics.m;
                        let m = self.build_call(f, &[q], "measurement");
                        assert(self.emitted().last()->Call_args =~= seq![q]);
                        match m {
                            Some(result) => {
                                assert(self.emitted().take(before.len() as int) =~= before);
                                let ghost mid = self.emitted();
                                if !self.store_element(array, bit, result) {
                                    proof {
                                        assert(self.emitted().take(mid.len() as int) == mid);
                                        assert(mid.take(before.len() as int) =~= before);
                                        assert(self.emitted().take(start.len() as int) =~= start);
                                    }
                                    return missing;
                                }
                                assert(self.emitted().skip(before.len() as int).skip(1) =~= self.emitted().skip(mid.len() as int));
                                assert(self.emitted().skip(before.len() as int)[0] == mid.last());
                            },
                            None => {
                                assert(self.emitted().take(start.len() as int) =~= start);
                                return missing;
                            },
                        }
                    },
                    _ => {
                        return missing;
                    },
                },
                IrOp::ReleaseQubit { qubit } => match value_at(&qubits, qubit) {
                    Some(q) => {
                        let f = self.runtime.qubit_release;
                        self.build_call(f, &[q], "");
                        assert(self.emitted().last()->Call_args =~= seq![q]);
                    },
                    None => {
                        return missing;
                    },
                },
                IrOp::ReturnResults => match results {
                    Some(value) => self.build_return(value),
                    None => {
                        return missing;
                    },
                },
            }
            proof {
                let seg_old = before.skip(start.len() as int);
                let seg_new = self.emitted().skip(start.len() as int);
                let c = entry_count(op);
                let entries = self.emitted().skip(before.len() as int);
                assert(self.emitted().take(before.len() as int) == before);
                assert(entries.len() == c);
                assert(ops.take(i as int + 1).drop_last() =~= ops.take(i as int));
                assert(ops.take(i as int + 1).last() == op);
                assert(seg_new.take(seg_new.len() - c) =~= seg_old);
                assert(seg_new.skip(seg_new.len() - c) =~= entries);
                assert(self.emitted().take(start.len() as int) =~= start);
                let ha = Handles { qubits: qubits@, arrays: arrays@, results };
                if c == 1 {
                    assert(entries[0] == self.emitted().last());
                }
                match op {
                    IrOp::AllocateQubit { .. } => assert(step(rt, intr, hb, op, entries) == Some(ha)),
                    IrOp::AllocateEmptyResults => assert(step(rt, intr, hb, op, entries) == Some(ha)),
                    IrOp::AllocateResults { .. } => assert(step(rt, intr, hb, op, entries) == Some(ha)),
                    IrOp::AllocateRegister { .. } => assert(step(rt, intr, hb, op, entries) == Some(ha)),
                    IrOp::SetElement { .. } => assert(step(rt, intr, hb, op, entries) == Some(ha)),
                    IrOp::Single { .. } => assert(step(rt, intr, hb, op, entries) == Some(ha)),
                    IrOp::Controlled { .. } => assert(step(rt, intr, hb, op, entries) == Some(ha)),
                    IrOp::Measure { .. } => assert(step(rt, intr, hb, op, entries) == Some(ha)),
                    IrOp::ReleaseQubit { .. } => assert(step(rt, intr, hb, op, entries) == Some(ha)),
                    IrOp::ReturnResults => assert(step(rt, intr, hb, op, entries) == Some(ha)),
                }
            }
            i = i + 1;
        }
        assert(ops.take(n as int) =~= ops);
        Ok(())
    }
}

/// No handle yet for any of `nq` qubits and `nr` registers, and no `results`.
pub open spec fn no_handles<'ctx>(nq: nat, nr: nat) -> Handles<'ctx> {
    Handles {
        qubits: Seq::new(nq, |i: int| None::<BasicValueEnum<'ctx>>),
        arrays: Seq::new(nr, |i: int| None::<BasicValueEnum<'ctx>>),
        results: None,
    }
}

} // verus!
