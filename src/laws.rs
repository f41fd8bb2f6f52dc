//! Properties of emission that hold for every program.
use vstd::prelude::*;
use crate::ir::{
    instruction_op, instruction_ops, program, qubit_allocations, qubit_names, register_ops,
    release_ops, resolve, failed_at, EmitError, IrOp, RESULT_SLOT_SIZE,
};
use crate::model::{InstructionView, ModelView};

verus! {

/// The operations of a program that emits: the register part comes right
/// after the qubit allocations.
pub proof fn lemma_program_layout(m: ModelView)
    requires
        program(m) is Ok,
    ensures
        ({
            let ops = program(m)->Ok_0;
            let nq = m.qubits.len();
            let nr = register_ops(m.registers).len();
            &&& ops.subrange(0, nq as int) == qubit_allocations(nq)
            &&& ops.subrange(nq as int, (nq + nr) as int) == register_ops(m.registers)
        }),
{
    let names = qubit_names(m.qubits);
    let body = instruction_ops(names, m.registers, m.instructions)->Ok_0;
    let ops = program(m)->Ok_0;
    let nq = m.qubits.len();
    let nr = register_ops(m.registers).len();
    assert(ops.subrange(0, nq as int) =~= qubit_allocations(nq));
    assert(ops.subrange(nq as int, (nq + nr) as int) =~= register_ops(m.registers));
}

/// A program without classical registers allocates one zero-length
/// `results` array and nothing else for results.
pub proof fn lemma_no_registers_empty_results(m: ModelView)
    requires
        m.registers.len() == 0,
        program(m) is Ok,
    ensures
        register_ops(m.registers) == seq![IrOp::AllocateEmptyResults],
        program(m)->Ok_0[m.qubits.len() as int] == IrOp::AllocateEmptyResults,
{
    lemma_program_layout(m);
    let ops = program(m)->Ok_0;
    let nq = m.qubits.len() as int;
    assert(ops.subrange(nq, nq + 1)[0] == ops[nq]);
}

/// With N classical registers, each register gets its own array first, in
/// declaration order; then `results` with N slots of width 8; then slot i is
/// set to the array of register i.
pub proof fn lemma_registers_wrapped_in_order(registers: Seq<(Seq<char>, u64)>)
    requires
        registers.len() > 0,
    ensures
        ({
            let ops = register_ops(registers);
            let n = registers.len() as int;
            &&& ops.len() == 1 + 2 * n
            &&& forall|i: int| 0 <= i < n ==> ops[i] == (IrOp::AllocateRegister {
                register: i as usize,
                size: registers[i].1,
            })
            &&& ops[n] == IrOp::AllocateResults { element_size: RESULT_SLOT_SIZE, count: n as usize }
            &&& forall|i: int| n + 1 <= i < 1 + 2 * n ==> ops[i] == (IrOp::SetElement {
                index: (i - 1 - n) as usize,
                register: (i - 1 - n) as usize,
            })
        }),
{
}

/// Every allocated qubit is released exactly once, whatever the names of
/// the qubits: the releases follow the body, one per qubit, in declaration
/// order.
pub proof fn lemma_release_every_qubit(m: ModelView)
    requires
        program(m) is Ok,
        m.qubits.len() <= usize::MAX,
    ensures
        ({
            let ops = program(m)->Ok_0;
            let n = m.qubits.len() as int;
            let start = ops.len() - 1 - n;
            &&& ops.subrange(start, ops.len() - 1) == release_ops(n as nat)
            &&& forall|i: int| start <= i < ops.len() - 1 ==> ops[i] == (IrOp::ReleaseQubit { qubit: (i - start) as usize })
            &&& forall|i: int, j: int|
                start <= i < j < ops.len() - 1 ==> ops[i] != ops[j]
            &&& forall|i: int| 0 <= i < start ==> !(ops[i] is ReleaseQubit)
            &&& ops.last() == IrOp::ReturnResults
        }),
{
    let names = qubit_names(m.qubits);
    let body = instruction_ops(names, m.registers, m.instructions)->Ok_0;
    let ops = program(m)->Ok_0;
    let n = m.qubits.len() as int;
    let start = ops.len() - 1 - n;
    let head = qubit_allocations(names.len()) + register_ops(m.registers) + body;
    assert(ops == head + release_ops(n as nat) + seq![IrOp::ReturnResults]);
    assert(head.len() == start);
    assert(ops.subrange(start, ops.len() - 1) =~= release_ops(n as nat));
    assert forall|i: int| start <= i < ops.len() - 1 implies ops[i] == (IrOp::ReleaseQubit { qubit: (i - start) as usize }) by {
        assert(ops[i] == release_ops(n as nat)[i - start]);
    }
    assert forall|i: int, j: int| start <= i < j < ops.len() - 1 implies ops[i] != ops[j] by {
        assert(ops[i] == release_ops(n as nat)[i - start]);
        assert(ops[j] == release_ops(n as nat)[j - start]);
    }
    lemma_instruction_order(names, m.registers, m.instructions);
    assert forall|i: int| 0 <= i < start implies !(ops[i] is ReleaseQubit) by {
        assert(ops[i] == head[i]);
        let a = qubit_allocations(names.len());
        let r = register_ops(m.registers);
        if i < a.len() {
        } else if i < a.len() + r.len() {
            assert(head[i] == r[i - a.len()]);
        } else {
            let x = i - a.len() - r.len();
            assert(head[i] == body[x]);
            assert(instruction_op(names, m.registers, m.instructions[x], x as nat) == Ok::<IrOp, EmitError>(body[x]));
        }
    }
}

/// The instructions are emitted one operation each, in model order.
pub proof fn lemma_instruction_order(
    names: Seq<Seq<char>>,
    registers: Seq<(Seq<char>, u64)>,
    insts: Seq<InstructionView>,
)
    requires
        instruction_ops(names, registers, insts) is Ok,
    ensures
        ({
            let body = instruction_ops(names, registers, insts)->Ok_0;
            &&& body.len() == insts.len()
            &&& forall|i: int| 0 <= i < insts.len() ==> instruction_op(names, registers, insts[i], i as nat) == Ok::<IrOp, EmitError>(#[trigger] body[i])
        }),
    decreases insts.len(),
{
    if insts.len() > 0 {
        lemma_instruction_order(names, registers, insts.drop_last());
    }
}

/// A program emits the same operations however often it is emitted: they
/// depend on the program's contents alone.
pub proof fn lemma_emission_deterministic(m1: ModelView, m2: ModelView)
    requires
        m1 == m2,
    ensures
        program(m1) == program(m2),
{
}

/// Where two qubits share an indexed name, the name resolves to the one
/// declared last; a name that no qubit has does not resolve.
pub proof fn lemma_later_declaration_wins(names: Seq<Seq<char>>, s: Seq<char>)
    ensures
        resolve(names, s) is Some ==> ({
            let k = resolve(names, s)->Some_0;
            &&& k < names.len()
            &&& names[k as int] == s
            &&& forall|j: int| k < j < names.len() ==> names[j] != s
        }),
        resolve(names, s) is None ==> forall|j: int| 0 <= j < names.len() ==> names[j] != s,
    decreases names.len(),
{
    if names.len() > 0 {
        let prev = names.drop_last();
        lemma_later_declaration_wins(prev, s);
        assert(forall|j: int| 0 <= j < prev.len() ==> prev[j] == names[j]);
    }
}

/// Emission fails at the first instruction that names an undeclared qubit
/// or result bit: every instruction before it resolves, and it does not.
pub proof fn lemma_first_unresolved_aborts(
    names: Seq<Seq<char>>,
    registers: Seq<(Seq<char>, u64)>,
    insts: Seq<InstructionView>,
)
    requires
        insts.len() <= usize::MAX,
        instruction_ops(names, registers, insts) is Err,
    ensures
        ({
            let e = instruction_ops(names, registers, insts)->Err_0;
            let k = failed_at(e) as int;
            &&& k < insts.len()
            &&& instruction_ops(names, registers, insts.take(k)) is Ok
            &&& instruction_op(names, registers, insts[k], k as nat) == Err::<IrOp, EmitError>(e)
        }),
    decreases insts.len(),
{
    let prev = insts.drop_last();
    let e = instruction_ops(names, registers, insts)->Err_0;
    if instruction_ops(names, registers, prev) is Err {
        lemma_first_unresolved_aborts(names, registers, prev);
        let k = failed_at(e) as int;
        assert(prev.take(k) =~= insts.take(k));
        assert(prev[k] == insts[k]);
    } else {
        let k = insts.len() - 1;
        assert(insts.take(k) =~= prev);
    }
}

} // verus!
