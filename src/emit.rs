use vstd::prelude::*;
use crate::ir::{
    bit_of, indexed_name, instruction_op, instruction_ops, program, qubit_allocations,
    qubit_names, register_ops, release_ops, resolve, resolve_bit, failed_at, EmitError, IrOp,
    RESULT_SLOT_SIZE,
};
use crate::model::{
    ClassicalRegister, ControlledGate, Gate, Instruction, QuantumRegister, SemanticModel,
};

verus! {

/// The character sequences of a list of strings.
pub open spec fn views(v: Seq<String>) -> Seq<Seq<char>> {
    v.map_values(|s: String| s@)
}

/// Relies on std's formatting of a `str` followed by a `u64` in decimal
/// (`format!("{}{}", ..)`): the string, then the digits, with no separator.
#[verifier::external_body]
fn indexed_name_of(base: &str, index: u64) -> (r: String)
    ensures
        r@ == indexed_name(base@, index as nat),
{
    format!("{}{}", base, index)
}

/// What a program emits: the indexed name of each qubit, by position, and
/// the operations of its entry function in order.
pub struct Emission {
    pub qubit_names: Vec<String>,
    pub ops: Vec<IrOp>,
}

pub struct Emitter {}

impl Emitter {
    /// The operations of the entry function of `model`, or the error of the
    /// first instruction that names an undeclared qubit or result bit.
    pub fn build(model: &SemanticModel) -> (r: Result<Emission, EmitError>)
        ensures
            match r {
                Ok(e) => program(model@) == Ok::<Seq<IrOp>, EmitError>(e.ops@)
                    && views(e.qubit_names@) == qubit_names(model@.qubits),
                Err(e) => program(model@) == Err::<Seq<IrOp>, EmitError>(e),
            },
    {
        let mut ops: Vec<IrOp> = Vec::new();
        let names = Emitter::write_qubits(model, &mut ops);
        Emitter::write_registers(model, &mut ops);
        match Emitter::write_instructions(model, &names, &mut ops) {
            Err(e) => Err(e),
            Ok(()) => {
                Emitter::free_qubits(&names, &mut ops);
                ops.push(IrOp::ReturnResults);
                proof {
                    let n = qubit_names(model@.qubits);
                    let body = instruction_ops(n, model@.registers, model@.instructions)->Ok_0;
                    assert(ops@ =~= qubit_allocations(n.len()) + register_ops(model@.registers)
                        + body + release_ops(n.len()) + seq![IrOp::ReturnResults]);
                }
                Ok(Emission { qubit_names: names, ops })
            },
        }
    }

    /// Allocates every declared qubit in declaration order and returns their
    /// indexed names, by position.
    pub fn write_qubits(model: &SemanticModel, ops: &mut Vec<IrOp>) -> (names: Vec<String>)
        ensures
            views(names@) == qubit_names(model@.qubits),
            final(ops)@ == old(ops)@ + qubit_allocations(model@.qubits.len()),
    {
        let mut names: Vec<String> = Vec::new();
        let n = model.qubits.len();
        let mut k: usize = 0;
        while k < n
            invariant
                n == model.qubits@.len(),
                k <= n,
                views(names@) == qubit_names(model@.qubits).subrange(0, k as int),
                ops@ == old(ops)@ + qubit_allocations(k as nat),
            decreases n - k,
        {
            let q: &QuantumRegister = &model.qubits[k];
            let name = indexed_name_of(q.name.as_str(), q.index);
            assert(model@.qubits[k as int] == q@);
            assert(qubit_names(model@.qubits)[k as int] == name@);
            let ghost before = views(names@);
            ops.push(IrOp::AllocateQubit { qubit: k });
            names.push(name);
            assert(views(names@) =~= before.push(name@));
            k = k + 1;
            assert(views(names@) =~= qubit_names(model@.qubits).subrange(0, k as int));
            assert(ops@ =~= old(ops)@ + qubit_allocations(k as nat));
        }
        assert(qubit_names(model@.qubits).subrange(0, n as int) =~= qubit_names(model@.qubits));
        names
    }

    /// Allocates the result arrays: a zero-length `results` where there is no
    /// classical register; else each register's array in declaration order,
    /// then `results` with one slot per register, then the slots set in order.
    pub fn write_registers(model: &SemanticModel, ops: &mut Vec<IrOp>)
        ensures
            final(ops)@ == old(ops)@ + register_ops(model@.registers),
    {
        let n = model.registers.len();
        let ghost regs = model@.registers;
        if n == 0 {
            ops.push(IrOp::AllocateEmptyResults);
            assert(ops@ =~= old(ops)@ + register_ops(regs));
            return;
        }
        let mut r: usize = 0;
        while r < n
            invariant
                n == regs.len(),
                regs == model@.registers,
                r <= n,
                ops@ == old(ops)@ + Seq::new(
                    r as nat,
                    |i: int| IrOp::AllocateRegister { register: i as usize, size: regs[i].1 },
                ),
            decreases n - r,
        {
            let reg: &ClassicalRegister = &model.registers[r];
            ops.push(IrOp::AllocateRegister { register: r, size: reg.size });
            r = r + 1;
            assert(ops@ =~= old(ops)@ + Seq::new(
                r as nat,
                |i: int| IrOp::AllocateRegister { register: i as usize, size: regs[i].1 },
            ));
        }
        ops.push(IrOp::AllocateResults { element_size: RESULT_SLOT_SIZE, count: n });
        let ghost mid = ops@;
        let mut r: usize = 0;
        while r < n
            invariant
                n == regs.len(),
                r <= n,
                ops@ == mid + Seq::new(
                    r as nat,
                    |i: int| IrOp::SetElement { index: i as usize, register: i as usize },
                ),
            decreases n - r,
        {
            ops.push(IrOp::SetElement { index: r, register: r });
            r = r + 1;
            assert(ops@ =~= mid + Seq::new(
                r as nat,
                |i: int| IrOp::SetElement { index: i as usize, register: i as usize },
            ));
        }
        assert(ops@ =~= old(ops)@ + register_ops(regs));
    }

    /// The position of the last qubit whose indexed name is `s`.
    pub fn resolve_qubit(names: &Vec<String>, s: &String) -> (r: Option<usize>)
        ensures
            r matches Some(k) ==> resolve(views(names@), s@) == Some(k as nat),
            r is None ==> resolve(views(names@), s@) is None,
    {
        let ghost all = views(names@);
        let mut i: usize = names.len();
        assert(all.subrange(0, i as int) =~= all);
        while i > 0
            invariant
                i <= names@.len(),
                all == views(names@),
                resolve(all, s@) == resolve(all.subrange(0, i as int), s@),
            decreases i,
        {
            let ghost sub = all.subrange(0, i as int);
            if names[i - 1] == *s {
                return Some(i - 1);
            }
            assert(sub.drop_last() =~= all.subrange(0, i - 1));
            i = i - 1;
        }
        None
    }

    /// The register and bit that the result name `s` addresses.
    pub fn resolve_target(registers: &Vec<ClassicalRegister>, s: &String) -> (r: Option<(usize, u64)>)
        ensures
            ({
                let regs = registers@.map_values(|c: ClassicalRegister| c@);
                &&& r matches Some(rb) ==> resolve_bit(regs, s@) == Some((rb.0 as nat, rb.1 as nat))
                &&& r is None ==> resolve_bit(regs, s@) is None
            }),
    {
        let ghost all = registers@.map_values(|c: ClassicalRegister| c@);
        let mut i: usize = registers.len();
        assert(all.subrange(0, i as int) =~= all);
        while i > 0
            invariant
                i <= registers@.len(),
                all == registers@.map_values(|c: ClassicalRegister| c@),
                resolve_bit(all, s@) == resolve_bit(all.subrange(0, i as int), s@),
            decreases i,
        {
            let ghost sub = all.subrange(0, i as int);
            let reg: &ClassicalRegister = &registers[i - 1];
            assert(sub.last() == reg@);
            if let Some(bit) = Emitter::resolve_bit_in(reg, s) {
                return Some((i - 1, bit));
            }
            assert(sub.drop_last() =~= all.subrange(0, i - 1));
            i = i - 1;
        }
        None
    }

    /// The highest bit of `reg` whose indexed name is `s`.
    fn resolve_bit_in(reg: &ClassicalRegister, s: &String) -> (r: Option<u64>)
        ensures
            r matches Some(b) ==> bit_of(reg.name@, reg.size as nat, s@) == Some(b as nat),
            r is None ==> bit_of(reg.name@, reg.size as nat, s@) is None,
    {
        let mut j: u64 = reg.size;
        while j > 0
            invariant
                j <= reg.size,
                bit_of(reg.name@, reg.size as nat, s@) == bit_of(reg.name@, j as nat, s@),
            decreases j,
        {
            let name = indexed_name_of(reg.name.as_str(), j - 1);
            if name == *s {
                return Some(j - 1);
            }
            j = j - 1;
        }
        None
    }

    /// The operation of the instruction at position `at`.
    pub fn instruction_op(
        model: &SemanticModel,
        names: &Vec<String>,
        inst: &Instruction,
        at: usize,
    ) -> (r: Result<IrOp, EmitError>)
        ensures
            r == instruction_op(views(names@), model@.registers, inst@, at as nat),
    {
        let single = |g: Gate, q: &String| -> (r: Result<IrOp, EmitError>)
            ensures
                r == instruction_op(
                    views(names@),
                    model@.registers,
                    crate::model::InstructionView::Single { gate: g, qubit: q@ },
                    at as nat,
                ),
            {
                match Emitter::resolve_qubit(names, q) {
                    Some(k) => Ok(IrOp::Single { gate: g, qubit: k }),
                    None => Err(EmitError::UnknownQubit { instruction: at }),
                }
            };
        match inst {
            Instruction::Cx(c) | Instruction::Cz(c) => {
                let kind = match inst {
                    Instruction::Cx(_) => ControlledGate::Cx,
                    _ => ControlledGate::Cz,
                };
                match (Emitter::resolve_qubit(names, &c.control), Emitter::resolve_qubit(names, &c.target)) {
                    (Some(k), Some(t)) => Ok(IrOp::Controlled { kind, control: k, target: t }),
                    _ => Err(EmitError::UnknownQubit { instruction: at }),
                }
            },
            Instruction::H(s) => single(Gate::H, &s.qubit),
            Instruction::Reset(s) => single(Gate::Reset, &s.qubit),
            Instruction::S(s) => single(Gate::S, &s.qubit),
            Instruction::Sdg(s) => single(Gate::Sdg, &s.qubit),
            Instruction::T(s) => single(Gate::T, &s.qubit),
            Instruction::Tdg(s) => single(Gate::Tdg, &s.qubit),
            Instruction::X(s) => single(Gate::X, &s.qubit),
            Instruction::Y(s) => single(Gate::Y, &s.qubit),
            Instruction::Z(s) => single(Gate::Z, &s.qubit),
            Instruction::M { qubit, target } => match Emitter::resolve_qubit(names, qubit) {
                None => Err(EmitError::UnknownQubit { instruction: at }),
                Some(k) => match Emitter::resolve_target(&model.registers, target) {
                    None => Err(EmitError::UnknownTarget { instruction: at }),
                    Some((reg, bit)) => Ok(IrOp::Measure { qubit: k, register: reg, bit }),
                },
            },
        }
    }

    /// Emits each instruction in model order; stops at the first that names
    /// an undeclared qubit or result bit, and emits nothing for it or for any
    /// later instruction.
    pub fn write_instructions(model: &SemanticModel, names: &Vec<String>, ops: &mut Vec<IrOp>) -> (r: Result<(), EmitError>)
        ensures
            match instruction_ops(views(names@), model@.registers, model@.instructions) {
                Ok(body) => r is Ok && final(ops)@ == old(ops)@ + body,
                Err(e) => r == Err::<(), EmitError>(e) && failed_at(e) < model@.instructions.len()
                    && instruction_ops(
                    views(names@),
                    model@.registers,
                    model@.instructions.subrange(0, failed_at(e) as int),
                ) == Ok::<Seq<IrOp>, EmitError>(final(ops)@.subrange(old(ops)@.len() as int, final(ops)@.len() as int))
                    && final(ops)@.subrange(0, old(ops)@.len() as int) == old(ops)@,
            },
    {
        let ghost insts = model@.instructions;
        let n = model.instructions.len();
        let mut i: usize = 0;
        assert(insts.subrange(0, 0) =~= Seq::<crate::model::InstructionView>::empty());
        while i < n
            invariant
                n == insts.len(),
                insts == model@.instructions,
                i <= n,
                instruction_ops(views(names@), model@.registers, insts.subrange(0, i as int)) matches Ok(body)
                    && ops@ == old(ops)@ + body,
            decreases n - i,
        {
            let ghost prefix = insts.subrange(0, i as int + 1);
            assert(prefix.drop_last() =~= insts.subrange(0, i as int));
            let op = Emitter::instruction_op(model, names, &model.instructions[i], i);
            match op {
                Err(e) => {
                    proof {
                        Emitter::lemma_error_persists(views(names@), model@.registers, insts, i as nat + 1);
                        assert(ops@.subrange(old(ops)@.len() as int, ops@.len() as int) =~= instruction_ops(
                            views(names@),
                            model@.registers,
                            insts.subrange(0, i as int),
                        )->Ok_0);
                        assert(ops@.subrange(0, old(ops)@.len() as int) =~= old(ops)@);
                    }
                    return Err(e);
                },
                Ok(op) => {
                    ops.push(op);
                },
            }
            i = i + 1;
        }
        assert(insts.subrange(0, n as int) =~= insts);
        Ok(())
    }

    /// An error in a prefix of the instructions is the error of the whole.
    proof fn lemma_error_persists(
        names: Seq<Seq<char>>,
        registers: Seq<(Seq<char>, u64)>,
        insts: Seq<crate::model::InstructionView>,
        i: nat,
    )
        requires
            i <= insts.len(),
            instruction_ops(names, registers, insts.subrange(0, i as int)) is Err,
        ensures
            instruction_ops(names, registers, insts) == instruction_ops(names, registers, insts.subrange(0, i as int)),
        decreases insts.len() - i,
    {
        if i == insts.len() {
            assert(insts.subrange(0, i as int) =~= insts);
        } else {
            let next = insts.subrange(0, i as int + 1);
            assert(next.drop_last() =~= insts.subrange(0, i as int));
            Emitter::lemma_error_persists(names, registers, insts, i + 1);
        }
    }

    /// Releases every allocated qubit once, in declaration order.
    pub fn free_qubits(names: &Vec<String>, ops: &mut Vec<IrOp>)
        ensures
            final(ops)@ == old(ops)@ + release_ops(names@.len() as nat),
    {
        let n = names.len();
        let mut k: usize = 0;
        while k < n
            invariant
                n == names@.len(),
                k <= n,
                ops@ == old(ops)@ + release_ops(k as nat),
            decreases n - k,
        {
            ops.push(IrOp::ReleaseQubit { qubit: k });
            k = k + 1;
            assert(ops@ =~= old(ops)@ + release_ops(k as nat));
        }
    }
}

} // verus!
