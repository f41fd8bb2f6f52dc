use vstd::prelude::*;
use crate::model::{ControlledGate, Gate, InstructionView, ModelView};

verus! {

/// One operation of the entry function, in the order in which it is emitted.
/// Qubits are numbered by their position among the declared qubits, result
/// arrays by the position of their classical register.
#[derive(Clone, Copy, Debug, PartialEq, Eq, Structural)]
pub enum IrOp {
    /// Call of the runtime's qubit allocation for the given qubit.
    AllocateQubit { qubit: usize },
    /// Allocation of the zero-length `results` array.
    AllocateEmptyResults,
    /// Allocation of the top-level `results` array, one slot per register.
    AllocateResults { element_size: u64, count: usize },
    /// Allocation of the result array of one classical register.
    AllocateRegister { register: usize, size: u64 },
    /// Stores a register's result array into a slot of `results`.
    SetElement { index: usize, register: usize },
    Single { gate: Gate, qubit: usize },
    Controlled { kind: ControlledGate, control: usize, target: usize },
    /// Measures a qubit into one bit of a register's result array.
    Measure { qubit: usize, register: usize, bit: u64 },
    ReleaseQubit { qubit: usize },
    /// Returns the `results` array.
    ReturnResults,
}

/// Why a program cannot be emitted: the instruction at the given position
/// names a qubit, or a result bit, that the program does not declare.
#[derive(Clone, Copy, Debug, PartialEq, Eq, Structural)]
pub enum EmitError {
    UnknownQubit { instruction: usize },
    UnknownTarget { instruction: usize },
}

/// Width of a slot of the top-level `results` array.
pub const RESULT_SLOT_SIZE: u64 = 8;

pub open spec fn digit(d: nat) -> char {
    seq!['0', '1', '2', '3', '4', '5', '6', '7', '8', '9'][d as int]
}

/// The decimal digits of `n`, without leading zeros.
pub open spec fn decimal(n: nat) -> Seq<char>
    decreases n,
{
    if n < 10 {
        seq![digit(n)]
    } else {
        decimal(n / 10).push(digit(n % 10))
    }
}

/// A base name followed by the decimal digits of an index.
pub open spec fn indexed_name(base: Seq<char>, index: nat) -> Seq<char> {
    base + decimal(index)
}

/// The indexed name of each declared qubit, in declaration order.
pub open spec fn qubit_names(qubits: Seq<(Seq<char>, u64)>) -> Seq<Seq<char>> {
    qubits.map_values(|q: (Seq<char>, u64)| indexed_name(q.0, q.1 as nat))
}

/// The position of the last qubit with the given indexed name: a later
/// declaration of a name overrides an earlier one.
pub open spec fn resolve(names: Seq<Seq<char>>, s: Seq<char>) -> Option<nat>
    decreases names.len(),
{
    if names.len() == 0 {
        None
    } else if names.last() == s {
        Some((names.len() - 1) as nat)
    } else {
        resolve(names.drop_last(), s)
    }
}

/// The highest bit below `size` whose indexed name under `base` is `s`.
pub open spec fn bit_of(base: Seq<char>, size: nat, s: Seq<char>) -> Option<nat>
    decreases size,
{
    if size == 0 {
        None
    } else if indexed_name(base, (size - 1) as nat) == s {
        Some((size - 1) as nat)
    } else {
        bit_of(base, (size - 1) as nat, s)
    }
}

/// The register and bit that a result name addresses, the last declared
/// register taking precedence.
pub open spec fn resolve_bit(registers: Seq<(Seq<char>, u64)>, s: Seq<char>) -> Option<(nat, nat)>
    decreases registers.len(),
{
    if registers.len() == 0 {
        None
    } else {
        match bit_of(registers.last().0, registers.last().1 as nat, s) {
            Some(i) => Some(((registers.len() - 1) as nat, i)),
            None => resolve_bit(registers.drop_last(), s),
        }
    }
}

/// The operation emitted for one instruction at position `at`.
pub open spec fn instruction_op(
    names: Seq<Seq<char>>,
    registers: Seq<(Seq<char>, u64)>,
    inst: InstructionView,
    at: nat,
) -> Result<IrOp, EmitError> {
    match inst {
        InstructionView::Single { gate, qubit } => match resolve(names, qubit) {
            Some(k) => Ok(IrOp::Single { gate, qubit: k as usize }),
            None => Err(EmitError::UnknownQubit { instruction: at as usize }),
        },
        InstructionView::Controlled { kind, control, target } => match (
            resolve(names, control),
            resolve(names, target),
        ) {
            (Some(c), Some(t)) => Ok(
                IrOp::Controlled { kind, control: c as usize, target: t as usize },
            ),
            _ => Err(EmitError::UnknownQubit { instruction: at as usize }),
        },
        InstructionView::Measure { qubit, target } => match resolve(names, qubit) {
            None => Err(EmitError::UnknownQubit { instruction: at as usize }),
            Some(k) => match resolve_bit(registers, target) {
                None => Err(EmitError::UnknownTarget { instruction: at as usize }),
                Some(rb) => Ok(
                    IrOp::Measure { qubit: k as usize, register: rb.0 as usize, bit: rb.1 as u64 },
                ),
            },
        },
    }
}

/// The operations of the instructions, one each and in order, or the error
/// of the first instruction that cannot be resolved.
pub open spec fn instruction_ops(
    names: Seq<Seq<char>>,
    registers: Seq<(Seq<char>, u64)>,
    insts: Seq<InstructionView>,
) -> Result<Seq<IrOp>, EmitError>
    decreases insts.len(),
{
    if insts.len() == 0 {
        Ok(Seq::empty())
    } else {
        match instruction_ops(names, registers, insts.drop_last()) {
            Err(e) => Err(e),
            Ok(ops) => match instruction_op(names, registers, insts.last(), (insts.len() - 1) as nat) {
                Err(e) => Err(e),
                Ok(op) => Ok(ops.push(op)),
            },
        }
    }
}

pub open spec fn qubit_allocations(n: nat) -> Seq<IrOp> {
    Seq::new(n, |k: int| IrOp::AllocateQubit { qubit: k as usize })
}

/// A zero-length `results` for a program without classical registers;
/// otherwise each register's array in declaration order, then `results`
/// with one slot per register, then slot i set to the array of register i.
pub open spec fn register_ops(registers: Seq<(Seq<char>, u64)>) -> Seq<IrOp> {
    if registers.len() == 0 {
        seq![IrOp::AllocateEmptyResults]
    } else {
        Seq::new(
            registers.len(),
            |r: int| IrOp::AllocateRegister { register: r as usize, size: registers[r].1 },
        ).push(IrOp::AllocateResults { element_size: RESULT_SLOT_SIZE, count: registers.len() as usize })
            + Seq::new(
            registers.len(),
            |r: int| IrOp::SetElement { index: r as usize, register: r as usize },
        )
    }
}

/// One release for each of the first `n` allocated qubits, in declaration
/// order, whatever their names.
pub open spec fn release_ops(n: nat) -> Seq<IrOp> {
    Seq::new(n, |k: int| IrOp::ReleaseQubit { qubit: k as usize })
}

/// The position of the instruction that an error comes from.
pub open spec fn failed_at(e: EmitError) -> nat {
    match e {
        EmitError::UnknownQubit { instruction } => instruction as nat,
        EmitError::UnknownTarget { instruction } => instruction as nat,
    }
}

/// The whole entry function of a program: qubit allocations, result arrays,
/// instructions, releases and the return of `results`.
pub open spec fn program(m: ModelView) -> Result<Seq<IrOp>, EmitError> {
    let names = qubit_names(m.qubits);
    match instruction_ops(names, m.registers, m.instructions) {
        Err(e) => Err(e),
        Ok(body) => Ok(
            qubit_allocations(names.len()) + register_ops(m.registers) + body + release_ops(names.len())
                + seq![IrOp::ReturnResults],
        ),
    }
}

} // verus!
