use vstd::prelude::*;

verus! {

/// One qubit: a base name and an index. Its indexed name is the base name
/// followed by the decimal digits of the index, with no separator.
pub struct QuantumRegister {
    pub name: String,
    pub index: u64,
}

/// One named array of result bits.
pub struct ClassicalRegister {
    pub name: String,
    pub size: u64,
}

pub enum Register {
    Quantum(QuantumRegister),
    Classical(ClassicalRegister),
}

/// The operand of a single-qubit instruction.
pub struct Single {
    pub qubit: String,
}

/// The operands of a controlled two-qubit instruction.
pub struct Controlled {
    pub control: String,
    pub target: String,
}

pub enum Instruction {
    Cx(Controlled),
    Cz(Controlled),
    H(Single),
    Reset(Single),
    S(Single),
    Sdg(Single),
    T(Single),
    Tdg(Single),
    X(Single),
    Y(Single),
    Z(Single),
    M { qubit: String, target: String },
}

/// The kinds of single-qubit operation; `Reset` is a reset of the qubit,
/// distinct from its final release.
#[derive(Clone, Copy, Debug, PartialEq, Eq, Structural)]
pub enum Gate {
    H,
    Reset,
    S,
    Sdg,
    T,
    Tdg,
    X,
    Y,
    Z,
}

/// The kinds of controlled two-qubit operation.
#[derive(Clone, Copy, Debug, PartialEq, Eq, Structural)]
pub enum ControlledGate {
    Cx,
    Cz,
}

/// What an instruction says, with its operand names as character sequences.
pub ghost enum InstructionView {
    Single { gate: Gate, qubit: Seq<char> },
    Controlled { kind: ControlledGate, control: Seq<char>, target: Seq<char> },
    Measure { qubit: Seq<char>, target: Seq<char> },
}

/// A program: its name, its classical registers and its qubits, each in the
/// order of declaration, and its instructions in program order.
pub struct SemanticModel {
    pub name: String,
    pub registers: Vec<ClassicalRegister>,
    pub qubits: Vec<QuantumRegister>,
    pub instructions: Vec<Instruction>,
}

pub ghost struct ModelView {
    pub name: Seq<char>,
    pub registers: Seq<(Seq<char>, u64)>,
    pub qubits: Seq<(Seq<char>, u64)>,
    pub instructions: Seq<InstructionView>,
}

impl View for QuantumRegister {
    type V = (Seq<char>, u64);

    open spec fn view(&self) -> (Seq<char>, u64) {
        (self.name@, self.index)
    }
}

impl View for ClassicalRegister {
    type V = (Seq<char>, u64);

    open spec fn view(&self) -> (Seq<char>, u64) {
        (self.name@, self.size)
    }
}

impl View for Instruction {
    type V = InstructionView;

    open spec fn view(&self) -> InstructionView {
        match self {
            Instruction::Cx(c) => InstructionView::Controlled {
                kind: ControlledGate::Cx,
                control: c.control@,
                target: c.target@,
            },
            Instruction::Cz(c) => InstructionView::Controlled {
                kind: ControlledGate::Cz,
                control: c.control@,
                target: c.target@,
            },
            Instruction::H(s) => InstructionView::Single { gate: Gate::H, qubit: s.qubit@ },
            Instruction::Reset(s) => InstructionView::Single { gate: Gate::Reset, qubit: s.qubit@ },
            Instruction::S(s) => InstructionView::Single { gate: Gate::S, qubit: s.qubit@ },
            Instruction::Sdg(s) => InstructionView::Single { gate: Gate::Sdg, qubit: s.qubit@ },
            Instruction::T(s) => InstructionView::Single { gate: Gate::T, qubit: s.qubit@ },
            Instruction::Tdg(s) => InstructionView::Single { gate: Gate::Tdg, qubit: s.qubit@ },
            Instruction::X(s) => InstructionView::Single { gate: Gate::X, qubit: s.qubit@ },
            Instruction::Y(s) => InstructionView::Single { gate: Gate::Y, qubit: s.qubit@ },
            Instruction::Z(s) => InstructionView::Single { gate: Gate::Z, qubit: s.qubit@ },
            Instruction::M { qubit, target } => InstructionView::Measure {
                qubit: qubit@,
                target: target@,
            },
        }
    }
}

impl View for SemanticModel {
    type V = ModelView;

    open spec fn view(&self) -> ModelView {
        ModelView {
            name: self.name@,
            registers: self.registers@.map_values(|r: ClassicalRegister| r@),
            qubits: self.qubits@.map_values(|q: QuantumRegister| q@),
            instructions: self.instructions@.map_values(|i: Instruction| i@),
        }
    }
}

impl QuantumRegister {
    pub fn new(name: String, index: u64) -> (r: QuantumRegister)
        ensures
            r@ == (name@, index),
    {
        QuantumRegister { name, index }
    }

    pub fn as_register(self) -> (r: Register)
        ensures
            r == Register::Quantum(self),
    {
        Register::Quantum(self)
    }
}

impl ClassicalRegister {
    pub fn new(name: String, size: u64) -> (r: ClassicalRegister)
        ensures
            r@ == (name@, size),
    {
        ClassicalRegister { name, size }
    }

    pub fn as_register(self) -> (r: Register)
        ensures
            r == Register::Classical(self),
    {
        Register::Classical(self)
    }
}

impl Single {
    pub fn new(qubit: String) -> (r: Single)
        ensures
            r.qubit@ == qubit@,
    {
        Single { qubit }
    }
}

impl Controlled {
    pub fn new(control: String, target: String) -> (r: Controlled)
        ensures
            r.control@ == control@,
            r.target@ == target@,
    {
        Controlled { control, target }
    }
}

impl SemanticModel {
    /// A program with the given name and nothing declared yet.
    pub fn new(name: String) -> (r: SemanticModel)
        ensures
            r@.name == name@,
            r@.registers.len() == 0,
            r@.qubits.len() == 0,
            r@.instructions.len() == 0,
    {
        SemanticModel { name, registers: Vec::new(), qubits: Vec::new(), instructions: Vec::new() }
    }

    /// Declares a register: a quantum one adds one qubit, a classical one adds
    /// one result array, each after those of its kind declared before.
    pub fn add_reg(&mut self, reg: Register)
        ensures
            final(self)@.name == old(self)@.name,
            final(self)@.instructions == old(self)@.instructions,
            match reg {
                Register::Quantum(q) => final(self)@.qubits == old(self)@.qubits.push(q@)
                    && final(self)@.registers == old(self)@.registers,
                Register::Classical(c) => final(self)@.registers == old(self)@.registers.push(c@)
                    && final(self)@.qubits == old(self)@.qubits,
            },
    {
        match reg {
            Register::Quantum(q) => {
                let ghost v = q@;
                self.qubits.push(q);
                assert(self@.qubits =~= old(self)@.qubits.push(v));
                assert(self@.registers =~= old(self)@.registers);
            },
            Register::Classical(c) => {
                let ghost v = c@;
                self.registers.push(c);
                assert(self@.registers =~= old(self)@.registers.push(v));
                assert(self@.qubits =~= old(self)@.qubits);
            },
        }
        assert(self@.instructions =~= old(self)@.instructions);
    }

    /// Appends an instruction after those added before.
    pub fn add_inst(&mut self, inst: Instruction)
        ensures
            final(self)@.name == old(self)@.name,
            final(self)@.registers == old(self)@.registers,
            final(self)@.qubits == old(self)@.qubits,
            final(self)@.instructions == old(self)@.instructions.push(inst@),
    {
        let ghost v = inst@;
        self.instructions.push(inst);
        assert(self@.instructions =~= old(self)@.instructions.push(v));
        assert(self@.registers =~= old(self)@.registers);
        assert(self@.qubits =~= old(self)@.qubits);
    }
}

} // verus!
