use qirlib::emit::{Emission, Emitter};
use qirlib::ir::{EmitError, IrOp};
use qirlib::model::{
    ClassicalRegister, Controlled, ControlledGate, Gate, Instruction, QuantumRegister,
    SemanticModel, Single,
};

fn emit(model: &SemanticModel) -> Emission {
    match Emitter::build(model) {
        Ok(e) => e,
        Err(e) => panic!("emission failed: {:?}", e),
    }
}

fn releases(ops: &[IrOp]) -> Vec<usize> {
    ops.iter()
        .filter_map(|op| match op {
            IrOp::ReleaseQubit { qubit } => Some(*qubit),
            _ => None,
        })
        .collect()
}

#[test]
fn bernstein_vazirani() {
    let name = String::from("Bernstein-Vazirani circuit");
    let mut model = SemanticModel::new(name);
    model.add_reg(QuantumRegister::new(String::from("input_"), 0).as_register());
    model.add_reg(QuantumRegister::new(String::from("input_"), 1).as_register());
    model.add_reg(QuantumRegister::new(String::from("input_"), 2).as_register());
    model.add_reg(QuantumRegister::new(String::from("input_"), 3).as_register());
    model.add_reg(QuantumRegister::new(String::from("input_"), 4).as_register());
    model.add_reg(QuantumRegister::new(String::from("target_"), 0).as_register());
    model.add_reg(ClassicalRegister::new(String::from("output_"), 5).as_register());

    model.add_inst(Instruction::X(Single::new(String::from("target_0"))));
    model.add_inst(Instruction::H(Single::new(String::from("input_0"))));
    model.add_inst(Instruction::H(Single::new(String::from("input_1"))));
    model.add_inst(Instruction::H(Single::new(String::from("input_2"))));
    model.add_inst(Instruction::H(Single::new(String::from("input_3"))));
    model.add_inst(Instruction::H(Single::new(String::from("input_4"))));
    model.add_inst(Instruction::H(Single::new(String::from("target_0"))));

    model.add_inst(Instruction::Cx(Controlled::new(
        String::from("input_2"),
        String::from("target_0"),
    )));
    model.add_inst(Instruction::Cx(Controlled::new(
        String::from("input_2"),
        String::from("target_0"),
    )));
    model.add_inst(Instruction::H(Single::new(String::from("input_0"))));
    model.add_inst(Instruction::H(Single::new(String::from("input_1"))));
    model.add_inst(Instruction::H(Single::new(String::from("input_2"))));
    model.add_inst(Instruction::H(Single::new(String::from("input_3"))));
    model.add_inst(Instruction::H(Single::new(String::from("input_4"))));
    model.add_inst(Instruction::M {
        qubit: String::from("input_0"),
        target: String::from("output_0"),
    });
    model.add_inst(Instruction::M {
        qubit: String::from("input_1"),
        target: String::from("output_1"),
    });
    model.add_inst(Instruction::M {
        qubit: String::from("input_2"),
        target: String::from("output_2"),
    });
    model.add_inst(Instruction::M {
        qubit: String::from("input_3"),
        target: String::from("output_3"),
    });
    model.add_inst(Instruction::M {
        qubit: String::from("input_4"),
        target: String::from("output_4"),
    });
    model.add_inst(Instruction::Reset(Single::new(String::from("input_0"))));
    model.add_inst(Instruction::Reset(Single::new(String::from("input_1"))));
    model.add_inst(Instruction::Reset(Single::new(String::from("input_2"))));
    model.add_inst(Instruction::Reset(Single::new(String::from("input_3"))));
    model.add_inst(Instruction::Reset(Single::new(String::from("input_4"))));
    let e = emit(&model);
    assert_eq!(e.qubit_names, vec!["input_0", "input_1", "input_2", "input_3", "input_4", "target_0"]);
    // 6 allocations, 1 + 1 + 1 register operations, 24 instructions, 6 releases, return
    assert_eq!(e.ops.len(), 6 + 3 + 24 + 6 + 1);
    assert_eq!(e.ops[9], IrOp::Single { gate: Gate::X, qubit: 5 });
    assert_eq!(e.ops[16], IrOp::Controlled { kind: ControlledGate::Cx, control: 2, target: 5 });
    assert_eq!(e.ops[27], IrOp::Measure { qubit: 4, register: 0, bit: 4 });
}

#[test]
fn bell_measure() {
    let name = String::from("Bell circuit");
    let mut model = SemanticModel::new(name);
    model.add_reg(QuantumRegister::new(String::from("qr"), 0).as_register());
    model.add_reg(QuantumRegister::new(String::from("qr"), 1).as_register());
    model.add_reg(ClassicalRegister::new(String::from("qc"), 2).as_register());

    model.add_inst(Instruction::H(Single::new(String::from("qr0"))));
    model.add_inst(Instruction::Cx(Controlled::new(String::from("qr0"), String::from("qr1"))));
    model.add_inst(Instruction::M {
        qubit: String::from("qr0"),
        target: String::from("qc0"),
    });
    model.add_inst(Instruction::M {
        qubit: String::from("qr1"),
        target: String::from("qc1"),
    });
    let e = emit(&model);
    assert_eq!(
        &e.ops[5..9],
        &[
            IrOp::Single { gate: Gate::H, qubit: 0 },
            IrOp::Controlled { kind: ControlledGate::Cx, control: 0, target: 1 },
            IrOp::Measure { qubit: 0, register: 0, bit: 0 },
            IrOp::Measure { qubit: 1, register: 0, bit: 1 },
        ]
    );
}

#[test]
fn bell_no_measure() {
    let name = String::from("Bell circuit");
    let mut model = SemanticModel::new(name);
    model.add_reg(QuantumRegister::new(String::from("qr"), 0).as_register());
    model.add_reg(QuantumRegister::new(String::from("qr"), 1).as_register());
    model.add_reg(ClassicalRegister::new(String::from("qc"), 2).as_register());

    model.add_inst(Instruction::H(Single::new(String::from("qr0"))));
    model.add_inst(Instruction::Cx(Controlled::new(String::from("qr0"), String::from("qr1"))));
    let e = emit(&model);
    assert_eq!(e.ops.len(), 2 + 3 + 2 + 2 + 1);
    assert_eq!(
        &e.ops[2..5],
        &[
            IrOp::AllocateRegister { register: 0, size: 2 },
            IrOp::AllocateResults { element_size: 8, count: 1 },
            IrOp::SetElement { index: 0, register: 0 },
        ]
    );
}

#[test]
fn single_hadamard_without_registers() {
    let mut model = SemanticModel::new(String::from("a"));
    model.add_reg(QuantumRegister::new(String::from("q"), 0).as_register());
    model.add_inst(Instruction::H(Single::new(String::from("q0"))));
    let e = emit(&model);
    assert_eq!(
        e.ops,
        vec![
            IrOp::AllocateQubit { qubit: 0 },
            IrOp::AllocateEmptyResults,
            IrOp::Single { gate: Gate::H, qubit: 0 },
            IrOp::ReleaseQubit { qubit: 0 },
            IrOp::ReturnResults,
        ]
    );
    assert_eq!(e.qubit_names, vec!["q0"]);
}

#[test]
fn bell_pair_single_register_is_wrapped() {
    let mut model = SemanticModel::new(String::from("b"));
    model.add_reg(QuantumRegister::new(String::from("q"), 0).as_register());
    model.add_reg(QuantumRegister::new(String::from("q"), 1).as_register());
    model.add_reg(ClassicalRegister::new(String::from("c"), 2).as_register());
    model.add_inst(Instruction::H(Single::new(String::from("q0"))));
    model.add_inst(Instruction::Cx(Controlled::new(String::from("q0"), String::from("q1"))));
    model.add_inst(Instruction::M { qubit: String::from("q0"), target: String::from("c0") });
    model.add_inst(Instruction::M { qubit: String::from("q1"), target: String::from("c1") });
    let e = emit(&model);
    assert_eq!(
        e.ops,
        vec![
            IrOp::AllocateQubit { qubit: 0 },
            IrOp::AllocateQubit { qubit: 1 },
            IrOp::AllocateRegister { register: 0, size: 2 },
            IrOp::AllocateResults { element_size: 8, count: 1 },
            IrOp::SetElement { index: 0, register: 0 },
            IrOp::Single { gate: Gate::H, qubit: 0 },
            IrOp::Controlled { kind: ControlledGate::Cx, control: 0, target: 1 },
            IrOp::Measure { qubit: 0, register: 0, bit: 0 },
            IrOp::Measure { qubit: 1, register: 0, bit: 1 },
            IrOp::ReleaseQubit { qubit: 0 },
            IrOp::ReleaseQubit { qubit: 1 },
            IrOp::ReturnResults,
        ]
    );
}

#[test]
fn undeclared_qubit_aborts() {
    let mut model = SemanticModel::new(String::from("c"));
    model.add_reg(QuantumRegister::new(String::from("q"), 0).as_register());
    model.add_inst(Instruction::H(Single::new(String::from("q0"))));
    model.add_inst(Instruction::X(Single::new(String::from("q9"))));
    model.add_inst(Instruction::Z(Single::new(String::from("q0"))));
    assert!(matches!(Emitter::build(&model), Err(EmitError::UnknownQubit { instruction: 1 })));

    let mut ops = Vec::new();
    let names = Emitter::write_qubits(&model, &mut ops);
    let before = ops.len();
    let r = Emitter::write_instructions(&model, &names, &mut ops);
    assert!(matches!(r, Err(EmitError::UnknownQubit { instruction: 1 })));
    assert_eq!(&ops[before..], &[IrOp::Single { gate: Gate::H, qubit: 0 }]);
}

#[test]
fn undeclared_control_aborts() {
    let mut model = SemanticModel::new(String::from("c"));
    model.add_reg(QuantumRegister::new(String::from("q"), 0).as_register());
    model.add_inst(Instruction::Cz(Controlled::new(String::from("q9"), String::from("q0"))));
    assert!(matches!(Emitter::build(&model), Err(EmitError::UnknownQubit { instruction: 0 })));
}

#[test]
fn undeclared_result_bit_aborts() {
    let mut model = SemanticModel::new(String::from("c"));
    model.add_reg(QuantumRegister::new(String::from("q"), 0).as_register());
    model.add_reg(ClassicalRegister::new(String::from("c"), 2).as_register());
    model.add_inst(Instruction::M { qubit: String::from("q0"), target: String::from("c2") });
    assert!(matches!(Emitter::build(&model), Err(EmitError::UnknownTarget { instruction: 0 })));
}

#[test]
fn no_registers_gives_empty_results() {
    let mut model = SemanticModel::new(String::from("e"));
    model.add_reg(QuantumRegister::new(String::from("a"), 3).as_register());
    let e = emit(&model);
    assert_eq!(e.ops[1], IrOp::AllocateEmptyResults);
    assert!(!e.ops.iter().any(|op| matches!(op, IrOp::AllocateResults { .. })));
}

#[test]
fn empty_program() {
    let model = SemanticModel::new(String::from("empty"));
    let e = emit(&model);
    assert_eq!(e.ops, vec![IrOp::AllocateEmptyResults, IrOp::ReturnResults]);
    assert!(e.qubit_names.is_empty());
}

#[test]
fn registers_fill_results_in_order() {
    let mut model = SemanticModel::new(String::from("r"));
    model.add_reg(ClassicalRegister::new(String::from("a"), 3).as_register());
    model.add_reg(ClassicalRegister::new(String::from("b"), 1).as_register());
    model.add_reg(ClassicalRegister::new(String::from("c"), 7).as_register());
    let e = emit(&model);
    assert_eq!(
        e.ops,
        vec![
            IrOp::AllocateRegister { register: 0, size: 3 },
            IrOp::AllocateRegister { register: 1, size: 1 },
            IrOp::AllocateRegister { register: 2, size: 7 },
            IrOp::AllocateResults { element_size: 8, count: 3 },
            IrOp::SetElement { index: 0, register: 0 },
            IrOp::SetElement { index: 1, register: 1 },
            IrOp::SetElement { index: 2, register: 2 },
            IrOp::ReturnResults,
        ]
    );
}

#[test]
fn every_qubit_released_once() {
    let mut model = SemanticModel::new(String::from("r"));
    for i in 0..5u64 {
        model.add_reg(QuantumRegister::new(String::from("q"), i).as_register());
    }
    let e = emit(&model);
    assert_eq!(releases(&e.ops), vec![0, 1, 2, 3, 4]);
}

#[test]
fn instructions_keep_model_order() {
    let mut model = SemanticModel::new(String::from("o"));
    model.add_reg(QuantumRegister::new(String::from("q"), 0).as_register());
    model.add_reg(QuantumRegister::new(String::from("q"), 1).as_register());
    model.add_inst(Instruction::T(Single::new(String::from("q1"))));
    model.add_inst(Instruction::S(Single::new(String::from("q0"))));
    model.add_inst(Instruction::Tdg(Single::new(String::from("q0"))));
    model.add_inst(Instruction::Sdg(Single::new(String::from("q1"))));
    model.add_inst(Instruction::Y(Single::new(String::from("q1"))));
    model.add_inst(Instruction::Cz(Controlled::new(String::from("q1"), String::from("q0"))));
    let e = emit(&model);
    assert_eq!(
        &e.ops[3..9],
        &[
            IrOp::Single { gate: Gate::T, qubit: 1 },
            IrOp::Single { gate: Gate::S, qubit: 0 },
            IrOp::Single { gate: Gate::Tdg, qubit: 0 },
            IrOp::Single { gate: Gate::Sdg, qubit: 1 },
            IrOp::Single { gate: Gate::Y, qubit: 1 },
            IrOp::Controlled { kind: ControlledGate::Cz, control: 1, target: 0 },
        ]
    );
}

#[test]
fn emission_is_deterministic() {
    let build = || {
        let mut model = SemanticModel::new(String::from("d"));
        model.add_reg(QuantumRegister::new(String::from("q"), 0).as_register());
        model.add_reg(ClassicalRegister::new(String::from("c"), 1).as_register());
        model.add_inst(Instruction::Reset(Single::new(String::from("q0"))));
        model.add_inst(Instruction::M { qubit: String::from("q0"), target: String::from("c0") });
        model
    };
    let first = emit(&build());
    let second = emit(&build());
    assert_eq!(first.ops, second.ops);
    assert_eq!(first.qubit_names, second.qubit_names);
}

#[test]
fn duplicate_indexed_name_resolves_to_later_qubit() {
    let mut model = SemanticModel::new(String::from("dup"));
    // "q1" with index 1 and "q" with index 11 both read "q11"
    model.add_reg(QuantumRegister::new(String::from("q1"), 1).as_register());
    model.add_reg(QuantumRegister::new(String::from("q"), 11).as_register());
    model.add_inst(Instruction::H(Single::new(String::from("q11"))));
    let e = emit(&model);
    assert_eq!(e.qubit_names, vec!["q11", "q11"]);
    assert_eq!(e.ops[3], IrOp::Single { gate: Gate::H, qubit: 1 });
    assert_eq!(releases(&e.ops), vec![0, 1]);
}

#[test]
fn multi_digit_indices_are_named_in_decimal() {
    let mut model = SemanticModel::new(String::from("n"));
    model.add_reg(QuantumRegister::new(String::from("w"), 1234).as_register());
    model.add_reg(ClassicalRegister::new(String::from("m"), 12).as_register());
    model.add_inst(Instruction::M { qubit: String::from("w1234"), target: String::from("m10") });
    let e = emit(&model);
    assert_eq!(e.qubit_names, vec!["w1234"]);
    assert_eq!(e.ops[4], IrOp::Measure { qubit: 0, register: 0, bit: 10 });
}

#[test]
fn later_register_wins_for_shared_bit_name() {
    let mut model = SemanticModel::new(String::from("s"));
    model.add_reg(QuantumRegister::new(String::from("q"), 0).as_register());
    model.add_reg(ClassicalRegister::new(String::from("c"), 2).as_register());
    model.add_reg(ClassicalRegister::new(String::from("c"), 1).as_register());
    model.add_inst(Instruction::M { qubit: String::from("q0"), target: String::from("c0") });
    model.add_inst(Instruction::M { qubit: String::from("q0"), target: String::from("c1") });
    let e = emit(&model);
    assert_eq!(e.ops[6], IrOp::Measure { qubit: 0, register: 1, bit: 0 });
    assert_eq!(e.ops[7], IrOp::Measure { qubit: 0, register: 0, bit: 1 });
}
