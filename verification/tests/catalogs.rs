use ir_meta::error::DefError;
use ir_meta::formats::FormatRegistry;
use ir_meta::instructions::{Instruction, InstructionCatalog, InstructionFlags, ResultType};
use ir_meta::operands::{OperandCategory, OperandKind, OperandKinds};

fn kind(name: &str, category: OperandCategory) -> OperandKind {
    OperandKind {
        name: String::from(name),
        category,
        accepted_type: String::from("t"),
        doc: String::new(),
    }
}

/// value at 0, imm at 1, varlist at 2.
fn small_catalog() -> OperandKinds {
    let mut c = OperandKinds::new();
    c.add(kind("value", OperandCategory::ValueOperand)).unwrap();
    c.add(kind("imm", OperandCategory::ImmediateOperand)).unwrap();
    c.add(kind("varlist", OperandCategory::VariableOperandList)).unwrap();
    c
}

fn inst(opcode: &str, format: usize, operands: Vec<usize>, ctrl: Option<usize>) -> Instruction {
    Instruction {
        opcode: String::from(opcode),
        format,
        operands,
        ctrl_typevar: ctrl,
        results: Vec::new(),
        flags: InstructionFlags::none(),
        doc: String::new(),
    }
}

#[test]
fn duplicate_kind_name_is_rejected() {
    let mut c = OperandKinds::new();
    assert_eq!(c.add(kind("value", OperandCategory::ValueOperand)), Ok(0));
    assert_eq!(
        c.add(kind("value", OperandCategory::EntityReference)),
        Err(DefError::DuplicateName)
    );
    assert_eq!(c.len(), 1);
}

#[test]
fn interning_equal_formats_returns_one_handle() {
    let cat = small_catalog();
    let mut reg = FormatRegistry::new();
    let first = reg.intern(&cat, vec![0, 1], false, false).unwrap();
    let second = reg.intern(&cat, vec![0, 1], false, false).unwrap();
    assert_eq!(first, second);
    assert_eq!(reg.len(), 1);
}

#[test]
fn interning_reordered_sequence_returns_distinct_handle() {
    let cat = small_catalog();
    let mut reg = FormatRegistry::new();
    let value_then_imm = reg.intern(&cat, vec![0, 1], false, false).unwrap();
    let imm_then_value = reg.intern(&cat, vec![1, 0], false, false).unwrap();
    assert_ne!(value_then_imm, imm_then_value);
    assert_eq!(reg.len(), 2);
}

#[test]
fn interning_distinguishes_flags() {
    let cat = small_catalog();
    let mut reg = FormatRegistry::new();
    let plain = reg.intern(&cat, vec![0], false, false).unwrap();
    let varargs = reg.intern(&cat, vec![0], true, false).unwrap();
    let multi = reg.intern(&cat, vec![0], false, true).unwrap();
    assert_ne!(plain, varargs);
    assert_ne!(plain, multi);
    assert_ne!(varargs, multi);
}

#[test]
fn interning_empty_sequence_is_accepted() {
    let cat = small_catalog();
    let mut reg = FormatRegistry::new();
    assert_eq!(reg.intern(&cat, Vec::new(), false, false), Ok(0));
}

#[test]
fn variable_list_kind_must_stand_last() {
    let cat = small_catalog();
    let mut reg = FormatRegistry::new();
    assert_eq!(reg.intern(&cat, vec![2, 0], false, false), Err(DefError::ShapeMismatch));
    assert_eq!(reg.intern(&cat, vec![0, 2], false, false), Ok(0));
}

#[test]
fn unknown_kind_reference_is_rejected() {
    let cat = small_catalog();
    let mut reg = FormatRegistry::new();
    assert_eq!(reg.intern(&cat, vec![9], false, false), Err(DefError::UnknownReference));
    assert_eq!(reg.len(), 0);
}

#[test]
fn short_operand_list_aborts_registration() {
    let cat = small_catalog();
    let mut reg = FormatRegistry::new();
    let binary = reg.intern(&cat, vec![0, 0], false, false).unwrap();
    let mut insts = InstructionCatalog::new();
    // one fewer operand than the format declares: rejected, not truncated
    assert_eq!(
        insts.register(&reg, inst("iadd", binary, vec![0], None)),
        Err(DefError::ShapeMismatch)
    );
    assert_eq!(insts.len(), 0);
}

#[test]
fn matching_operand_list_registers() {
    let cat = small_catalog();
    let mut reg = FormatRegistry::new();
    let binary = reg.intern(&cat, vec![0, 0], false, false).unwrap();
    let mut insts = InstructionCatalog::new();
    assert_eq!(insts.register(&reg, inst("iadd", binary, vec![0, 0], None)), Ok(0));
    assert_eq!(insts.len(), 1);
    assert_eq!(insts.get(0).opcode.as_str(), "iadd");
}

#[test]
fn wrong_kind_at_position_is_rejected() {
    let cat = small_catalog();
    let mut reg = FormatRegistry::new();
    let binary = reg.intern(&cat, vec![0, 0], false, false).unwrap();
    let mut insts = InstructionCatalog::new();
    assert_eq!(
        insts.register(&reg, inst("iadd", binary, vec![0, 1], None)),
        Err(DefError::ShapeMismatch)
    );
}

#[test]
fn varargs_format_accepts_any_remaining_count() {
    let cat = small_catalog();
    let mut reg = FormatRegistry::new();
    let f = reg.intern(&cat, vec![0], true, false).unwrap();
    let mut insts = InstructionCatalog::new();
    assert_eq!(insts.register(&reg, inst("a", f, vec![0], None)), Ok(0));
    assert_eq!(insts.register(&reg, inst("b", f, vec![0, 0, 0], None)), Ok(1));
    assert_eq!(insts.register(&reg, inst("c", f, Vec::new(), None)), Err(DefError::ShapeMismatch));
}

#[test]
fn duplicate_opcode_is_rejected() {
    let cat = small_catalog();
    let mut reg = FormatRegistry::new();
    let unary = reg.intern(&cat, vec![0], false, false).unwrap();
    let mut insts = InstructionCatalog::new();
    assert_eq!(insts.register(&reg, inst("iadd", unary, vec![0], None)), Ok(0));
    assert_eq!(
        insts.register(&reg, inst("iadd", unary, vec![0], None)),
        Err(DefError::DuplicateName)
    );
    assert_eq!(insts.len(), 1);
}

#[test]
fn unknown_format_handle_is_rejected() {
    let cat = small_catalog();
    let mut reg = FormatRegistry::new();
    reg.intern(&cat, vec![0], false, false).unwrap();
    let mut insts = InstructionCatalog::new();
    assert_eq!(
        insts.register(&reg, inst("iadd", 7, vec![0], None)),
        Err(DefError::UnknownReference)
    );
}

#[test]
fn controlling_result_needs_a_type_variable() {
    let cat = small_catalog();
    let mut reg = FormatRegistry::new();
    let unary = reg.intern(&cat, vec![0], false, false).unwrap();
    let mut insts = InstructionCatalog::new();
    let mut i = inst("x", unary, vec![0], None);
    i.results.push(ResultType::Controlling);
    assert_eq!(insts.register(&reg, i), Err(DefError::ShapeMismatch));
    let mut ok = inst("x", unary, vec![0], Some(0));
    ok.results.push(ResultType::Controlling);
    assert_eq!(insts.register(&reg, ok), Ok(0));
}

#[test]
fn type_variable_must_designate_an_operand() {
    let cat = small_catalog();
    let mut reg = FormatRegistry::new();
    let unary = reg.intern(&cat, vec![0], false, false).unwrap();
    let mut insts = InstructionCatalog::new();
    assert_eq!(
        insts.register(&reg, inst("x", unary, vec![0], Some(5))),
        Err(DefError::ShapeMismatch)
    );
}

#[test]
fn duplicate_immediate_name_is_rejected() {
    let mut imms = ir_meta::immediates::Immediates::new();
    let a = ir_meta::immediates::Immediate {
        name: String::from("imm64"),
        accepted_type: String::from("t"),
        default_value: Some(0),
        doc: String::new(),
    };
    let b = ir_meta::immediates::Immediate {
        name: String::from("imm64"),
        accepted_type: String::from("t"),
        default_value: None,
        doc: String::new(),
    };
    assert_eq!(imms.add(a), Ok(0));
    assert_eq!(imms.add(b), Err(DefError::DuplicateName));
}
