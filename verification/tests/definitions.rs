use ir_meta::define;
use ir_meta::operands::OperandCategory;

#[test]
fn define_builds_all_catalogs() {
    let d = define();
    assert_eq!(d.operand_kinds.0.len(), 7);
    assert_eq!(d.imm.0.len(), 3);
    assert_eq!(d.format_registry.0.len(), 5);
    assert_eq!(d.instructions.0.len(), 6);
    assert_eq!(d.settings.0.len(), 1);
    assert_eq!(d.transform_groups.0.len(), 2);
}

#[test]
fn define_kind_catalog_order() {
    let d = define();
    let names: Vec<&str> = d.operand_kinds.0.iter().map(|k| k.name.as_str()).collect();
    assert_eq!(
        names,
        vec!["value", "block", "func_ref", "variable_args", "imm64", "intcc", "offset32"]
    );
    assert_eq!(d.operand_kinds.0[0].category, OperandCategory::ValueOperand);
    assert_eq!(d.operand_kinds.0[3].category, OperandCategory::VariableOperandList);
    assert_eq!(d.operand_kinds.0[4].category, OperandCategory::ImmediateOperand);
}

#[test]
fn define_instruction_order_is_declaration_order() {
    let d = define();
    let opcodes: Vec<&str> = d.instructions.0.iter().map(|i| i.opcode.as_str()).collect();
    assert_eq!(opcodes, vec!["iconst", "iadd", "isub", "iadd_imm", "icmp", "call"]);
    assert!(d.instructions.0[5].flags.is_call);
    assert!(!d.instructions.0[1].flags.is_call);
}

#[test]
fn define_instructions_match_their_formats() {
    let d = define();
    for inst in &d.instructions.0 {
        let f = &d.format_registry.0[inst.format];
        if f.has_varargs {
            assert!(inst.operands.len() >= f.kinds.len());
            for (p, k) in f.kinds.iter().enumerate() {
                assert_eq!(inst.operands[p], *k);
            }
        } else {
            assert_eq!(inst.operands, f.kinds);
        }
    }
}

#[test]
fn define_transform_groups_chain_and_order() {
    let d = define();
    assert_eq!(d.transform_groups.0[0].name.as_str(), "narrow");
    assert_eq!(d.transform_groups.0[0].chain, Some(1));
    assert_eq!(d.transform_groups.0[1].name.as_str(), "expand");
    assert_eq!(d.transform_groups.0[1].chain, None);
    assert_eq!(d.transform_groups.0[0].transforms.len(), 1);
    assert_eq!(
        d.transform_groups.0[0].transforms[0].source.opcode.as_str(),
        "isub"
    );
}

#[test]
fn define_is_deterministic() {
    let d1 = define();
    let d2 = define();
    assert_eq!(d1.operand_kinds.0.len(), d2.operand_kinds.0.len());
    for (a, b) in d1.operand_kinds.0.iter().zip(d2.operand_kinds.0.iter()) {
        assert_eq!(a.name, b.name);
        assert_eq!(a.category, b.category);
    }
    for (a, b) in d1.format_registry.0.iter().zip(d2.format_registry.0.iter()) {
        assert_eq!(a.kinds, b.kinds);
        assert_eq!(a.has_varargs, b.has_varargs);
        assert_eq!(a.multi_results, b.multi_results);
    }
    for (a, b) in d1.instructions.0.iter().zip(d2.instructions.0.iter()) {
        assert_eq!(a.opcode, b.opcode);
        assert_eq!(a.format, b.format);
        assert_eq!(a.operands, b.operands);
    }
    for (a, b) in d1.transform_groups.0.iter().zip(d2.transform_groups.0.iter()) {
        assert_eq!(a.name, b.name);
        assert_eq!(a.chain, b.chain);
        assert_eq!(a.transforms.len(), b.transforms.len());
    }
}

#[test]
fn lookup_by_name_is_idempotent() {
    let d = define();
    let first = d.operand_kinds.by_name("imm64");
    let name1 = first.name.clone();
    let cat1 = first.category;
    let second = d.operand_kinds.by_name("imm64");
    assert_eq!(name1, second.name);
    assert_eq!(cat1, second.category);
    assert_eq!(cat1, OperandCategory::ImmediateOperand);
}

#[test]
fn find_unknown_name_returns_none() {
    let d = define();
    assert_eq!(d.operand_kinds.find("no_such_kind"), None);
    assert_eq!(d.imm.find("no_such_imm"), None);
    assert_eq!(d.instructions.find("no_such_opcode"), None);
    assert_eq!(d.instructions.find("iadd"), Some(1));
}
