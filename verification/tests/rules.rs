use ir_meta::error::DefError;
use ir_meta::formats::FormatRegistry;
use ir_meta::immediates::{Immediate, Immediates};
use ir_meta::instructions::{Instruction, InstructionCatalog, InstructionFlags};
use ir_meta::legalize::{build, Pattern, PatternArg, Transform, TransformGroup, TransformGroups};
use ir_meta::operands::{OperandCategory, OperandKind, OperandKinds};
use ir_meta::settings::{
    PredExpr, Predicate, Preset, PresetEntry, Setting, SettingGroup, SettingGroups, SettingKind,
    SettingValue,
};

fn fixture() -> (InstructionCatalog, Immediates, SettingGroups) {
    let mut kinds = OperandKinds::new();
    kinds
        .add(OperandKind {
            name: String::from("value"),
            category: OperandCategory::ValueOperand,
            accepted_type: String::from("t"),
            doc: String::new(),
        })
        .unwrap();
    let mut reg = FormatRegistry::new();
    let binary = reg.intern(&kinds, vec![0, 0], false, false).unwrap();
    let mut insts = InstructionCatalog::new();
    for opcode in ["iadd", "isub"] {
        insts
            .register(
                &reg,
                Instruction {
                    opcode: String::from(opcode),
                    format: binary,
                    operands: vec![0, 0],
                    ctrl_typevar: None,
                    results: Vec::new(),
                    flags: InstructionFlags::none(),
                    doc: String::new(),
                },
            )
            .unwrap();
    }
    let mut imms = Immediates::new();
    imms.add(Immediate {
        name: String::from("imm64"),
        accepted_type: String::from("t"),
        default_value: Some(0),
        doc: String::new(),
    })
    .unwrap();
    let mut settings = SettingGroups::new();
    settings
        .add_group(SettingGroup {
            name: String::from("shared"),
            settings: vec![Setting {
                name: String::from("enable_simd"),
                kind: SettingKind::Boolean { default_value: false },
                implies: Vec::new(),
            }],
            presets: Vec::new(),
            predicates: vec![Predicate {
                name: String::from("use_simd"),
                expr: PredExpr::IsSet(0),
            }],
            sub_groups: Vec::new(),
        })
        .unwrap();
    (insts, imms, settings)
}

fn group(name: &str, chain: Option<usize>, transforms: Vec<Transform>) -> TransformGroup {
    TransformGroup { name: String::from(name), chain, transforms }
}

fn rewrite(src_opcode: &str, src_vars: &[&str], repl_opcode: &str, repl_vars: &[&str]) -> Transform {
    let source = Pattern {
        opcode: String::from(src_opcode),
        args: src_vars.iter().map(|v| PatternArg::Var(String::from(*v))).collect(),
    };
    let replacement = vec![Pattern {
        opcode: String::from(repl_opcode),
        args: repl_vars.iter().map(|v| PatternArg::Var(String::from(*v))).collect(),
    }];
    Transform { source, replacement, guard: None }
}

fn expect_err(r: Result<TransformGroups, DefError>) -> DefError {
    match r {
        Ok(_) => panic!("builder accepted malformed transform groups"),
        Err(e) => e,
    }
}

#[test]
fn mutual_chain_is_a_cycle() {
    let (insts, imms, settings) = fixture();
    // both groups carry a rule over an unknown opcode: the cycle must be
    // found before any rule is inspected
    let a = group("a", Some(1), vec![rewrite("bogus", &["x"], "bogus", &["x"])]);
    let b = group("b", Some(0), vec![rewrite("bogus", &["x"], "bogus", &["x"])]);
    let e = expect_err(build(vec![a, b], &insts, &imms, &settings));
    assert_eq!(e, DefError::Cycle);
}

#[test]
fn self_chain_is_a_cycle() {
    let (insts, imms, settings) = fixture();
    let a = group("a", Some(0), Vec::new());
    assert_eq!(expect_err(build(vec![a], &insts, &imms, &settings)), DefError::Cycle);
}

#[test]
fn chain_outside_the_list_is_unknown() {
    let (insts, imms, settings) = fixture();
    let a = group("a", Some(3), Vec::new());
    assert_eq!(
        expect_err(build(vec![a], &insts, &imms, &settings)),
        DefError::UnknownReference
    );
}

#[test]
fn duplicate_group_names_are_rejected() {
    let (insts, imms, settings) = fixture();
    let a = group("narrow", None, Vec::new());
    let b = group("narrow", None, Vec::new());
    assert_eq!(
        expect_err(build(vec![a, b], &insts, &imms, &settings)),
        DefError::DuplicateName
    );
}

#[test]
fn escaping_replacement_variable_is_rejected() {
    let (insts, imms, settings) = fixture();
    // the replacement references y; only x appears in the source pattern
    let t = rewrite("isub", &["x"], "iadd", &["y"]);
    let a = group("a", None, vec![t]);
    assert_eq!(
        expect_err(build(vec![a], &insts, &imms, &settings)),
        DefError::ShapeMismatch
    );
}

#[test]
fn bound_replacement_variables_are_accepted() {
    let (insts, imms, settings) = fixture();
    let t = rewrite("isub", &["x", "y"], "iadd", &["y", "x"]);
    let a = group("a", None, vec![t]);
    match build(vec![a], &insts, &imms, &settings) {
        Ok(tg) => {
            assert_eq!(tg.len(), 1);
            assert_eq!(tg.get(0).name.as_str(), "a");
            assert_eq!(tg.get(0).transforms[0].replacement[0].opcode.as_str(), "iadd");
        },
        Err(_) => panic!("a well-formed group was rejected"),
    }
}

#[test]
fn unknown_source_opcode_is_rejected() {
    let (insts, imms, settings) = fixture();
    let t = rewrite("bogus", &["x"], "iadd", &["x"]);
    let a = group("a", None, vec![t]);
    assert_eq!(
        expect_err(build(vec![a], &insts, &imms, &settings)),
        DefError::UnknownReference
    );
}

#[test]
fn unknown_replacement_opcode_is_rejected() {
    let (insts, imms, settings) = fixture();
    let t = rewrite("isub", &["x"], "bogus", &["x"]);
    let a = group("a", None, vec![t]);
    assert_eq!(
        expect_err(build(vec![a], &insts, &imms, &settings)),
        DefError::UnknownReference
    );
}

#[test]
fn empty_replacement_is_rejected() {
    let (insts, imms, settings) = fixture();
    let t = Transform {
        source: Pattern { opcode: String::from("isub"), args: Vec::new() },
        replacement: Vec::new(),
        guard: None,
    };
    let a = group("a", None, vec![t]);
    assert_eq!(
        expect_err(build(vec![a], &insts, &imms, &settings)),
        DefError::ShapeMismatch
    );
}

#[test]
fn unknown_guard_predicate_is_rejected() {
    let (insts, imms, settings) = fixture();
    let mut t = rewrite("isub", &["x"], "iadd", &["x"]);
    t.guard = Some(String::from("no_such_predicate"));
    let a = group("a", None, vec![t]);
    assert_eq!(
        expect_err(build(vec![a], &insts, &imms, &settings)),
        DefError::UnknownReference
    );
}

#[test]
fn known_guard_predicate_is_accepted() {
    let (insts, imms, settings) = fixture();
    let mut t = rewrite("isub", &["x"], "iadd", &["x"]);
    t.guard = Some(String::from("use_simd"));
    let a = group("a", None, vec![t]);
    assert!(build(vec![a], &insts, &imms, &settings).is_ok());
}

#[test]
fn literal_outside_immediate_catalog_is_rejected() {
    let (insts, imms, settings) = fixture();
    let t = Transform {
        source: Pattern {
            opcode: String::from("isub"),
            args: vec![
                PatternArg::Var(String::from("x")),
                PatternArg::Literal { imm: 4, value: 1 },
            ],
        },
        replacement: vec![Pattern {
            opcode: String::from("iadd"),
            args: vec![PatternArg::Var(String::from("x"))],
        }],
        guard: None,
    };
    let a = group("a", None, vec![t]);
    assert_eq!(
        expect_err(build(vec![a], &insts, &imms, &settings)),
        DefError::UnknownReference
    );
}

#[test]
fn acyclic_chain_keeps_declaration_order() {
    let (insts, imms, settings) = fixture();
    let a = group("narrow", Some(1), vec![rewrite("isub", &["x"], "iadd", &["x"])]);
    let b = group("expand", None, Vec::new());
    match build(vec![a, b], &insts, &imms, &settings) {
        Ok(tg) => {
            assert_eq!(tg.len(), 2);
            assert_eq!(tg.get(0).name.as_str(), "narrow");
            assert_eq!(tg.get(0).chain, Some(1));
            assert_eq!(tg.get(1).name.as_str(), "expand");
            assert_eq!(tg.get(1).chain, None);
        },
        Err(_) => panic!("an acyclic chain was rejected"),
    }
}

fn bool_setting(name: &str) -> Setting {
    Setting {
        name: String::from(name),
        kind: SettingKind::Boolean { default_value: false },
        implies: Vec::new(),
    }
}

fn plain_group(name: &str) -> SettingGroup {
    SettingGroup {
        name: String::from(name),
        settings: vec![bool_setting("flag")],
        presets: Vec::new(),
        predicates: Vec::new(),
        sub_groups: Vec::new(),
    }
}

#[test]
fn duplicate_setting_group_name_is_rejected() {
    let mut sgs = SettingGroups::new();
    assert_eq!(sgs.add_group(plain_group("shared")), Ok(0));
    assert_eq!(sgs.add_group(plain_group("shared")), Err(DefError::DuplicateName));
}

#[test]
fn duplicate_setting_name_is_rejected() {
    let mut sgs = SettingGroups::new();
    let mut g = plain_group("shared");
    g.settings.push(bool_setting("flag"));
    assert_eq!(sgs.add_group(g), Err(DefError::DuplicateName));
}

#[test]
fn sub_group_must_be_registered_earlier() {
    let mut sgs = SettingGroups::new();
    let mut g = plain_group("parent");
    g.sub_groups.push(0);
    assert_eq!(sgs.add_group(g), Err(DefError::UnknownReference));
    assert_eq!(sgs.add_group(plain_group("base")), Ok(0));
    let mut p = plain_group("parent");
    p.sub_groups.push(0);
    assert_eq!(sgs.add_group(p), Ok(1));
}

#[test]
fn enumerated_default_must_be_a_value() {
    let mut sgs = SettingGroups::new();
    let g = SettingGroup {
        name: String::from("shared"),
        settings: vec![Setting {
            name: String::from("opt_level"),
            kind: SettingKind::Enumerated {
                values: vec![String::from("none"), String::from("speed")],
                default_value: 2,
            },
            implies: Vec::new(),
        }],
        presets: Vec::new(),
        predicates: Vec::new(),
        sub_groups: Vec::new(),
    };
    assert_eq!(sgs.add_group(g), Err(DefError::ShapeMismatch));
}

#[test]
fn preset_value_must_fit_the_setting() {
    let mut sgs = SettingGroups::new();
    let mut g = plain_group("shared");
    g.presets.push(Preset {
        name: String::from("fast"),
        entries: vec![PresetEntry { setting: 0, value: SettingValue::Numeric(3) }],
    });
    assert_eq!(sgs.add_group(g), Err(DefError::ShapeMismatch));
}

#[test]
fn preset_assignment_must_name_a_setting() {
    let mut sgs = SettingGroups::new();
    let mut g = plain_group("shared");
    g.presets.push(Preset {
        name: String::from("fast"),
        entries: vec![PresetEntry { setting: 9, value: SettingValue::Boolean(true) }],
    });
    assert_eq!(sgs.add_group(g), Err(DefError::UnknownReference));
}

#[test]
fn predicate_over_missing_setting_is_rejected() {
    let mut sgs = SettingGroups::new();
    let mut g = plain_group("shared");
    g.predicates.push(Predicate { name: String::from("p"), expr: PredExpr::IsSet(4) });
    assert_eq!(sgs.add_group(g), Err(DefError::UnknownReference));
}

#[test]
fn predicate_expression_structure_is_validated() {
    let mut sgs = SettingGroups::new();
    let mut g = plain_group("shared");
    g.settings.push(bool_setting("other"));
    g.predicates.push(Predicate {
        name: String::from("both"),
        expr: PredExpr::And(
            Box::new(PredExpr::IsSet(0)),
            Box::new(PredExpr::Not(Box::new(PredExpr::IsSet(1)))),
        ),
    });
    assert_eq!(sgs.add_group(g), Ok(0));
    assert!(sgs.contains_predicate("both"));
    assert!(!sgs.contains_predicate("neither"));
}

#[test]
fn implication_target_must_exist() {
    let mut sgs = SettingGroups::new();
    let mut g = plain_group("shared");
    g.settings[0].implies.push(7);
    assert_eq!(sgs.add_group(g), Err(DefError::UnknownReference));
}
