//! Build-time construction of a target-independent instruction-set
//! description: operand-kind catalogs, interned encoding formats, validated
//! instruction definitions, compile-time setting groups, and a rule-based
//! instruction-rewriting (legalization) system. The construction is one
//! deterministic in-memory pass; every structural invariant is checked while
//! the description is assembled, so the later code-emission stage never sees
//! a malformed reference.

use vstd::prelude::*;
use vstd::string::StringExecFns;

mod names;

pub mod error;
pub mod formats;
pub mod immediates;
pub mod instructions;
pub mod legalize;
pub mod operands;
pub mod settings;

use crate::formats::{FormatModel, FormatRegistry};
use crate::immediates::{ImmModel, Immediate, Immediates};
use crate::instructions::{
    InstModel, Instruction, InstructionCatalog, InstructionFlags, ResultModel, ResultType,
};
use crate::legalize::{
    arg_models, Pattern, PatternArg, PatternArgModel, PatternModel, Transform, TransformGroup,
    TransformGroupModel, TransformGroups, TransformModel,
};
use crate::operands::{KindModel, OperandCategory, OperandKind, OperandKinds};
use crate::settings::{
    GroupModel, PredExpr, Predicate, PredicateModel, Preset, PresetEntry, PresetModel, Setting,
    SettingGroup, SettingGroups, SettingKind, SettingKindModel, SettingModel, SettingValue,
};

verus! {

/// The immutable aggregate snapshot of the whole description, built exactly
/// once by [`define`] and handed to the emission stage. Nothing mutates it
/// afterwards.
pub struct Definitions {
    pub settings: SettingGroups,
    pub operand_kinds: OperandKinds,
    pub imm: Immediates,
    pub format_registry: FormatRegistry,
    pub instructions: InstructionCatalog,
    pub transform_groups: TransformGroups,
}

impl Definitions {
    /// Internal consistency of the whole aggregate: every catalog holds its
    /// own invariant, every format is valid for the operand-kind catalog,
    /// every instruction matches its format, and every transform group is
    /// structurally sound against the instruction, immediate, and setting
    /// catalogs.
    pub open spec fn wf(&self) -> bool {
        &&& self.operand_kinds.wf()
        &&& self.imm.wf()
        &&& self.format_registry.wf()
        &&& self.format_registry.valid_for(self.operand_kinds@)
        &&& self.instructions.wf(self.format_registry@)
        &&& self.settings.wf()
        &&& self.transform_groups.wf(self.instructions, self.imm@, self.settings)
    }
}

/// The shared operand kinds, in declaration order: the value and entity
/// kinds first, then one kind for each immediate.
pub open spec fn shared_kind_models() -> Seq<KindModel> {
    seq![
        KindModel {
            name: "value"@,
            category: OperandCategory::ValueOperand,
            accepted_type: "ir_value"@,
            doc: "an ssa value operand"@,
        },
        KindModel {
            name: "block"@,
            category: OperandCategory::EntityReference,
            accepted_type: "ir_block"@,
            doc: "a basic block in the same function"@,
        },
        KindModel {
            name: "func_ref"@,
            category: OperandCategory::EntityReference,
            accepted_type: "ir_func_ref"@,
            doc: "an external function"@,
        },
        KindModel {
            name: "variable_args"@,
            category: OperandCategory::VariableOperandList,
            accepted_type: "ir_value_list"@,
            doc: "a variable-length list of value operands"@,
        },
        KindModel {
            name: "imm64"@,
            category: OperandCategory::ImmediateOperand,
            accepted_type: "ir_imm64"@,
            doc: "a 64-bit immediate integer"@,
        },
        KindModel {
            name: "intcc"@,
            category: OperandCategory::ImmediateOperand,
            accepted_type: "ir_intcc"@,
            doc: "an integer condition code"@,
        },
        KindModel {
            name: "offset32"@,
            category: OperandCategory::ImmediateOperand,
            accepted_type: "ir_offset32"@,
            doc: "a 32-bit address offset"@,
        },
    ]
}

/// The shared immediates, in declaration order.
pub open spec fn shared_imm_models() -> Seq<ImmModel> {
    seq![
        ImmModel {
            name: "imm64"@,
            accepted_type: "ir_imm64"@,
            default_value: Some(0u64),
            doc: "a 64-bit immediate integer"@,
        },
        ImmModel {
            name: "intcc"@,
            accepted_type: "ir_intcc"@,
            default_value: None,
            doc: "an integer condition code"@,
        },
        ImmModel {
            name: "offset32"@,
            accepted_type: "ir_offset32"@,
            default_value: Some(0u64),
            doc: "a 32-bit address offset"@,
        },
    ]
}

/// The shared formats, in interning order, over the positions of
/// [`shared_kind_models`].
pub open spec fn shared_format_models() -> Seq<FormatModel> {
    seq![
        FormatModel { kinds: seq![4usize], has_varargs: false, multi_results: false },
        FormatModel { kinds: seq![0usize, 0usize], has_varargs: false, multi_results: false },
        FormatModel { kinds: seq![0usize, 4usize], has_varargs: false, multi_results: false },
        FormatModel {
            kinds: seq![5usize, 0usize, 0usize],
            has_varargs: false,
            multi_results: false,
        },
        FormatModel { kinds: seq![2usize, 3usize], has_varargs: true, multi_results: true },
    ]
}

/// The flags of an instruction with no side effects.
pub open spec fn no_flags() -> InstructionFlags {
    InstructionFlags { can_trap: false, can_access_memory: false, is_terminator: false, is_call: false }
}

/// The shared instructions, in declaration order, over the handles of
/// [`shared_format_models`] and the positions of [`shared_kind_models`].
pub open spec fn shared_inst_models() -> Seq<InstModel> {
    seq![
        InstModel {
            opcode: "iconst"@,
            format: 0,
            operands: seq![4usize],
            ctrl_typevar: None,
            results: seq![ResultModel::Fixed("i64"@)],
            flags: no_flags(),
            doc: "integer constant"@,
        },
        InstModel {
            opcode: "iadd"@,
            format: 1,
            operands: seq![0usize, 0usize],
            ctrl_typevar: Some(0usize),
            results: seq![ResultModel::Controlling],
            flags: no_flags(),
            doc: "wrapping integer addition"@,
        },
        InstModel {
            opcode: "isub"@,
            format: 1,
            operands: seq![0usize, 0usize],
            ctrl_typevar: Some(0usize),
            results: seq![ResultModel::Controlling],
            flags: no_flags(),
            doc: "wrapping integer subtraction"@,
        },
        InstModel {
            opcode: "iadd_imm"@,
            format: 2,
            operands: seq![0usize, 4usize],
            ctrl_typevar: Some(0usize),
            results: seq![ResultModel::Controlling],
            flags: no_flags(),
            doc: "wrapping integer addition of an immediate"@,
        },
        InstModel {
            opcode: "icmp"@,
            format: 3,
            operands: seq![5usize, 0usize, 0usize],
            ctrl_typevar: Some(1usize),
            results: seq![ResultModel::Fixed("b1"@)],
            flags: no_flags(),
            doc: "integer comparison"@,
        },
        InstModel {
            opcode: "call"@,
            format: 4,
            operands: seq![2usize, 3usize],
            ctrl_typevar: None,
            results: seq![],
            flags: InstructionFlags {
                can_trap: false,
                can_access_memory: false,
                is_terminator: false,
                is_call: true,
            },
            doc: "direct function call"@,
        },
    ]
}

/// The shared setting group.
pub open spec fn shared_group_models() -> Seq<GroupModel> {
    seq![
        GroupModel {
            name: "shared"@,
            settings: seq![
                SettingModel {
                    name: "enable_simd"@,
                    kind: SettingKindModel::Boolean { default_value: false },
                    implies: seq![],
                },
                SettingModel {
                    name: "avoid_div_traps"@,
                    kind: SettingKindModel::Boolean { default_value: true },
                    implies: seq![],
                },
                SettingModel {
                    name: "opt_level"@,
                    kind: SettingKindModel::Enumerated {
                        values: seq!["none"@, "speed"@, "speed_and_size"@],
                        default_value: 0,
                    },
                    implies: seq![],
                },
            ],
            presets: seq![
                PresetModel {
                    name: "fast"@,
                    entries: seq![
                        PresetEntry { setting: 2, value: SettingValue::Enumerated(1) },
                        PresetEntry { setting: 0, value: SettingValue::Boolean(true) },
                    ],
                },
            ],
            predicates: seq![PredicateModel { name: "use_simd"@, expr: PredExpr::IsSet(0) }],
            sub_groups: seq![],
        },
    ]
}

/// The shared transform groups: `narrow` falls back to `expand`.
pub open spec fn shared_tgroup_models() -> Seq<TransformGroupModel> {
    seq![
        TransformGroupModel {
            name: "narrow"@,
            chain: Some(1usize),
            transforms: seq![
                TransformModel {
                    source: PatternModel {
                        opcode: "isub"@,
                        args: seq![PatternArgModel::Var("x"@), PatternArgModel::Var("y"@)],
                    },
                    replacement: seq![
                        PatternModel {
                            opcode: "iadd"@,
                            args: seq![PatternArgModel::Var("y"@), PatternArgModel::Var("x"@)],
                        },
                    ],
                    guard: None,
                },
            ],
        },
        TransformGroupModel {
            name: "expand"@,
            chain: None,
            transforms: seq![
                TransformModel {
                    source: PatternModel {
                        opcode: "iadd_imm"@,
                        args: seq![
                            PatternArgModel::Var("x"@),
                            PatternArgModel::Literal { imm: 0, value: 1 },
                        ],
                    },
                    replacement: seq![
                        PatternModel {
                            opcode: "iadd"@,
                            args: seq![PatternArgModel::Var("x"@), PatternArgModel::Var("x"@)],
                        },
                    ],
                    guard: Some("use_simd"@),
                },
            ],
        },
    ]
}

/// The postcondition of [`define`]: the aggregate is exactly the shared
/// description, catalog by catalog.
pub open spec fn is_shared_definitions(d: Definitions) -> bool {
    &&& d.operand_kinds@ == shared_kind_models()
    &&& d.imm@ == shared_imm_models()
    &&& d.format_registry@ == shared_format_models()
    &&& d.instructions@ == shared_inst_models()
    &&& d.settings@ == shared_group_models()
    &&& d.transform_groups@ == shared_tgroup_models()
}

/// Law: construction is deterministic. Two independently built aggregates
/// that both satisfy [`define`]'s postcondition agree catalog by catalog:
/// the same names in the same iteration order, the same handle topology, the
/// same rule ordering.
pub proof fn lemma_define_deterministic(d1: Definitions, d2: Definitions)
    requires
        is_shared_definitions(d1),
        is_shared_definitions(d2),
    ensures
        d1.operand_kinds@ == d2.operand_kinds@,
        d1.imm@ == d2.imm@,
        d1.format_registry@ == d2.format_registry@,
        d1.instructions@ == d2.instructions@,
        d1.settings@ == d2.settings@,
        d1.transform_groups@ == d2.transform_groups@,
{
}

proof fn shared_name_facts()
    ensures
        "value"@ != "block"@,
        "value"@ != "func_ref"@,
        "value"@ != "variable_args"@,
        "value"@ != "imm64"@,
        "value"@ != "intcc"@,
        "value"@ != "offset32"@,
        "block"@ != "func_ref"@,
        "block"@ != "variable_args"@,
        "block"@ != "imm64"@,
        "block"@ != "intcc"@,
        "block"@ != "offset32"@,
        "func_ref"@ != "variable_args"@,
        "func_ref"@ != "imm64"@,
        "func_ref"@ != "intcc"@,
        "func_ref"@ != "offset32"@,
        "variable_args"@ != "imm64"@,
        "variable_args"@ != "intcc"@,
        "variable_args"@ != "offset32"@,
        "imm64"@ != "intcc"@,
        "imm64"@ != "offset32"@,
        "intcc"@ != "offset32"@,
        "iconst"@ != "iadd"@,
        "iconst"@ != "isub"@,
        "iconst"@ != "iadd_imm"@,
        "iconst"@ != "icmp"@,
        "iconst"@ != "call"@,
        "iadd"@ != "isub"@,
        "iadd"@ != "iadd_imm"@,
        "iadd"@ != "icmp"@,
        "iadd"@ != "call"@,
        "isub"@ != "iadd_imm"@,
        "isub"@ != "icmp"@,
        "isub"@ != "call"@,
        "iadd_imm"@ != "icmp"@,
        "iadd_imm"@ != "call"@,
        "icmp"@ != "call"@,
        "enable_simd"@ != "avoid_div_traps"@,
        "enable_simd"@ != "opt_level"@,
        "avoid_div_traps"@ != "opt_level"@,
        "narrow"@ != "expand"@,
{
    broadcast use vstd::string::group_string_axioms;

    reveal_strlit("value");
    reveal_strlit("block");
    reveal_strlit("func_ref");
    reveal_strlit("variable_args");
    reveal_strlit("imm64");
    reveal_strlit("intcc");
    reveal_strlit("offset32");
    reveal_strlit("iconst");
    reveal_strlit("iadd");
    reveal_strlit("isub");
    reveal_strlit("iadd_imm");
    reveal_strlit("icmp");
    reveal_strlit("call");
    reveal_strlit("enable_simd");
    reveal_strlit("avoid_div_traps");
    reveal_strlit("opt_level");
    reveal_strlit("narrow");
    reveal_strlit("expand");
    assert("value"@[0] != "block"@[0]);
    assert("value"@ != "block"@);
    assert("value"@.len() != "func_ref"@.len());
    assert("value"@ != "func_ref"@);
    assert("value"@.len() != "variable_args"@.len());
    assert("value"@ != "variable_args"@);
    assert("value"@[0] != "imm64"@[0]);
    assert("value"@ != "imm64"@);
    assert("value"@[0] != "intcc"@[0]);
    assert("value"@ != "intcc"@);
    assert("value"@.len() != "offset32"@.len());
    assert("value"@ != "offset32"@);
    assert("block"@.len() != "func_ref"@.len());
    assert("block"@ != "func_ref"@);
    assert("block"@.len() != "variable_args"@.len());
    assert("block"@ != "variable_args"@);
    assert("block"@[0] != "imm64"@[0]);
    assert("block"@ != "imm64"@);
    assert("block"@[0] != "intcc"@[0]);
    assert("block"@ != "intcc"@);
    assert("block"@.len() != "offset32"@.len());
    assert("block"@ != "offset32"@);
    assert("func_ref"@.len() != "variable_args"@.len());
    assert("func_ref"@ != "variable_args"@);
    assert("func_ref"@.len() != "imm64"@.len());
    assert("func_ref"@ != "imm64"@);
    assert("func_ref"@.len() != "intcc"@.len());
    assert("func_ref"@ != "intcc"@);
    assert("func_ref"@[0] != "offset32"@[0]);
    assert("func_ref"@ != "offset32"@);
    assert("variable_args"@.len() != "imm64"@.len());
    assert("variable_args"@ != "imm64"@);
    assert("variable_args"@.len() != "intcc"@.len());
    assert("variable_args"@ != "intcc"@);
    assert("variable_args"@.len() != "offset32"@.len());
    assert("variable_args"@ != "offset32"@);
    assert("imm64"@[1] != "intcc"@[1]);
    assert("imm64"@ != "intcc"@);
    assert("imm64"@.len() != "offset32"@.len());
    assert("imm64"@ != "offset32"@);
    assert("intcc"@.len() != "offset32"@.len());
    assert("intcc"@ != "offset32"@);
    assert("iconst"@.len() != "iadd"@.len());
    assert("iconst"@ != "iadd"@);
    assert("iconst"@.len() != "isub"@.len());
    assert("iconst"@ != "isub"@);
    assert("iconst"@.len() != "iadd_imm"@.len());
    assert("iconst"@ != "iadd_imm"@);
    assert("iconst"@.len() != "icmp"@.len());
    assert("iconst"@ != "icmp"@);
    assert("iconst"@.len() != "call"@.len());
    assert("iconst"@ != "call"@);
    assert("iadd"@[1] != "isub"@[1]);
    assert("iadd"@ != "isub"@);
    assert("iadd"@.len() != "iadd_imm"@.len());
    assert("iadd"@ != "iadd_imm"@);
    assert("iadd"@[1] != "icmp"@[1]);
    assert("iadd"@ != "icmp"@);
    assert("iadd"@[0] != "call"@[0]);
    assert("iadd"@ != "call"@);
    assert("isub"@.len() != "iadd_imm"@.len());
    assert("isub"@ != "iadd_imm"@);
    assert("isub"@[1] != "icmp"@[1]);
    assert("isub"@ != "icmp"@);
    assert("isub"@[0] != "call"@[0]);
    assert("isub"@ != "call"@);
    assert("iadd_imm"@.len() != "icmp"@.len());
    assert("iadd_imm"@ != "icmp"@);
    assert("iadd_imm"@.len() != "call"@.len());
    assert("iadd_imm"@ != "call"@);
    assert("icmp"@[0] != "call"@[0]);
    assert("icmp"@ != "call"@);
    assert("enable_simd"@.len() != "avoid_div_traps"@.len());
    assert("enable_simd"@ != "avoid_div_traps"@);
    assert("enable_simd"@.len() != "opt_level"@.len());
    assert("enable_simd"@ != "opt_level"@);
    assert("avoid_div_traps"@.len() != "opt_level"@.len());
    assert("avoid_div_traps"@ != "opt_level"@);
    assert("narrow"@[0] != "expand"@[0]);
    assert("narrow"@ != "expand"@);
}

fn refs1(a: usize) -> (r: Vec<usize>)
    ensures
        r@ == seq![a],
{
    let mut v: Vec<usize> = Vec::new();
    v.push(a);
    proof {
        assert(v@ =~= seq![a]);
    }
    v
}

fn refs2(a: usize, b: usize) -> (r: Vec<usize>)
    ensures
        r@ == seq![a, b],
{
    let mut v: Vec<usize> = Vec::new();
    v.push(a);
    v.push(b);
    proof {
        assert(v@ =~= seq![a, b]);
    }
    v
}

fn refs3(a: usize, b: usize, c: usize) -> (r: Vec<usize>)
    ensures
        r@ == seq![a, b, c],
{
    let mut v: Vec<usize> = Vec::new();
    v.push(a);
    v.push(b);
    v.push(c);
    proof {
        assert(v@ =~= seq![a, b, c]);
    }
    v
}

fn kind(name: &str, category: OperandCategory, accepted_type: &str, doc: &str) -> (r: OperandKind)
    ensures
        r@ == (KindModel { name: name@, category, accepted_type: accepted_type@, doc: doc@ }),
{
    OperandKind {
        name: String::from_str(name),
        category,
        accepted_type: String::from_str(accepted_type),
        doc: String::from_str(doc),
    }
}

fn immediate(name: &str, accepted_type: &str, default_value: Option<u64>, doc: &str) -> (r:
    Immediate)
    ensures
        r@ == (ImmModel { name: name@, accepted_type: accepted_type@, default_value, doc: doc@ }),
{
    Immediate {
        name: String::from_str(name),
        accepted_type: String::from_str(accepted_type),
        default_value,
        doc: String::from_str(doc),
    }
}

fn var_arg(name: &str) -> (r: PatternArg)
    ensures
        r@ == PatternArgModel::Var(name@),
{
    PatternArg::Var(String::from_str(name))
}

fn template2(opcode: &str, a: PatternArg, b: PatternArg) -> (r: Pattern)
    ensures
        r@ == (PatternModel { opcode: opcode@, args: seq![a@, b@] }),
{
    let ghost am = a@;
    let ghost bm = b@;
    let mut args: Vec<PatternArg> = Vec::new();
    args.push(a);
    args.push(b);
    let r = Pattern { opcode: String::from_str(opcode), args };
    proof {
        assert(arg_models(r.args@) =~= seq![am, bm]);
    }
    r
}

fn shared_setting_group() -> (r: SettingGroup)
    ensures
        r@ == shared_group_models()[0],
{
    let mut group_settings: Vec<Setting> = Vec::new();
    group_settings.push(
        Setting {
            name: String::from_str("enable_simd"),
            kind: SettingKind::Boolean { default_value: false },
            implies: Vec::new(),
        },
    );
    group_settings.push(
        Setting {
            name: String::from_str("avoid_div_traps"),
            kind: SettingKind::Boolean { default_value: true },
            implies: Vec::new(),
        },
    );
    let mut values: Vec<String> = Vec::new();
    values.push(String::from_str("none"));
    values.push(String::from_str("speed"));
    values.push(String::from_str("speed_and_size"));
    proof {
        assert(values@.map_values(|v: String| v@) =~= seq!["none"@, "speed"@, "speed_and_size"@]);
    }
    group_settings.push(
        Setting {
            name: String::from_str("opt_level"),
            kind: SettingKind::Enumerated { values, default_value: 0 },
            implies: Vec::new(),
        },
    );
    let mut entries: Vec<PresetEntry> = Vec::new();
    entries.push(PresetEntry { setting: 2, value: SettingValue::Enumerated(1) });
    entries.push(PresetEntry { setting: 0, value: SettingValue::Boolean(true) });
    let mut presets: Vec<Preset> = Vec::new();
    presets.push(Preset { name: String::from_str("fast"), entries });
    let mut predicates: Vec<Predicate> = Vec::new();
    predicates.push(Predicate { name: String::from_str("use_simd"), expr: PredExpr::IsSet(0) });
    let r = SettingGroup {
        name: String::from_str("shared"),
        settings: group_settings,
        presets,
        predicates,
        sub_groups: Vec::new(),
    };
    proof {
        assert(r@.settings =~= shared_group_models()[0].settings);
        assert(r@.presets[0].entries =~= shared_group_models()[0].presets[0].entries);
        assert(r@.presets =~= shared_group_models()[0].presets);
        assert(r@.predicates =~= shared_group_models()[0].predicates);
        assert(r@.sub_groups =~= shared_group_models()[0].sub_groups);
        assert(r@ == shared_group_models()[0]);
    }
    r
}

fn shared_transform_groups() -> (r: Vec<TransformGroup>)
    ensures
        crate::legalize::tgroup_models(r@) == shared_tgroup_models(),
{
    // narrow: isub x, y  =>  iadd y, x
    let src = template2("isub", var_arg("x"), var_arg("y"));
    let repl = template2("iadd", var_arg("y"), var_arg("x"));
    let ghost replm = repl@;
    let mut replacement: Vec<Pattern> = Vec::new();
    replacement.push(repl);
    proof {
        assert(crate::legalize::pattern_models(replacement@) =~= seq![replm]);
    }
    let t_narrow = Transform { source: src, replacement, guard: None };
    let ghost tnm = t_narrow@;
    let mut narrow_transforms: Vec<Transform> = Vec::new();
    narrow_transforms.push(t_narrow);
    proof {
        assert(crate::legalize::transform_models(narrow_transforms@) =~= seq![tnm]);
    }
    let narrow = TransformGroup {
        name: String::from_str("narrow"),
        chain: Some(1),
        transforms: narrow_transforms,
    };
    // expand: iadd_imm x, 1  =>  iadd x, x, gated on the simd predicate
    let src = template2("iadd_imm", var_arg("x"), PatternArg::Literal { imm: 0, value: 1 });
    let repl = template2("iadd", var_arg("x"), var_arg("x"));
    let ghost replm = repl@;
    let mut replacement: Vec<Pattern> = Vec::new();
    replacement.push(repl);
    proof {
        assert(crate::legalize::pattern_models(replacement@) =~= seq![replm]);
    }
    let t_expand = Transform {
        source: src,
        replacement,
        guard: Some(String::from_str("use_simd")),
    };
    let ghost tem = t_expand@;
    let mut expand_transforms: Vec<Transform> = Vec::new();
    expand_transforms.push(t_expand);
    proof {
        assert(crate::legalize::transform_models(expand_transforms@) =~= seq![tem]);
    }
    let expand = TransformGroup {
        name: String::from_str("expand"),
        chain: None,
        transforms: expand_transforms,
    };
    let ghost nm = narrow@;
    let ghost em = expand@;
    let mut r: Vec<TransformGroup> = Vec::new();
    r.push(narrow);
    r.push(expand);
    proof {
        assert(crate::legalize::tgroup_models(r@) =~= seq![nm, em]);
        assert(seq![nm, em] =~= shared_tgroup_models());
    }
    r
}

/// The shared transform groups pass every structural check of the builder.
proof fn lemma_shared_groups_build(
    gs: Seq<TransformGroupModel>,
    insts: InstructionCatalog,
    imms: Immediates,
    settings: SettingGroups,
)
    requires
        gs == shared_tgroup_models(),
        insts@ == shared_inst_models(),
        imms@ == shared_imm_models(),
        settings@ == shared_group_models(),
    ensures
        crate::legalize::build_error(gs, insts, imms@, settings) is None,
{
    shared_name_facts();
    let chains = crate::legalize::chains_of(gs);
    assert(chains =~= seq![Some(1usize), None::<usize>]);
    assert(crate::legalize::group_names_unique(gs)) by {
        assert(gs[0].name == "narrow"@ && gs[1].name == "expand"@);
    }
    assert(crate::legalize::chains_in_range(chains)) by {
        assert forall|j: int| 0 <= j < chains.len() implies ((#[trigger] chains[j]) matches Some(c)
            ==> c < chains.len()) by {
            if j == 0 {
                assert(chains[0] == Some(1usize));
            } else {
                assert(chains[1] == None::<usize>);
            }
        }
    }
    assert(crate::legalize::chains_acyclic(chains)) by {
        reveal_with_fuel(crate::legalize::chain_reach, 4);
        assert(crate::legalize::chain_reach(chains, 0, 1) == Some(1int));
        assert(crate::legalize::chain_reach(chains, 0, 2) is None);
        assert(crate::legalize::chain_reach(chains, 1, 1) is None);
        assert(crate::legalize::chain_reach(chains, 1, 2) is None);
        assert forall|i: int| 0 <= i < chains.len() implies crate::legalize::chain_reach(
            chains,
            i,
            chains.len() as nat,
        ) is None by {
            if i == 0 {
                assert(crate::legalize::chain_reach(chains, 0, 2) is None);
            } else {
                assert(crate::legalize::chain_reach(chains, 1, 2) is None);
            }
        }
    }
    assert(insts.contains_opcode("iadd"@)) by {
        assert(insts@[1].opcode == "iadd"@);
    }
    assert(insts.contains_opcode("isub"@)) by {
        assert(insts@[2].opcode == "isub"@);
    }
    assert(insts.contains_opcode("iadd_imm"@)) by {
        assert(insts@[3].opcode == "iadd_imm"@);
    }
    let t0 = gs[0].transforms[0];
    let t1 = gs[1].transforms[0];
    assert(crate::legalize::transform_opcodes_known(t0, insts)) by {
        assert(t0.replacement[0].opcode == "iadd"@);
        assert forall|r: int| 0 <= r < t0.replacement.len() implies crate::legalize::opcode_known(
            (#[trigger] t0.replacement[r]).opcode,
            insts,
        ) by {
            assert(t0.replacement[r] == t0.replacement[0]);
        }
    }
    assert(crate::legalize::transform_opcodes_known(t1, insts)) by {
        assert(t1.replacement[0].opcode == "iadd"@);
        assert forall|r: int| 0 <= r < t1.replacement.len() implies crate::legalize::opcode_known(
            (#[trigger] t1.replacement[r]).opcode,
            insts,
        ) by {
            assert(t1.replacement[r] == t1.replacement[0]);
        }
    }
    assert(crate::legalize::groups_opcodes_known(gs, insts)) by {
        assert forall|g: int, t: int|
            0 <= g < gs.len() && 0 <= t < gs[g].transforms.len() implies
            crate::legalize::transform_opcodes_known(#[trigger] gs[g].transforms[t], insts) by {
            if g == 0 {
                assert(gs[g].transforms[t] == t0);
            } else {
                assert(gs[g].transforms[t] == t1);
            }
        }
    }
    assert(crate::legalize::transform_literals_ok(t0, imms@)) by {
        assert forall|a: int| 0 <= a < t0.source.args.len() implies ((#[trigger] t0.source.args[a])
            matches PatternArgModel::Literal { imm, .. } ==> imm < imms@.len()) by {
            if a == 0 {
                assert(t0.source.args[0] is Var);
            } else {
                assert(t0.source.args[1] is Var);
            }
        }
        assert forall|r: int| 0 <= r < t0.replacement.len() implies
            crate::legalize::pattern_literals_ok(#[trigger] t0.replacement[r], imms@) by {
            assert(t0.replacement[r] == t0.replacement[0]);
            assert forall|a: int| 0 <= a < t0.replacement[0].args.len() implies ((
            #[trigger] t0.replacement[0].args[a]) matches PatternArgModel::Literal { imm, .. }
                ==> imm < imms@.len()) by {
                if a == 0 {
                    assert(t0.replacement[0].args[0] is Var);
                } else {
                    assert(t0.replacement[0].args[1] is Var);
                }
            }
        }
    }
    assert(crate::legalize::transform_literals_ok(t1, imms@)) by {
        assert forall|a: int| 0 <= a < t1.source.args.len() implies ((#[trigger] t1.source.args[a])
            matches PatternArgModel::Literal { imm, .. } ==> imm < imms@.len()) by {
            if a == 0 {
                assert(t1.source.args[0] is Var);
            } else {
                assert(t1.source.args[1] == PatternArgModel::Literal { imm: 0, value: 1 });
            }
        }
        assert forall|r: int| 0 <= r < t1.replacement.len() implies
            crate::legalize::pattern_literals_ok(#[trigger] t1.replacement[r], imms@) by {
            assert(t1.replacement[r] == t1.replacement[0]);
            assert forall|a: int| 0 <= a < t1.replacement[0].args.len() implies ((
            #[trigger] t1.replacement[0].args[a]) matches PatternArgModel::Literal { imm, .. }
                ==> imm < imms@.len()) by {
                if a == 0 {
                    assert(t1.replacement[0].args[0] is Var);
                } else {
                    assert(t1.replacement[0].args[1] is Var);
                }
            }
        }
    }
    assert(crate::legalize::groups_literals_ok(gs, imms@)) by {
        assert forall|g: int, t: int|
            0 <= g < gs.len() && 0 <= t < gs[g].transforms.len() implies
            crate::legalize::transform_literals_ok(#[trigger] gs[g].transforms[t], imms@) by {
            if g == 0 {
                assert(gs[g].transforms[t] == t0);
            } else {
                assert(gs[g].transforms[t] == t1);
            }
        }
    }
    assert(crate::legalize::groups_replacements_nonempty(gs)) by {
        assert forall|g: int, t: int|
            0 <= g < gs.len() && 0 <= t < gs[g].transforms.len() implies (
        #[trigger] gs[g].transforms[t]).replacement.len() >= 1 by {
            if g == 0 {
                assert(gs[g].transforms[t] == t0);
            } else {
                assert(gs[g].transforms[t] == t1);
            }
        }
    }
    assert(crate::legalize::transform_vars_bound(t0)) by {
        assert(crate::legalize::pattern_binds(t0.source, "x"@)) by {
            assert(t0.source.args[0] == PatternArgModel::Var("x"@));
        }
        assert(crate::legalize::pattern_binds(t0.source, "y"@)) by {
            assert(t0.source.args[1] == PatternArgModel::Var("y"@));
        }
        assert forall|r: int| 0 <= r < t0.replacement.len() implies
            crate::legalize::pattern_vars_bound(t0.source, #[trigger] t0.replacement[r]) by {
            assert(t0.replacement[r] == t0.replacement[0]);
            assert forall|a: int| 0 <= a < t0.replacement[0].args.len() implies ((
            #[trigger] t0.replacement[0].args[a]) matches PatternArgModel::Var(v)
                ==> crate::legalize::pattern_binds(t0.source, v)) by {
                if a == 0 {
                    assert(t0.replacement[0].args[0] == PatternArgModel::Var("y"@));
                } else {
                    assert(t0.replacement[0].args[1] == PatternArgModel::Var("x"@));
                }
            }
        }
    }
    assert(crate::legalize::transform_vars_bound(t1)) by {
        assert(crate::legalize::pattern_binds(t1.source, "x"@)) by {
            assert(t1.source.args[0] == PatternArgModel::Var("x"@));
        }
        assert forall|r: int| 0 <= r < t1.replacement.len() implies
            crate::legalize::pattern_vars_bound(t1.source, #[trigger] t1.replacement[r]) by {
            assert(t1.replacement[r] == t1.replacement[0]);
            assert forall|a: int| 0 <= a < t1.replacement[0].args.len() implies ((
            #[trigger] t1.replacement[0].args[a]) matches PatternArgModel::Var(v)
                ==> crate::legalize::pattern_binds(t1.source, v)) by {
                if a == 0 {
                    assert(t1.replacement[0].args[0] == PatternArgModel::Var("x"@));
                } else {
                    assert(t1.replacement[0].args[1] == PatternArgModel::Var("x"@));
                }
            }
        }
    }
    assert(crate::legalize::groups_vars_bound(gs)) by {
        assert forall|g: int, t: int|
            0 <= g < gs.len() && 0 <= t < gs[g].transforms.len() implies
            crate::legalize::transform_vars_bound(#[trigger] gs[g].transforms[t]) by {
            if g == 0 {
                assert(gs[g].transforms[t] == t0);
            } else {
                assert(gs[g].transforms[t] == t1);
            }
        }
    }
    assert(settings.has_predicate("use_simd"@)) by {
        assert(settings@[0].predicates[0].name == "use_simd"@);
    }
    assert(crate::legalize::groups_guards_ok(gs, settings)) by {
        assert forall|g: int, t: int|
            0 <= g < gs.len() && 0 <= t < gs[g].transforms.len() implies
            crate::legalize::transform_guard_ok(#[trigger] gs[g].transforms[t], settings) by {
            if g == 0 {
                assert(gs[g].transforms[t] == t0);
                assert(t0.guard is None);
            } else {
                assert(gs[g].transforms[t] == t1);
                assert(t1.guard == Some("use_simd"@));
            }
        }
    }
}

/// The single entry point: builds the shared instruction-set description —
/// operand kinds, immediates, formats, instructions, settings, and
/// legalization transform groups — in dependency order, and returns the
/// immutable aggregate. Every registration is validated as it happens, and
/// the embedded definitions pass every check, so construction always
/// succeeds and always yields the same description.
pub fn define() -> (r: Definitions)
    ensures
        r.wf(),
        is_shared_definitions(r),
{
    proof {
        shared_name_facts();
    }
    // 1. operand kinds: entities first
    let mut operand_kinds = OperandKinds::new();
    let k_value = match operand_kinds.add(
        kind("value", OperandCategory::ValueOperand, "ir_value", "an ssa value operand"),
    ) {
        Ok(h) => h,
        Err(_) => vstd::pervasive::unreached(),
    };
    let _k_block = match operand_kinds.add(
        kind(
            "block",
            OperandCategory::EntityReference,
            "ir_block",
            "a basic block in the same function",
        ),
    ) {
        Ok(h) => h,
        Err(_) => vstd::pervasive::unreached(),
    };
    let k_func_ref = match operand_kinds.add(
        kind("func_ref", OperandCategory::EntityReference, "ir_func_ref", "an external function"),
    ) {
        Ok(h) => h,
        Err(_) => vstd::pervasive::unreached(),
    };
    let k_varargs = match operand_kinds.add(
        kind(
            "variable_args",
            OperandCategory::VariableOperandList,
            "ir_value_list",
            "a variable-length list of value operands",
        ),
    ) {
        Ok(h) => h,
        Err(_) => vstd::pervasive::unreached(),
    };
    // 2. immediates, each contributing an operand kind
    let mut imm = Immediates::new();
    let i_imm64 = match imm.add(
        immediate("imm64", "ir_imm64", Some(0), "a 64-bit immediate integer"),
    ) {
        Ok(h) => h,
        Err(_) => vstd::pervasive::unreached(),
    };
    let i_intcc = match imm.add(immediate("intcc", "ir_intcc", None, "an integer condition code"))
        {
        Ok(h) => h,
        Err(_) => vstd::pervasive::unreached(),
    };
    let i_offset32 = match imm.add(
        immediate("offset32", "ir_offset32", Some(0), "a 32-bit address offset"),
    ) {
        Ok(h) => h,
        Err(_) => vstd::pervasive::unreached(),
    };
    proof {
        assert(imm@ =~= shared_imm_models());
    }
    let k_imm64 = match operand_kinds.add(imm.operand_kind(i_imm64)) {
        Ok(h) => h,
        Err(_) => vstd::pervasive::unreached(),
    };
    let k_intcc = match operand_kinds.add(imm.operand_kind(i_intcc)) {
        Ok(h) => h,
        Err(_) => vstd::pervasive::unreached(),
    };
    let _k_offset32 = match operand_kinds.add(imm.operand_kind(i_offset32)) {
        Ok(h) => h,
        Err(_) => vstd::pervasive::unreached(),
    };
    proof {
        assert(operand_kinds@ =~= shared_kind_models());
    }
    // 3. formats, interned over the finished operand-kind catalog
    let mut format_registry = FormatRegistry::new();
    let f_unary_imm = match format_registry.intern(&operand_kinds, refs1(k_imm64), false, false) {
        Ok(h) => h,
        Err(_) => vstd::pervasive::unreached(),
    };
    let f_binary = match format_registry.intern(
        &operand_kinds,
        refs2(k_value, k_value),
        false,
        false,
    ) {
        Ok(h) => h,
        Err(_) => vstd::pervasive::unreached(),
    };
    let f_binary_imm = match format_registry.intern(
        &operand_kinds,
        refs2(k_value, k_imm64),
        false,
        false,
    ) {
        Ok(h) => h,
        Err(_) => vstd::pervasive::unreached(),
    };
    let f_int_compare = match format_registry.intern(
        &operand_kinds,
        refs3(k_intcc, k_value, k_value),
        false,
        false,
    ) {
        Ok(h) => h,
        Err(_) => vstd::pervasive::unreached(),
    };
    let f_call = match format_registry.intern(
        &operand_kinds,
        refs2(k_func_ref, k_varargs),
        true,
        true,
    ) {
        Ok(h) => h,
        Err(_) => vstd::pervasive::unreached(),
    };
    proof {
        assert(format_registry@ =~= shared_format_models());
    }
    // 4. instructions, registered against the frozen format registry
    let mut instructions = InstructionCatalog::new();
    let flags = InstructionFlags::none();
    let mut results: Vec<ResultType> = Vec::new();
    results.push(ResultType::Fixed(String::from_str("i64")));
    proof {
        assert(results@.map_values(|t: ResultType| t@) =~= seq![ResultModel::Fixed("i64"@)]);
    }
    let _iconst = match instructions.register(
        &format_registry,
        Instruction {
            opcode: String::from_str("iconst"),
            format: f_unary_imm,
            operands: refs1(k_imm64),
            ctrl_typevar: None,
            results,
            flags,
            doc: String::from_str("integer constant"),
        },
    ) {
        Ok(h) => h,
        Err(_) => vstd::pervasive::unreached(),
    };
    let mut results: Vec<ResultType> = Vec::new();
    results.push(ResultType::Controlling);
    proof {
        assert(results@.map_values(|t: ResultType| t@) =~= seq![ResultModel::Controlling]);
    }
    let _iadd = match instructions.register(
        &format_registry,
        Instruction {
            opcode: String::from_str("iadd"),
            format: f_binary,
            operands: refs2(k_value, k_value),
            ctrl_typevar: Some(0),
            results,
            flags,
            doc: String::from_str("wrapping integer addition"),
        },
    ) {
        Ok(h) => h,
        Err(_) => vstd::pervasive::unreached(),
    };
    let mut results: Vec<ResultType> = Vec::new();
    results.push(ResultType::Controlling);
    proof {
        assert(results@.map_values(|t: ResultType| t@) =~= seq![ResultModel::Controlling]);
    }
    let _isub = match instructions.register(
        &format_registry,
        Instruction {
            opcode: String::from_str("isub"),
            format: f_binary,
            operands: refs2(k_value, k_value),
            ctrl_typevar: Some(0),
            results,
            flags,
            doc: String::from_str("wrapping integer subtraction"),
        },
    ) {
        Ok(h) => h,
        Err(_) => vstd::pervasive::unreached(),
    };
    let mut results: Vec<ResultType> = Vec::new();
    results.push(ResultType::Controlling);
    proof {
        assert(results@.map_values(|t: ResultType| t@) =~= seq![ResultModel::Controlling]);
    }
    let _iadd_imm = match instructions.register(
        &format_registry,
        Instruction {
            opcode: String::from_str("iadd_imm"),
            format: f_binary_imm,
            operands: refs2(k_value, k_imm64),
            ctrl_typevar: Some(0),
            results,
            flags,
            doc: String::from_str("wrapping integer addition of an immediate"),
        },
    ) {
        Ok(h) => h,
        Err(_) => vstd::pervasive::unreached(),
    };
    let mut results: Vec<ResultType> = Vec::new();
    results.push(ResultType::Fixed(String::from_str("b1")));
    proof {
        assert(results@.map_values(|t: ResultType| t@) =~= seq![ResultModel::Fixed("b1"@)]);
    }
    let _icmp = match instructions.register(
        &format_registry,
        Instruction {
            opcode: String::from_str("icmp"),
            format: f_int_compare,
            operands: refs3(k_intcc, k_value, k_value),
            ctrl_typevar: Some(1),
            results,
            flags,
            doc: String::from_str("integer comparison"),
        },
    ) {
        Ok(h) => h,
        Err(_) => vstd::pervasive::unreached(),
    };
    let results: Vec<ResultType> = Vec::new();
    proof {
        assert(results@.map_values(|t: ResultType| t@) =~= Seq::<ResultModel>::empty());
    }
    let _call = match instructions.register(
        &format_registry,
        Instruction {
            opcode: String::from_str("call"),
            format: f_call,
            operands: refs2(k_func_ref, k_varargs),
            ctrl_typevar: None,
            results,
            flags: InstructionFlags {
                can_trap: false,
                can_access_memory: false,
                is_terminator: false,
                is_call: true,
            },
            doc: String::from_str("direct function call"),
        },
    ) {
        Ok(h) => h,
        Err(_) => vstd::pervasive::unreached(),
    };
    proof {
        assert(instructions@ =~= shared_inst_models());
    }
    // 5. settings
    let mut settings = SettingGroups::new();
    let _shared = match settings.add_group(shared_setting_group()) {
        Ok(h) => h,
        Err(_) => vstd::pervasive::unreached(),
    };
    proof {
        assert(settings@ =~= shared_group_models());
    }
    // 6. legalization transform groups
    let groups = shared_transform_groups();
    proof {
        lemma_shared_groups_build(
            crate::legalize::tgroup_models(groups@),
            instructions,
            imm,
            settings,
        );
    }
    let transform_groups = match crate::legalize::build(groups, &instructions, &imm, &settings) {
        Ok(t) => t,
        Err(_) => vstd::pervasive::unreached(),
    };
    Definitions { settings, operand_kinds, imm, format_registry, instructions, transform_groups }
}

} // verus!
