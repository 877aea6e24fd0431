use vstd::prelude::*;
use crate::error::DefError;
use crate::immediates::Immediates;
use crate::instructions::InstructionCatalog;
use crate::names::str_eq;
use crate::settings::SettingGroups;

verus! {

/// One operand of an instruction template: a named pattern variable, or an
/// immediate literal typed by an entry of the immediate catalog.
#[derive(Clone, Debug)]
pub enum PatternArg {
    Var(String),
    Literal { imm: usize, value: u64 },
}

/// Ghost model of a template operand.
pub ghost enum PatternArgModel {
    Var(Seq<char>),
    Literal { imm: usize, value: u64 },
}

impl View for PatternArg {
    type V = PatternArgModel;

    open spec fn view(&self) -> PatternArgModel {
        match self {
            PatternArg::Var(v) => PatternArgModel::Var(v@),
            PatternArg::Literal { imm, value } => PatternArgModel::Literal {
                imm: *imm,
                value: *value,
            },
        }
    }
}

/// An instruction template: an opcode and an ordered argument list of
/// pattern variables and immediate literals.
#[derive(Clone, Debug)]
pub struct Pattern {
    pub opcode: String,
    pub args: Vec<PatternArg>,
}

/// Ghost model of a template.
pub ghost struct PatternModel {
    pub opcode: Seq<char>,
    pub args: Seq<PatternArgModel>,
}

/// The models of a template's arguments.
pub open spec fn arg_models(s: Seq<PatternArg>) -> Seq<PatternArgModel> {
    s.map_values(|a: PatternArg| a@)
}

impl View for Pattern {
    type V = PatternModel;

    open spec fn view(&self) -> PatternModel {
        PatternModel { opcode: self.opcode@, args: arg_models(self.args@) }
    }
}

/// One rewrite rule: a source pattern, a replacement sequence of one or more
/// templates reusing the source's bound variables, and an optional guard
/// naming a setting predicate. Declaration order within a group is match
/// priority: when several source patterns match, the earliest-declared rule
/// wins.
#[derive(Clone, Debug)]
pub struct Transform {
    pub source: Pattern,
    pub replacement: Vec<Pattern>,
    pub guard: Option<String>,
}

/// Ghost model of a transform.
pub ghost struct TransformModel {
    pub source: PatternModel,
    pub replacement: Seq<PatternModel>,
    pub guard: Option<Seq<char>>,
}

/// The models of a list of templates.
pub open spec fn pattern_models(s: Seq<Pattern>) -> Seq<PatternModel> {
    s.map_values(|p: Pattern| p@)
}

impl View for Transform {
    type V = TransformModel;

    open spec fn view(&self) -> TransformModel {
        TransformModel {
            source: self.source@,
            replacement: pattern_models(self.replacement@),
            guard: match self.guard {
                Some(g) => Some(g@),
                None => None,
            },
        }
    }
}

/// A named, ordered set of rewrite rules, optionally chained to a fallback
/// group by its position: when no rule of this group matches, resolution
/// continues in the chain target.
#[derive(Clone, Debug)]
pub struct TransformGroup {
    pub name: String,
    pub chain: Option<usize>,
    pub transforms: Vec<Transform>,
}

/// Ghost model of a transform group.
pub ghost struct TransformGroupModel {
    pub name: Seq<char>,
    pub chain: Option<usize>,
    pub transforms: Seq<TransformModel>,
}

/// The models of a list of transforms.
pub open spec fn transform_models(s: Seq<Transform>) -> Seq<TransformModel> {
    s.map_values(|t: Transform| t@)
}

/// The models of a list of transform groups.
pub open spec fn tgroup_models(s: Seq<TransformGroup>) -> Seq<TransformGroupModel> {
    s.map_values(|g: TransformGroup| g@)
}

impl View for TransformGroup {
    type V = TransformGroupModel;

    open spec fn view(&self) -> TransformGroupModel {
        TransformGroupModel {
            name: self.name@,
            chain: self.chain,
            transforms: transform_models(self.transforms@),
        }
    }
}

/// The chain references of a list of groups, by position.
pub open spec fn chains_of(gs: Seq<TransformGroupModel>) -> Seq<Option<usize>> {
    gs.map_values(|g: TransformGroupModel| g.chain)
}

/// The group reached from `i` after `k` chain steps: `Some(i)` after zero
/// steps, and `None` from the first group without a chain target (or outside
/// the list) onwards.
pub open spec fn chain_reach(chains: Seq<Option<usize>>, i: int, k: nat) -> Option<int>
    decreases k,
{
    if k == 0 {
        Some(i)
    } else {
        match chain_reach(chains, i, (k - 1) as nat) {
            None => None,
            Some(j) => if 0 <= j < chains.len() {
                match chains[j] {
                    None => None,
                    Some(c) => Some(c as int),
                }
            } else {
                None
            },
        }
    }
}

/// Every chain reference points to a group of the list.
pub open spec fn chains_in_range(chains: Seq<Option<usize>>) -> bool {
    forall|j: int|
        0 <= j < chains.len() ==> ((#[trigger] chains[j]) matches Some(c) ==> c < chains.len())
}

/// The chain-reference graph has no cycle: from every group, following chain
/// references reaches a group without one within as many steps as there are
/// groups.
pub open spec fn chains_acyclic(chains: Seq<Option<usize>>) -> bool {
    forall|i: int| 0 <= i < chains.len() ==> chain_reach(chains, i, chains.len() as nat) is None
}

/// Group names are unique.
pub open spec fn group_names_unique(gs: Seq<TransformGroupModel>) -> bool {
    forall|i: int, j: int| 0 <= i < j < gs.len() ==> gs[i].name != gs[j].name
}

/// An opcode exists in the instruction catalog.
pub open spec fn opcode_known(n: Seq<char>, insts: InstructionCatalog) -> bool {
    insts.contains_opcode(n)
}

/// The source pattern binds the variable.
pub open spec fn pattern_binds(p: PatternModel, v: Seq<char>) -> bool {
    exists|a: int| 0 <= a < p.args.len() && p.args[a] == PatternArgModel::Var(v)
}

/// Every variable of the template is bound by the source pattern.
pub open spec fn pattern_vars_bound(src: PatternModel, p: PatternModel) -> bool {
    forall|a: int|
        0 <= a < p.args.len() ==> ((#[trigger] p.args[a]) matches PatternArgModel::Var(v)
            ==> pattern_binds(src, v))
}

/// Every variable of every replacement template is bound by the source.
pub open spec fn transform_vars_bound(t: TransformModel) -> bool {
    forall|r: int|
        0 <= r < t.replacement.len() ==> pattern_vars_bound(t.source, #[trigger] t.replacement[r])
}

/// Every immediate literal of the template references the immediate catalog.
pub open spec fn pattern_literals_ok(p: PatternModel, imms: Seq<crate::immediates::ImmModel>) -> bool {
    forall|a: int|
        0 <= a < p.args.len() ==> ((#[trigger] p.args[a]) matches PatternArgModel::Literal {
            imm,
            ..
        } ==> imm < imms.len())
}

/// The opcodes of the source and of every replacement template exist.
pub open spec fn transform_opcodes_known(t: TransformModel, insts: InstructionCatalog) -> bool {
    &&& opcode_known(t.source.opcode, insts)
    &&& forall|r: int|
        0 <= r < t.replacement.len() ==> opcode_known((#[trigger] t.replacement[r]).opcode, insts)
}

/// Every literal of the source and of every replacement references the
/// immediate catalog.
pub open spec fn transform_literals_ok(t: TransformModel, imms: Seq<crate::immediates::ImmModel>) -> bool {
    &&& pattern_literals_ok(t.source, imms)
    &&& forall|r: int|
        0 <= r < t.replacement.len() ==> pattern_literals_ok(#[trigger] t.replacement[r], imms)
}

/// The guard, if present, names a predicate of some setting group.
pub open spec fn transform_guard_ok(t: TransformModel, settings: SettingGroups) -> bool {
    t.guard matches Some(gn) ==> settings.has_predicate(gn)
}

/// Pass over all groups: every opcode named anywhere exists.
pub open spec fn groups_opcodes_known(gs: Seq<TransformGroupModel>, insts: InstructionCatalog) -> bool {
    forall|g: int, t: int|
        0 <= g < gs.len() && 0 <= t < gs[g].transforms.len() ==> transform_opcodes_known(
            #[trigger] gs[g].transforms[t],
            insts,
        )
}

/// Pass over all groups: every immediate literal is typed by the catalog.
pub open spec fn groups_literals_ok(gs: Seq<TransformGroupModel>, imms: Seq<crate::immediates::ImmModel>) -> bool {
    forall|g: int, t: int|
        0 <= g < gs.len() && 0 <= t < gs[g].transforms.len() ==> transform_literals_ok(
            #[trigger] gs[g].transforms[t],
            imms,
        )
}

/// Pass over all groups: every replacement holds at least one template.
pub open spec fn groups_replacements_nonempty(gs: Seq<TransformGroupModel>) -> bool {
    forall|g: int, t: int|
        0 <= g < gs.len() && 0 <= t < gs[g].transforms.len()
            ==> (#[trigger] gs[g].transforms[t]).replacement.len() >= 1
}

/// Pass over all groups: no pattern variable escapes its source pattern.
pub open spec fn groups_vars_bound(gs: Seq<TransformGroupModel>) -> bool {
    forall|g: int, t: int|
        0 <= g < gs.len() && 0 <= t < gs[g].transforms.len() ==> transform_vars_bound(
            #[trigger] gs[g].transforms[t],
        )
}

/// Pass over all groups: every guard names an existing predicate.
pub open spec fn groups_guards_ok(gs: Seq<TransformGroupModel>, settings: SettingGroups) -> bool {
    forall|g: int, t: int|
        0 <= g < gs.len() && 0 <= t < gs[g].transforms.len() ==> transform_guard_ok(
            #[trigger] gs[g].transforms[t],
            settings,
        )
}

/// The error with which a list of groups is rejected, or `None` when it is
/// accepted: duplicate group names, then chain references outside the list,
/// then a cycle in the chain graph — found before any rule is inspected —
/// then the rules themselves: unknown opcodes, unknown immediates, an empty
/// replacement, an escaping pattern variable, an unknown guard predicate.
pub open spec fn build_error(
    gs: Seq<TransformGroupModel>,
    insts: InstructionCatalog,
    imms: Seq<crate::immediates::ImmModel>,
    settings: SettingGroups,
) -> Option<DefError> {
    if !group_names_unique(gs) {
        Some(DefError::DuplicateName)
    } else if !chains_in_range(chains_of(gs)) {
        Some(DefError::UnknownReference)
    } else if !chains_acyclic(chains_of(gs)) {
        Some(DefError::Cycle)
    } else if !groups_opcodes_known(gs, insts) {
        Some(DefError::UnknownReference)
    } else if !groups_literals_ok(gs, imms) {
        Some(DefError::UnknownReference)
    } else if !groups_replacements_nonempty(gs) {
        Some(DefError::ShapeMismatch)
    } else if !groups_vars_bound(gs) {
        Some(DefError::ShapeMismatch)
    } else if !groups_guards_ok(gs, settings) {
        Some(DefError::UnknownReference)
    } else {
        None
    }
}

/// The validated set of transform groups, produced only by `build`.
pub struct TransformGroups(pub Vec<TransformGroup>);

impl View for TransformGroups {
    type V = Seq<TransformGroupModel>;

    open spec fn view(&self) -> Seq<TransformGroupModel> {
        tgroup_models(self.0@)
    }
}

impl TransformGroups {
    /// Everything `build` validates: unique names, chains in range and
    /// acyclic, and every rule structurally sound.
    pub open spec fn wf(
        &self,
        insts: InstructionCatalog,
        imms: Seq<crate::immediates::ImmModel>,
        settings: SettingGroups,
    ) -> bool {
        &&& group_names_unique(self@)
        &&& chains_in_range(chains_of(self@))
        &&& chains_acyclic(chains_of(self@))
        &&& groups_opcodes_known(self@, insts)
        &&& groups_literals_ok(self@, imms)
        &&& groups_replacements_nonempty(self@)
        &&& groups_vars_bound(self@)
        &&& groups_guards_ok(self@, settings)
    }

    pub fn len(&self) -> (r: usize)
        ensures
            r == self@.len(),
    {
        self.0.len()
    }

    pub fn get(&self, i: usize) -> (r: &TransformGroup)
        requires
            i < self@.len(),
        ensures
            r@ == self@[i as int],
    {
        &self.0[i]
    }
}

fn pattern_binds_exec(src: &Pattern, v: &str) -> (r: bool)
    ensures
        r == pattern_binds(src@, v@),
{
    let n = src.args.len();
    let mut a: usize = 0;
    while a < n
        invariant
            n == src@.args.len(),
            a <= n,
            forall|j: int| 0 <= j < a ==> src@.args[j] != PatternArgModel::Var(v@),
        decreases n - a,
    {
        match &src.args[a] {
            PatternArg::Var(name) => {
                if str_eq(name.as_str(), v) {
                    proof {
                        assert(src@.args[a as int] == PatternArgModel::Var(v@));
                    }
                    return true;
                }
                proof {
                    assert(src@.args[a as int] != PatternArgModel::Var(v@));
                }
            },
            PatternArg::Literal { .. } => {
                proof {
                    assert(src@.args[a as int] != PatternArgModel::Var(v@));
                }
            },
        }
        a += 1;
    }
    false
}

fn pattern_vars_bound_exec(src: &Pattern, p: &Pattern) -> (r: bool)
    ensures
        r == pattern_vars_bound(src@, p@),
{
    let n = p.args.len();
    let mut a: usize = 0;
    while a < n
        invariant
            n == p@.args.len(),
            a <= n,
            forall|j: int|
                0 <= j < a ==> ((#[trigger] p@.args[j]) matches PatternArgModel::Var(v)
                    ==> pattern_binds(src@, v)),
        decreases n - a,
    {
        match &p.args[a] {
            PatternArg::Var(name) => {
                proof {
                    assert(p@.args[a as int] == PatternArgModel::Var(name@));
                }
                if !pattern_binds_exec(src, name.as_str()) {
                    return false;
                }
            },
            PatternArg::Literal { .. } => {
                proof {
                    assert(!(p@.args[a as int] is Var));
                }
            },
        }
        a += 1;
    }
    true
}

fn pattern_literals_ok_exec(p: &Pattern, imms: &Immediates) -> (r: bool)
    ensures
        r == pattern_literals_ok(p@, imms@),
{
    let n = p.args.len();
    let mut a: usize = 0;
    while a < n
        invariant
            n == p@.args.len(),
            a <= n,
            forall|j: int|
                0 <= j < a ==> ((#[trigger] p@.args[j]) matches PatternArgModel::Literal { imm, .. }
                    ==> imm < imms@.len()),
        decreases n - a,
    {
        match &p.args[a] {
            PatternArg::Literal { imm: ix, .. } => {
                proof {
                    assert(p@.args[a as int] matches PatternArgModel::Literal { imm, .. } && imm
                        == *ix);
                }
                if *ix >= imms.len() {
                    return false;
                }
            },
            PatternArg::Var(_) => {
                proof {
                    assert(!(p@.args[a as int] is Literal));
                }
            },
        }
        a += 1;
    }
    true
}

fn transform_opcodes_known_exec(t: &Transform, insts: &InstructionCatalog) -> (r: bool)
    ensures
        r == transform_opcodes_known(t@, *insts),
{
    if !insts.contains_opcode_exec(t.source.opcode.as_str()) {
        return false;
    }
    let n = t.replacement.len();
    let mut i: usize = 0;
    while i < n
        invariant
            n == t@.replacement.len(),
            i <= n,
            opcode_known(t@.source.opcode, *insts),
            forall|j: int| 0 <= j < i ==> opcode_known((#[trigger] t@.replacement[j]).opcode, *insts),
        decreases n - i,
    {
        let known = insts.contains_opcode_exec(t.replacement[i].opcode.as_str());
        proof {
            assert(t@.replacement[i as int].opcode == t.replacement@[i as int].opcode@);
        }
        if !known {
            return false;
        }
        i += 1;
    }
    true
}

fn transform_literals_ok_exec(t: &Transform, imms: &Immediates) -> (r: bool)
    ensures
        r == transform_literals_ok(t@, imms@),
{
    if !pattern_literals_ok_exec(&t.source, imms) {
        return false;
    }
    let n = t.replacement.len();
    let mut i: usize = 0;
    while i < n
        invariant
            n == t@.replacement.len(),
            i <= n,
            pattern_literals_ok(t@.source, imms@),
            forall|j: int| 0 <= j < i ==> pattern_literals_ok(#[trigger] t@.replacement[j], imms@),
        decreases n - i,
    {
        let ok = pattern_literals_ok_exec(&t.replacement[i], imms);
        proof {
            assert(t@.replacement[i as int] == t.replacement@[i as int]@);
        }
        if !ok {
            return false;
        }
        i += 1;
    }
    true
}

fn transform_vars_bound_exec(t: &Transform) -> (r: bool)
    ensures
        r == transform_vars_bound(t@),
{
    let n = t.replacement.len();
    let mut i: usize = 0;
    while i < n
        invariant
            n == t@.replacement.len(),
            i <= n,
            forall|j: int| 0 <= j < i ==> pattern_vars_bound(t@.source, #[trigger] t@.replacement[j]),
        decreases n - i,
    {
        let ok = pattern_vars_bound_exec(&t.source, &t.replacement[i]);
        proof {
            assert(t@.replacement[i as int] == t.replacement@[i as int]@);
        }
        if !ok {
            return false;
        }
        i += 1;
    }
    true
}

fn group_names_unique_exec(v: &Vec<TransformGroup>) -> (r: bool)
    ensures
        r == group_names_unique(tgroup_models(v@)),
{
    let n = v.len();
    let mut i: usize = 0;
    while i < n
        invariant
            n == v@.len(),
            i <= n,
            forall|a: int, b: int|
                0 <= a < i && a < b < n ==> tgroup_models(v@)[a].name != tgroup_models(v@)[b].name,
        decreases n - i,
    {
        let mut j: usize = i + 1;
        while j < n
            invariant
                n == v@.len(),
                i < n,
                i + 1 <= j <= n,
                forall|b: int| i < b < j ==> tgroup_models(v@)[i as int].name != tgroup_models(v@)[b].name,
            decreases n - j,
        {
            if str_eq(v[i].name.as_str(), v[j].name.as_str()) {
                proof {
                    assert(tgroup_models(v@)[i as int].name == tgroup_models(v@)[j as int].name);
                }
                return false;
            }
            proof {
                assert(tgroup_models(v@)[i as int].name != tgroup_models(v@)[j as int].name);
            }
            j += 1;
        }
        i += 1;
    }
    true
}

fn chains_in_range_exec(v: &Vec<TransformGroup>) -> (r: bool)
    ensures
        r == chains_in_range(chains_of(tgroup_models(v@))),
{
    let n = v.len();
    let mut i: usize = 0;
    while i < n
        invariant
            n == v@.len(),
            i <= n,
            forall|j: int|
                0 <= j < i ==> ((#[trigger] chains_of(tgroup_models(v@))[j]) matches Some(c)
                    ==> c < n),
        decreases n - i,
    {
        proof {
            assert(chains_of(tgroup_models(v@))[i as int] == v@[i as int]@.chain);
        }
        match v[i].chain {
            Some(c) => {
                if c >= n {
                    return false;
                }
            },
            None => {},
        }
        i += 1;
    }
    true
}

fn chains_acyclic_exec(v: &Vec<TransformGroup>) -> (r: bool)
    ensures
        r == chains_acyclic(chains_of(tgroup_models(v@))),
{
    let ghost chains = chains_of(tgroup_models(v@));
    let n = v.len();
    let mut i: usize = 0;
    while i < n
        invariant
            chains == chains_of(tgroup_models(v@)),
            n == v@.len(),
            n == chains.len(),
            i <= n,
            forall|j: int| 0 <= j < i ==> chain_reach(chains, j, n as nat) is None,
        decreases n - i,
    {
        let mut cur: Option<usize> = Some(i);
        let mut steps: usize = 0;
        proof {
            assert(chain_reach(chains, i as int, 0nat) == Some(i as int));
        }
        while steps < n
            invariant
                chains == chains_of(tgroup_models(v@)),
                n == v@.len(),
                n == chains.len(),
                i < n,
                steps <= n,
                match cur {
                    Some(c) => chain_reach(chains, i as int, steps as nat) == Some(c as int),
                    None => chain_reach(chains, i as int, steps as nat) is None,
                },
            decreases n - steps,
        {
            cur = match cur {
                Some(c) => {
                    if c >= n {
                        None
                    } else {
                        proof {
                            assert(chains[c as int] == v@[c as int]@.chain);
                        }
                        v[c].chain
                    }
                },
                None => None,
            };
            steps += 1;
            proof {
                assert(steps >= 1);
                assert(chain_reach(chains, i as int, steps as nat) == (match chain_reach(
                    chains,
                    i as int,
                    (steps - 1) as nat,
                ) {
                    None => None::<int>,
                    Some(j) => if 0 <= j < chains.len() {
                        match chains[j] {
                            None => None::<int>,
                            Some(c) => Some(c as int),
                        }
                    } else {
                        None::<int>
                    },
                }));
            }
        }
        if cur.is_some() {
            proof {
                assert(chain_reach(chains, i as int, n as nat) is Some);
            }
            return false;
        }
        i += 1;
    }
    true
}

/// Builds the validated transform-group set from authored group definitions.
/// Group names must be unique; chain references must point into the list and
/// form no cycle — checked before any rule is inspected; every rule's
/// opcodes, immediates, variables, and guard must be structurally sound.
pub fn build(
    groups: Vec<TransformGroup>,
    insts: &InstructionCatalog,
    imm: &Immediates,
    settings: &SettingGroups,
) -> (r: Result<TransformGroups, DefError>)
    ensures
        match build_error(tgroup_models(groups@), *insts, imm@, *settings) {
            Some(e) => r == Err::<TransformGroups, DefError>(e),
            None => match r {
                Ok(tg) => tg@ == tgroup_models(groups@) && tg.wf(*insts, imm@, *settings),
                Err(_) => false,
            },
        },
{
    if !group_names_unique_exec(&groups) {
        return Err(DefError::DuplicateName);
    }
    if !chains_in_range_exec(&groups) {
        return Err(DefError::UnknownReference);
    }
    if !chains_acyclic_exec(&groups) {
        return Err(DefError::Cycle);
    }
    // pass: every opcode named in a source or replacement template exists
    let ng = groups.len();
    let mut g: usize = 0;
    while g < ng
        invariant
            ng == groups@.len(),
            g <= ng,
            group_names_unique(tgroup_models(groups@)),
            chains_in_range(chains_of(tgroup_models(groups@))),
            chains_acyclic(chains_of(tgroup_models(groups@))),
            forall|g2: int, t2: int|
                0 <= g2 < g && 0 <= t2 < tgroup_models(groups@)[g2].transforms.len()
                    ==> transform_opcodes_known(
                    #[trigger] tgroup_models(groups@)[g2].transforms[t2],
                    *insts,
                ),
        decreases ng - g,
    {
        let nt = groups[g].transforms.len();
        let mut t: usize = 0;
        while t < nt
            invariant
                ng == groups@.len(),
                g < ng,
                group_names_unique(tgroup_models(groups@)),
                chains_in_range(chains_of(tgroup_models(groups@))),
                chains_acyclic(chains_of(tgroup_models(groups@))),
                nt == tgroup_models(groups@)[g as int].transforms.len(),
                t <= nt,
                forall|t2: int|
                    0 <= t2 < t ==> transform_opcodes_known(
                        #[trigger] tgroup_models(groups@)[g as int].transforms[t2],
                        *insts,
                    ),
            decreases nt - t,
        {
            let ok = transform_opcodes_known_exec(&groups[g].transforms[t], insts);
            proof {
                assert(tgroup_models(groups@)[g as int].transforms[t as int]
                    == groups@[g as int].transforms@[t as int]@);
            }
            if !ok {
                return Err(DefError::UnknownReference);
            }
            t += 1;
        }
        g += 1;
    }
    // pass: every immediate literal is typed by the immediate catalog
    let mut g: usize = 0;
    while g < ng
        invariant
            ng == groups@.len(),
            g <= ng,
            group_names_unique(tgroup_models(groups@)),
            chains_in_range(chains_of(tgroup_models(groups@))),
            chains_acyclic(chains_of(tgroup_models(groups@))),
            groups_opcodes_known(tgroup_models(groups@), *insts),
            forall|g2: int, t2: int|
                0 <= g2 < g && 0 <= t2 < tgroup_models(groups@)[g2].transforms.len()
                    ==> transform_literals_ok(
                    #[trigger] tgroup_models(groups@)[g2].transforms[t2],
                    imm@,
                ),
        decreases ng - g,
    {
        let nt = groups[g].transforms.len();
        let mut t: usize = 0;
        while t < nt
            invariant
                ng == groups@.len(),
                g < ng,
                group_names_unique(tgroup_models(groups@)),
                chains_in_range(chains_of(tgroup_models(groups@))),
                chains_acyclic(chains_of(tgroup_models(groups@))),
                nt == tgroup_models(groups@)[g as int].transforms.len(),
                t <= nt,
                groups_opcodes_known(tgroup_models(groups@), *insts),
                forall|t2: int|
                    0 <= t2 < t ==> transform_literals_ok(
                        #[trigger] tgroup_models(groups@)[g as int].transforms[t2],
                        imm@,
                    ),
            decreases nt - t,
        {
            let ok = transform_literals_ok_exec(&groups[g].transforms[t], imm);
            proof {
                assert(tgroup_models(groups@)[g as int].transforms[t as int]
                    == groups@[g as int].transforms@[t as int]@);
            }
            if !ok {
                return Err(DefError::UnknownReference);
            }
            t += 1;
        }
        g += 1;
    }
    // pass: every replacement holds at least one template
    let mut g: usize = 0;
    while g < ng
        invariant
            ng == groups@.len(),
            g <= ng,
            group_names_unique(tgroup_models(groups@)),
            chains_in_range(chains_of(tgroup_models(groups@))),
            chains_acyclic(chains_of(tgroup_models(groups@))),
            groups_opcodes_known(tgroup_models(groups@), *insts),
            groups_literals_ok(tgroup_models(groups@), imm@),
            forall|g2: int, t2: int|
                0 <= g2 < g && 0 <= t2 < tgroup_models(groups@)[g2].transforms.len()
                    ==> (#[trigger] tgroup_models(groups@)[g2].transforms[t2]).replacement.len()
                    >= 1,
        decreases ng - g,
    {
        let nt = groups[g].transforms.len();
        let mut t: usize = 0;
        while t < nt
            invariant
                ng == groups@.len(),
                g < ng,
                group_names_unique(tgroup_models(groups@)),
                chains_in_range(chains_of(tgroup_models(groups@))),
                chains_acyclic(chains_of(tgroup_models(groups@))),
                nt == tgroup_models(groups@)[g as int].transforms.len(),
                t <= nt,
                groups_opcodes_known(tgroup_models(groups@), *insts),
                groups_literals_ok(tgroup_models(groups@), imm@),
                forall|t2: int|
                    0 <= t2 < t ==> (#[trigger] tgroup_models(groups@)[g as int].transforms[t2]).replacement.len()
                        >= 1,
            decreases nt - t,
        {
            let nonempty = groups[g].transforms[t].replacement.len() >= 1;
            proof {
                assert(tgroup_models(groups@)[g as int].transforms[t as int]
                    == groups@[g as int].transforms@[t as int]@);
            }
            if !nonempty {
                return Err(DefError::ShapeMismatch);
            }
            t += 1;
        }
        g += 1;
    }
    // pass: no pattern variable escapes its source pattern
    let mut g: usize = 0;
    while g < ng
        invariant
            ng == groups@.len(),
            g <= ng,
            group_names_unique(tgroup_models(groups@)),
            chains_in_range(chains_of(tgroup_models(groups@))),
            chains_acyclic(chains_of(tgroup_models(groups@))),
            groups_opcodes_known(tgroup_models(groups@), *insts),
            groups_literals_ok(tgroup_models(groups@), imm@),
            groups_replacements_nonempty(tgroup_models(groups@)),
            forall|g2: int, t2: int|
                0 <= g2 < g && 0 <= t2 < tgroup_models(groups@)[g2].transforms.len()
                    ==> transform_vars_bound(#[trigger] tgroup_models(groups@)[g2].transforms[t2]),
        decreases ng - g,
    {
        let nt = groups[g].transforms.len();
        let mut t: usize = 0;
        while t < nt
            invariant
                ng == groups@.len(),
                g < ng,
                group_names_unique(tgroup_models(groups@)),
                chains_in_range(chains_of(tgroup_models(groups@))),
                chains_acyclic(chains_of(tgroup_models(groups@))),
                nt == tgroup_models(groups@)[g as int].transforms.len(),
                t <= nt,
                groups_opcodes_known(tgroup_models(groups@), *insts),
                groups_literals_ok(tgroup_models(groups@), imm@),
                groups_replacements_nonempty(tgroup_models(groups@)),
                forall|t2: int|
                    0 <= t2 < t ==> transform_vars_bound(
                        #[trigger] tgroup_models(groups@)[g as int].transforms[t2],
                    ),
            decreases nt - t,
        {
            let ok = transform_vars_bound_exec(&groups[g].transforms[t]);
            proof {
                assert(tgroup_models(groups@)[g as int].transforms[t as int]
                    == groups@[g as int].transforms@[t as int]@);
            }
            if !ok {
                return Err(DefError::ShapeMismatch);
            }
            t += 1;
        }
        g += 1;
    }
    // pass: every guard names an existing setting predicate
    let mut g: usize = 0;
    while g < ng
        invariant
            ng == groups@.len(),
            g <= ng,
            group_names_unique(tgroup_models(groups@)),
            chains_in_range(chains_of(tgroup_models(groups@))),
            chains_acyclic(chains_of(tgroup_models(groups@))),
            groups_opcodes_known(tgroup_models(groups@), *insts),
            groups_literals_ok(tgroup_models(groups@), imm@),
            groups_replacements_nonempty(tgroup_models(groups@)),
            groups_vars_bound(tgroup_models(groups@)),
            forall|g2: int, t2: int|
                0 <= g2 < g && 0 <= t2 < tgroup_models(groups@)[g2].transforms.len()
                    ==> transform_guard_ok(
                    #[trigger] tgroup_models(groups@)[g2].transforms[t2],
                    *settings,
                ),
        decreases ng - g,
    {
        let nt = groups[g].transforms.len();
        let mut t: usize = 0;
        while t < nt
            invariant
                ng == groups@.len(),
                g < ng,
                group_names_unique(tgroup_models(groups@)),
                chains_in_range(chains_of(tgroup_models(groups@))),
                chains_acyclic(chains_of(tgroup_models(groups@))),
                nt == tgroup_models(groups@)[g as int].transforms.len(),
                t <= nt,
                groups_opcodes_known(tgroup_models(groups@), *insts),
                groups_literals_ok(tgroup_models(groups@), imm@),
                groups_replacements_nonempty(tgroup_models(groups@)),
                groups_vars_bound(tgroup_models(groups@)),
                forall|t2: int|
                    0 <= t2 < t ==> transform_guard_ok(
                        #[trigger] tgroup_models(groups@)[g as int].transforms[t2],
                        *settings,
                    ),
            decreases nt - t,
        {
            let ok = match &groups[g].transforms[t].guard {
                Some(gn) => settings.contains_predicate(gn.as_str()),
                None => true,
            };
            proof {
                assert(tgroup_models(groups@)[g as int].transforms[t as int]
                    == groups@[g as int].transforms@[t as int]@);
            }
            if !ok {
                return Err(DefError::UnknownReference);
            }
            t += 1;
        }
        g += 1;
    }
    Ok(TransformGroups(groups))
}

/// Once the walk has ended, it stays ended: a walk that has reached a group
/// without a chain target within `k1` steps has also done so within any
/// larger budget.
pub proof fn lemma_none_stays(chains: Seq<Option<usize>>, i: int, k1: nat, k2: nat)
    requires
        k1 <= k2,
        chain_reach(chains, i, k1) is None,
    ensures
        chain_reach(chains, i, k2) is None,
    decreases k2,
{
    if k2 > k1 {
        lemma_none_stays(chains, i, k1, (k2 - 1) as nat);
    }
}

/// Chain walks compose: after `a` steps to `j`, walking `b` further steps
/// lands where a walk of `b` steps from `j` lands.
pub proof fn lemma_reach_compose(chains: Seq<Option<usize>>, i: int, j: int, a: nat, b: nat)
    requires
        chain_reach(chains, i, a) == Some(j),
    ensures
        chain_reach(chains, i, a + b) == chain_reach(chains, j, b),
    decreases b,
{
    if b > 0 {
        lemma_reach_compose(chains, i, j, a, (b - 1) as nat);
        assert(a + b == (a + (b - 1) as nat) + 1);
    }
}

/// A group on a chain cycle returns to itself after any multiple of the
/// cycle length.
pub proof fn lemma_cycle_pump(chains: Seq<Option<usize>>, x: int, p: nat, m: nat)
    requires
        p >= 1,
        chain_reach(chains, x, p) == Some(x),
    ensures
        chain_reach(chains, x, m * p) == Some(x),
    decreases m,
{
    if m == 0 {
        assert(m * p == 0nat);
    } else {
        lemma_cycle_pump(chains, x, p, (m - 1) as nat);
        lemma_reach_compose(chains, x, x, ((m - 1) as nat) * p, p);
        assert(m * p == ((m - 1) as nat) * p + p) by (nonlinear_arith)
            requires
                m >= 1,
        ;
    }
}

/// Every group a walk passes lies in the list, provided chain references do.
pub proof fn lemma_reach_in_range(chains: Seq<Option<usize>>, i: int, k: nat, x: int)
    requires
        chains_in_range(chains),
        0 <= i < chains.len(),
        chain_reach(chains, i, k) == Some(x),
    ensures
        0 <= x < chains.len(),
    decreases k,
{
    if k > 0 {
        let prev = chain_reach(chains, i, (k - 1) as nat);
        lemma_reach_in_range(chains, i, (k - 1) as nat, prev->0);
    }
}

/// Law: in an acyclic chain graph, the reachability walk never revisits a
/// group: two distinct step counts at which the walk from one group is still
/// going always stand at distinct groups — in particular, no group reaches
/// itself again.
pub proof fn lemma_chain_no_revisit(chains: Seq<Option<usize>>, i: int, k1: nat, k2: nat)
    requires
        chains_in_range(chains),
        chains_acyclic(chains),
        0 <= i < chains.len(),
        k1 < k2,
        chain_reach(chains, i, k1) is Some,
        chain_reach(chains, i, k2) is Some,
    ensures
        chain_reach(chains, i, k1) != chain_reach(chains, i, k2),
{
    if chain_reach(chains, i, k1) == chain_reach(chains, i, k2) {
        let x = chain_reach(chains, i, k1)->0;
        lemma_reach_in_range(chains, i, k1, x);
        let p = (k2 - k1) as nat;
        lemma_reach_compose(chains, i, x, k1, p);
        assert(chain_reach(chains, x, p) == Some(x));
        let n = chains.len() as nat;
        lemma_cycle_pump(chains, x, p, n);
        assert(n * p >= n) by (nonlinear_arith)
            requires
                p >= 1,
        ;
        assert(chain_reach(chains, x, n) is None);
        lemma_none_stays(chains, x, n, n * p);
        assert(false);
    }
}

/// Law: in a validated transform-group set, every pattern variable occurring
/// in a replacement template also occurs in its transform's source pattern —
/// no unbound variable escapes.
pub proof fn lemma_no_variable_escapes(
    tg: TransformGroups,
    insts: InstructionCatalog,
    imms: Seq<crate::immediates::ImmModel>,
    settings: SettingGroups,
    g: int,
    t: int,
    r: int,
    a: int,
    v: Seq<char>,
)
    requires
        tg.wf(insts, imms, settings),
        0 <= g < tg@.len(),
        0 <= t < tg@[g].transforms.len(),
        0 <= r < tg@[g].transforms[t].replacement.len(),
        0 <= a < tg@[g].transforms[t].replacement[r].args.len(),
        tg@[g].transforms[t].replacement[r].args[a] == PatternArgModel::Var(v),
    ensures
        pattern_binds(tg@[g].transforms[t].source, v),
{
    assert(transform_vars_bound(tg@[g].transforms[t]));
    assert(pattern_vars_bound(tg@[g].transforms[t].source, tg@[g].transforms[t].replacement[r]));
}

} // verus!
