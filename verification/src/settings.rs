use vstd::prelude::*;
use crate::error::DefError;
use crate::names::str_eq;

verus! {

/// The shape of one compile-time setting: a boolean flag, an enumerated
/// choice, or a numeric parameter, each with its default.
#[derive(Clone, Debug)]
pub enum SettingKind {
    Boolean { default_value: bool },
    Enumerated { values: Vec<String>, default_value: usize },
    Numeric { default_value: u64 },
}

/// Ghost model of a setting's shape.
pub ghost enum SettingKindModel {
    Boolean { default_value: bool },
    Enumerated { values: Seq<Seq<char>>, default_value: usize },
    Numeric { default_value: u64 },
}

impl View for SettingKind {
    type V = SettingKindModel;

    open spec fn view(&self) -> SettingKindModel {
        match self {
            SettingKind::Boolean { default_value } => SettingKindModel::Boolean {
                default_value: *default_value,
            },
            SettingKind::Enumerated { values, default_value } => SettingKindModel::Enumerated {
                values: values@.map_values(|v: String| v@),
                default_value: *default_value,
            },
            SettingKind::Numeric { default_value } => SettingKindModel::Numeric {
                default_value: *default_value,
            },
        }
    }
}

/// One named compile-time setting, with optional implication rules: the
/// positions of settings implied when this one is enabled.
#[derive(Clone, Debug)]
pub struct Setting {
    pub name: String,
    pub kind: SettingKind,
    pub implies: Vec<usize>,
}

/// Ghost model of a setting.
pub ghost struct SettingModel {
    pub name: Seq<char>,
    pub kind: SettingKindModel,
    pub implies: Seq<usize>,
}

impl View for Setting {
    type V = SettingModel;

    open spec fn view(&self) -> SettingModel {
        SettingModel { name: self.name@, kind: self.kind@, implies: self.implies@ }
    }
}

/// A concrete value for one setting.
#[derive(Clone, Copy, PartialEq, Eq, Structural, Debug)]
pub enum SettingValue {
    Boolean(bool),
    Enumerated(usize),
    Numeric(u64),
}

/// A concrete value matches the shape of the setting it is assigned to.
pub open spec fn value_fits(v: SettingValue, k: SettingKindModel) -> bool {
    match v {
        SettingValue::Boolean(_) => k is Boolean,
        SettingValue::Enumerated(e) => k matches SettingKindModel::Enumerated { values, .. }
            && e < values.len(),
        SettingValue::Numeric(_) => k is Numeric,
    }
}

/// One assignment of a preset: the position of a setting and its value.
#[derive(Clone, Copy, PartialEq, Eq, Structural, Debug)]
pub struct PresetEntry {
    pub setting: usize,
    pub value: SettingValue,
}

/// A named bundle of concrete setting values.
#[derive(Clone, Debug)]
pub struct Preset {
    pub name: String,
    pub entries: Vec<PresetEntry>,
}

/// Ghost model of a preset.
pub ghost struct PresetModel {
    pub name: Seq<char>,
    pub entries: Seq<PresetEntry>,
}

impl View for Preset {
    type V = PresetModel;

    open spec fn view(&self) -> PresetModel {
        PresetModel { name: self.name@, entries: self.entries@ }
    }
}

/// A boolean expression over the boolean settings of one group, by position.
#[derive(Debug)]
pub enum PredExpr {
    IsSet(usize),
    Not(Box<PredExpr>),
    And(Box<PredExpr>, Box<PredExpr>),
    Or(Box<PredExpr>, Box<PredExpr>),
}

/// A named boolean predicate over a group's settings. Only the expression
/// structure is built and validated here; evaluation against concrete
/// setting values belongs to the later consumer.
#[derive(Debug)]
pub struct Predicate {
    pub name: String,
    pub expr: PredExpr,
}

/// Ghost model of a predicate; the expression is plain positional data and
/// models itself.
pub ghost struct PredicateModel {
    pub name: Seq<char>,
    pub expr: PredExpr,
}

impl View for Predicate {
    type V = PredicateModel;

    open spec fn view(&self) -> PredicateModel {
        PredicateModel { name: self.name@, expr: self.expr }
    }
}

/// Every setting referenced by the expression exists and is boolean.
pub open spec fn expr_valid(e: PredExpr, settings: Seq<SettingModel>) -> bool
    decreases e,
{
    match e {
        PredExpr::IsSet(s) => s < settings.len() && settings[s as int].kind is Boolean,
        PredExpr::Not(b) => expr_valid(*b, settings),
        PredExpr::And(a, b) => expr_valid(*a, settings) && expr_valid(*b, settings),
        PredExpr::Or(a, b) => expr_valid(*a, settings) && expr_valid(*b, settings),
    }
}

fn expr_valid_exec(e: &PredExpr, settings: &Vec<Setting>) -> (r: bool)
    ensures
        r == expr_valid(*e, setting_models(settings@)),
    decreases *e,
{
    match e {
        PredExpr::IsSet(s) => {
            if *s >= settings.len() {
                false
            } else {
                matches!(settings[*s].kind, SettingKind::Boolean { .. })
            }
        },
        PredExpr::Not(b) => expr_valid_exec(b, settings),
        PredExpr::And(a, b) => expr_valid_exec(a, settings) && expr_valid_exec(b, settings),
        PredExpr::Or(a, b) => expr_valid_exec(a, settings) && expr_valid_exec(b, settings),
    }
}

/// One named group of settings, presets, and predicates. A group may embed
/// earlier groups as sub-groups, by position in the arena that owns it.
#[derive(Debug)]
pub struct SettingGroup {
    pub name: String,
    pub settings: Vec<Setting>,
    pub presets: Vec<Preset>,
    pub predicates: Vec<Predicate>,
    pub sub_groups: Vec<usize>,
}

/// Ghost model of a setting group.
pub ghost struct GroupModel {
    pub name: Seq<char>,
    pub settings: Seq<SettingModel>,
    pub presets: Seq<PresetModel>,
    pub predicates: Seq<PredicateModel>,
    pub sub_groups: Seq<usize>,
}

/// The models of a list of settings.
pub open spec fn setting_models(s: Seq<Setting>) -> Seq<SettingModel> {
    s.map_values(|x: Setting| x@)
}

/// The models of a list of presets.
pub open spec fn preset_models(s: Seq<Preset>) -> Seq<PresetModel> {
    s.map_values(|x: Preset| x@)
}

/// The models of a list of predicates.
pub open spec fn predicate_models(s: Seq<Predicate>) -> Seq<PredicateModel> {
    s.map_values(|x: Predicate| x@)
}

impl View for SettingGroup {
    type V = GroupModel;

    open spec fn view(&self) -> GroupModel {
        GroupModel {
            name: self.name@,
            settings: setting_models(self.settings@),
            presets: preset_models(self.presets@),
            predicates: predicate_models(self.predicates@),
            sub_groups: self.sub_groups@,
        }
    }
}

/// Setting names within one group are unique.
pub open spec fn setting_names_unique(s: Seq<SettingModel>) -> bool {
    forall|i: int, j: int| 0 <= i < j < s.len() ==> s[i].name != s[j].name
}

/// Preset names within one group are unique.
pub open spec fn preset_names_unique(p: Seq<PresetModel>) -> bool {
    forall|i: int, j: int| 0 <= i < j < p.len() ==> p[i].name != p[j].name
}

/// Predicate names within one group are unique.
pub open spec fn predicate_names_unique(p: Seq<PredicateModel>) -> bool {
    forall|i: int, j: int| 0 <= i < j < p.len() ==> p[i].name != p[j].name
}

/// Every sub-group reference points to one of the `n` groups registered so
/// far.
pub open spec fn subs_all_in_range(subs: Seq<usize>, n: int) -> bool {
    forall|k: int| 0 <= k < subs.len() ==> subs[k] < n
}

/// Every implication target names an existing setting of the group.
pub open spec fn implies_all_in_range(s: Seq<SettingModel>) -> bool {
    forall|i: int, k: int|
        0 <= i < s.len() && 0 <= k < s[i].implies.len() ==> #[trigger] s[i].implies[k] < s.len()
}

/// Every preset assignment names an existing setting of the group.
pub open spec fn preset_refs_ok(p: Seq<PresetModel>, nsettings: int) -> bool {
    forall|i: int, k: int|
        0 <= i < p.len() && 0 <= k < p[i].entries.len()
            ==> (#[trigger] p[i].entries[k]).setting < nsettings
}

/// Every predicate expression is over existing boolean settings.
pub open spec fn predicates_all_ok(p: Seq<PredicateModel>, s: Seq<SettingModel>) -> bool {
    forall|i: int| 0 <= i < p.len() ==> expr_valid((#[trigger] p[i]).expr, s)
}

/// Every enumerated setting's default is one of its values.
pub open spec fn enum_defaults_in_range(s: Seq<SettingModel>) -> bool {
    forall|i: int|
        0 <= i < s.len() ==> ((#[trigger] s[i]).kind matches SettingKindModel::Enumerated {
            values,
            default_value,
        } ==> default_value < values.len())
}

/// Every preset value fits the shape of the setting it is assigned to.
pub open spec fn preset_values_ok(p: Seq<PresetModel>, s: Seq<SettingModel>) -> bool {
    forall|i: int, k: int|
        0 <= i < p.len() && 0 <= k < p[i].entries.len()
            && (#[trigger] p[i].entries[k]).setting < s.len() ==> value_fits(
            p[i].entries[k].value,
            s[p[i].entries[k].setting as int].kind,
        )
}

/// Internal validity of one group, independent of the arena: unique names
/// for settings, presets and predicates; enumerated defaults in range;
/// implication targets and preset assignments referencing existing settings;
/// preset values matching their settings' shapes; predicate expressions over
/// existing boolean settings.
pub open spec fn group_ok(g: GroupModel) -> bool {
    &&& setting_names_unique(g.settings)
    &&& preset_names_unique(g.presets)
    &&& predicate_names_unique(g.predicates)
    &&& implies_all_in_range(g.settings)
    &&& preset_refs_ok(g.presets, g.settings.len() as int)
    &&& predicates_all_ok(g.predicates, g.settings)
    &&& enum_defaults_in_range(g.settings)
    &&& preset_values_ok(g.presets, g.settings)
}

/// The error with which a group is rejected from an arena already holding
/// `gs`, or `None` when it is accepted: a duplicate name (of the group, a
/// setting, a preset, or a predicate) before an unknown reference (a
/// sub-group position not yet registered, an implication or assignment to a
/// missing setting, a predicate over a missing or non-boolean setting)
/// before a shape mismatch (an enumerated default or a preset value that
/// does not fit).
pub open spec fn group_error(gs: Seq<GroupModel>, g: GroupModel) -> Option<DefError> {
    if exists|i: int| 0 <= i < gs.len() && gs[i].name == g.name {
        Some(DefError::DuplicateName)
    } else if !setting_names_unique(g.settings) {
        Some(DefError::DuplicateName)
    } else if !preset_names_unique(g.presets) {
        Some(DefError::DuplicateName)
    } else if !predicate_names_unique(g.predicates) {
        Some(DefError::DuplicateName)
    } else if !subs_all_in_range(g.sub_groups, gs.len() as int) {
        Some(DefError::UnknownReference)
    } else if !implies_all_in_range(g.settings) {
        Some(DefError::UnknownReference)
    } else if !preset_refs_ok(g.presets, g.settings.len() as int) {
        Some(DefError::UnknownReference)
    } else if !predicates_all_ok(g.predicates, g.settings) {
        Some(DefError::UnknownReference)
    } else if !enum_defaults_in_range(g.settings) {
        Some(DefError::ShapeMismatch)
    } else if !preset_values_ok(g.presets, g.settings) {
        Some(DefError::ShapeMismatch)
    } else {
        None
    }
}


fn setting_names_distinct(v: &Vec<Setting>) -> (r: bool)
    ensures
        r == setting_names_unique(setting_models(v@)),
{
    let n = v.len();
    let mut i: usize = 0;
    while i < n
        invariant
            n == v@.len(),
            i <= n,
            forall|a: int, b: int| 0 <= a < i && a < b < n ==> setting_models(v@)[a].name != setting_models(v@)[b].name,
        decreases n - i,
    {
        let mut j: usize = i + 1;
        while j < n
            invariant
                n == v@.len(),
                i < n,
                i + 1 <= j <= n,
                forall|b: int| i < b < j ==> setting_models(v@)[i as int].name != setting_models(v@)[b].name,
            decreases n - j,
        {
            if str_eq(v[i].name.as_str(), v[j].name.as_str()) {
                proof {
                    assert(setting_models(v@)[i as int].name == setting_models(v@)[j as int].name);
                }
                return false;
            }
            proof {
                assert(setting_models(v@)[i as int].name != setting_models(v@)[j as int].name);
            }
            j += 1;
        }
        i += 1;
    }
    true
}

fn preset_names_distinct(v: &Vec<Preset>) -> (r: bool)
    ensures
        r == preset_names_unique(preset_models(v@)),
{
    let n = v.len();
    let mut i: usize = 0;
    while i < n
        invariant
            n == v@.len(),
            i <= n,
            forall|a: int, b: int| 0 <= a < i && a < b < n ==> preset_models(v@)[a].name != preset_models(v@)[b].name,
        decreases n - i,
    {
        let mut j: usize = i + 1;
        while j < n
            invariant
                n == v@.len(),
                i < n,
                i + 1 <= j <= n,
                forall|b: int| i < b < j ==> preset_models(v@)[i as int].name != preset_models(v@)[b].name,
            decreases n - j,
        {
            if str_eq(v[i].name.as_str(), v[j].name.as_str()) {
                proof {
                    assert(preset_models(v@)[i as int].name == preset_models(v@)[j as int].name);
                }
                return false;
            }
            proof {
                assert(preset_models(v@)[i as int].name != preset_models(v@)[j as int].name);
            }
            j += 1;
        }
        i += 1;
    }
    true
}

fn predicate_names_distinct(v: &Vec<Predicate>) -> (r: bool)
    ensures
        r == predicate_names_unique(predicate_models(v@)),
{
    let n = v.len();
    let mut i: usize = 0;
    while i < n
        invariant
            n == v@.len(),
            i <= n,
            forall|a: int, b: int| 0 <= a < i && a < b < n ==> predicate_models(v@)[a].name != predicate_models(v@)[b].name,
        decreases n - i,
    {
        let mut j: usize = i + 1;
        while j < n
            invariant
                n == v@.len(),
                i < n,
                i + 1 <= j <= n,
                forall|b: int| i < b < j ==> predicate_models(v@)[i as int].name != predicate_models(v@)[b].name,
            decreases n - j,
        {
            if str_eq(v[i].name.as_str(), v[j].name.as_str()) {
                proof {
                    assert(predicate_models(v@)[i as int].name == predicate_models(v@)[j as int].name);
                }
                return false;
            }
            proof {
                assert(predicate_models(v@)[i as int].name != predicate_models(v@)[j as int].name);
            }
            j += 1;
        }
        i += 1;
    }
    true
}

fn subs_in_range(v: &Vec<usize>, n: usize) -> (r: bool)
    ensures
        r == subs_all_in_range(v@, n as int),
{
    let m = v.len();
    let mut i: usize = 0;
    while i < m
        invariant
            m == v@.len(),
            i <= m,
            forall|k: int| 0 <= k < i ==> v@[k] < n,
        decreases m - i,
    {
        if v[i] >= n {
            return false;
        }
        i += 1;
    }
    true
}

fn implies_in_range(v: &Vec<Setting>) -> (r: bool)
    ensures
        r == implies_all_in_range(setting_models(v@)),
{
    let n = v.len();
    let mut i: usize = 0;
    while i < n
        invariant
            n == v@.len(),
            i <= n,
            forall|j: int, k: int|
                0 <= j < i && 0 <= k < setting_models(v@)[j].implies.len()
                    ==> #[trigger] setting_models(v@)[j].implies[k] < n,
        decreases n - i,
    {
        let m = v[i].implies.len();
        let mut k: usize = 0;
        while k < m
            invariant
                n == v@.len(),
                i < n,
                m == setting_models(v@)[i as int].implies.len(),
                k <= m,
                forall|j: int| 0 <= j < k ==> setting_models(v@)[i as int].implies[j] < n,
            decreases m - k,
        {
            if v[i].implies[k] >= n {
                return false;
            }
            k += 1;
        }
        i += 1;
    }
    true
}

fn preset_refs_in_range(v: &Vec<Preset>, ns: usize) -> (r: bool)
    ensures
        r == preset_refs_ok(preset_models(v@), ns as int),
{
    let n = v.len();
    let mut i: usize = 0;
    while i < n
        invariant
            n == v@.len(),
            i <= n,
            forall|j: int, k: int|
                0 <= j < i && 0 <= k < preset_models(v@)[j].entries.len()
                    ==> (#[trigger] preset_models(v@)[j].entries[k]).setting < ns,
        decreases n - i,
    {
        let m = v[i].entries.len();
        let mut k: usize = 0;
        while k < m
            invariant
                n == v@.len(),
                i < n,
                m == preset_models(v@)[i as int].entries.len(),
                k <= m,
                forall|j: int| 0 <= j < k ==> preset_models(v@)[i as int].entries[j].setting < ns,
            decreases m - k,
        {
            if v[i].entries[k].setting >= ns {
                return false;
            }
            k += 1;
        }
        i += 1;
    }
    true
}

fn predicates_all_valid(v: &Vec<Predicate>, settings: &Vec<Setting>) -> (r: bool)
    ensures
        r == predicates_all_ok(predicate_models(v@), setting_models(settings@)),
{
    let n = v.len();
    let mut i: usize = 0;
    while i < n
        invariant
            n == v@.len(),
            i <= n,
            forall|j: int|
                0 <= j < i ==> expr_valid(
                    (#[trigger] predicate_models(v@)[j]).expr,
                    setting_models(settings@),
                ),
        decreases n - i,
    {
        let ok = expr_valid_exec(&v[i].expr, settings);
        proof {
            assert(predicate_models(v@)[i as int].expr == v@[i as int].expr);
        }
        if !ok {
            return false;
        }
        i += 1;
    }
    true
}

fn enum_defaults_ok(v: &Vec<Setting>) -> (r: bool)
    ensures
        r == enum_defaults_in_range(setting_models(v@)),
{
    let n = v.len();
    let mut i: usize = 0;
    while i < n
        invariant
            n == v@.len(),
            i <= n,
            forall|j: int|
                0 <= j < i ==> ((#[trigger] setting_models(v@)[j]).kind matches
                    SettingKindModel::Enumerated { values, default_value }
                    ==> default_value < values.len()),
        decreases n - i,
    {
        let bad = match &v[i].kind {
            SettingKind::Enumerated { values, default_value } => *default_value >= values.len(),
            _ => false,
        };
        proof {
            assert(setting_models(v@)[i as int].kind == v@[i as int].kind@);
            assert(bad == !(setting_models(v@)[i as int].kind matches
                SettingKindModel::Enumerated { values, default_value }
                ==> default_value < values.len()));
        }
        if bad {
            return false;
        }
        i += 1;
    }
    true
}

fn preset_values_fit(v: &Vec<Preset>, settings: &Vec<Setting>) -> (r: bool)
    ensures
        r == preset_values_ok(preset_models(v@), setting_models(settings@)),
{
    let n = v.len();
    let mut i: usize = 0;
    while i < n
        invariant
            n == v@.len(),
            i <= n,
            forall|j: int, k: int|
                0 <= j < i && 0 <= k < preset_models(v@)[j].entries.len()
                    && (#[trigger] preset_models(v@)[j].entries[k]).setting
                    < setting_models(settings@).len() ==> value_fits(
                    preset_models(v@)[j].entries[k].value,
                    setting_models(settings@)[preset_models(v@)[j].entries[k].setting as int].kind,
                ),
        decreases n - i,
    {
        let m = v[i].entries.len();
        let mut k: usize = 0;
        while k < m
            invariant
                n == v@.len(),
                i < n,
                m == preset_models(v@)[i as int].entries.len(),
                k <= m,
                forall|j: int|
                    0 <= j < k && preset_models(v@)[i as int].entries[j].setting
                        < setting_models(settings@).len() ==> value_fits(
                        preset_models(v@)[i as int].entries[j].value,
                        setting_models(settings@)[preset_models(v@)[i as int].entries[j].setting as int].kind,
                    ),
            decreases m - k,
        {
            let e = v[i].entries[k];
            proof {
                assert(preset_models(v@)[i as int].entries[k as int] == e);
            }
            if e.setting < settings.len() {
                let fits = match (&e.value, &settings[e.setting].kind) {
                    (SettingValue::Boolean(_), SettingKind::Boolean { .. }) => true,
                    (SettingValue::Enumerated(ev), SettingKind::Enumerated { values, .. }) => (*ev
                        < values.len()),
                    (SettingValue::Numeric(_), SettingKind::Numeric { .. }) => true,
                    _ => false,
                };
                proof {
                    assert(setting_models(settings@)[e.setting as int].kind
                        == settings@[e.setting as int].kind@);
                    assert(fits == value_fits(e.value,
                        setting_models(settings@)[e.setting as int].kind));
                }
                if !fits {
                    return false;
                }
            }
            k += 1;
        }
        i += 1;
    }
    true
}

/// The arena of setting groups. Sub-group references always point to groups
/// registered strictly earlier, so the nesting graph is acyclic by
/// construction.
pub struct SettingGroups(pub Vec<SettingGroup>);

impl View for SettingGroups {
    type V = Seq<GroupModel>;

    open spec fn view(&self) -> Seq<GroupModel> {
        self.0@.map_values(|g: SettingGroup| g@)
    }
}

impl SettingGroups {
    /// Unique group names; every group internally valid; every sub-group
    /// reference pointing to an earlier group.
    pub open spec fn wf(&self) -> bool {
        &&& (forall|i: int, j: int| 0 <= i < j < self@.len() ==> self@[i].name != self@[j].name)
        &&& (forall|i: int| 0 <= i < self@.len() ==> group_ok(#[trigger] self@[i]))
        &&& (forall|i: int, k: int|
            0 <= i < self@.len() && 0 <= k < self@[i].sub_groups.len()
                ==> #[trigger] self@[i].sub_groups[k] < i)
    }

    pub open spec fn has_predicate(&self, n: Seq<char>) -> bool {
        exists|g: int, p: int|
            0 <= g < self@.len() && 0 <= p < self@[g].predicates.len() && self@[g].predicates[p].name
                == n
    }

    pub fn new() -> (r: SettingGroups)
        ensures
            r@ == Seq::<GroupModel>::empty(),
            r.wf(),
    {
        SettingGroups(Vec::new())
    }

    pub fn len(&self) -> (r: usize)
        ensures
            r == self@.len(),
    {
        self.0.len()
    }

    pub fn get(&self, i: usize) -> (r: &SettingGroup)
        requires
            i < self@.len(),
        ensures
            r@ == self@[i as int],
    {
        &self.0[i]
    }

    fn group_name_taken(&self, name: &str) -> (r: bool)
        ensures
            r == exists|i: int| 0 <= i < self@.len() && self@[i].name == name@,
    {
        let n = self.0.len();
        let mut i: usize = 0;
        while i < n
            invariant
                n == self@.len(),
                i <= n,
                forall|j: int| 0 <= j < i ==> self@[j].name != name@,
            decreases n - i,
        {
            if str_eq(self.0[i].name.as_str(), name) {
                proof {
                    assert(self@[i as int].name == name@);
                }
                return true;
            }
            i += 1;
        }
        false
    }

    /// Registers a group, validating its name, its references, and its
    /// expression structure. Any violation is fatal; a malformed group is
    /// never recorded.
    pub fn add_group(&mut self, g: SettingGroup) -> (r: Result<usize, DefError>)
        ensures
            match group_error(old(self)@, g@) {
                Some(e) => r == Err::<usize, DefError>(e) && final(self)@ == old(self)@,
                None => {
                    &&& r == Ok::<usize, DefError>(old(self)@.len() as usize)
                    &&& final(self)@ == old(self)@.push(g@)
                },
            },
            old(self).wf() ==> final(self).wf(),
    {
        if self.group_name_taken(g.name.as_str()) {
            return Err(DefError::DuplicateName);
        }
        if !setting_names_distinct(&g.settings) {
            return Err(DefError::DuplicateName);
        }
        if !preset_names_distinct(&g.presets) {
            return Err(DefError::DuplicateName);
        }
        if !predicate_names_distinct(&g.predicates) {
            return Err(DefError::DuplicateName);
        }
        if !subs_in_range(&g.sub_groups, self.0.len()) {
            return Err(DefError::UnknownReference);
        }
        if !implies_in_range(&g.settings) {
            return Err(DefError::UnknownReference);
        }
        if !preset_refs_in_range(&g.presets, g.settings.len()) {
            return Err(DefError::UnknownReference);
        }
        if !predicates_all_valid(&g.predicates, &g.settings) {
            return Err(DefError::UnknownReference);
        }
        if !enum_defaults_ok(&g.settings) {
            return Err(DefError::ShapeMismatch);
        }
        if !preset_values_fit(&g.presets, &g.settings) {
            return Err(DefError::ShapeMismatch);
        }
        let h = self.0.len();
        let ghost gm = g@;
        self.0.push(g);
        proof {
            assert(self@ =~= old(self)@.push(gm));
            assert(group_ok(gm));
            if old(self).wf() {
                assert forall|i2: int, j2: int| 0 <= i2 < j2 < self@.len() implies self@[i2].name
                    != self@[j2].name by {
                    if j2 == self@.len() - 1 {
                        assert(self@[i2] == old(self)@[i2]);
                    }
                }
                assert forall|i2: int| 0 <= i2 < self@.len() implies group_ok(#[trigger] self@[i2]) by {
                    if i2 < self@.len() - 1 {
                        assert(self@[i2] == old(self)@[i2]);
                        assert(group_ok(old(self)@[i2]));
                    }
                }
                assert forall|i2: int, k2: int|
                    0 <= i2 < self@.len() && 0 <= k2 < self@[i2].sub_groups.len()
                    implies #[trigger] self@[i2].sub_groups[k2] < i2 by {
                    if i2 < self@.len() - 1 {
                        assert(self@[i2] == old(self)@[i2]);
                        assert(old(self)@[i2].sub_groups[k2] < i2);
                    } else {
                        assert(self@[i2].sub_groups == gm.sub_groups);
                    }
                }
            }
        }
        Ok(h)
    }

    /// Whether any registered group declares a predicate of this name.
    pub fn contains_predicate(&self, name: &str) -> (r: bool)
        ensures
            r == self.has_predicate(name@),
    {
        let ng = self.0.len();
        let mut gi: usize = 0;
        while gi < ng
            invariant
                ng == self@.len(),
                gi <= ng,
                forall|g2: int, p2: int|
                    0 <= g2 < gi && 0 <= p2 < self@[g2].predicates.len()
                        ==> (#[trigger] self@[g2].predicates[p2]).name != name@,
            decreases ng - gi,
        {
            let np = self.0[gi].predicates.len();
            let mut pi: usize = 0;
            while pi < np
                invariant
                    ng == self@.len(),
                    gi < ng,
                    np == self@[gi as int].predicates.len(),
                    pi <= np,
                    forall|p2: int| 0 <= p2 < pi ==> self@[gi as int].predicates[p2].name != name@,
                decreases np - pi,
            {
                if str_eq(self.0[gi].predicates[pi].name.as_str(), name) {
                    proof {
                        assert(self@[gi as int].predicates[pi as int].name == name@);
                    }
                    return true;
                }
                pi += 1;
            }
            gi += 1;
        }
        false
    }
}

/// Law: the sub-group nesting graph contains no cycle. Every nesting edge
/// points from a group to one registered strictly earlier, so any chain of
/// nesting references strictly descends and can never return to a group it
/// left.
pub proof fn lemma_nesting_wellfounded(gs: SettingGroups, i: int, k: int)
    requires
        gs.wf(),
        0 <= i < gs@.len(),
        0 <= k < gs@[i].sub_groups.len(),
    ensures
        gs@[i].sub_groups[k] < i,
{
}

} // verus!
