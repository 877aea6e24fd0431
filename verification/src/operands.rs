use vstd::prelude::*;
use crate::error::DefError;
use crate::names::str_eq;

verus! {

/// Category of an instruction operand.
#[derive(Clone, Copy, PartialEq, Eq, Structural, Debug)]
pub enum OperandCategory {
    /// An SSA value produced by another instruction.
    ValueOperand,
    /// A compile-time constant operand.
    ImmediateOperand,
    /// A reference to a named entity (a block, a function, ...).
    EntityReference,
    /// A variable-length trailing list of value operands.
    VariableOperandList,
}

/// One named category of instruction operand, with the name of the type
/// predicate that accepted values must satisfy and a line of documentation.
/// Built once during construction and immutable afterwards.
#[derive(Clone, Debug)]
pub struct OperandKind {
    pub name: String,
    pub category: OperandCategory,
    pub accepted_type: String,
    pub doc: String,
}

/// Ghost model of an operand kind: its strings as character sequences.
pub ghost struct KindModel {
    pub name: Seq<char>,
    pub category: OperandCategory,
    pub accepted_type: Seq<char>,
    pub doc: Seq<char>,
}

impl View for OperandKind {
    type V = KindModel;

    open spec fn view(&self) -> KindModel {
        KindModel {
            name: self.name@,
            category: self.category,
            accepted_type: self.accepted_type@,
            doc: self.doc@,
        }
    }
}

/// The closed catalog of operand kinds: append-only during construction,
/// with globally unique names.
pub struct OperandKinds(pub Vec<OperandKind>);

impl View for OperandKinds {
    type V = Seq<KindModel>;

    open spec fn view(&self) -> Seq<KindModel> {
        self.0@.map_values(|k: OperandKind| k@)
    }
}

impl OperandKinds {
    /// Name uniqueness, the catalog's global invariant.
    pub open spec fn wf(&self) -> bool {
        forall|i: int, j: int|
            0 <= i < j < self@.len() ==> self@[i].name != self@[j].name
    }

    pub open spec fn contains_name(&self, n: Seq<char>) -> bool {
        exists|i: int| 0 <= i < self@.len() && self@[i].name == n
    }

    pub fn new() -> (r: OperandKinds)
        ensures
            r@ == Seq::<KindModel>::empty(),
            r.wf(),
    {
        OperandKinds(Vec::new())
    }

    pub fn len(&self) -> (r: usize)
        ensures
            r == self@.len(),
    {
        self.0.len()
    }

    pub fn get(&self, i: usize) -> (r: &OperandKind)
        requires
            i < self@.len(),
        ensures
            r@ == self@[i as int],
    {
        &self.0[i]
    }

    /// Appends a kind under a fresh name; a second entry under a name
    /// already in the catalog is a duplicate-registration error.
    pub fn add(&mut self, kind: OperandKind) -> (r: Result<usize, DefError>)
        ensures
            old(self).contains_name(kind.name@) ==> {
                &&& r == Err::<usize, DefError>(DefError::DuplicateName)
                &&& final(self)@ == old(self)@
            },
            !old(self).contains_name(kind.name@) ==> {
                &&& r == Ok::<usize, DefError>(old(self)@.len() as usize)
                &&& final(self)@ == old(self)@.push(kind@)
            },
            old(self).wf() ==> final(self).wf(),
    {
        let n = self.0.len();
        let mut i: usize = 0;
        while i < n
            invariant
                self@ == old(self)@,
                n == self@.len(),
                i <= n,
                forall|j: int| 0 <= j < i ==> self@[j].name != kind.name@,
            decreases n - i,
        {
            if str_eq(self.0[i].name.as_str(), kind.name.as_str()) {
                proof {
                    assert(self@[i as int].name == kind.name@);
                }
                return Err(DefError::DuplicateName);
            }
            i += 1;
        }
        let h = self.0.len();
        self.0.push(kind);
        proof {
            assert(self@ =~= old(self)@.push(kind@));
            if old(self).wf() {
                assert forall|i2: int, j2: int| 0 <= i2 < j2 < self@.len() implies self@[i2].name
                    != self@[j2].name by {
                    if j2 == self@.len() - 1 {
                        assert(self@[i2] == old(self)@[i2]);
                    }
                }
            }
        }
        Ok(h)
    }

    /// Looks a name up, returning its position in declaration order, or
    /// `None` when the catalog holds no kind of that name.
    pub fn find(&self, name: &str) -> (r: Option<usize>)
        ensures
            match r {
                Some(i) => {
                    &&& i < self@.len()
                    &&& self@[i as int].name == name@
                    &&& forall|j: int| 0 <= j < i ==> self@[j].name != name@
                },
                None => !self.contains_name(name@),
            },
    {
        let n = self.0.len();
        let mut i: usize = 0;
        while i < n
            invariant
                n == self@.len(),
                i <= n,
                forall|j: int| 0 <= j < i ==> self@[j].name != name@,
            decreases n - i,
        {
            if str_eq(self.0[i].name.as_str(), name) {
                return Some(i);
            }
            i += 1;
        }
        None
    }

    /// Looks a kind up by name. The catalog is closed and exhaustively known
    /// when definitions are authored, so an unknown name is an authoring
    /// mistake: the caller must not ask for one.
    pub fn by_name(&self, name: &'static str) -> (r: &OperandKind)
        requires
            self.contains_name(name@),
        ensures
            r@.name == name@,
            exists|i: int|
                0 <= i < self@.len() && self@[i] == r@ && (forall|j: int|
                    0 <= j < i ==> self@[j].name != name@),
    {
        let n = self.0.len();
        let mut i: usize = 0;
        while i < n
            invariant
                n == self@.len(),
                i <= n,
                self.contains_name(name@),
                forall|j: int| 0 <= j < i ==> self@[j].name != name@,
            decreases n - i,
        {
            if str_eq(self.0[i].name.as_str(), name) {
                proof {
                    assert(self@[i as int].name == name@);
                }
                return &self.0[i];
            }
            i += 1;
        }
        vstd::pervasive::unreached()
    }
}

impl From<Vec<OperandKind>> for OperandKinds {
    fn from(kinds: Vec<OperandKind>) -> (r: OperandKinds) {
        OperandKinds(kinds)
    }
}

impl vstd::std_specs::convert::FromSpecImpl<Vec<OperandKind>> for OperandKinds {
    open spec fn obeys_from_spec() -> bool {
        true
    }

    open spec fn from_spec(kinds: Vec<OperandKind>) -> OperandKinds {
        OperandKinds(kinds)
    }
}

/// Law: looking a name up is idempotent. Within one construction, a
/// well-formed catalog holds at most one kind under each name, so every
/// lookup of the same name lands on the same entry: two positions that both
/// carry the name are one position.
pub proof fn lemma_lookup_idempotent(c: OperandKinds, i: int, j: int)
    requires
        c.wf(),
        0 <= i < c@.len(),
        0 <= j < c@.len(),
        c@[i].name == c@[j].name,
    ensures
        i == j,
        c@[i] == c@[j],
{
    if i < j {
        assert(c@[i].name != c@[j].name);
    }
    if j < i {
        assert(c@[j].name != c@[i].name);
    }
}

} // verus!
