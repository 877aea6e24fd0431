use vstd::prelude::*;
use crate::error::DefError;
use crate::names::str_eq;
use crate::operands::{OperandCategory, OperandKind};

verus! {

/// An operand kind specialized to compile-time-constant data (an integer
/// literal, a condition code, an offset, ...), optionally carrying a default
/// value. Owned by the immediate catalog; formats and instructions reference
/// it by position, never copy it.
#[derive(Clone, Debug)]
pub struct Immediate {
    pub name: String,
    pub accepted_type: String,
    pub default_value: Option<u64>,
    pub doc: String,
}

/// Ghost model of an immediate: its strings as character sequences.
pub ghost struct ImmModel {
    pub name: Seq<char>,
    pub accepted_type: Seq<char>,
    pub default_value: Option<u64>,
    pub doc: Seq<char>,
}

impl View for Immediate {
    type V = ImmModel;

    open spec fn view(&self) -> ImmModel {
        ImmModel {
            name: self.name@,
            accepted_type: self.accepted_type@,
            default_value: self.default_value,
            doc: self.doc@,
        }
    }
}

/// The closed catalog of immediate operand kinds, append-only during
/// construction, with unique names.
pub struct Immediates(pub Vec<Immediate>);

impl View for Immediates {
    type V = Seq<ImmModel>;

    open spec fn view(&self) -> Seq<ImmModel> {
        self.0@.map_values(|m: Immediate| m@)
    }
}

impl Immediates {
    /// Name uniqueness, the catalog's invariant.
    pub open spec fn wf(&self) -> bool {
        forall|i: int, j: int|
            0 <= i < j < self@.len() ==> self@[i].name != self@[j].name
    }

    pub open spec fn contains_name(&self, n: Seq<char>) -> bool {
        exists|i: int| 0 <= i < self@.len() && self@[i].name == n
    }

    pub fn new() -> (r: Immediates)
        ensures
            r@ == Seq::<ImmModel>::empty(),
            r.wf(),
    {
        Immediates(Vec::new())
    }

    pub fn len(&self) -> (r: usize)
        ensures
            r == self@.len(),
    {
        self.0.len()
    }

    pub fn get(&self, i: usize) -> (r: &Immediate)
        requires
            i < self@.len(),
        ensures
            r@ == self@[i as int],
    {
        &self.0[i]
    }

    /// Appends an immediate under a fresh name; a second entry under a name
    /// already in the catalog is a duplicate-registration error.
    pub fn add(&mut self, imm: Immediate) -> (r: Result<usize, DefError>)
        ensures
            old(self).contains_name(imm.name@) ==> {
                &&& r == Err::<usize, DefError>(DefError::DuplicateName)
                &&& final(self)@ == old(self)@
            },
            !old(self).contains_name(imm.name@) ==> {
                &&& r == Ok::<usize, DefError>(old(self)@.len() as usize)
                &&& final(self)@ == old(self)@.push(imm@)
            },
            old(self).wf() ==> final(self).wf(),
    {
        let n = self.0.len();
        let mut i: usize = 0;
        while i < n
            invariant
                self@ == old(self)@,
                n == self@.len(),
                i <= n,
                forall|j: int| 0 <= j < i ==> self@[j].name != imm.name@,
            decreases n - i,
        {
            if str_eq(self.0[i].name.as_str(), imm.name.as_str()) {
                proof {
                    assert(self@[i as int].name == imm.name@);
                }
                return Err(DefError::DuplicateName);
            }
            i += 1;
        }
        let h = self.0.len();
        self.0.push(imm);
        proof {
            assert(self@ =~= old(self)@.push(imm@));
            if old(self).wf() {
                assert forall|i2: int, j2: int| 0 <= i2 < j2 < self@.len() implies self@[i2].name
                    != self@[j2].name by {
                    if j2 == self@.len() - 1 {
                        assert(self@[i2] == old(self)@[i2]);
                    }
                }
            }
        }
        Ok(h)
    }

    /// Looks a name up, returning its position in declaration order, or
    /// `None` when the catalog holds no immediate of that name.
    pub fn find(&self, name: &str) -> (r: Option<usize>)
        ensures
            match r {
                Some(i) => {
                    &&& i < self@.len()
                    &&& self@[i as int].name == name@
                    &&& forall|j: int| 0 <= j < i ==> self@[j].name != name@
                },
                None => !self.contains_name(name@),
            },
    {
        let n = self.0.len();
        let mut i: usize = 0;
        while i < n
            invariant
                n == self@.len(),
                i <= n,
                forall|j: int| 0 <= j < i ==> self@[j].name != name@,
            decreases n - i,
        {
            if str_eq(self.0[i].name.as_str(), name) {
                return Some(i);
            }
            i += 1;
        }
        None
    }

    /// The operand kind that stands for one immediate in the operand-kind
    /// catalog: same name and documentation, category `ImmediateOperand`.
    pub fn operand_kind(&self, i: usize) -> (r: OperandKind)
        requires
            i < self@.len(),
        ensures
            r@.name == self@[i as int].name,
            r@.category == OperandCategory::ImmediateOperand,
            r@.accepted_type == self@[i as int].accepted_type,
            r@.doc == self@[i as int].doc,
    {
        let imm = &self.0[i];
        OperandKind {
            name: imm.name.clone(),
            category: OperandCategory::ImmediateOperand,
            accepted_type: imm.accepted_type.clone(),
            doc: imm.doc.clone(),
        }
    }
}

} // verus!
