use vstd::prelude::*;
use crate::error::DefError;
use crate::formats::{FormatModel, FormatRegistry, InstructionFormat};
use crate::names::str_eq;

verus! {

/// Side-effect flags of an instruction.
#[derive(Clone, Copy, PartialEq, Eq, Structural, Debug)]
pub struct InstructionFlags {
    pub can_trap: bool,
    pub can_access_memory: bool,
    pub is_terminator: bool,
    pub is_call: bool,
}

impl InstructionFlags {
    /// Flags of an instruction with no side effects.
    pub fn none() -> (r: InstructionFlags)
        ensures
            r == (InstructionFlags {
                can_trap: false,
                can_access_memory: false,
                is_terminator: false,
                is_call: false,
            }),
    {
        InstructionFlags { can_trap: false, can_access_memory: false, is_terminator: false, is_call: false }
    }
}

/// The type of one instruction result: either a fixed, named type, or the
/// type bound to the instruction's controlling type variable.
#[derive(Clone, Debug)]
pub enum ResultType {
    Fixed(String),
    Controlling,
}

/// Ghost model of a result type.
pub ghost enum ResultModel {
    Fixed(Seq<char>),
    Controlling,
}

impl View for ResultType {
    type V = ResultModel;

    open spec fn view(&self) -> ResultModel {
        match self {
            ResultType::Fixed(t) => ResultModel::Fixed(t@),
            ResultType::Controlling => ResultModel::Controlling,
        }
    }
}

/// One instruction definition: a unique opcode name, the handle of its
/// interned format, an ordered operand list (operand-kind references that
/// must match the format position by position), an optional controlling type
/// variable designating one operand, a result list, side-effect flags, and
/// documentation.
#[derive(Clone, Debug)]
pub struct Instruction {
    pub opcode: String,
    pub format: usize,
    pub operands: Vec<usize>,
    pub ctrl_typevar: Option<usize>,
    pub results: Vec<ResultType>,
    pub flags: InstructionFlags,
    pub doc: String,
}

/// Ghost model of an instruction.
pub ghost struct InstModel {
    pub opcode: Seq<char>,
    pub format: usize,
    pub operands: Seq<usize>,
    pub ctrl_typevar: Option<usize>,
    pub results: Seq<ResultModel>,
    pub flags: InstructionFlags,
    pub doc: Seq<char>,
}

impl View for Instruction {
    type V = InstModel;

    open spec fn view(&self) -> InstModel {
        InstModel {
            opcode: self.opcode@,
            format: self.format,
            operands: self.operands@,
            ctrl_typevar: self.ctrl_typevar,
            results: self.results@.map_values(|t: ResultType| t@),
            flags: self.flags,
            doc: self.doc@,
        }
    }
}

/// An operand list matches a format when it carries exactly the format's
/// declared kind at each position; a format with a variable-length trailing
/// list additionally accepts any number (including zero) of further
/// operands after the declared positions.
pub open spec fn operands_match(ops: Seq<usize>, f: FormatModel) -> bool {
    if f.has_varargs {
        ops.len() >= f.kinds.len() && (forall|i: int| 0 <= i < f.kinds.len() ==> ops[i] == f.kinds[i])
    } else {
        ops == f.kinds
    }
}

/// The result list is sound: a controlling type variable designates an
/// existing operand, and a result derived from the controlling type variable
/// requires that the instruction declares one.
pub open spec fn results_ok(m: InstModel) -> bool {
    &&& (m.ctrl_typevar matches Some(p) ==> p < m.operands.len())
    &&& ((exists|i: int| 0 <= i < m.results.len() && m.results[i] is Controlling)
        ==> m.ctrl_typevar is Some)
}

/// The catalog of all instruction definitions, in declaration order (the
/// stable iteration order downstream code relies on), with unique opcodes,
/// each validated against its format at registration time.
pub struct InstructionCatalog(pub Vec<Instruction>);

impl View for InstructionCatalog {
    type V = Seq<InstModel>;

    open spec fn view(&self) -> Seq<InstModel> {
        self.0@.map_values(|i: Instruction| i@)
    }
}

fn operands_match_exec(ops: &Vec<usize>, f: &InstructionFormat) -> (r: bool)
    ensures
        r == operands_match(ops@, f@),
{
    let n = f.kinds.len();
    if f.has_varargs {
        if ops.len() < n {
            return false;
        }
        let mut i: usize = 0;
        while i < n
            invariant
                n == f@.kinds.len(),
                n <= ops@.len(),
                i <= n,
                forall|j: int| 0 <= j < i ==> ops@[j] == f@.kinds[j],
            decreases n - i,
        {
            if ops[i] != f.kinds[i] {
                return false;
            }
            i += 1;
        }
        true
    } else {
        crate::formats::kind_refs_eq(ops, &f.kinds)
    }
}

impl InstructionCatalog {
    /// Opcode uniqueness, and every entry's shape matches its format.
    pub open spec fn wf(&self, formats: Seq<FormatModel>) -> bool {
        &&& forall|i: int, j: int|
            0 <= i < j < self@.len() ==> self@[i].opcode != self@[j].opcode
        &&& forall|i: int| 0 <= i < self@.len() ==> (#[trigger] self@[i]).format < formats.len()
        &&& forall|i: int|
            0 <= i < self@.len() ==> operands_match(
                (#[trigger] self@[i]).operands,
                formats[self@[i].format as int],
            )
        &&& forall|i: int| 0 <= i < self@.len() ==> results_ok(#[trigger] self@[i])
    }

    pub open spec fn contains_opcode(&self, n: Seq<char>) -> bool {
        exists|i: int| 0 <= i < self@.len() && self@[i].opcode == n
    }

    pub fn new() -> (r: InstructionCatalog)
        ensures
            r@ == Seq::<InstModel>::empty(),
    {
        InstructionCatalog(Vec::new())
    }

    pub fn len(&self) -> (r: usize)
        ensures
            r == self@.len(),
    {
        self.0.len()
    }

    pub fn get(&self, i: usize) -> (r: &Instruction)
        requires
            i < self@.len(),
        ensures
            r@ == self@[i as int],
    {
        &self.0[i]
    }

    /// Looks an opcode up, returning its position in declaration order.
    pub fn find(&self, opcode: &str) -> (r: Option<usize>)
        ensures
            match r {
                Some(i) => {
                    &&& i < self@.len()
                    &&& self@[i as int].opcode == opcode@
                    &&& forall|j: int| 0 <= j < i ==> self@[j].opcode != opcode@
                },
                None => !self.contains_opcode(opcode@),
            },
    {
        let n = self.0.len();
        let mut i: usize = 0;
        while i < n
            invariant
                n == self@.len(),
                i <= n,
                forall|j: int| 0 <= j < i ==> self@[j].opcode != opcode@,
            decreases n - i,
        {
            if str_eq(self.0[i].opcode.as_str(), opcode) {
                return Some(i);
            }
            i += 1;
        }
        None
    }

    /// Whether the catalog holds an instruction of this opcode.
    pub fn contains_opcode_exec(&self, opcode: &str) -> (r: bool)
        ensures
            r == self.contains_opcode(opcode@),
    {
        let n = self.0.len();
        let mut i: usize = 0;
        while i < n
            invariant
                n == self@.len(),
                i <= n,
                forall|j: int| 0 <= j < i ==> self@[j].opcode != opcode@,
            decreases n - i,
        {
            if str_eq(self.0[i].opcode.as_str(), opcode) {
                proof {
                    assert(self@[i as int].opcode == opcode@);
                }
                return true;
            }
            i += 1;
        }
        false
    }

    /// Registers an instruction, validating it against the frozen format
    /// registry: the format handle must exist, the opcode must be fresh, the
    /// operand list must match the format exactly (a trailing variable list
    /// matching any remaining count), and the result list must be derivable.
    /// Any violation is fatal; a malformed instruction is never recorded.
    pub fn register(&mut self, formats: &FormatRegistry, inst: Instruction) -> (r: Result<
        usize,
        DefError,
    >)
        ensures
            inst@.format >= formats@.len() ==> {
                &&& r == Err::<usize, DefError>(DefError::UnknownReference)
                &&& final(self)@ == old(self)@
            },
            inst@.format < formats@.len() && old(self).contains_opcode(inst@.opcode) ==> {
                &&& r == Err::<usize, DefError>(DefError::DuplicateName)
                &&& final(self)@ == old(self)@
            },
            inst@.format < formats@.len() && !old(self).contains_opcode(inst@.opcode)
                && !operands_match(inst@.operands, formats@[inst@.format as int]) ==> {
                &&& r == Err::<usize, DefError>(DefError::ShapeMismatch)
                &&& final(self)@ == old(self)@
            },
            inst@.format < formats@.len() && !old(self).contains_opcode(inst@.opcode)
                && operands_match(inst@.operands, formats@[inst@.format as int])
                && !results_ok(inst@) ==> {
                &&& r == Err::<usize, DefError>(DefError::ShapeMismatch)
                &&& final(self)@ == old(self)@
            },
            inst@.format < formats@.len() && !old(self).contains_opcode(inst@.opcode)
                && operands_match(inst@.operands, formats@[inst@.format as int])
                && results_ok(inst@) ==> {
                &&& r == Ok::<usize, DefError>(old(self)@.len() as usize)
                &&& final(self)@ == old(self)@.push(inst@)
            },
            old(self).wf(formats@) ==> final(self).wf(formats@),
    {
        if inst.format >= formats.len() {
            return Err(DefError::UnknownReference);
        }
        let n = self.0.len();
        let mut i: usize = 0;
        while i < n
            invariant
                *self == *old(self),
                inst@.format < formats@.len(),
                n == self@.len(),
                i <= n,
                forall|j: int| 0 <= j < i ==> self@[j].opcode != inst@.opcode,
            decreases n - i,
        {
            if str_eq(self.0[i].opcode.as_str(), inst.opcode.as_str()) {
                proof {
                    assert(self@[i as int].opcode == inst@.opcode);
                }
                return Err(DefError::DuplicateName);
            }
            i += 1;
        }
        if !operands_match_exec(&inst.operands, formats.get(inst.format)) {
            return Err(DefError::ShapeMismatch);
        }
        let ctrl_ok = match inst.ctrl_typevar {
            Some(p) => p < inst.operands.len(),
            None => true,
        };
        if !ctrl_ok {
            return Err(DefError::ShapeMismatch);
        }
        let mut has_controlling = false;
        let m = self.0.len();
        let nr = inst.results.len();
        let mut k: usize = 0;
        while k < nr
            invariant
                *self == *old(self),
                inst@.format < formats@.len(),
                !old(self).contains_opcode(inst@.opcode),
                operands_match(inst@.operands, formats@[inst@.format as int]),
                inst@.ctrl_typevar matches Some(p) ==> p < inst@.operands.len(),
                nr == inst@.results.len(),
                k <= nr,
                has_controlling == exists|j: int| 0 <= j < k && inst@.results[j] is Controlling,
            decreases nr - k,
        {
            if matches!(&inst.results[k], ResultType::Controlling) {
                proof {
                    assert(inst@.results[k as int] is Controlling);
                }
                has_controlling = true;
            }
            k += 1;
        }
        if has_controlling && inst.ctrl_typevar.is_none() {
            return Err(DefError::ShapeMismatch);
        }
        proof {
            assert(results_ok(inst@));
        }
        let h = self.0.len();
        let ghost instm = inst@;
        self.0.push(inst);
        proof {
            assert(self@ =~= old(self)@.push(instm));
            if old(self).wf(formats@) {
                assert forall|i2: int, j2: int| 0 <= i2 < j2 < self@.len() implies self@[i2].opcode
                    != self@[j2].opcode by {
                    if j2 == self@.len() - 1 {
                        assert(self@[i2] == old(self)@[i2]);
                    }
                }
                assert forall|i2: int| 0 <= i2 < self@.len() implies (#[trigger] self@[i2]).format
                    < formats@.len() && operands_match(self@[i2].operands, formats@[self@[i2].format as int])
                    && results_ok(self@[i2]) by {
                    if i2 < self@.len() - 1 {
                        assert(self@[i2] == old(self)@[i2]);
                        assert(old(self)@[i2].format < formats@.len());
                        assert(operands_match(old(self)@[i2].operands,
                            formats@[old(self)@[i2].format as int]));
                        assert(results_ok(old(self)@[i2]));
                    } else {
                        assert(self@[i2] == instm);
                        assert(results_ok(instm));
                    }
                }
            }
        }
        Ok(h)
    }
}

/// Law: for every registered instruction, the operand list length and the
/// kind at each position exactly equal the referenced format's declared
/// sequence — a trailing variable list matching any remaining count of
/// further operands.
pub proof fn lemma_operands_match_format(cat: InstructionCatalog, formats: FormatRegistry, i: int)
    requires
        cat.wf(formats@),
        0 <= i < cat@.len(),
    ensures
        cat@[i].format < formats@.len(),
        operands_match(cat@[i].operands, formats@[cat@[i].format as int]),
        !formats@[cat@[i].format as int].has_varargs ==> cat@[i].operands.len()
            == formats@[cat@[i].format as int].kinds.len(),
        formats@[cat@[i].format as int].has_varargs ==> cat@[i].operands.len()
            >= formats@[cat@[i].format as int].kinds.len(),
        forall|j: int|
            0 <= j < formats@[cat@[i].format as int].kinds.len() ==> cat@[i].operands[j]
                == formats@[cat@[i].format as int].kinds[j],
{
    assert(operands_match(cat@[i].operands, formats@[cat@[i].format as int]));
}

} // verus!
