use vstd::prelude::*;
use crate::error::DefError;
use crate::operands::{OperandCategory, OperandKinds, KindModel};

verus! {

/// The shape of an instruction's operand list, independent of opcode: an
/// ordered sequence of operand-kind references (positions in the operand-kind
/// catalog), a flag for a variable-length trailing operand list, and a flag
/// for producing multiple results. Its canonical id is its position in the
/// registry that interned it.
#[derive(Clone, Debug)]
pub struct InstructionFormat {
    pub kinds: Vec<usize>,
    pub has_varargs: bool,
    pub multi_results: bool,
}

/// Ghost model of a format.
pub ghost struct FormatModel {
    pub kinds: Seq<usize>,
    pub has_varargs: bool,
    pub multi_results: bool,
}

impl View for InstructionFormat {
    type V = FormatModel;

    open spec fn view(&self) -> FormatModel {
        FormatModel { kinds: self.kinds@, has_varargs: self.has_varargs, multi_results: self.multi_results }
    }
}

/// Structural equality of a stored format with an intern request: same
/// operand-kind sequence and the same two flags.
pub open spec fn matches_key(f: FormatModel, kinds: Seq<usize>, has_varargs: bool, multi_results: bool) -> bool {
    f.kinds == kinds && f.has_varargs == has_varargs && f.multi_results == multi_results
}

/// Every operand-kind reference of the sequence points into the catalog.
pub open spec fn kinds_in_range(kinds: Seq<usize>, cat: Seq<KindModel>) -> bool {
    forall|i: int| 0 <= i < kinds.len() ==> kinds[i] < cat.len()
}

/// A kind of category `VariableOperandList` may stand only in the final
/// position of a format's sequence.
pub open spec fn varlist_last(kinds: Seq<usize>, cat: Seq<KindModel>) -> bool {
    forall|i: int|
        0 <= i < kinds.len() && kinds[i] < cat.len()
            && cat[kinds[i] as int].category == OperandCategory::VariableOperandList
            ==> i == kinds.len() - 1
}

/// The deduplicating registry of instruction formats. Two intern requests
/// with structurally equal sequence and flags collapse to one canonical
/// handle, so the emission stage may treat handle identity as format
/// identity.
pub struct FormatRegistry(pub Vec<InstructionFormat>);

impl View for FormatRegistry {
    type V = Seq<FormatModel>;

    open spec fn view(&self) -> Seq<FormatModel> {
        self.0@.map_values(|f: InstructionFormat| f@)
    }
}

/// Decides equality of two operand-kind reference sequences.
pub(crate) fn kind_refs_eq(a: &Vec<usize>, b: &Vec<usize>) -> (r: bool)
    ensures
        r == (a@ == b@),
{
    if a.len() != b.len() {
        return false;
    }
    let n = a.len();
    let mut i: usize = 0;
    while i < n
        invariant
            n == a@.len(),
            n == b@.len(),
            i <= n,
            forall|j: int| 0 <= j < i ==> a@[j] == b@[j],
        decreases n - i,
    {
        if a[i] != b[i] {
            return false;
        }
        i += 1;
    }
    proof {
        assert(a@ =~= b@);
    }
    true
}

impl FormatRegistry {
    /// No two interned formats share sequence and flags.
    pub open spec fn wf(&self) -> bool {
        forall|i: int, j: int|
            0 <= i < j < self@.len()
                ==> !matches_key(self@[i], self@[j].kinds, self@[j].has_varargs, self@[j].multi_results)
    }

    /// Every interned format's kind references are valid for the catalog.
    pub open spec fn valid_for(&self, cat: Seq<KindModel>) -> bool {
        forall|i: int|
            0 <= i < self@.len()
                ==> kinds_in_range(#[trigger] self@[i].kinds, cat) && varlist_last(self@[i].kinds, cat)
    }

    pub fn new() -> (r: FormatRegistry)
        ensures
            r@ == Seq::<FormatModel>::empty(),
            r.wf(),
    {
        FormatRegistry(Vec::new())
    }

    pub fn len(&self) -> (r: usize)
        ensures
            r == self@.len(),
    {
        self.0.len()
    }

    pub fn get(&self, i: usize) -> (r: &InstructionFormat)
        requires
            i < self@.len(),
        ensures
            r@ == self@[i as int],
    {
        &self.0[i]
    }

    /// Interns a format: a request structurally equal to an interned format
    /// returns that format's handle and leaves the registry unchanged; a new
    /// shape is appended under the next handle. A reference outside the
    /// operand-kind catalog and a variable-length kind anywhere but last are
    /// fatal authoring errors.
    pub fn intern(&mut self, cat: &OperandKinds, kinds: Vec<usize>, has_varargs: bool, multi_results: bool)
        -> (r: Result<usize, DefError>)
        requires
            old(self).wf(),
        ensures
            final(self).wf(),
            !kinds_in_range(kinds@, cat@) ==> {
                &&& r == Err::<usize, DefError>(DefError::UnknownReference)
                &&& final(self)@ == old(self)@
            },
            kinds_in_range(kinds@, cat@) && !varlist_last(kinds@, cat@) ==> {
                &&& r == Err::<usize, DefError>(DefError::ShapeMismatch)
                &&& final(self)@ == old(self)@
            },
            kinds_in_range(kinds@, cat@) && varlist_last(kinds@, cat@) ==> match r {
                Ok(h) => {
                    &&& h < final(self)@.len()
                    &&& matches_key(final(self)@[h as int], kinds@, has_varargs, multi_results)
                    &&& if exists|j: int|
                        0 <= j < old(self)@.len()
                            && matches_key(old(self)@[j], kinds@, has_varargs, multi_results) {
                        final(self)@ == old(self)@
                    } else {
                        h == old(self)@.len() && final(self)@ == old(self)@.push(
                            FormatModel { kinds: kinds@, has_varargs, multi_results },
                        )
                    }
                },
                Err(_) => false,
            },
            old(self).valid_for(cat@) && kinds_in_range(kinds@, cat@) && varlist_last(kinds@, cat@)
                ==> final(self).valid_for(cat@),
    {
        let n = kinds.len();
        let mut i: usize = 0;
        while i < n
            invariant
                *self == *old(self),
                old(self).wf(),
                n == kinds@.len(),
                i <= n,
                forall|j: int| 0 <= j < i ==> kinds@[j] < cat@.len(),
            decreases n - i,
        {
            if kinds[i] >= cat.len() {
                return Err(DefError::UnknownReference);
            }
            i += 1;
        }
        let mut i: usize = 0;
        while i < n
            invariant
                *self == *old(self),
                old(self).wf(),
                n == kinds@.len(),
                i <= n,
                kinds_in_range(kinds@, cat@),
                forall|j: int|
                    0 <= j < i && cat@[kinds@[j] as int].category == OperandCategory::VariableOperandList
                        ==> j == n - 1,
            decreases n - i,
        {
            let k = kinds[i];
            if matches!(cat.get(k).category, OperandCategory::VariableOperandList) && i + 1 != n {
                return Err(DefError::ShapeMismatch);
            }
            i += 1;
        }
        proof {
            assert(kinds_in_range(kinds@, cat@) && varlist_last(kinds@, cat@));
        }
        let m = self.0.len();
        let mut f: usize = 0;
        while f < m
            invariant
                *self == *old(self),
                old(self).wf(),
                m == self@.len(),
                f <= m,
                kinds_in_range(kinds@, cat@),
                varlist_last(kinds@, cat@),
                forall|j: int|
                    0 <= j < f ==> !matches_key(self@[j], kinds@, has_varargs, multi_results),
            decreases m - f,
        {
            let cand = &self.0[f];
            if cand.has_varargs == has_varargs && cand.multi_results == multi_results
                && kind_refs_eq(&cand.kinds, &kinds) {
                proof {
                    assert(matches_key(self@[f as int], kinds@, has_varargs, multi_results));
                }
                return Ok(f);
            }
            f += 1;
        }
        let h = self.0.len();
        let ghost kq = kinds@;
        self.0.push(InstructionFormat { kinds, has_varargs, multi_results });
        proof {
            assert(self@ =~= old(self)@.push(
                FormatModel { kinds: kq, has_varargs, multi_results },
            ));
            assert forall|i2: int, j2: int| 0 <= i2 < j2 < self@.len() implies !matches_key(
                self@[i2],
                self@[j2].kinds,
                self@[j2].has_varargs,
                self@[j2].multi_results,
            ) by {
                if j2 < self@.len() - 1 {
                    assert(!matches_key(old(self)@[i2], old(self)@[j2].kinds,
                        old(self)@[j2].has_varargs, old(self)@[j2].multi_results));
                } else {
                    assert(self@[j2] == FormatModel { kinds: kq, has_varargs, multi_results });
                    assert(!matches_key(old(self)@[i2], kq, has_varargs, multi_results));
                }
            }
            if old(self).valid_for(cat@) {
                assert forall|i2: int| 0 <= i2 < self@.len() implies kinds_in_range(
                    #[trigger] self@[i2].kinds,
                    cat@,
                ) && varlist_last(self@[i2].kinds, cat@) by {
                    if i2 < self@.len() - 1 {
                        assert(self@[i2] == old(self)@[i2]);
                        assert(kinds_in_range(old(self)@[i2].kinds, cat@));
                    } else {
                        assert(self@[i2].kinds == kq);
                    }
                }
            }
        }
        Ok(h)
    }
}

/// Law: interned handles are format identity. In a well-formed registry two
/// distinct handles never carry the same operand-kind sequence and flags, so
/// requests that differ structurally receive distinct handles, and equal
/// requests collapse to one.
pub proof fn lemma_handle_identity(reg: FormatRegistry, i: int, j: int)
    requires
        reg.wf(),
        0 <= i < reg@.len(),
        0 <= j < reg@.len(),
        matches_key(reg@[i], reg@[j].kinds, reg@[j].has_varargs, reg@[j].multi_results),
    ensures
        i == j,
        reg@[i] == reg@[j],
{
    if i < j {
        assert(!matches_key(reg@[i], reg@[j].kinds, reg@[j].has_varargs, reg@[j].multi_results));
    }
    if j < i {
        assert(!matches_key(reg@[j], reg@[i].kinds, reg@[i].has_varargs, reg@[i].multi_results));
        assert(reg@[j].kinds == reg@[i].kinds);
    }
}

} // verus!
