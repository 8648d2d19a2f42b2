//! The algebraic constraint system.
//!
//! Every constraint is a field value that must equal zero for the trace to
//! be accepted.  They come in four families, evaluated in a fixed order:
//! hash-consistency, substring-matching, range-check and logical-consistency
//! constraints, the last family closing with one global window-sum
//! constraint.

use vstd::prelude::*;
use vstd::arithmetic::div_mod::{
    lemma_fundamental_div_mod, lemma_fundamental_div_mod_converse, lemma_mod_multiples_vanish,
    lemma_small_mod,
};
use vstd::arithmetic::mul::{lemma_mul_inequality, lemma_mul_is_distributive_add_other_way};

use crate::circuits::trace::{
    MATCH_FLAG_COL, OFFSET_INDICATOR_COL, PLAINTEXT_COL, RANGE_CHECK_COL, SUBSTRING_COL,
    TOTAL_COLUMNS, TraceLayout, trace_view, trace_wf,
};
use crate::config::{CircuitConfig, PublicInputs, config_wf};
use crate::error::ZkpError;
use crate::field::{Fp, GOLDILOCKS_P, boolean_cell, fadd, fmul, fp_wf, fsub};

verus! {

/// The row count of a trace.
pub open spec fn tlen_of(tv: Seq<Seq<int>>) -> int {
    tv[0].len() as int
}

/// Hash-consistency constraint `i`: the hash-state cell on the terminal
/// diagonal minus the public commitment byte.
pub open spec fn sha_con(tv: Seq<Seq<int>>, cm: Seq<u8>, i: int) -> int {
    fsub(tv[i][tlen_of(tv) - 32 + i], cm[i] as int)
}

/// First substring constraint for disclosed byte `i` and row `row`: inside
/// the window, the substring cell must equal the disclosed byte.
pub open spec fn sub_con1(tv: Seq<Seq<int>>, sub: Seq<u8>, i: int, row: int) -> int {
    fmul(
        tv[OFFSET_INDICATOR_COL as int][row],
        fsub(tv[SUBSTRING_COL as int][row], sub[i] as int),
    )
}

/// Second substring constraint for row `row`: inside the window, the
/// document cell must equal the substring cell.
pub open spec fn sub_con2(tv: Seq<Seq<int>>, row: int) -> int {
    fmul(
        tv[OFFSET_INDICATOR_COL as int][row],
        fsub(tv[PLAINTEXT_COL as int][row], tv[SUBSTRING_COL as int][row]),
    )
}

/// Range-check constraint for a row: the range flag is boolean.
pub open spec fn range_con(tv: Seq<Seq<int>>, row: int) -> int {
    fmul(tv[RANGE_CHECK_COL as int][row], fsub(tv[RANGE_CHECK_COL as int][row], 1))
}

/// The offset indicator is boolean.
pub open spec fn ind_bool_con(tv: Seq<Seq<int>>, row: int) -> int {
    fmul(tv[OFFSET_INDICATOR_COL as int][row], fsub(tv[OFFSET_INDICATOR_COL as int][row], 1))
}

/// The match flag is boolean.
pub open spec fn mf_bool_con(tv: Seq<Seq<int>>, row: int) -> int {
    fmul(tv[MATCH_FLAG_COL as int][row], fsub(tv[MATCH_FLAG_COL as int][row], 1))
}

/// A set indicator forces a set match flag.
pub open spec fn implies_con(tv: Seq<Seq<int>>, row: int) -> int {
    fmul(tv[OFFSET_INDICATOR_COL as int][row], fsub(1, tv[MATCH_FLAG_COL as int][row]))
}

/// The field sum of a column, folded front to back.
pub open spec fn fsum(s: Seq<int>) -> int
    decreases s.len(),
{
    if s.len() == 0 {
        0
    } else {
        fadd(fsum(s.drop_last()), s.last())
    }
}

/// The plain integer sum of a column.
pub open spec fn int_sum(s: Seq<int>) -> int
    decreases s.len(),
{
    if s.len() == 0 {
        0
    } else {
        int_sum(s.drop_last()) + s.last()
    }
}

/// The global window-sum constraint: the field sum of the indicator column
/// minus the disclosed substring's length, embedded into the field.
pub open spec fn window_con(tv: Seq<Seq<int>>, sub: Seq<u8>) -> int {
    fsub(fsum(tv[OFFSET_INDICATOR_COL as int]), (sub.len() as int) % (GOLDILOCKS_P as int))
}

/// How many hash-consistency constraints a trace yields.
pub open spec fn n_sha(tv: Seq<Seq<int>>) -> int {
    if tlen_of(tv) >= 32 {
        32
    } else {
        0
    }
}

/// How many substring constraints a trace yields.
pub open spec fn n_sub(tv: Seq<Seq<int>>, sub: Seq<u8>) -> int {
    2 * tlen_of(tv) * sub.len()
}

/// How many constraints a trace yields in all.
pub open spec fn total_cons(tv: Seq<Seq<int>>, sub: Seq<u8>) -> int {
    n_sha(tv) + n_sub(tv, sub) + tlen_of(tv) + 3 * tlen_of(tv) + 1
}

/// The substring constraint at position `d` of its family: pairs in row
/// order, one run of `2 * rows` values per disclosed byte.
pub open spec fn sub_local(tv: Seq<Seq<int>>, sub: Seq<u8>, d: int) -> int {
    let span = 2 * tlen_of(tv);
    let i = d / span;
    let rem = d % span;
    if rem % 2 == 0 {
        sub_con1(tv, sub, i, rem / 2)
    } else {
        sub_con2(tv, rem / 2)
    }
}

/// The logical-consistency constraint at position `j` of its family: three
/// per row, then the global window-sum constraint.
pub open spec fn logic_local(tv: Seq<Seq<int>>, sub: Seq<u8>, j: int) -> int {
    if j == 3 * tlen_of(tv) {
        window_con(tv, sub)
    } else {
        let row = j / 3;
        let m = j % 3;
        if m == 0 {
            ind_bool_con(tv, row)
        } else if m == 1 {
            mf_bool_con(tv, row)
        } else {
            implies_con(tv, row)
        }
    }
}

/// The constraint at flat position `k` of the full evaluation order.
pub open spec fn con_at(tv: Seq<Seq<int>>, cm: Seq<u8>, sub: Seq<u8>, k: int) -> int {
    if k < n_sha(tv) {
        sha_con(tv, cm, k)
    } else if k < n_sha(tv) + n_sub(tv, sub) {
        sub_local(tv, sub, k - n_sha(tv))
    } else if k < n_sha(tv) + n_sub(tv, sub) + tlen_of(tv) {
        range_con(tv, k - n_sha(tv) - n_sub(tv, sub))
    } else {
        logic_local(tv, sub, k - n_sha(tv) - n_sub(tv, sub) - tlen_of(tv))
    }
}

/// Every hash-consistency constraint vanishes.
pub open spec fn sha_family_ok(tv: Seq<Seq<int>>, cm: Seq<u8>) -> bool {
    tlen_of(tv) >= 32 ==> forall|i: int| 0 <= i < 32 ==> #[trigger] sha_con(tv, cm, i) == 0
}

/// Every substring-matching constraint vanishes.
pub open spec fn sub_family_ok(tv: Seq<Seq<int>>, sub: Seq<u8>) -> bool {
    forall|i: int, row: int|
        0 <= i < sub.len() && 0 <= row < tlen_of(tv) ==> #[trigger] sub_con1(tv, sub, i, row) == 0
            && sub_con2(tv, row) == 0
}

/// Every range-check constraint vanishes.
pub open spec fn range_family_ok(tv: Seq<Seq<int>>) -> bool {
    forall|row: int| 0 <= row < tlen_of(tv) ==> #[trigger] range_con(tv, row) == 0
}

/// Every per-row logical-consistency constraint vanishes.
pub open spec fn logic_family_ok(tv: Seq<Seq<int>>) -> bool {
    forall|row: int|
        0 <= row < tlen_of(tv) ==> #[trigger] ind_bool_con(tv, row) == 0 && mf_bool_con(tv, row)
            == 0 && implies_con(tv, row) == 0
}

/// Acceptance, family by family: every constraint vanishes.
pub open spec fn air_accepts(tv: Seq<Seq<int>>, cm: Seq<u8>, sub: Seq<u8>) -> bool {
    &&& sha_family_ok(tv, cm)
    &&& sub_family_ok(tv, sub)
    &&& range_family_ok(tv)
    &&& logic_family_ok(tv)
    &&& window_con(tv, sub) == 0
}

/// Both boolean-constrained columns hold only zeros and ones.
pub open spec fn boolean_columns(tv: Seq<Seq<int>>) -> bool {
    forall|row: int|
        0 <= row < tlen_of(tv) ==> ((#[trigger] tv[MATCH_FLAG_COL as int][row] == 0
            || tv[MATCH_FLAG_COL as int][row] == 1) && (tv[OFFSET_INDICATOR_COL as int][row] == 0
            || tv[OFFSET_INDICATOR_COL as int][row] == 1))
}

/// Division recovers the factors of an affine index.
proof fn lemma_div_bound(d: int, span: int, n: int)
    requires
        0 < span,
        0 <= d < span * n,
    ensures
        0 <= d / span < n,
        0 <= d % span < span,
{
    lemma_fundamental_div_mod(d, span);
    vstd::arithmetic::div_mod::lemma_div_pos_is_pos(d, span);
    if d / span >= n {
        lemma_mul_inequality(n, d / span, span);
        assert(n * span <= (d / span) * span);
        assert(span * n == n * span) by (nonlinear_arith);
        assert((d / span) * span == span * (d / span)) by (nonlinear_arith);
    }
    vstd::arithmetic::div_mod::lemma_mod_bound(d, span);
}

/// One cell of a trace, read through its view.
fn read_cell(trace: &Vec<Vec<Fp>>, c: usize, r: usize) -> (x: Fp)
    requires
        trace_wf(trace_view(*trace)),
        c < TOTAL_COLUMNS,
        r < trace_view(*trace)[0].len(),
    ensures
        x.value as int == trace_view(*trace)[c as int][r as int],
        fp_wf(x),
{
    proof {
        let tv = trace_view(*trace);
        assert(tv[c as int] == crate::circuits::trace::fp_col_view(trace@[c as int]));
        assert(tv[c as int].len() == tv[0].len());
        assert(tv[c as int][r as int] == trace@[c as int]@[r as int].value as int);
    }
    trace[c][r]
}

/// The constraint system of the substring statement for one configuration.
#[derive(Debug)]
pub struct SubstringAIR {
    pub layout: TraceLayout,
    pub config: CircuitConfig,
}

impl SubstringAIR {
    /// A constraint system for `config` under the given column plan.
    pub fn new(config: CircuitConfig, layout: TraceLayout) -> (r: SubstringAIR)
        ensures
            r.config == config,
            r.layout == layout,
    {
        SubstringAIR { layout, config }
    }

    /// The closed-form constraint count.  For a fixed configuration it is a
    /// constant — a function of the configured bounds alone, independent of
    /// any witness or trace.
    pub fn num_constraints(&self) -> (r: usize)
        requires
            config_wf(self.config),
        ensures
            r == 32 + 4 * self.config.max_text_len,
    {
        self.num_sha256_constraints() + self.num_substring_constraints()
            + self.num_range_constraints() + self.num_logic_constraints()
    }

    /// Constraints of the simplified hash family: one per commitment byte.
    fn num_sha256_constraints(&self) -> (r: usize)
        ensures
            r == 32,
    {
        32
    }

    /// Budgeted substring-matching constraints: one per document position.
    fn num_substring_constraints(&self) -> (r: usize)
        ensures
            r == self.config.max_text_len,
    {
        self.config.max_text_len
    }

    /// Budgeted range-check constraints: one per document position.
    fn num_range_constraints(&self) -> (r: usize)
        ensures
            r == self.config.max_text_len,
    {
        self.config.max_text_len
    }

    /// Budgeted logical-consistency constraints: two per document position.
    fn num_logic_constraints(&self) -> (r: usize)
        requires
            config_wf(self.config),
        ensures
            r == 2 * self.config.max_text_len,
    {
        self.config.max_text_len * 2
    }

    /// Evaluates every constraint, in the fixed family order.
    pub fn evaluate_constraints(&self, trace: &Vec<Vec<Fp>>, public_inputs: &PublicInputs) -> (r:
        Result<Vec<Fp>, ZkpError>)
        requires
            trace_wf(trace_view(*trace)),
        ensures
            r matches Ok(v) && v@.len() == total_cons(
                trace_view(*trace),
                public_inputs.substring@,
            ) && forall|k: int|
                0 <= k < v@.len() ==> (#[trigger] v@[k]).value as int == con_at(
                    trace_view(*trace),
                    public_inputs.commitment@,
                    public_inputs.substring@,
                    k,
                ),
    {
        let ghost tv = trace_view(*trace);
        let ghost cm = public_inputs.commitment@;
        let ghost sub = public_inputs.substring@;
        let mut cons: Vec<Fp> = Vec::new();
        let mut sha_part = match self.evaluate_sha256_constraints(trace, public_inputs) {
            Ok(v) => v,
            Err(e) => {
                return Err(e);
            },
        };
        cons.append(&mut sha_part);
        let mut sub_part = match self.evaluate_substring_constraints(trace, public_inputs) {
            Ok(v) => v,
            Err(e) => {
                return Err(e);
            },
        };
        cons.append(&mut sub_part);
        let mut range_part = match self.evaluate_range_constraints(trace) {
            Ok(v) => v,
            Err(e) => {
                return Err(e);
            },
        };
        cons.append(&mut range_part);
        let mut logic_part = match self.evaluate_logic_constraints(trace, public_inputs) {
            Ok(v) => v,
            Err(e) => {
                return Err(e);
            },
        };
        cons.append(&mut logic_part);
        proof {
            assert(sub.len() as int * (2 * tlen_of(tv)) == 2 * tlen_of(tv) * (sub.len() as int))
                by (nonlinear_arith);
            assert forall|k: int| 0 <= k < cons@.len() implies (#[trigger] cons@[k]).value as int
                == con_at(tv, cm, sub, k) by {
            }
        }
        Ok(cons)
    }

    /// The hash-consistency family: for each commitment byte, the matching
    /// terminal hash-state cell minus that byte.
    #[verifier::loop_isolation(false)]
    fn evaluate_sha256_constraints(&self, trace: &Vec<Vec<Fp>>, public_inputs: &PublicInputs) -> (r:
        Result<Vec<Fp>, ZkpError>)
        requires
            trace_wf(trace_view(*trace)),
        ensures
            r matches Ok(v) && v@.len() == n_sha(trace_view(*trace)) && forall|i: int|
                0 <= i < v@.len() ==> (#[trigger] v@[i]).value as int == sha_con(
                    trace_view(*trace),
                    public_inputs.commitment@,
                    i,
                ),
    {
        let ghost tv = trace_view(*trace);
        let rows: usize = trace[0].len();
        let mut v: Vec<Fp> = Vec::new();
        if rows < 32 {
            return Ok(v);
        }
        let mut i: usize = 0;
        while i < 32
            invariant
                rows >= 32,
                i <= 32,
                v@.len() == i,
                forall|j: int| 0 <= j < i ==> (#[trigger] v@[j]).value as int == sha_con(
                    tv,
                    public_inputs.commitment@,
                    j,
                ),
            decreases 32 - i,
        {
            let row: usize = rows - 32 + i;
            let actual = read_cell(trace, i, row);
            let expected = Fp::from_byte(public_inputs.commitment[i]);
            v.push(actual.sub(expected));
            i += 1;
        }
        Ok(v)
    }

    /// The substring-matching family: for every disclosed byte and every
    /// row, the two window constraints, in row order.
    #[verifier::loop_isolation(false)]
    fn evaluate_substring_constraints(
        &self,
        trace: &Vec<Vec<Fp>>,
        public_inputs: &PublicInputs,
    ) -> (r: Result<Vec<Fp>, ZkpError>)
        requires
            trace_wf(trace_view(*trace)),
        ensures
            r matches Ok(v) && v@.len() == n_sub(trace_view(*trace), public_inputs.substring@)
                && forall|k: int|
                0 <= k < v@.len() ==> (#[trigger] v@[k]).value as int == sub_local(
                    trace_view(*trace),
                    public_inputs.substring@,
                    k,
                ),
    {
        let ghost tv = trace_view(*trace);
        let ghost sub = public_inputs.substring@;
        let ghost span = 2 * tlen_of(tv);
        let rows: usize = trace[0].len();
        let mut v: Vec<Fp> = Vec::new();
        let mut i: usize = 0;
        while i < public_inputs.substring.len()
            invariant
                i <= sub.len(),
                v@.len() == i * span,
                forall|k: int| 0 <= k < v@.len() ==> (#[trigger] v@[k]).value as int == sub_local(
                    tv,
                    sub,
                    k,
                ),
            decreases sub.len() - i,
        {
            let expected = Fp::from_byte(public_inputs.substring[i]);
            let mut row: usize = 0;
            while row < rows
                invariant
                    i < sub.len(),
                    expected.value == sub[i as int],
                    row <= rows,
                    v@.len() == i * span + 2 * row,
                    forall|k: int| 0 <= k < v@.len() ==> (#[trigger] v@[k]).value as int
                        == sub_local(tv, sub, k),
                decreases rows - row,
            {
                let ind = read_cell(trace, OFFSET_INDICATOR_COL, row);
                let plain = read_cell(trace, PLAINTEXT_COL, row);
                let subc = read_cell(trace, SUBSTRING_COL, row);
                proof {
                    lemma_fundamental_div_mod_converse(
                        i as int * span + 2 * row,
                        span,
                        i as int,
                        2 * row,
                    );
                    lemma_fundamental_div_mod_converse(
                        i as int * span + 2 * row + 1,
                        span,
                        i as int,
                        2 * row + 1,
                    );
                    lemma_fundamental_div_mod_converse(2 * row, 2, row as int, 0);
                    lemma_fundamental_div_mod_converse(2 * row + 1, 2, row as int, 1);
                }
                v.push(ind.mul(subc.sub(expected)));
                v.push(ind.mul(plain.sub(subc)));
                row += 1;
            }
            proof {
                lemma_mul_is_distributive_add_other_way(span, i as int, 1);
                assert((i as int + 1) * span == i as int * span + span);
            }
            i += 1;
        }
        proof {
            assert(sub.len() as int * span == 2 * tlen_of(tv) * (sub.len() as int))
                by (nonlinear_arith)
                requires
                    span == 2 * tlen_of(tv),
            ;
        }
        Ok(v)
    }

    /// The range-check family: one boolean constraint on the range flag of
    /// each row.
    #[verifier::loop_isolation(false)]
    fn evaluate_range_constraints(&self, trace: &Vec<Vec<Fp>>) -> (r: Result<Vec<Fp>, ZkpError>)
        requires
            trace_wf(trace_view(*trace)),
        ensures
            r matches Ok(v) && v@.len() == tlen_of(trace_view(*trace)) && forall|row: int|
                0 <= row < v@.len() ==> (#[trigger] v@[row]).value as int == range_con(
                    trace_view(*trace),
                    row,
                ),
    {
        let ghost tv = trace_view(*trace);
        let rows: usize = trace[0].len();
        let mut v: Vec<Fp> = Vec::new();
        let mut row: usize = 0;
        while row < rows
            invariant
                row <= rows,
                v@.len() == row,
                forall|r2: int| 0 <= r2 < row ==> (#[trigger] v@[r2]).value as int == range_con(
                    tv,
                    r2,
                ),
            decreases rows - row,
        {
            let flag = read_cell(trace, RANGE_CHECK_COL, row);
            v.push(flag.mul(flag.sub(Fp::one())));
            row += 1;
        }
        Ok(v)
    }

    /// The logical-consistency family: per row, both boolean constraints and
    /// the implication constraint; then the global window-sum constraint.
    #[verifier::loop_isolation(false)]
    fn evaluate_logic_constraints(&self, trace: &Vec<Vec<Fp>>, public_inputs: &PublicInputs) -> (r:
        Result<Vec<Fp>, ZkpError>)
        requires
            trace_wf(trace_view(*trace)),
        ensures
            r matches Ok(v) && v@.len() == 3 * tlen_of(trace_view(*trace)) + 1 && forall|j: int|
                0 <= j < v@.len() ==> (#[trigger] v@[j]).value as int == logic_local(
                    trace_view(*trace),
                    public_inputs.substring@,
                    j,
                ),
    {
        let ghost tv = trace_view(*trace);
        let ghost sub = public_inputs.substring@;
        let ghost ind_col = tv[OFFSET_INDICATOR_COL as int];
        let rows: usize = trace[0].len();
        let mut v: Vec<Fp> = Vec::new();
        let mut row: usize = 0;
        while row < rows
            invariant
                row <= rows,
                v@.len() == 3 * row,
                forall|j: int| 0 <= j < v@.len() ==> (#[trigger] v@[j]).value as int == logic_local(
                    tv,
                    sub,
                    j,
                ),
            decreases rows - row,
        {
            let ind = read_cell(trace, OFFSET_INDICATOR_COL, row);
            let mf = read_cell(trace, MATCH_FLAG_COL, row);
            proof {
                lemma_fundamental_div_mod_converse(3 * row, 3, row as int, 0);
                lemma_fundamental_div_mod_converse(3 * row + 1, 3, row as int, 1);
                lemma_fundamental_div_mod_converse(3 * row + 2, 3, row as int, 2);
            }
            v.push(ind.mul(ind.sub(Fp::one())));
            v.push(mf.mul(mf.sub(Fp::one())));
            v.push(ind.mul(Fp::one().sub(mf)));
            row += 1;
        }
        let mut window_sum = Fp::zero();
        let mut r2: usize = 0;
        proof {
            assert(ind_col.take(0) =~= Seq::<int>::empty());
        }
        while r2 < rows
            invariant
                r2 <= rows,
                fp_wf(window_sum),
                window_sum.value as int == fsum(ind_col.take(r2 as int)),
            decreases rows - r2,
        {
            let cell = read_cell(trace, OFFSET_INDICATOR_COL, r2);
            let next = window_sum.add(cell);
            proof {
                assert(ind_col.take(r2 as int + 1).drop_last() =~= ind_col.take(r2 as int));
                assert(ind_col.take(r2 as int + 1).last() == ind_col[r2 as int]);
            }
            window_sum = next;
            r2 += 1;
        }
        proof {
            assert(ind_col.take(rows as int) =~= ind_col);
        }
        v.push(window_sum.sub(Fp::from_len(public_inputs.substring.len())));
        Ok(v)
    }

    /// Accepts a trace exactly when every constraint vanishes.  On an
    /// accepted trace this also certifies, through the field's inverses,
    /// that the match-flag and offset-indicator columns are boolean, and
    /// that the indicator column sums to the disclosed substring's length.
    #[verifier::loop_isolation(false)]
    pub fn verify_all_constraints(&self, trace: &Vec<Vec<Fp>>, public_inputs: &PublicInputs) -> (r:
        Result<bool, ZkpError>)
        requires
            trace_wf(trace_view(*trace)),
        ensures
            r matches Ok(b) && b == air_accepts(
                trace_view(*trace),
                public_inputs.commitment@,
                public_inputs.substring@,
            ),
            (r matches Ok(b) && b) ==> boolean_columns(trace_view(*trace)),
            (r matches Ok(b) && b && tlen_of(trace_view(*trace)) < GOLDILOCKS_P
                && public_inputs.substring@.len() < GOLDILOCKS_P) ==> int_sum(
                trace_view(*trace)[OFFSET_INDICATOR_COL as int],
            ) == public_inputs.substring@.len(),
    {
        let ghost tv = trace_view(*trace);
        let ghost cm = public_inputs.commitment@;
        let ghost sub = public_inputs.substring@;
        let cons = match self.evaluate_constraints(trace, public_inputs) {
            Ok(c) => c,
            Err(e) => {
                return Err(e);
            },
        };
        let mut k: usize = 0;
        while k < cons.len()
            invariant
                k <= cons@.len(),
                forall|k2: int| 0 <= k2 < k ==> #[trigger] con_at(tv, cm, sub, k2) == 0,
            decreases cons@.len() - k,
        {
            if cons[k].value != 0 {
                proof {
                    lemma_flat_family_equiv(tv, cm, sub);
                }
                return Ok(false);
            }
            k += 1;
        }
        proof {
            lemma_flat_family_equiv(tv, cm, sub);
        }
        let rows: usize = trace[0].len();
        let mut row: usize = 0;
        while row < rows
            invariant
                row <= rows,
                air_accepts(tv, cm, sub),
                forall|r2: int|
                    0 <= r2 < row ==> (#[trigger] tv[MATCH_FLAG_COL as int][r2] == 0
                        || tv[MATCH_FLAG_COL as int][r2] == 1),
                forall|r2: int|
                    0 <= r2 < row ==> (#[trigger] tv[OFFSET_INDICATOR_COL as int][r2] == 0
                        || tv[OFFSET_INDICATOR_COL as int][r2] == 1),
            decreases rows - row,
        {
            let ind = read_cell(trace, OFFSET_INDICATOR_COL, row);
            let mf = read_cell(trace, MATCH_FLAG_COL, row);
            proof {
                assert(ind_bool_con(tv, row as int) == 0);
                assert(mf_bool_con(tv, row as int) == 0);
            }
            let ind_ok = boolean_cell(ind);
            let mf_ok = boolean_cell(mf);
            proof {
                assert(ind_ok && mf_ok);
            }
            row += 1;
        }
        proof {
            if tlen_of(tv) < GOLDILOCKS_P && sub.len() < GOLDILOCKS_P {
                let ind_col = tv[OFFSET_INDICATOR_COL as int];
                assert(ind_col.len() == tlen_of(tv));
                lemma_bool_col_sum(ind_col);
                // The window constraint pins the field sum; with boolean
                // cells and fewer rows than the field order the field sum
                // is the integer sum, and the embedded length is the length.
                assert(window_con(tv, sub) == 0);
                lemma_small_mod(sub.len(), GOLDILOCKS_P as nat);
                lemma_fsub_zero(fsum(ind_col), sub.len() as int);
            }
        }
        Ok(true)
    }
}


/// Turns the constraint list into constant column polynomials: one column of
/// the trace's length per constraint, holding that constraint's value in
/// every entry.
pub struct ConstraintPolynomialBuilder {
    pub air: SubstringAIR,
}

impl ConstraintPolynomialBuilder {
    /// A builder around a constraint system.
    pub fn new(air: SubstringAIR) -> (r: ConstraintPolynomialBuilder)
        ensures
            r.air == air,
    {
        ConstraintPolynomialBuilder { air }
    }

    /// One constant polynomial per constraint, each as long as the trace.
    #[verifier::loop_isolation(false)]
    pub fn build_constraint_polynomials(
        &self,
        trace: &Vec<Vec<Fp>>,
        public_inputs: &PublicInputs,
    ) -> (r: Result<Vec<Vec<Fp>>, ZkpError>)
        requires
            trace_wf(trace_view(*trace)),
        ensures
            r matches Ok(polys) && polys@.len() == total_cons(
                trace_view(*trace),
                public_inputs.substring@,
            ) && (forall|k: int|
                0 <= k < polys@.len() ==> (#[trigger] polys@[k])@.len() == tlen_of(
                    trace_view(*trace),
                )) && (forall|k: int, i: int|
                0 <= k < polys@.len() && 0 <= i < tlen_of(trace_view(*trace))
                    ==> (#[trigger] polys@[k]@[i]).value as int == con_at(
                    trace_view(*trace),
                    public_inputs.commitment@,
                    public_inputs.substring@,
                    k,
                )),
    {
        let ghost tv = trace_view(*trace);
        let ghost cm = public_inputs.commitment@;
        let ghost sub = public_inputs.substring@;
        let cons = match self.air.evaluate_constraints(trace, public_inputs) {
            Ok(c) => c,
            Err(e) => {
                return Err(e);
            },
        };
        let rows: usize = trace[0].len();
        let mut polys: Vec<Vec<Fp>> = Vec::new();
        let mut k: usize = 0;
        while k < cons.len()
            invariant
                k <= cons@.len(),
                polys@.len() == k,
                forall|k2: int| 0 <= k2 < k ==> (#[trigger] polys@[k2])@.len() == tlen_of(tv),
                forall|k2: int, i: int|
                    0 <= k2 < k && 0 <= i < tlen_of(tv) ==> (#[trigger] polys@[k2]@[i]).value
                        as int == con_at(tv, cm, sub, k2),
            decreases cons@.len() - k,
        {
            let c = cons[k];
            let mut poly: Vec<Fp> = Vec::new();
            let mut i: usize = 0;
            while i < rows
                invariant
                    i <= rows,
                    poly@.len() == i,
                    forall|i2: int| 0 <= i2 < i ==> (#[trigger] poly@[i2]) == c,
                decreases rows - i,
            {
                poly.push(c);
                i += 1;
            }
            polys.push(poly);
            k += 1;
        }
        Ok(polys)
    }
}

/// The flat all-zero reading of the constraint list coincides with the
/// family-by-family reading.
#[verifier::rlimit(60)]
#[verifier::spinoff_prover]
proof fn lemma_flat_family_equiv(tv: Seq<Seq<int>>, cm: Seq<u8>, sub: Seq<u8>)
    ensures
        (forall|k: int| 0 <= k < total_cons(tv, sub) ==> #[trigger] con_at(tv, cm, sub, k) == 0)
            <==> air_accepts(tv, cm, sub),
{
    let tlen = tlen_of(tv);
    let span = 2 * tlen;
    let base_sub = n_sha(tv);
    let base_range = base_sub + n_sub(tv, sub);
    let base_logic = base_range + tlen;
    assert(n_sub(tv, sub) >= 0) by (nonlinear_arith)
        requires
            n_sub(tv, sub) == 2 * tlen * sub.len(),
            tlen >= 0,
    ;
    if forall|k: int| 0 <= k < total_cons(tv, sub) ==> #[trigger] con_at(tv, cm, sub, k) == 0 {
        if tlen >= 32 {
            assert forall|i: int| 0 <= i < 32 implies #[trigger] sha_con(tv, cm, i) == 0 by {
                assert(con_at(tv, cm, sub, i) == 0);
            }
        }
        assert forall|i: int, row: int|
            0 <= i < sub.len() && 0 <= row < tlen implies #[trigger] sub_con1(tv, sub, i, row) == 0
            && sub_con2(tv, row) == 0 by {
            let d1 = i * span + 2 * row;
            let d2 = d1 + 1;
            lemma_mul_inequality(i + 1, sub.len() as int, span);
            assert((i + 1) * span == i * span + span) by (nonlinear_arith);
            assert(sub.len() as int * span == span * sub.len()) by (nonlinear_arith);
            assert(d2 < n_sub(tv, sub));
            lemma_fundamental_div_mod_converse(d1, span, i, 2 * row);
            lemma_fundamental_div_mod_converse(d2, span, i, 2 * row + 1);
            lemma_fundamental_div_mod_converse(2 * row, 2, row, 0);
            lemma_fundamental_div_mod_converse(2 * row + 1, 2, row, 1);
            assert(con_at(tv, cm, sub, base_sub + d1) == 0);
            assert(con_at(tv, cm, sub, base_sub + d2) == 0);
            assert(sub_local(tv, sub, d1) == sub_con1(tv, sub, i, row));
            assert(sub_local(tv, sub, d2) == sub_con2(tv, row));
        }
        assert forall|row: int| 0 <= row < tlen implies #[trigger] range_con(tv, row) == 0 by {
            assert(con_at(tv, cm, sub, base_range + row) == 0);
        }
        assert forall|row: int|
            0 <= row < tlen implies #[trigger] ind_bool_con(tv, row) == 0 && mf_bool_con(tv, row)
            == 0 && implies_con(tv, row) == 0 by {
            lemma_fundamental_div_mod_converse(3 * row, 3, row, 0);
            lemma_fundamental_div_mod_converse(3 * row + 1, 3, row, 1);
            lemma_fundamental_div_mod_converse(3 * row + 2, 3, row, 2);
            assert(con_at(tv, cm, sub, base_logic + 3 * row) == 0);
            assert(con_at(tv, cm, sub, base_logic + 3 * row + 1) == 0);
            assert(con_at(tv, cm, sub, base_logic + 3 * row + 2) == 0);
            assert(logic_local(tv, sub, 3 * row) == ind_bool_con(tv, row));
            assert(logic_local(tv, sub, 3 * row + 1) == mf_bool_con(tv, row));
            assert(logic_local(tv, sub, 3 * row + 2) == implies_con(tv, row));
        }
        assert(con_at(tv, cm, sub, base_logic + 3 * tlen) == 0);
        assert(logic_local(tv, sub, 3 * tlen) == window_con(tv, sub));
        assert(sha_family_ok(tv, cm));
        assert(sub_family_ok(tv, sub));
        assert(range_family_ok(tv));
        assert(logic_family_ok(tv));
        assert(air_accepts(tv, cm, sub));
    }
    if air_accepts(tv, cm, sub) {
        assert forall|k: int| 0 <= k < total_cons(tv, sub) implies #[trigger] con_at(
            tv,
            cm,
            sub,
            k,
        ) == 0 by {
            if k < base_sub {
                assert(tlen >= 32);
                assert(sha_con(tv, cm, k) == 0);
            } else if k < base_range {
                let d = k - base_sub;
                assert(span > 0) by (nonlinear_arith)
                    requires
                        n_sub(tv, sub) == 2 * tlen * sub.len(),
                        d < n_sub(tv, sub),
                        0 <= d,
                        span == 2 * tlen,
                        tlen >= 0,
                ;
                lemma_div_bound(d, span, sub.len() as int);
                lemma_fundamental_div_mod(d, span);
                let i = d / span;
                let rem = d % span;
                lemma_div_bound(rem, 2, tlen);
                lemma_fundamental_div_mod(rem, 2);
                assert(0 <= i < sub.len());
                assert(0 <= rem / 2 < tlen);
                assert(sub_con1(tv, sub, i, rem / 2) == 0);
                assert(sub_con2(tv, rem / 2) == 0);
                assert(con_at(tv, cm, sub, k) == sub_local(tv, sub, d));
            } else if k < base_logic {
                assert(range_con(tv, k - base_range) == 0);
            } else {
                let j = k - base_logic;
                if j == 3 * tlen {
                } else {
                    assert(0 <= j < 3 * tlen);
                    lemma_div_bound(j, 3, tlen);
                    lemma_fundamental_div_mod(j, 3);
                    assert(0 <= j / 3 < tlen);
                    assert(ind_bool_con(tv, j / 3) == 0);
                    assert(mf_bool_con(tv, j / 3) == 0);
                    assert(implies_con(tv, j / 3) == 0);
                }
            }
        }
    }
}

/// A column of zeros and ones shorter than the field order folds, in the
/// field, to its plain integer sum, which the length bounds.
proof fn lemma_bool_col_sum(s: Seq<int>)
    requires
        s.len() < GOLDILOCKS_P,
        forall|j: int| 0 <= j < s.len() ==> #[trigger] s[j] == 0 || s[j] == 1,
    ensures
        0 <= int_sum(s) <= s.len(),
        fsum(s) == int_sum(s),
    decreases s.len(),
{
    if s.len() > 0 {
        lemma_bool_col_sum(s.drop_last());
        lemma_small_mod((int_sum(s.drop_last()) + s.last()) as nat, GOLDILOCKS_P as nat);
    }
}

/// Two canonical representatives whose field difference vanishes are equal.
proof fn lemma_fsub_zero(a: int, b: int)
    requires
        0 <= a < GOLDILOCKS_P,
        0 <= b < GOLDILOCKS_P,
        fsub(a, b) == 0,
    ensures
        a == b,
{
    let p = GOLDILOCKS_P as int;
    if a >= b {
        lemma_small_mod((a - b) as nat, p as nat);
    } else {
        lemma_mod_multiples_vanish(1, a - b, p);
        assert(p * 1 + (a - b) == a - b + p);
        lemma_small_mod((a - b + p) as nat, p as nat);
    }
}


} // verus!
