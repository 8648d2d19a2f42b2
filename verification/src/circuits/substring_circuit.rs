//! The native byte-level substring circuit.
//!
//! Besides laying out a trace of its own, this circuit checks the statement
//! directly on bytes — hash equality, substring equality at the asserted
//! offset, and a row-by-row cross-check of the trace's match window — and so
//! serves as a fast gate before, and an oracle beside, the algebraic
//! constraints.

use vstd::prelude::*;

use crate::circuits::Circuit;
use crate::circuits::trace::{
    MATCH_FLAG_COL, OFFSET_INDICATOR_COL, PLAINTEXT_COL, RANGE_CHECK_COL, SUBSTRING_COL,
    TOTAL_COLUMNS,
    fp_col_view, in_window, indicator_cell, indicator_column, match_cell, match_column,
    params_doc, params_offset, plain_cell, plaintext_column, sub_cell, substring_column,
    trace_inputs_err_msg, trace_inputs_ok, trace_view, trace_wf, zero_column,
};
use crate::config::{CircuitConfig, CircuitParams};
use crate::error::ZkpError;
use crate::field::{Fp, GOLDILOCKS_P};
use crate::hash::sha256_of;

verus! {

/// Rows of the circuit's trace: the document bound, never fewer than 64.
pub open spec fn circuit_tlen(config: CircuitConfig) -> int {
    if config.max_text_len >= 64 {
        config.max_text_len as int
    } else {
        64
    }
}

/// One cell of the circuit's trace: document, substring, match-flag and
/// indicator columns; every other column stays zero.
pub open spec fn circuit_cell(doc: Seq<u8>, sub: Seq<u8>, off: int, c: int, r: int) -> int {
    if c == PLAINTEXT_COL {
        plain_cell(doc, r)
    } else if c == SUBSTRING_COL {
        sub_cell(sub, off, r)
    } else if c == MATCH_FLAG_COL {
        match_cell(doc, sub, off, r)
    } else if c == OFFSET_INDICATOR_COL {
        indicator_cell(off, sub.len() as int, r)
    } else {
        0
    }
}

/// One column of the circuit's trace.
pub open spec fn circuit_col_spec(
    config: CircuitConfig,
    doc: Seq<u8>,
    sub: Seq<u8>,
    off: int,
    c: int,
) -> Seq<int> {
    Seq::new(circuit_tlen(config) as nat, |r: int| circuit_cell(doc, sub, off, c, r))
}

/// The circuit's whole trace.
pub open spec fn circuit_trace_view(
    config: CircuitConfig,
    doc: Seq<u8>,
    sub: Seq<u8>,
    off: int,
) -> Seq<Seq<int>> {
    Seq::new(TOTAL_COLUMNS as nat, |c: int| circuit_col_spec(config, doc, sub, off, c))
}

/// Whether the document hashes to the public commitment.
pub open spec fn hash_matches(doc: Seq<u8>, commitment: Seq<u8>) -> bool {
    sha256_of(doc)@ == commitment
}

/// Whether the document holds the substring at the asserted offset.
pub open spec fn substring_matches(doc: Seq<u8>, sub: Seq<u8>, off: int) -> bool {
    &&& 0 <= off
    &&& off + sub.len() <= doc.len()
    &&& doc.subrange(off, off + sub.len() as int) == sub
}

/// The row-by-row cross-check: wherever the indicator is set, the match flag
/// is set too and the document cell equals the substring cell.
pub open spec fn crosscheck_ok(tv: Seq<Seq<int>>) -> bool {
    forall|r: int|
        0 <= r < tv[0].len() && #[trigger] tv[OFFSET_INDICATOR_COL as int][r] == 1
            ==> tv[MATCH_FLAG_COL as int][r] == 1 && tv[PLAINTEXT_COL as int][r]
            == tv[SUBSTRING_COL as int][r]
}

/// What the circuit's full constraint check returns for a trace and
/// parameters holding a witness.
pub open spec fn circuit_constraints_hold(
    tv: Seq<Seq<int>>,
    config: CircuitConfig,
    params: CircuitParams,
) -> bool {
    &&& hash_matches(params_doc(params), params.public_inputs.commitment@)
    &&& substring_matches(params_doc(params), params.public_inputs.substring@, params_offset(params))
    &&& crosscheck_ok(tv)
}

/// A column whose cells match the circuit's formula pointwise is that
/// column of the circuit's trace.
proof fn lemma_circuit_col_matches(
    col: Vec<Fp>,
    config: CircuitConfig,
    doc: Seq<u8>,
    sub: Seq<u8>,
    off: int,
    c: int,
)
    requires
        col@.len() == circuit_tlen(config),
        forall|j: int| 0 <= j < circuit_tlen(config) ==> (#[trigger] col@[j]).value as int
            == circuit_cell(doc, sub, off, c, j),
    ensures
        fp_col_view(col) == circuit_col_spec(config, doc, sub, off, c),
{
    let cv = fp_col_view(col);
    let gs = circuit_col_spec(config, doc, sub, off, c);
    assert forall|j: int| 0 <= j < circuit_tlen(config) implies cv[j] == gs[j] by {
        assert(cv[j] == col@[j].value as int);
        assert(gs[j] == circuit_cell(doc, sub, off, c, j));
    }
    assert(cv =~= gs);
}

/// Every cell the circuit writes is a byte value or a flag, far below the
/// field order, and the trace is rectangular.
proof fn lemma_circuit_trace_wf(config: CircuitConfig, doc: Seq<u8>, sub: Seq<u8>, off: int)
    ensures
        trace_wf(circuit_trace_view(config, doc, sub, off)),
{
    let tv = circuit_trace_view(config, doc, sub, off);
    assert forall|c: int, r: int|
        0 <= c < tv.len() && 0 <= r < tv[c].len() implies 0 <= #[trigger] tv[c][r]
        < GOLDILOCKS_P by {
        assert(tv[c][r] == circuit_cell(doc, sub, off, c, r));
        assert(0 <= circuit_cell(doc, sub, off, c, r) < 256);
    }
}


/// An honest trace passes the cross-check: inside the asserted window the
/// document really does match the substring, so every indicator row carries
/// a set match flag and equal byte cells.
pub proof fn lemma_honest_crosscheck(config: CircuitConfig, doc: Seq<u8>, sub: Seq<u8>, off: int)
    requires
        substring_matches(doc, sub, off),
    ensures
        crosscheck_ok(circuit_trace_view(config, doc, sub, off)),
{
    let tv = circuit_trace_view(config, doc, sub, off);
    let tlen = circuit_tlen(config);
    assert forall|r: int|
        0 <= r < tv[0].len() && #[trigger] tv[OFFSET_INDICATOR_COL as int][r] == 1 implies
        tv[MATCH_FLAG_COL as int][r] == 1 && tv[PLAINTEXT_COL as int][r] == tv[SUBSTRING_COL
        as int][r] by {
        assert(tv[OFFSET_INDICATOR_COL as int][r] == indicator_cell(off, sub.len() as int, r));
        assert(in_window(off, sub.len() as int, r));
        assert(doc.subrange(off, off + sub.len() as int)[r - off] == doc[r]);
        assert(doc[r] == sub[r - off]);
        assert(tv[MATCH_FLAG_COL as int][r] == match_cell(doc, sub, off, r));
        assert(tv[PLAINTEXT_COL as int][r] == plain_cell(doc, r));
        assert(tv[SUBSTRING_COL as int][r] == sub_cell(sub, off, r));
    }
}

/// The substring-containment circuit for one configuration.
#[derive(Debug)]
pub struct SubstringCircuit {
    pub config: CircuitConfig,
}

impl SubstringCircuit {
    /// A circuit for `config`.
    pub fn new(config: CircuitConfig) -> (r: SubstringCircuit)
        ensures
            r.config == config,
    {
        SubstringCircuit { config }
    }

    /// Checks the generation conditions without building anything: witness
    /// present, lengths within bounds, window inside the document.
    fn validate_params(&self, params: &CircuitParams) -> (r: Result<(), ZkpError>)
        ensures
            r is Ok <==> trace_inputs_ok(self.config, *params),
            r matches Err(e) ==> e is InvalidWitness && crate::error::error_payload(e)
                == trace_inputs_err_msg(self.config, *params),
    {
        let witness = match &params.witness {
            Some(w) => w,
            None => {
                return Err(ZkpError::InvalidWitness("missing witness".to_owned()));
            },
        };
        if witness.plaintext.len() > self.config.max_text_len {
            return Err(
                ZkpError::InvalidWitness(
                    "plaintext exceeds the configured maximum length".to_owned(),
                ),
            );
        }
        if params.public_inputs.substring.len() > self.config.max_substring_len {
            return Err(
                ZkpError::InvalidWitness(
                    "substring exceeds the configured maximum length".to_owned(),
                ),
            );
        }
        if witness.offset > witness.plaintext.len() || params.public_inputs.substring.len()
            > witness.plaintext.len() - witness.offset {
            return Err(
                ZkpError::InvalidWitness("substring window exceeds the plaintext".to_owned()),
            );
        }
        Ok(())
    }

    /// Recomputes the document's digest and compares it byte for byte with
    /// the public commitment.
    fn verify_hash_constraint(&self, params: &CircuitParams) -> (r: Result<bool, ZkpError>)
        ensures
            params.witness is Some ==> (r matches Ok(b) && b == hash_matches(
                params_doc(*params),
                params.public_inputs.commitment@,
            )),
            params.witness is None ==> (r matches Err(e) && e is InvalidWitness),
    {
        let witness = match &params.witness {
            Some(w) => w,
            None => {
                return Err(ZkpError::InvalidWitness("missing witness".to_owned()));
            },
        };
        Ok(crate::hash::verify(witness.plaintext.as_slice(), &params.public_inputs.commitment))
    }

    /// Compares the document slice at the asserted offset with the disclosed
    /// substring, byte for byte.
    #[verifier::loop_isolation(false)]
    fn verify_substring_constraint(&self, params: &CircuitParams) -> (r: Result<bool, ZkpError>)
        ensures
            params.witness is Some ==> (r matches Ok(b) && b == substring_matches(
                params_doc(*params),
                params.public_inputs.substring@,
                params_offset(*params),
            )),
            params.witness is None ==> (r matches Err(e) && e is InvalidWitness),
    {
        let witness = match &params.witness {
            Some(w) => w,
            None => {
                return Err(ZkpError::InvalidWitness("missing witness".to_owned()));
            },
        };
        let sub = &params.public_inputs.substring;
        let doc = &witness.plaintext;
        if witness.offset > doc.len() || sub.len() > doc.len() - witness.offset {
            return Ok(false);
        }
        let mut i: usize = 0;
        while i < sub.len()
            invariant
                i <= sub@.len(),
                witness.offset + sub@.len() <= doc@.len(),
                forall|j: int| 0 <= j < i ==> doc@[witness.offset + j] == sub@[j],
            decreases sub@.len() - i,
        {
            if doc[witness.offset + i] != sub[i] {
                proof {
                    assert(doc@.subrange(
                        witness.offset as int,
                        witness.offset + sub@.len(),
                    )[i as int] == doc@[witness.offset + i]);
                }
                return Ok(false);
            }
            i += 1;
        }
        proof {
            assert(doc@.subrange(witness.offset as int, witness.offset + sub@.len()) =~= sub@);
        }
        Ok(true)
    }
}

impl Circuit for SubstringCircuit {
    open spec fn gen_ok(&self, params: CircuitParams) -> bool {
        trace_inputs_ok(self.config, params)
    }

    open spec fn gen_trace_spec(&self, params: CircuitParams) -> Seq<Seq<int>> {
        circuit_trace_view(
            self.config,
            params_doc(params),
            params.public_inputs.substring@,
            params_offset(params),
        )
    }

    open spec fn gen_err_msg(&self, params: CircuitParams) -> Seq<char> {
        trace_inputs_err_msg(self.config, params)
    }

    open spec fn constraints_hold(&self, tv: Seq<Seq<int>>, params: CircuitParams) -> bool {
        circuit_constraints_hold(tv, self.config, params)
    }

    open spec fn config_spec(&self) -> CircuitConfig {
        self.config
    }

    #[verifier::loop_isolation(false)]
    fn generate_trace(&self, params: &CircuitParams) -> (r: Result<Vec<Vec<Fp>>, ZkpError>) {
        if let Err(e) = self.validate_params(params) {
            return Err(e);
        }
        let witness = match &params.witness {
            Some(w) => w,
            None => {
                return Err(ZkpError::InvalidWitness("missing witness".to_owned()));
            },
        };
        let tlen: usize = if self.config.max_text_len >= 64 {
            self.config.max_text_len
        } else {
            64
        };
        let ghost doc = witness.plaintext@;
        let ghost sub = params.public_inputs.substring@;
        let ghost off = witness.offset as int;
        let mut t: Vec<Vec<Fp>> = Vec::new();
        let mut c: usize = 0;
        while c < PLAINTEXT_COL
            invariant
                c <= PLAINTEXT_COL,
                t@.len() == c,
                forall|cc: int| 0 <= cc < c ==> fp_col_view(#[trigger] t@[cc])
                    == circuit_col_spec(self.config, doc, sub, off, cc),
            decreases PLAINTEXT_COL - c,
        {
            let col = zero_column(tlen);
            proof {
                lemma_circuit_col_matches(col, self.config, doc, sub, off, c as int);
            }
            let ghost colsnap = col;
            t.push(col);
            proof {
                assert(t@[c as int] == colsnap);
            }
            c += 1;
        }
        let col_p = plaintext_column(&witness.plaintext, tlen);
        proof {
            lemma_circuit_col_matches(col_p, self.config, doc, sub, off, PLAINTEXT_COL as int);
        }
        let ghost col_p_snap = col_p;
        t.push(col_p);
        proof {
            assert(t@[PLAINTEXT_COL as int] == col_p_snap);
        }
        let col_s = substring_column(&params.public_inputs.substring, witness.offset, tlen);
        proof {
            lemma_circuit_col_matches(col_s, self.config, doc, sub, off, SUBSTRING_COL as int);
        }
        let ghost col_s_snap = col_s;
        t.push(col_s);
        proof {
            assert(t@[SUBSTRING_COL as int] == col_s_snap);
        }
        let col_m = match_column(
            &witness.plaintext,
            &params.public_inputs.substring,
            witness.offset,
            tlen,
        );
        proof {
            lemma_circuit_col_matches(col_m, self.config, doc, sub, off, MATCH_FLAG_COL as int);
        }
        let ghost col_m_snap = col_m;
        t.push(col_m);
        proof {
            assert(t@[MATCH_FLAG_COL as int] == col_m_snap);
        }
        let col_i = indicator_column(witness.offset, params.public_inputs.substring.len(), tlen);
        proof {
            lemma_circuit_col_matches(
                col_i,
                self.config,
                doc,
                sub,
                off,
                OFFSET_INDICATOR_COL as int,
            );
        }
        let ghost col_i_snap = col_i;
        t.push(col_i);
        proof {
            assert(t@[OFFSET_INDICATOR_COL as int] == col_i_snap);
        }
        let col_z = zero_column(tlen);
        proof {
            lemma_circuit_col_matches(col_z, self.config, doc, sub, off, RANGE_CHECK_COL as int);
        }
        let ghost col_z_snap = col_z;
        t.push(col_z);
        proof {
            assert(t@[RANGE_CHECK_COL as int] == col_z_snap);
            let tv = trace_view(t);
            let gv = circuit_trace_view(self.config, doc, sub, off);
            assert forall|cc: int| 0 <= cc < TOTAL_COLUMNS implies tv[cc] == gv[cc] by {
                assert(tv[cc] == fp_col_view(t@[cc]));
                assert(gv[cc] == circuit_col_spec(self.config, doc, sub, off, cc));
            }
            assert(tv =~= gv);
            lemma_circuit_trace_wf(self.config, doc, sub, off);
        }
        Ok(t)
    }

    #[verifier::loop_isolation(false)]
    fn verify_constraints(&self, trace: &Vec<Vec<Fp>>, params: &CircuitParams) -> (r: Result<
        bool,
        ZkpError,
    >) {
        let hash_ok = match self.verify_hash_constraint(params) {
            Ok(b) => b,
            Err(e) => {
                return Err(e);
            },
        };
        if !hash_ok {
            return Ok(false);
        }
        let substring_ok = match self.verify_substring_constraint(params) {
            Ok(b) => b,
            Err(e) => {
                return Err(e);
            },
        };
        if !substring_ok {
            return Ok(false);
        }
        let ghost tv = trace_view(*trace);
        let rows: usize = trace[0].len();
        let mut i: usize = 0;
        while i < rows
            invariant
                i <= rows,
                forall|rr: int|
                    0 <= rr < i && #[trigger] tv[OFFSET_INDICATOR_COL as int][rr] == 1
                        ==> tv[MATCH_FLAG_COL as int][rr] == 1 && tv[PLAINTEXT_COL as int][rr]
                        == tv[SUBSTRING_COL as int][rr],
            decreases rows - i,
        {
            proof {
                assert(tv[0].len() == rows);
                assert(tv[OFFSET_INDICATOR_COL as int][i as int] == trace@[OFFSET_INDICATOR_COL
                    as int]@[i as int].value as int);
                assert(tv[MATCH_FLAG_COL as int][i as int] == trace@[MATCH_FLAG_COL as int]@[i
                    as int].value as int);
                assert(tv[PLAINTEXT_COL as int][i as int] == trace@[PLAINTEXT_COL as int]@[i
                    as int].value as int);
                assert(tv[SUBSTRING_COL as int][i as int] == trace@[SUBSTRING_COL as int]@[i
                    as int].value as int);
            }
            if trace[OFFSET_INDICATOR_COL][i].value == 1 {
                if trace[MATCH_FLAG_COL][i].value != 1 {
                    proof {
                        assert(!crosscheck_ok(tv));
                    }
                    return Ok(false);
                }
                if trace[PLAINTEXT_COL][i].value != trace[SUBSTRING_COL][i].value {
                    proof {
                        assert(!crosscheck_ok(tv));
                    }
                    return Ok(false);
                }
            }
            i += 1;
        }
        proof {
            assert(tv[0].len() == rows);
        }
        Ok(true)
    }

    fn get_config(&self) -> (r: CircuitConfig) {
        self.config
    }
}

} // verus!
