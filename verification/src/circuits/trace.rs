//! The execution trace: column layout, cell contents, and the generator.
//!
//! A trace is a column-major matrix of field elements.  The column plan is
//! fixed: 32 hash-state columns, 64 hash-schedule columns, then one column
//! each for the document byte, the substring byte, the match flag, the
//! offset indicator and the range-check flag.

use vstd::prelude::*;

use crate::config::{CircuitConfig, CircuitParams, config_wf};
use crate::error::ZkpError;
use crate::field::{Fp, GOLDILOCKS_P};
use crate::hash::{hash, sha256_of};

verus! {

/// Number of hash-state columns (eight 32-bit registers as bytes).
pub const SHA_STATE_START: usize = 0;

/// First column past the hash-state region.
pub const SHA_STATE_END: usize = 32;

/// First hash-schedule column.
pub const SHA_SCHEDULE_START: usize = 32;

/// First column past the hash-schedule region.
pub const SHA_SCHEDULE_END: usize = 96;

/// Column holding the document byte of each row.
pub const PLAINTEXT_COL: usize = 96;

/// Column holding the disclosed substring byte inside the match window.
pub const SUBSTRING_COL: usize = 97;

/// Column flagging rows whose document byte equals the substring byte.
pub const MATCH_FLAG_COL: usize = 98;

/// Column marking the asserted match window.
pub const OFFSET_INDICATOR_COL: usize = 99;

/// Column flagging rows that hold a document byte.
pub const RANGE_CHECK_COL: usize = 100;

/// Total number of trace columns.
pub const TOTAL_COLUMNS: usize = 101;

/// The fixed partition of trace columns into semantic regions.
#[derive(Debug)]
pub struct TraceLayout {
    /// Hash working registers, as bytes.
    pub sha_state_cols: core::ops::Range<usize>,
    /// Hash message-schedule words.
    pub sha_schedule_cols: core::ops::Range<usize>,
    /// Document byte column.
    pub plaintext_col: usize,
    /// Substring byte column.
    pub substring_col: usize,
    /// Match flag column.
    pub match_flag_col: usize,
    /// Offset indicator column.
    pub offset_indicator_col: usize,
    /// Range-check flag column.
    pub range_check_col: usize,
    /// Total column count.
    pub total_columns: usize,
}

/// The standard column plan; generator and constraint evaluator both assume
/// it, so the two agree on every column index.
pub open spec fn layout_wf(l: TraceLayout) -> bool {
    &&& l.sha_state_cols.start == SHA_STATE_START
    &&& l.sha_state_cols.end == SHA_STATE_END
    &&& l.sha_schedule_cols.start == SHA_SCHEDULE_START
    &&& l.sha_schedule_cols.end == SHA_SCHEDULE_END
    &&& l.plaintext_col == PLAINTEXT_COL
    &&& l.substring_col == SUBSTRING_COL
    &&& l.match_flag_col == MATCH_FLAG_COL
    &&& l.offset_indicator_col == OFFSET_INDICATOR_COL
    &&& l.range_check_col == RANGE_CHECK_COL
    &&& l.total_columns == TOTAL_COLUMNS
}

impl Default for TraceLayout {
    /// The standard column plan.
    fn default() -> (r: TraceLayout)
        ensures
            layout_wf(r),
    {
        TraceLayout {
            sha_state_cols: SHA_STATE_START..SHA_STATE_END,
            sha_schedule_cols: SHA_SCHEDULE_START..SHA_SCHEDULE_END,
            plaintext_col: PLAINTEXT_COL,
            substring_col: SUBSTRING_COL,
            match_flag_col: MATCH_FLAG_COL,
            offset_indicator_col: OFFSET_INDICATOR_COL,
            range_check_col: RANGE_CHECK_COL,
            total_columns: TOTAL_COLUMNS,
        }
    }
}

/// The canonical value of one column of field elements.
pub open spec fn fp_col_view(col: Vec<Fp>) -> Seq<int> {
    col@.map_values(|x: Fp| x.value as int)
}

/// The canonical values of a whole trace, column-major.
pub open spec fn trace_view(t: Vec<Vec<Fp>>) -> Seq<Seq<int>> {
    t@.map_values(|col: Vec<Fp>| fp_col_view(col))
}

/// A trace the constraint evaluator can walk: the standard column count,
/// rectangular, every cell a canonical field value.
pub open spec fn trace_wf(tv: Seq<Seq<int>>) -> bool {
    &&& tv.len() == TOTAL_COLUMNS
    &&& forall|c: int| 0 <= c < tv.len() ==> (#[trigger] tv[c]).len() == tv[0].len()
    &&& forall|c: int, r: int|
        0 <= c < tv.len() && 0 <= r < tv[c].len() ==> 0 <= #[trigger] tv[c][r] < GOLDILOCKS_P
}

/// Whether row `r` lies in the asserted match window.
pub open spec fn in_window(off: int, sub_len: int, r: int) -> bool {
    off <= r < off + sub_len
}

/// The document-byte column: document bytes in row order, zero past the end.
pub open spec fn plain_cell(doc: Seq<u8>, r: int) -> int {
    if r < doc.len() {
        doc[r] as int
    } else {
        0
    }
}

/// The substring-byte column: substring bytes inside the window, zero outside.
pub open spec fn sub_cell(sub: Seq<u8>, off: int, r: int) -> int {
    if in_window(off, sub.len() as int, r) {
        sub[r - off] as int
    } else {
        0
    }
}

/// The match-flag column: one where the window's document byte equals the
/// substring byte.
pub open spec fn match_cell(doc: Seq<u8>, sub: Seq<u8>, off: int, r: int) -> int {
    if in_window(off, sub.len() as int, r) && r < doc.len() && doc[r] == sub[r - off] {
        1
    } else {
        0
    }
}

/// The offset-indicator column: one inside the window, zero outside.
pub open spec fn indicator_cell(off: int, sub_len: int, r: int) -> int {
    if in_window(off, sub_len, r) {
        1
    } else {
        0
    }
}

/// The range-check column: one on rows holding a document byte.
pub open spec fn range_cell(doc_len: int, r: int) -> int {
    if r < doc_len {
        1
    } else {
        0
    }
}

/// A hash-state column: the digest byte of the column, placed diagonally on
/// the terminal rows, zero elsewhere.
pub open spec fn sha_state_cell(digest: Seq<u8>, tlen: int, c: int, r: int) -> int {
    if r == tlen - 32 + c {
        digest[c] as int
    } else {
        0
    }
}

/// One cell of the generator's trace.
pub open spec fn gen_cell(
    doc: Seq<u8>,
    sub: Seq<u8>,
    off: int,
    digest: Seq<u8>,
    tlen: int,
    c: int,
    r: int,
) -> int {
    if c == PLAINTEXT_COL {
        plain_cell(doc, r)
    } else if c == SUBSTRING_COL {
        sub_cell(sub, off, r)
    } else if c == MATCH_FLAG_COL {
        match_cell(doc, sub, off, r)
    } else if c == OFFSET_INDICATOR_COL {
        indicator_cell(off, sub.len() as int, r)
    } else if c == RANGE_CHECK_COL {
        range_cell(doc.len() as int, r)
    } else if 0 <= c < SHA_STATE_END {
        sha_state_cell(digest, tlen, c, r)
    } else {
        0
    }
}

/// One column of the generator's trace.
pub open spec fn gen_col_spec(
    doc: Seq<u8>,
    sub: Seq<u8>,
    off: int,
    digest: Seq<u8>,
    tlen: int,
    c: int,
) -> Seq<int> {
    Seq::new(tlen as nat, |r: int| gen_cell(doc, sub, off, digest, tlen, c, r))
}

/// The generator's whole trace.
pub open spec fn gen_trace_view(
    doc: Seq<u8>,
    sub: Seq<u8>,
    off: int,
    digest: Seq<u8>,
    tlen: int,
) -> Seq<Seq<int>> {
    Seq::new(TOTAL_COLUMNS as nat, |c: int| gen_col_spec(doc, sub, off, digest, tlen, c))
}

/// The document length inside the parameters, zero with no witness.
pub open spec fn params_doc(params: CircuitParams) -> Seq<u8> {
    match params.witness {
        Some(w) => w.plaintext@,
        None => Seq::empty(),
    }
}

/// The asserted offset inside the parameters, zero with no witness.
pub open spec fn params_offset(params: CircuitParams) -> int {
    match params.witness {
        Some(w) => w.offset as int,
        None => 0,
    }
}

/// Generation conditions on plain values: both lengths respect the
/// configuration and the asserted window lies inside the document.
pub open spec fn gen_inputs_ok(config: CircuitConfig, doc: Seq<u8>, sub: Seq<u8>, off: int) -> bool {
    &&& doc.len() <= config.max_text_len
    &&& sub.len() <= config.max_substring_len
    &&& off + sub.len() <= doc.len()
}

/// The message for the first violated generation condition, on plain values.
pub open spec fn gen_inputs_err_msg(
    config: CircuitConfig,
    doc: Seq<u8>,
    sub: Seq<u8>,
    off: int,
) -> Seq<char> {
    if doc.len() > config.max_text_len {
        "plaintext exceeds the configured maximum length"@
    } else if sub.len() > config.max_substring_len {
        "substring exceeds the configured maximum length"@
    } else {
        "substring window exceeds the plaintext"@
    }
}

/// Conditions under which a trace can be generated: a witness is present,
/// both lengths respect the configuration, and the asserted window lies
/// inside the document.
pub open spec fn trace_inputs_ok(config: CircuitConfig, params: CircuitParams) -> bool {
    match params.witness {
        Some(w) => gen_inputs_ok(
            config,
            w.plaintext@,
            params.public_inputs.substring@,
            w.offset as int,
        ),
        None => false,
    }
}

/// The message reported for the first violated generation condition.
pub open spec fn trace_inputs_err_msg(config: CircuitConfig, params: CircuitParams) -> Seq<char> {
    match params.witness {
        None => "missing witness"@,
        Some(w) => gen_inputs_err_msg(
            config,
            w.plaintext@,
            params.public_inputs.substring@,
            w.offset as int,
        ),
    }
}

/// Rows the hash sub-circuit needs: 64 per block, one block unless
/// multi-block hashing is enabled.
pub open spec fn sha_steps_spec(config: CircuitConfig, doc_len: int) -> int {
    if config.enable_multi_block_sha {
        ((doc_len + 63) / 64) * 64
    } else {
        64
    }
}

/// The trace length: enough rows for the hash region, the document bytes,
/// and never fewer than 64.
pub open spec fn trace_len_spec(config: CircuitConfig, doc_len: int) -> int {
    let s = sha_steps_spec(config, doc_len);
    let m = if s >= doc_len {
        s
    } else {
        doc_len
    };
    if m >= 64 {
        m
    } else {
        64
    }
}

/// A column of zeros.
pub(crate) fn zero_column(tlen: usize) -> (r: Vec<Fp>)
    ensures
        r@.len() == tlen,
        forall|j: int| 0 <= j < tlen ==> (#[trigger] r@[j]).value == 0,
{
    let mut col: Vec<Fp> = Vec::new();
    let mut j: usize = 0;
    while j < tlen
        invariant
            j <= tlen,
            col@.len() == j,
            forall|k: int| 0 <= k < j ==> (#[trigger] col@[k]).value == 0,
        decreases tlen - j,
    {
        col.push(Fp::zero());
        j += 1;
    }
    col
}

/// The document-byte column.
pub(crate) fn plaintext_column(doc: &Vec<u8>, tlen: usize) -> (r: Vec<Fp>)
    ensures
        r@.len() == tlen,
        forall|j: int| 0 <= j < tlen ==> (#[trigger] r@[j]).value as int == plain_cell(doc@, j),
{
    let mut col: Vec<Fp> = Vec::new();
    let mut j: usize = 0;
    while j < tlen
        invariant
            j <= tlen,
            col@.len() == j,
            forall|k: int| 0 <= k < j ==> (#[trigger] col@[k]).value as int == plain_cell(doc@, k),
        decreases tlen - j,
    {
        if j < doc.len() {
            col.push(Fp::from_byte(doc[j]));
        } else {
            col.push(Fp::zero());
        }
        j += 1;
    }
    col
}

/// The substring-byte column.
pub(crate) fn substring_column(sub: &Vec<u8>, off: usize, tlen: usize) -> (r: Vec<Fp>)
    ensures
        r@.len() == tlen,
        forall|j: int| 0 <= j < tlen ==> (#[trigger] r@[j]).value as int == sub_cell(
            sub@,
            off as int,
            j,
        ),
{
    let mut col: Vec<Fp> = Vec::new();
    let mut j: usize = 0;
    while j < tlen
        invariant
            j <= tlen,
            col@.len() == j,
            forall|k: int| 0 <= k < j ==> (#[trigger] col@[k]).value as int == sub_cell(
                sub@,
                off as int,
                k,
            ),
        decreases tlen - j,
    {
        if j >= off && j - off < sub.len() {
            col.push(Fp::from_byte(sub[j - off]));
        } else {
            col.push(Fp::zero());
        }
        j += 1;
    }
    col
}

/// The match-flag column.
pub(crate) fn match_column(doc: &Vec<u8>, sub: &Vec<u8>, off: usize, tlen: usize) -> (r: Vec<Fp>)
    ensures
        r@.len() == tlen,
        forall|j: int| 0 <= j < tlen ==> (#[trigger] r@[j]).value as int == match_cell(
            doc@,
            sub@,
            off as int,
            j,
        ),
{
    let mut col: Vec<Fp> = Vec::new();
    let mut j: usize = 0;
    while j < tlen
        invariant
            j <= tlen,
            col@.len() == j,
            forall|k: int| 0 <= k < j ==> (#[trigger] col@[k]).value as int == match_cell(
                doc@,
                sub@,
                off as int,
                k,
            ),
        decreases tlen - j,
    {
        if j >= off && j - off < sub.len() && j < doc.len() && doc[j] == sub[j - off] {
            col.push(Fp::one());
        } else {
            col.push(Fp::zero());
        }
        j += 1;
    }
    col
}

/// The offset-indicator column.
pub(crate) fn indicator_column(off: usize, sub_len: usize, tlen: usize) -> (r: Vec<Fp>)
    ensures
        r@.len() == tlen,
        forall|j: int| 0 <= j < tlen ==> (#[trigger] r@[j]).value as int == indicator_cell(
            off as int,
            sub_len as int,
            j,
        ),
{
    let mut col: Vec<Fp> = Vec::new();
    let mut j: usize = 0;
    while j < tlen
        invariant
            j <= tlen,
            col@.len() == j,
            forall|k: int| 0 <= k < j ==> (#[trigger] col@[k]).value as int == indicator_cell(
                off as int,
                sub_len as int,
                k,
            ),
        decreases tlen - j,
    {
        if j >= off && j - off < sub_len {
            col.push(Fp::one());
        } else {
            col.push(Fp::zero());
        }
        j += 1;
    }
    col
}

/// The range-check column.
pub(crate) fn range_column(doc_len: usize, tlen: usize) -> (r: Vec<Fp>)
    ensures
        r@.len() == tlen,
        forall|j: int| 0 <= j < tlen ==> (#[trigger] r@[j]).value as int == range_cell(
            doc_len as int,
            j,
        ),
{
    let mut col: Vec<Fp> = Vec::new();
    let mut j: usize = 0;
    while j < tlen
        invariant
            j <= tlen,
            col@.len() == j,
            forall|k: int| 0 <= k < j ==> (#[trigger] col@[k]).value as int == range_cell(
                doc_len as int,
                k,
            ),
        decreases tlen - j,
    {
        if j < doc_len {
            col.push(Fp::one());
        } else {
            col.push(Fp::zero());
        }
        j += 1;
    }
    col
}

/// One hash-state column: the digest byte on the diagonal terminal row.
fn sha_state_column(digest: &[u8; 32], c: usize, tlen: usize) -> (r: Vec<Fp>)
    requires
        c < 32,
        tlen >= 64,
    ensures
        r@.len() == tlen,
        forall|j: int| 0 <= j < tlen ==> (#[trigger] r@[j]).value as int == sha_state_cell(
            digest@,
            tlen as int,
            c as int,
            j,
        ),
{
    let target: usize = tlen - 32 + c;
    let mut col: Vec<Fp> = Vec::new();
    let mut j: usize = 0;
    while j < tlen
        invariant
            c < 32,
            tlen >= 64,
            target == tlen - 32 + c,
            j <= tlen,
            col@.len() == j,
            forall|k: int| 0 <= k < j ==> (#[trigger] col@[k]).value as int == sha_state_cell(
                digest@,
                tlen as int,
                c as int,
                k,
            ),
        decreases tlen - j,
    {
        if j == target {
            col.push(Fp::from_byte(digest[c]));
        } else {
            col.push(Fp::zero());
        }
        j += 1;
    }
    col
}


/// A column whose cells match the generator's formula pointwise is that
/// column of the generator's trace.
proof fn lemma_col_matches(
    col: Vec<Fp>,
    doc: Seq<u8>,
    sub: Seq<u8>,
    off: int,
    digest: Seq<u8>,
    tlen: int,
    c: int,
)
    requires
        col@.len() == tlen,
        forall|j: int| 0 <= j < tlen ==> (#[trigger] col@[j]).value as int == gen_cell(
            doc,
            sub,
            off,
            digest,
            tlen,
            c,
            j,
        ),
    ensures
        fp_col_view(col) == gen_col_spec(doc, sub, off, digest, tlen, c),
{
    let cv = fp_col_view(col);
    let gs = gen_col_spec(doc, sub, off, digest, tlen, c);
    assert forall|j: int| 0 <= j < tlen implies cv[j] == gs[j] by {
        assert(cv[j] == col@[j].value as int);
        assert(gs[j] == gen_cell(doc, sub, off, digest, tlen, c, j));
    }
    assert(cv =~= gs);
}

/// Every cell the generator writes is a byte value or a flag, far below the
/// field order, and the trace is rectangular.
proof fn lemma_gen_trace_wf(doc: Seq<u8>, sub: Seq<u8>, off: int, digest: Seq<u8>, tlen: int)
    requires
        digest.len() == 32,
        tlen >= 64,
    ensures
        trace_wf(gen_trace_view(doc, sub, off, digest, tlen)),
{
    let tv = gen_trace_view(doc, sub, off, digest, tlen);
    assert forall|c: int, r: int|
        0 <= c < tv.len() && 0 <= r < tv[c].len() implies 0 <= #[trigger] tv[c][r]
        < GOLDILOCKS_P by {
        assert(tv[c][r] == gen_cell(doc, sub, off, digest, tlen, c, r));
        assert(0 <= gen_cell(doc, sub, off, digest, tlen, c, r) < 256);
    }
}

/// Builds execution traces under the standard layout.
#[derive(Debug)]
pub struct TraceGenerator {
    pub layout: TraceLayout,
    pub config: CircuitConfig,
}

impl TraceGenerator {
    /// A generator for the standard layout.
    pub fn new(config: CircuitConfig) -> (r: TraceGenerator)
        ensures
            layout_wf(r.layout),
            r.config == config,
    {
        TraceGenerator { layout: TraceLayout::default(), config }
    }

    /// How many rows the trace for `params` has.
    pub fn compute_trace_length(&self, params: &CircuitParams) -> (r: usize)
        requires
            params.witness is Some,
            self.config.enable_multi_block_sha ==> params_doc(*params).len() + 64 <= usize::MAX,
        ensures
            r as int == trace_len_spec(self.config, params_doc(*params).len() as int),
    {
        let doc_len: usize = match &params.witness {
            Some(w) => w.plaintext.len(),
            None => 0,
        };
        let sha_steps: usize = if self.config.enable_multi_block_sha {
            let blocks: usize = (doc_len + 63) / 64;
            proof {
                vstd::arithmetic::div_mod::lemma_fundamental_div_mod(doc_len as int + 63, 64);
            }
            blocks * 64
        } else {
            64
        };
        let mut r: usize = if sha_steps >= doc_len {
            sha_steps
        } else {
            doc_len
        };
        if r < 64 {
            r = 64;
        }
        r
    }

    /// Builds the full trace: hash-state bytes on the terminal diagonal,
    /// document bytes, the substring window with its indicator and match
    /// flags, and the range-check flags.
    #[verifier::loop_isolation(false)]
    pub fn generate_trace(&self, params: &CircuitParams) -> (r: Result<Vec<Vec<Fp>>, ZkpError>)
        requires
            config_wf(self.config),
        ensures
            r is Ok <==> trace_inputs_ok(self.config, *params),
            r matches Ok(t) ==> trace_view(t) == gen_trace_view(
                params_doc(*params),
                params.public_inputs.substring@,
                params_offset(*params),
                sha256_of(params_doc(*params))@,
                trace_len_spec(self.config, params_doc(*params).len() as int),
            ),
            r matches Ok(t) ==> trace_wf(trace_view(t)),
            r matches Err(e) ==> e is InvalidWitness && crate::error::error_payload(e)
                == trace_inputs_err_msg(self.config, *params),
    {
        let witness = match &params.witness {
            Some(w) => w,
            None => {
                return Err(ZkpError::InvalidWitness("missing witness".to_owned()));
            },
        };
        if witness.plaintext.len() > self.config.max_text_len {
            return Err(
                ZkpError::InvalidWitness(
                    "plaintext exceeds the configured maximum length".to_owned(),
                ),
            );
        }
        if params.public_inputs.substring.len() > self.config.max_substring_len {
            return Err(
                ZkpError::InvalidWitness(
                    "substring exceeds the configured maximum length".to_owned(),
                ),
            );
        }
        if witness.offset > witness.plaintext.len() || params.public_inputs.substring.len()
            > witness.plaintext.len() - witness.offset {
            return Err(
                ZkpError::InvalidWitness("substring window exceeds the plaintext".to_owned()),
            );
        }
        let tlen = self.compute_trace_length(params);
        let digest = hash(witness.plaintext.as_slice());
        let ghost doc = witness.plaintext@;
        let ghost sub = params.public_inputs.substring@;
        let ghost off = witness.offset as int;
        let ghost dv = digest@;
        let mut t: Vec<Vec<Fp>> = Vec::new();
        let mut c: usize = 0;
        while c < SHA_STATE_END
            invariant

                tlen as int == trace_len_spec(self.config, doc.len() as int),
                tlen >= 64,
                digest == sha256_of(doc),
                c <= SHA_STATE_END,
                t@.len() == c,
                forall|cc: int| 0 <= cc < c ==> fp_col_view(#[trigger] t@[cc]) == gen_col_spec(
                    doc,
                    sub,
                    off,
                    dv,
                    tlen as int,
                    cc,
                ),
            decreases SHA_STATE_END - c,
        {
            let col = sha_state_column(&digest, c, tlen);
            proof {
                lemma_col_matches(col, doc, sub, off, dv, tlen as int, c as int);
            }
            let ghost colsnap = col;
            t.push(col);
            proof {
                assert(t@[c as int] == colsnap);
            }
            c += 1;
        }
        while c < SHA_SCHEDULE_END
            invariant
                tlen as int == trace_len_spec(self.config, doc.len() as int),
                tlen >= 64,
                SHA_STATE_END <= c <= SHA_SCHEDULE_END,
                t@.len() == c,
                forall|cc: int| 0 <= cc < c ==> fp_col_view(#[trigger] t@[cc]) == gen_col_spec(
                    doc,
                    sub,
                    off,
                    dv,
                    tlen as int,
                    cc,
                ),
            decreases SHA_SCHEDULE_END - c,
        {
            let col = zero_column(tlen);
            proof {
                lemma_col_matches(col, doc, sub, off, dv, tlen as int, c as int);
            }
            let ghost colsnap = col;
            t.push(col);
            proof {
                assert(t@[c as int] == colsnap);
            }
            c += 1;
        }
        let col_p = plaintext_column(&witness.plaintext, tlen);
        proof {
            lemma_col_matches(col_p, doc, sub, off, dv, tlen as int, PLAINTEXT_COL as int);
        }
        let ghost col_p_snap = col_p;
        t.push(col_p);
        proof {
            assert(t@[PLAINTEXT_COL as int] == col_p_snap);
        }
        let col_s = substring_column(&params.public_inputs.substring, witness.offset, tlen);
        proof {
            lemma_col_matches(col_s, doc, sub, off, dv, tlen as int, SUBSTRING_COL as int);
        }
        let ghost col_s_snap = col_s;
        t.push(col_s);
        proof {
            assert(t@[SUBSTRING_COL as int] == col_s_snap);
        }
        let col_m = match_column(
            &witness.plaintext,
            &params.public_inputs.substring,
            witness.offset,
            tlen,
        );
        proof {
            lemma_col_matches(col_m, doc, sub, off, dv, tlen as int, MATCH_FLAG_COL as int);
        }
        let ghost col_m_snap = col_m;
        t.push(col_m);
        proof {
            assert(t@[MATCH_FLAG_COL as int] == col_m_snap);
        }
        let col_i = indicator_column(witness.offset, params.public_inputs.substring.len(), tlen);
        proof {
            lemma_col_matches(col_i, doc, sub, off, dv, tlen as int, OFFSET_INDICATOR_COL as int);
        }
        let ghost col_i_snap = col_i;
        t.push(col_i);
        proof {
            assert(t@[OFFSET_INDICATOR_COL as int] == col_i_snap);
        }
        let col_r = range_column(witness.plaintext.len(), tlen);
        proof {
            lemma_col_matches(col_r, doc, sub, off, dv, tlen as int, RANGE_CHECK_COL as int);
        }
        let ghost col_r_snap = col_r;
        t.push(col_r);
        proof {
            assert(t@[RANGE_CHECK_COL as int] == col_r_snap);
            let tv = trace_view(t);
            let gv = gen_trace_view(doc, sub, off, dv, tlen as int);
            assert forall|cc: int| 0 <= cc < TOTAL_COLUMNS implies tv[cc] == gv[cc] by {
                assert(tv[cc] == fp_col_view(t@[cc]));
                assert(gv[cc] == gen_col_spec(doc, sub, off, dv, tlen as int, cc));
            }
            assert(tv =~= gv);
            lemma_gen_trace_wf(doc, sub, off, dv, tlen as int);
        }
        Ok(t)
    }

    /// The column plan.
    pub fn get_layout(&self) -> (r: &TraceLayout)
        ensures
            r == &self.layout,
    {
        &self.layout
    }
}

} // verus!
