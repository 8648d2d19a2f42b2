//! The arithmetization layer: the trace layout and generator, the algebraic
//! constraint system, and the native byte-level circuit.

pub mod air;
pub mod substring_circuit;
pub mod trace;

use vstd::prelude::*;

use crate::config::{CircuitConfig, CircuitParams};
use crate::error::ZkpError;
use crate::field::Fp;

verus! {

/// A circuit: something that can lay out an execution trace for given
/// parameters and check its constraints.  Each implementation fixes, through
/// its spec functions, exactly which traces it produces and which it accepts.
pub trait Circuit {
    /// Whether trace generation succeeds on these parameters.
    spec fn gen_ok(&self, params: CircuitParams) -> bool;

    /// The trace produced on success, as column-major cell values.
    spec fn gen_trace_spec(&self, params: CircuitParams) -> Seq<Seq<int>>;

    /// The text of the error reported on failure.
    spec fn gen_err_msg(&self, params: CircuitParams) -> Seq<char>;

    /// What the constraint check returns on a well-formed trace.
    spec fn constraints_hold(&self, tv: Seq<Seq<int>>, params: CircuitParams) -> bool;

    /// The configuration the circuit was built for.
    spec fn config_spec(&self) -> CircuitConfig;

    /// Builds the execution trace for `params`.
    fn generate_trace(&self, params: &CircuitParams) -> (r: Result<Vec<Vec<Fp>>, ZkpError>)
        ensures
            r is Ok <==> self.gen_ok(*params),
            r matches Ok(t) ==> crate::circuits::trace::trace_view(t) == self.gen_trace_spec(
                *params,
            ),
            r matches Ok(t) ==> crate::circuits::trace::trace_wf(
                crate::circuits::trace::trace_view(t),
            ),
            r matches Err(e) ==> e is InvalidWitness && crate::error::error_payload(e)
                == self.gen_err_msg(*params),
    ;

    /// Checks the constraints of a trace against `params`.
    fn verify_constraints(&self, trace: &Vec<Vec<Fp>>, params: &CircuitParams) -> (r: Result<
        bool,
        ZkpError,
    >)
        requires
            crate::circuits::trace::trace_wf(crate::circuits::trace::trace_view(*trace)),
        ensures
            params.witness is Some ==> (r matches Ok(b) && b == self.constraints_hold(
                crate::circuits::trace::trace_view(*trace),
                *params,
            )),
            params.witness is None ==> (r matches Err(e) && e is InvalidWitness),
    ;

    /// The circuit's configuration.
    fn get_config(&self) -> (r: CircuitConfig)
        ensures
            r == self.config_spec(),
    ;
}

} // verus!
