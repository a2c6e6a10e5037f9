//! The proving surface handed to mobile apps: inputs, outputs, errors, and the
//! trace that proves knowledge of a 32-bit value pinned to the public input.

use vstd::prelude::*;
use crate::text::{push_str, string_from};

verus! {

/// The transcript label the prover binds proofs to (as UTF-8 bytes).
pub const TRANSCRIPT_LABEL: &'static str = "my-prover-v1";

/// The trace has `2^NUM_VARS` rows.
pub const NUM_VARS: usize = 4;
pub const NUM_ROWS: usize = 16;

/// What the app asks to prove.
pub struct MyInputs {
    pub value: u32,
}

/// A proof and the public value it is bound to.
pub struct MyOutput {
    pub proof_bytes: Vec<u8>,
    pub public_value: u32,
}

impl MyOutput {
    /// Bundles a serialized proof with the public value of the inputs it proves.
    pub fn from_parts(proof_bytes: Vec<u8>, inputs: &MyInputs) -> (r: MyOutput)
        ensures
            r.proof_bytes@ == proof_bytes@,
            r.public_value == inputs.value,
    {
        MyOutput { proof_bytes, public_value: inputs.value }
    }
}

/// Why a prove call failed.
#[derive(Debug, PartialEq, Eq)]
pub enum ProveError {
    InvalidInput(String),
    Witness(String),
    Prover(String),
    Cancelled,
    Panic(String),
}

pub const INVALID_INPUT_PREFIX: &'static str = "invalid input: ";
pub const WITNESS_PREFIX: &'static str = "witness build failed: ";
pub const PROVER_PREFIX: &'static str = "prover failed: ";
pub const CANCELLED_TEXT: &'static str = "cancelled by host";
pub const PANIC_PREFIX: &'static str = "internal panic: ";

/// The message shown for an error.
pub open spec fn prove_error_text(e: ProveError) -> Seq<char> {
    match e {
        ProveError::InvalidInput(s) => INVALID_INPUT_PREFIX@ + s@,
        ProveError::Witness(s) => WITNESS_PREFIX@ + s@,
        ProveError::Prover(s) => PROVER_PREFIX@ + s@,
        ProveError::Cancelled => CANCELLED_TEXT@,
        ProveError::Panic(s) => PANIC_PREFIX@ + s@,
    }
}

impl ProveError {
    /// The error's message.
    pub fn message(&self) -> (r: String)
        ensures
            r@ == prove_error_text(*self),
    {
        let (prefix, detail): (&str, Option<&String>) = match self {
            ProveError::InvalidInput(s) => (INVALID_INPUT_PREFIX, Some(s)),
            ProveError::Witness(s) => (WITNESS_PREFIX, Some(s)),
            ProveError::Prover(s) => (PROVER_PREFIX, Some(s)),
            ProveError::Cancelled => (CANCELLED_TEXT, None),
            ProveError::Panic(s) => (PANIC_PREFIX, Some(s)),
        };
        let mut out = string_from(prefix);
        if let Some(d) = detail {
            push_str(&mut out, d.as_str());
        }
        out
    }
}

/// The failure codes the prover library reports.
#[derive(Debug, Clone, Copy, PartialEq, Eq)]
pub enum ProverErrorCode {
    InvalidInput,
    InvalidWitnessAlignment,
    InvalidWitnessLength,
    UnsupportedColumnType,
    Reentrant,
    Cancelled,
    Panicked,
    DeserializeBundle,
    Prove,
    SerializeProof,
    Unknown,
}

/// A prover failure seen by the app: a cancellation when the prover says it
/// was cancelled, otherwise a prover error carrying the prover's message.
pub fn map_prover_error(code: Option<ProverErrorCode>, message: String) -> (r: ProveError)
    ensures
        code == Some(ProverErrorCode::Cancelled) ==> r == ProveError::Cancelled,
        code != Some(ProverErrorCode::Cancelled) ==> r == ProveError::Prover(message),
{
    match code {
        Some(ProverErrorCode::Cancelled) => ProveError::Cancelled,
        _ => ProveError::Prover(message),
    }
}

/// What a panic carried.
pub enum PanicPayload {
    /// A `&'static str` payload (`panic!("literal")`).
    Str(String),
    /// A `String` payload (`panic!("{}", x)`).
    Owned(String),
    /// Anything else.
    Other,
}

pub const NON_STRING_PAYLOAD: &'static str = "panic with non-string payload";

/// The text of a panic, for `ProveError::Panic`.
pub fn panic_message(payload: PanicPayload) -> (r: String)
    ensures
        payload matches PanicPayload::Str(s) ==> r@ == s@,
        payload matches PanicPayload::Owned(s) ==> r@ == s@,
        payload is Other ==> r@ == NON_STRING_PAYLOAD@,
{
    match payload {
        PanicPayload::Str(s) => s,
        PanicPayload::Owned(s) => s,
        PanicPayload::Other => string_from(NON_STRING_PAYLOAD),
    }
}

/// One row of the witness trace: the `VALUE` column and the selector `Q`.
#[derive(Debug, Clone, Copy, PartialEq, Eq)]
pub struct TraceRow {
    pub value: u32,
    pub selector: bool,
}

/// Row `i` of the trace for `value`: every row holds the value, and the
/// selector is set on every row but the last.
pub open spec fn trace_row(value: u32, i: int) -> TraceRow {
    TraceRow { value, selector: i + 1 < NUM_ROWS }
}

/// The witness trace for `inputs`, row by row.
pub fn trace_rows(inputs: &MyInputs) -> (rows: Vec<TraceRow>)
    ensures
        rows.len() == NUM_ROWS,
        forall|i: int| 0 <= i < NUM_ROWS ==> #[trigger] rows@[i] == trace_row(inputs.value, i),
{
    let mut rows: Vec<TraceRow> = Vec::new();
    let mut i: usize = 0;
    while i < NUM_ROWS
        invariant
            i <= NUM_ROWS,
            rows.len() == i,
            forall|j: int| 0 <= j < i ==> #[trigger] rows@[j] == trace_row(inputs.value, j),
        decreases NUM_ROWS - i,
    {
        rows.push(TraceRow { value: inputs.value, selector: i + 1 < NUM_ROWS });
        i += 1;
    }
    rows
}

/// The public input the trace is pinned to: the value in its first row.
pub fn public_value(rows: &Vec<TraceRow>) -> (r: u32)
    requires
        rows.len() > 0,
    ensures
        r == rows@[0].value,
{
    rows[0].value
}

/// The trace satisfies the program: where the selector is set, the next row
/// holds the same value (`q * (next + value) = 0` in a field of characteristic
/// two), the last row leaves the wrap-around unconstrained, and the first row
/// holds the public input, which is the proved value.
pub proof fn lemma_trace_satisfies_program(value: u32)
    ensures
        forall|i: int| 0 <= i < NUM_ROWS && (#[trigger] trace_row(value, i)).selector ==> i + 1 < NUM_ROWS
            && trace_row(value, i + 1).value == trace_row(value, i).value,
        !trace_row(value, NUM_ROWS - 1).selector,
        trace_row(value, 0).value == value,
{
}

/// Fresh seed bytes for the prover (`getrandom::fill`). The bytes come from the
/// operating system's random source, so nothing is stated of them; an error
/// carries the error's text.
#[verifier::external_body]
fn random_seed() -> (r: Result<[u8; 32], String>)
{
    let mut seed = [0u8; 32];
    match getrandom::fill(&mut seed) {
        Ok(()) => Ok(seed),
        Err(e) => Err(e.to_string()),
    }
}

pub const SEED_ERROR_PREFIX: &'static str = "getrandom: ";

/// The prover seed for what the random source gave: its bytes on success, and
/// on failure a prover error reading `getrandom: ` followed by the failure's text.
pub fn seed_from(source: Result<[u8; 32], String>) -> (r: Result<[u8; 32], ProveError>)
    ensures
        source matches Ok(seed) ==> r == Ok::<[u8; 32], ProveError>(seed),
        source matches Err(t) ==> (r matches Err(ProveError::Prover(m)) && m@ == SEED_ERROR_PREFIX@ + t@),
{
    match source {
        Ok(seed) => Ok(seed),
        Err(e) => {
            let mut m = string_from(SEED_ERROR_PREFIX);
            push_str(&mut m, e.as_str());
            Err(ProveError::Prover(m))
        },
    }
}

/// A fresh prover seed, or a prover error that says the random source failed.
pub fn prover_seed() -> (r: Result<[u8; 32], ProveError>)
    ensures
        r matches Err(e) ==> e matches ProveError::Prover(m) && exists|detail: Seq<char>| m@ == SEED_ERROR_PREFIX@ + detail,
{
    let source = random_seed();
    let ghost s = source;
    let r = seed_from(source);
    proof {
        if let Err(t) = s {
            assert(r matches Err(ProveError::Prover(m)) && m@ == SEED_ERROR_PREFIX@ + t@);
        }
    }
    r
}

} // verus!
