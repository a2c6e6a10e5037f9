use hekate_mobile::prover::{
    map_prover_error, panic_message, prover_seed, public_value, trace_rows, MyInputs, MyOutput,
    PanicPayload, ProveError, ProverErrorCode, seed_from, NUM_ROWS, NUM_VARS, TRANSCRIPT_LABEL,
};

#[test]
fn output_carries_public_value() {
    let inputs = MyInputs { value: 42 };
    let out = MyOutput::from_parts(vec![1, 2, 3], &inputs);
    assert_eq!(out.proof_bytes, vec![1, 2, 3]);
    assert_eq!(out.public_value, 42);
}

#[test]
fn error_messages() {
    assert_eq!(ProveError::InvalidInput("x".into()).message(), "invalid input: x");
    assert_eq!(ProveError::Witness("w".into()).message(), "witness build failed: w");
    assert_eq!(ProveError::Prover("p".into()).message(), "prover failed: p");
    assert_eq!(ProveError::Cancelled.message(), "cancelled by host");
    assert_eq!(ProveError::Panic("boom".into()).message(), "internal panic: boom");
}

#[test]
fn prover_errors_map() {
    assert_eq!(map_prover_error(Some(ProverErrorCode::Cancelled), "m".into()), ProveError::Cancelled);
    assert_eq!(
        map_prover_error(Some(ProverErrorCode::Prove), "rc=9: bad".into()),
        ProveError::Prover("rc=9: bad".into())
    );
    assert_eq!(map_prover_error(None, "bundle".into()), ProveError::Prover("bundle".into()));
}

#[test]
fn panic_messages() {
    assert_eq!(panic_message(PanicPayload::Str("static".into())), "static");
    assert_eq!(panic_message(PanicPayload::Owned("owned".into())), "owned");
    assert_eq!(panic_message(PanicPayload::Other), "panic with non-string payload");
}

#[test]
fn trace_shape() {
    assert_eq!(NUM_ROWS, 1 << NUM_VARS);
    let rows = trace_rows(&MyInputs { value: 7 });
    assert_eq!(rows.len(), 16);
    assert!(rows.iter().all(|r| r.value == 7));
    assert!(rows[..15].iter().all(|r| r.selector));
    assert!(!rows[15].selector);
    assert_eq!(public_value(&rows), 7);
    // The transition constraint holds on every selected row.
    for i in 0..NUM_ROWS - 1 {
        if rows[i].selector {
            assert_eq!(rows[i + 1].value ^ rows[i].value, 0);
        }
    }
}

#[test]
fn seeds_are_fresh() {
    let a = prover_seed().unwrap();
    let b = prover_seed().unwrap();
    assert_ne!(a, b);
    assert_eq!(TRANSCRIPT_LABEL.as_bytes(), b"my-prover-v1");
}

#[test]
fn seed_results() {
    let bytes = [7u8; 32];
    assert_eq!(seed_from(Ok(bytes)), Ok(bytes));
    assert_eq!(
        seed_from(Err("no entropy".to_string())),
        Err(ProveError::Prover("getrandom: no entropy".to_string()))
    );
}
