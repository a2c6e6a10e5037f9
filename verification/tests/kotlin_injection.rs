use hekate_mobile::android::{
    inject_prover_load_library, KOTLIN_INJECTION_ANCHOR, KOTLIN_INJECTION_REPLACEMENT,
};

const CURRENT_UNIFFI_FIXTURE: &str = r#"// This file was autogenerated by some hot garbage in the `uniffi` crate.
package uniffi.my_prover_test

import com.sun.jna.Library
import com.sun.jna.Native
import com.sun.jna.Structure

@Synchronized
private fun findLibraryName(componentName: String): String {
    return "my_prover_test"
}

internal object IntegrityCheckingUniffiLib {
    init {
        Native.register(IntegrityCheckingUniffiLib::class.java, findLibraryName(componentName = "my_prover_test"))
        uniffiCheckContractApiVersion(this)
        uniffiCheckApiChecksums(this)
    }

    external fun ffi_my_prover_test_uniffi_contract_version(): Int
}

internal object UniffiLib {
    init {
        Native.register(UniffiLib::class.java, findLibraryName(componentName = "my_prover_test"))
    }

    external fun uniffi_my_prover_test_fn_func_prove(): Long
}

public fun uniffiEnsureInitialized() {
    IntegrityCheckingUniffiLib
    UniffiLib
}
"#;

const EXPECTED_INJECTED_FIXTURE: &str = r#"// This file was autogenerated by some hot garbage in the `uniffi` crate.
package uniffi.my_prover_test

import com.sun.jna.Library
import com.sun.jna.Native
import com.sun.jna.Structure

@Synchronized
private fun findLibraryName(componentName: String): String {
    return "my_prover_test"
}

internal object IntegrityCheckingUniffiLib {
    init {
        System.loadLibrary("hekate_prover_cdylib")
        Native.register(IntegrityCheckingUniffiLib::class.java, findLibraryName(componentName = "my_prover_test"))
        uniffiCheckContractApiVersion(this)
        uniffiCheckApiChecksums(this)
    }

    external fun ffi_my_prover_test_uniffi_contract_version(): Int
}

internal object UniffiLib {
    init {
        Native.register(UniffiLib::class.java, findLibraryName(componentName = "my_prover_test"))
    }

    external fun uniffi_my_prover_test_fn_func_prove(): Long
}

public fun uniffiEnsureInitialized() {
    IntegrityCheckingUniffiLib
    UniffiLib
}
"#;

#[test]
fn sentinel_matches_pinned_uniffi_codegen() {
    let patched = inject_prover_load_library(CURRENT_UNIFFI_FIXTURE).unwrap();
    assert_eq!(patched, EXPECTED_INJECTED_FIXTURE);
}

#[test]
fn injection_fails_when_object_renamed() {
    let drifted = CURRENT_UNIFFI_FIXTURE.replace(
        "object IntegrityCheckingUniffiLib",
        "object IntegrityCheckUniffi",
    );
    let err = inject_prover_load_library(&drifted).unwrap_err();

    assert!(
        err.contains("matched 0 times"),
        "unexpected error message: {err}"
    );
}

#[test]
fn injection_fails_when_init_block_dropped() {
    let drifted = CURRENT_UNIFFI_FIXTURE.replace(
        "    init {\n        Native.register(IntegrityCheckingUniffiLib::class.java",
        "    fun setup() {\n        Native.register(IntegrityCheckingUniffiLib::class.java",
    );
    let err = inject_prover_load_library(&drifted).unwrap_err();

    assert!(
        err.contains("matched 0 times"),
        "unexpected error message: {err}"
    );
}

#[test]
fn injection_fails_when_anchor_duplicates() {
    let drifted = format!("{CURRENT_UNIFFI_FIXTURE}\n{CURRENT_UNIFFI_FIXTURE}");
    let err = inject_prover_load_library(&drifted).unwrap_err();

    assert!(
        err.contains("matched 2 times"),
        "unexpected error message: {err}"
    );
}

#[test]
fn injection_error_message_is_exact() {
    let err = inject_prover_load_library("nothing to see").unwrap_err();
    assert_eq!(
        err,
        "uniffi 0.31.1 Kotlin format anchor matched 0 times (expected exactly 1). Verify [dependencies].uniffi pin in the template Cargo.toml and update KOTLIN_INJECTION_ANCHOR in xtask/src/android_build.rs."
    );
}

#[test]
fn injection_counts_many_anchors() {
    let text = KOTLIN_INJECTION_ANCHOR.repeat(12);
    let err = inject_prover_load_library(&text).unwrap_err();
    assert!(err.contains("matched 12 times"), "unexpected error message: {err}");
}

#[test]
fn injection_of_bare_anchor_gives_replacement() {
    assert_eq!(
        inject_prover_load_library(KOTLIN_INJECTION_ANCHOR).unwrap(),
        KOTLIN_INJECTION_REPLACEMENT
    );
}

#[test]
fn injection_keeps_surrounding_text_and_non_ascii() {
    let text = format!("α→{KOTLIN_INJECTION_ANCHOR}, ω");
    let patched = inject_prover_load_library(&text).unwrap();
    assert_eq!(patched, format!("α→{KOTLIN_INJECTION_REPLACEMENT}, ω"));
}

#[test]
fn injection_is_not_repeatable() {
    let patched = inject_prover_load_library(CURRENT_UNIFFI_FIXTURE).unwrap();
    let err = inject_prover_load_library(&patched).unwrap_err();
    assert!(err.contains("matched 0 times"), "unexpected error message: {err}");
}

#[test]
fn injection_loads_library_before_registering() {
    let patched = inject_prover_load_library(CURRENT_UNIFFI_FIXTURE).unwrap();
    let load = patched.find("System.loadLibrary(\"hekate_prover_cdylib\")").unwrap();
    let register = patched.find("Native.register(IntegrityCheckingUniffiLib").unwrap();
    assert!(load < register);
}

#[test]
fn injection_rejects_empty_text() {
    let err = inject_prover_load_library("").unwrap_err();
    assert!(err.contains("matched 0 times"));
}
