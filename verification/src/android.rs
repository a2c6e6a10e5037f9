//! Patching the UniFFI-generated Kotlin bindings so that the prover library is
//! loaded before the bindings register themselves with JNA.

use vstd::prelude::*;
use crate::text::{chars_of, decimal, first_match, match_count, matches_at, lemma_count_skip, lemma_count_zero, lemma_first_match_facts, push_chars, push_decimal, push_str, scan_matches, string_from};

verus! {

/// The stem of the prover's shared library file (`lib…so` / `lib…dylib`).
pub const PROVER_DYLIB_STEM: &'static str = "libhekate_prover_cdylib";

/// The name under which Android's loader finds the prover library.
pub const PROVER_LIB_NAME: &'static str = "hekate_prover_cdylib";

/// The start of the integrity-checking object in the Kotlin that uniffi 0.31.1
/// generates. When `uniffi` is bumped, regenerate sample output and update this.
pub const KOTLIN_INJECTION_ANCHOR: &'static str = "internal object IntegrityCheckingUniffiLib {\n    init {\n        Native.register(IntegrityCheckingUniffiLib::class.java";

/// The anchor with the prover library load placed before the JNA registration.
pub const KOTLIN_INJECTION_REPLACEMENT: &'static str = "internal object IntegrityCheckingUniffiLib {\n    init {\n        System.loadLibrary(\"hekate_prover_cdylib\")\n        Native.register(IntegrityCheckingUniffiLib::class.java";

/// The text of the error reported when the anchor is found `count` times.
pub const ANCHOR_MISMATCH_HEAD: &'static str = "uniffi 0.31.1 Kotlin format anchor matched ";

pub const ANCHOR_MISMATCH_TAIL: &'static str = " times (expected exactly 1). Verify [dependencies].uniffi pin in the template Cargo.toml and update KOTLIN_INJECTION_ANCHOR in xtask/src/android_build.rs.";

pub open spec fn anchor_mismatch_message(count: nat) -> Seq<char> {
    ANCHOR_MISMATCH_HEAD@ + decimal(count) + ANCHOR_MISMATCH_TAIL@
}

/// `s` with `len` characters at `at` replaced by `by`.
pub open spec fn splice(s: Seq<char>, at: int, len: int, by: Seq<char>) -> Seq<char> {
    s.subrange(0, at) + by + s.subrange(at + len, s.len() as int)
}

/// The bindings with their single anchor replaced by the load-then-register block.
pub open spec fn injected(text: Seq<char>) -> Seq<char> {
    splice(
        text,
        first_match(text, KOTLIN_INJECTION_ANCHOR@),
        KOTLIN_INJECTION_ANCHOR@.len() as int,
        KOTLIN_INJECTION_REPLACEMENT@,
    )
}

/// Inserts `System.loadLibrary("hekate_prover_cdylib")` ahead of the JNA
/// registration in the generated Kotlin. Succeeds exactly when the anchor
/// occurs once; otherwise reports how many times it was found.
pub fn inject_prover_load_library(text: &str) -> (r: Result<String, String>)
    ensures
        r is Ok <==> match_count(text@, KOTLIN_INJECTION_ANCHOR@) == 1,
        r matches Ok(patched) ==> patched@ == injected(text@),
        r matches Err(msg) ==> msg@ == anchor_mismatch_message(
            match_count(text@, KOTLIN_INJECTION_ANCHOR@),
        ),
{
    proof {
        reveal_strlit("internal object IntegrityCheckingUniffiLib {\n    init {\n        Native.register(IntegrityCheckingUniffiLib::class.java");
    }
    let t = chars_of(text);
    let a = chars_of(KOTLIN_INJECTION_ANCHOR);
    let (count, at) = scan_matches(&t, &a);
    if count != 1 {
        let mut msg = string_from(ANCHOR_MISMATCH_HEAD);
        push_decimal(&mut msg, count as u64);
        push_str(&mut msg, ANCHOR_MISMATCH_TAIL);
        return Err(msg);
    }
    assert(at + a.len() <= t.len());
    let mut out = String::new();
    push_chars(&mut out, &t, 0, at);
    push_str(&mut out, KOTLIN_INJECTION_REPLACEMENT);
    push_chars(&mut out, &t, at + a.len(), t.len());
    Ok(out)
}

/// "int" starts the anchor and nowhere else in it; same for the replacement.
proof fn lemma_literal_shapes()
    ensures
        KOTLIN_INJECTION_ANCHOR@.len() == 118,
        KOTLIN_INJECTION_REPLACEMENT@.len() == 169,
        forall|k: int| 1 <= k && k + 3 <= 118 ==> !(#[trigger] KOTLIN_INJECTION_ANCHOR@[k] == 'i'
            && KOTLIN_INJECTION_ANCHOR@[k + 1] == 'n' && KOTLIN_INJECTION_ANCHOR@[k + 2] == 't'),
        forall|k: int| 1 <= k && k + 3 <= 169 ==> !(#[trigger] KOTLIN_INJECTION_REPLACEMENT@[k] == 'i'
            && KOTLIN_INJECTION_REPLACEMENT@[k + 1] == 'n' && KOTLIN_INJECTION_REPLACEMENT@[k + 2] == 't'),
        KOTLIN_INJECTION_ANCHOR@[0] == 'i',
        KOTLIN_INJECTION_ANCHOR@[1] == 'n',
        KOTLIN_INJECTION_ANCHOR@[2] == 't',
        KOTLIN_INJECTION_REPLACEMENT@[0] == 'i',
        KOTLIN_INJECTION_REPLACEMENT@[1] == 'n',
        KOTLIN_INJECTION_REPLACEMENT@[2] == 't',
        KOTLIN_INJECTION_ANCHOR@[116] == 'v',
        KOTLIN_INJECTION_ANCHOR@[117] == 'a',
        KOTLIN_INJECTION_REPLACEMENT@[167] == 'v',
        KOTLIN_INJECTION_REPLACEMENT@[168] == 'a',
        KOTLIN_INJECTION_ANCHOR@[64] == 'N',
        KOTLIN_INJECTION_REPLACEMENT@[64] == 'S',
{
    reveal_strlit("internal object IntegrityCheckingUniffiLib {\n    init {\n        Native.register(IntegrityCheckingUniffiLib::class.java");
    reveal_strlit("internal object IntegrityCheckingUniffiLib {\n    init {\n        System.loadLibrary(\"hekate_prover_cdylib\")\n        Native.register(IntegrityCheckingUniffiLib::class.java");
}

/// A patched file cannot be patched again: once the anchor has been replaced,
/// the output holds no anchor at all, so a second injection reports
/// "matched 0 times" instead of loading the prover library twice.
pub proof fn lemma_injection_not_repeatable(text: Seq<char>)
    requires
        match_count(text, KOTLIN_INJECTION_ANCHOR@) == 1,
    ensures
        match_count(injected(text), KOTLIN_INJECTION_ANCHOR@) == 0,
{
    let a = KOTLIN_INJECTION_ANCHOR@;
    let r = KOTLIN_INJECTION_REPLACEMENT@;
    lemma_literal_shapes();
    let p = first_match(text, a);
    if text.len() < a.len() {
        assert(match_count(text, a) == 0);
    }
    lemma_first_match_facts(text, a);
    if p == text.len() - a.len() + 1 {
        lemma_count_skip(text, a, 0, p);
    }
    assert(matches_at(text, a, p));
    lemma_count_skip(text, a, 0, p);
    lemma_count_zero(text, a, p + a.len());
    let t = injected(text);
    assert(t.len() == text.len() + r.len() - a.len());
    assert forall|q: int| !#[trigger] matches_at(t, a, q) by {
        if matches_at(t, a, q) {
            assert(forall|m: int| 0 <= m < a.len() ==> t[q + m] == #[trigger] a[m]) by {
                assert forall|m: int| 0 <= m < a.len() implies t[q + m] == #[trigger] a[m] by {
                    assert(t.subrange(q, q + a.len())[m] == t[q + m]);
                }
            }
            if q + a.len() <= p {
                assert(text.subrange(q, q + a.len()) =~= t.subrange(q, q + a.len()));
                assert(matches_at(text, a, q));
            } else if q >= p + r.len() {
                let j = q - r.len() + a.len();
                assert(text.subrange(j, j + a.len()) =~= t.subrange(q, q + a.len()));
                assert(matches_at(text, a, j));
            } else if q < p {
                let k = p - q;
                assert(t[q + k] == r[0]);
                assert(a[k] == 'i');
                if k + 3 <= a.len() {
                    assert(t[q + k + 1] == r[1]);
                    assert(t[q + k + 2] == r[2]);
                    assert(KOTLIN_INJECTION_ANCHOR@[k] == 'i' && KOTLIN_INJECTION_ANCHOR@[k + 1] == 'n'
                        && KOTLIN_INJECTION_ANCHOR@[k + 2] == 't');
                }
            } else if q + a.len() <= p + r.len() {
                let o = q - p;
                assert(t[q] == r[o]);
                assert(t[q + 1] == r[o + 1]);
                assert(t[q + 2] == r[o + 2]);
                if o == 0 {
                    assert(t[q + 64] == r[64]);
                } else {
                    assert(KOTLIN_INJECTION_REPLACEMENT@[o] == 'i' && KOTLIN_INJECTION_REPLACEMENT@[o + 1]
                        == 'n' && KOTLIN_INJECTION_REPLACEMENT@[o + 2] == 't');
                }
            } else {
                let o = q - p;
                assert(t[q] == r[o]);
                if o + 3 <= r.len() {
                    assert(t[q + 1] == r[o + 1]);
                    assert(t[q + 2] == r[o + 2]);
                    assert(KOTLIN_INJECTION_REPLACEMENT@[o] == 'i' && KOTLIN_INJECTION_REPLACEMENT@[o + 1]
                        == 'n' && KOTLIN_INJECTION_REPLACEMENT@[o + 2] == 't');
                }
            }
        }
    }
    lemma_count_skip(t, a, 0, t.len() + 1int);
}

/// The call that loads the prover library.
pub const LOAD_PROVER_CALL: &'static str = "System.loadLibrary(\"hekate_prover_cdylib\")";

/// The JNA registration of the integrity-checking object.
pub const JNA_REGISTER_CALL: &'static str = "Native.register(IntegrityCheckingUniffiLib::class.java";

/// In a patched file the prover library is loaded inside the integrity-checking
/// object's initializer before JNA registers it, so the dynamic loader finds
/// the prover already mapped when the developer library asks for it.
pub proof fn lemma_load_precedes_registration(text: Seq<char>)
    requires
        match_count(text, KOTLIN_INJECTION_ANCHOR@) == 1,
    ensures
        ({
            let p = first_match(text, KOTLIN_INJECTION_ANCHOR@);
            &&& matches_at(injected(text), LOAD_PROVER_CALL@, p + 64)
            &&& matches_at(injected(text), JNA_REGISTER_CALL@, p + 115)
        }),
{
    let a = KOTLIN_INJECTION_ANCHOR@;
    let r = KOTLIN_INJECTION_REPLACEMENT@;
    reveal_strlit("internal object IntegrityCheckingUniffiLib {\n    init {\n        System.loadLibrary(\"hekate_prover_cdylib\")\n        Native.register(IntegrityCheckingUniffiLib::class.java");
    reveal_strlit("System.loadLibrary(\"hekate_prover_cdylib\")");
    reveal_strlit("Native.register(IntegrityCheckingUniffiLib::class.java");
    lemma_literal_shapes();
    let p = first_match(text, a);
    if text.len() < a.len() {
        assert(match_count(text, a) == 0);
    }
    lemma_first_match_facts(text, a);
    if p == text.len() - a.len() + 1 {
        lemma_count_skip(text, a, 0, p);
    }
    let t = injected(text);
    assert(t.subrange(p + 64, p + 106) =~= r.subrange(64, 106));
    assert(r.subrange(64, 106) =~= LOAD_PROVER_CALL@);
    assert(t.subrange(p + 115, p + 169) =~= r.subrange(115, 169));
    assert(r.subrange(115, 169) =~= JNA_REGISTER_CALL@);
}

} // verus!
