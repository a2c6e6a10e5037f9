//! Choosing build outputs and describing the external commands that the
//! packaging steps run.

use vstd::prelude::*;
use crate::android::PROVER_DYLIB_STEM;
use crate::text::{
    chars_of, decimal, matches_at, matches_at_exec, views, push_decimal, push_signed_decimal, push_str,
    signed_decimal, string_from,
};

verus! {

/// Build-script output directories of the prover crate are named `hekate-prover-sys-<hash>`.
pub const PROVER_BUILD_DIR_PREFIX: &'static str = "hekate-prover-sys-";

/// Whether a `target/<triple>/release/build` entry is one of the prover's build-script directories.
pub fn is_prover_build_dir(name: &str) -> (r: bool)
    ensures
        r == matches_at(name@, PROVER_BUILD_DIR_PREFIX@, 0),
{
    let v = chars_of(name);
    let p = chars_of(PROVER_BUILD_DIR_PREFIX);
    matches_at_exec(&v, &p, 0)
}

/// Among candidate libraries with modification times `mtimes` (in directory
/// order), the newest one; on a tie the earliest listed wins.
pub open spec fn is_newest(mtimes: Seq<i128>, k: int) -> bool {
    &&& 0 <= k < mtimes.len()
    &&& forall|j: int| 0 <= j < mtimes.len() ==> #[trigger] mtimes[j] <= mtimes[k]
    &&& forall|j: int| 0 <= j < k ==> #[trigger] mtimes[j] < mtimes[k]
}

/// The index of the newest candidate, `None` when there is none.
pub fn newest_index(mtimes: &Vec<i128>) -> (r: Option<usize>)
    ensures
        r is None <==> mtimes.len() == 0,
        r matches Some(k) ==> is_newest(mtimes@, k as int),
{
    if mtimes.len() == 0 {
        return None;
    }
    let mut best: usize = 0;
    let mut i: usize = 1;
    while i < mtimes.len()
        invariant
            1 <= i <= mtimes.len(),
            best < i,
            forall|j: int| 0 <= j < i ==> #[trigger] mtimes@[j] <= mtimes@[best as int],
            forall|j: int| 0 <= j < best ==> #[trigger] mtimes@[j] < mtimes@[best as int],
        decreases mtimes.len() - i,
    {
        if mtimes[best] < mtimes[i] {
            best = i;
        }
        i += 1;
    }
    Some(best)
}

/// There is exactly one newest candidate.
pub proof fn lemma_newest_unique(mtimes: Seq<i128>, k1: int, k2: int)
    requires
        is_newest(mtimes, k1),
        is_newest(mtimes, k2),
    ensures
        k1 == k2,
{
    if k1 < k2 {
        assert(mtimes[k1] < mtimes[k2]);
        assert(mtimes[k2] <= mtimes[k1]);
    } else if k2 < k1 {
        assert(mtimes[k2] < mtimes[k1]);
        assert(mtimes[k1] <= mtimes[k2]);
    }
}

pub const EXITED: &'static str = " exited ";

/// `<tool> exited <code>`, with `-1` for a process ended by a signal.
pub open spec fn exited_text(tool: Seq<char>, code: Option<i32>) -> Seq<char> {
    tool + EXITED@ + signed_decimal(
        match code {
            Some(c) => c as int,
            None => -1,
        },
    )
}

/// The error for a command that ran but failed.
pub fn exited_message(tool: &str, code: Option<i32>) -> (r: String)
    ensures
        r@ == exited_text(tool@, code),
{
    let mut out = string_from(tool);
    push_str(&mut out, EXITED);
    let c: i32 = match code {
        Some(c) => c,
        None => -1,
    };
    push_signed_decimal(&mut out, c);
    out
}

/// A command's outcome: success, or the error naming the tool and its exit code.
pub fn command_result(tool: &str, success: bool, code: Option<i32>) -> (r: Result<(), String>)
    ensures
        success ==> r is Ok,
        !success ==> (r matches Err(e) && e@ == exited_text(tool@, code)),
{
    if success {
        Ok(())
    } else {
        Err(exited_message(tool, code))
    }
}

pub const EXPECTED_ONE_KT: &'static str = "expected exactly one .kt under ";
pub const FOUND: &'static str = ", found ";

/// Binding generation must leave exactly one Kotlin file under `root`.
pub fn expect_single_kotlin_file(found: usize, root: &str) -> (r: Result<(), String>)
    ensures
        found == 1 ==> r is Ok,
        found != 1 ==> (r matches Err(e) && e@ == EXPECTED_ONE_KT@ + root@ + FOUND@ + decimal(found as nat)),
{
    if found == 1 {
        return Ok(());
    }
    let mut msg = string_from(EXPECTED_ONE_KT);
    push_str(&mut msg, root);
    push_str(&mut msg, FOUND);
    push_decimal(&mut msg, found as u64);
    Err(msg)
}

/// `lib<name><extension>`, the file a cdylib named `name` is built into.
pub fn library_file_name(name: &str, extension: &str) -> (r: String)
    ensures
        r@ == "lib"@ + name@ + extension@,
{
    let mut out = string_from("lib");
    push_str(&mut out, name);
    push_str(&mut out, extension);
    out
}

/// The prover library's file name with `extension` (`.so`, `.dylib`).
pub fn prover_library_file_name(extension: &str) -> (r: String)
    ensures
        r@ == PROVER_DYLIB_STEM@ + extension@,
{
    let mut out = string_from(PROVER_DYLIB_STEM);
    push_str(&mut out, extension);
    out
}

pub open spec fn arg_views(args: Seq<String>) -> Seq<Seq<char>> {
    args.map_values(|s: String| s@)
}

fn args_of(parts: &[&str]) -> (r: Vec<String>)
    ensures
        arg_views(r@) == parts@.map_values(|s: &str| s@),
{
    let mut out: Vec<String> = Vec::new();
    let mut i: usize = 0;
    while i < parts.len()
        invariant
            i <= parts.len(),
            arg_views(out@) == parts@.take(i as int).map_values(|s: &str| s@),
        decreases parts.len() - i,
    {
        out.push(string_from(parts[i]));
        assert(parts@.take(i + 1).map_values(|s: &str| s@) =~= parts@.take(i as int).map_values(|s: &str| s@).push(parts@[i as int]@));
        assert(arg_views(out@) =~= parts@.take(i + 1).map_values(|s: &str| s@));
        i += 1;
    }
    assert(parts@.take(parts.len() as int) =~= parts@);
    out
}

/// `cargo ndk -t <abi> build --release -p <pkg> --lib`.
pub fn cargo_ndk_args(abi: &str, pkg_name: &str) -> (r: Vec<String>)
    ensures
        arg_views(r@) == seq!["ndk"@, "-t"@, abi@, "build"@, "--release"@, "-p"@, pkg_name@, "--lib"@],
{
    let r = args_of(&["ndk", "-t", abi, "build", "--release", "-p", pkg_name, "--lib"]);
    assert(arg_views(r@) =~= seq!["ndk"@, "-t"@, abi@, "build"@, "--release"@, "-p"@, pkg_name@, "--lib"@]);
    r
}

/// `cargo build --release --target <target> -p <pkg> --lib`.
pub fn cross_compile_args(target: &str, pkg_name: &str) -> (r: Vec<String>)
    ensures
        arg_views(r@) == seq!["build"@, "--release"@, "--target"@, target@, "-p"@, pkg_name@, "--lib"@],
{
    let r = args_of(&["build", "--release", "--target", target, "-p", pkg_name, "--lib"]);
    assert(arg_views(r@) =~= seq!["build"@, "--release"@, "--target"@, target@, "-p"@, pkg_name@, "--lib"@]);
    r
}

/// `cargo run --quiet --bin uniffi-bindgen -- generate --library <lib> --language <lang> --out-dir <dir>`.
pub fn bindgen_args(library: &str, language: &str, out_dir: &str) -> (r: Vec<String>)
    ensures
        arg_views(r@) == seq!["run"@, "--quiet"@, "--bin"@, "uniffi-bindgen"@, "--"@, "generate"@,
            "--library"@, library@, "--language"@, language@, "--out-dir"@, out_dir@],
{
    let r = args_of(&["run", "--quiet", "--bin", "uniffi-bindgen", "--", "generate", "--library", library,
        "--language", language, "--out-dir", out_dir]);
    assert(arg_views(r@) =~= seq!["run"@, "--quiet"@, "--bin"@, "uniffi-bindgen"@, "--"@, "generate"@,
        "--library"@, library@, "--language"@, language@, "--out-dir"@, out_dir@]);
    r
}

/// `codesign --sign <identity> --timestamp <path>`.
pub fn codesign_args(identity: &str, path: &str) -> (r: Vec<String>)
    ensures
        arg_views(r@) == seq!["--sign"@, identity@, "--timestamp"@, path@],
{
    let r = args_of(&["--sign", identity, "--timestamp", path]);
    assert(arg_views(r@) =~= seq!["--sign"@, identity@, "--timestamp"@, path@]);
    r
}

/// `-framework <dir>` for each slice framework, in order.
pub open spec fn framework_pairs(frameworks: Seq<Seq<char>>) -> Seq<Seq<char>>
    decreases frameworks.len(),
{
    if frameworks.len() == 0 {
        seq![]
    } else {
        framework_pairs(frameworks.drop_last()) + seq!["-framework"@, frameworks.last()]
    }
}

/// `xcodebuild -create-xcframework -framework <slice>… -output <path>`.
pub fn xcframework_args(frameworks: &Vec<String>, output: &str) -> (r: Vec<String>)
    ensures
        arg_views(r@) == seq!["-create-xcframework"@] + framework_pairs(views(frameworks@)) + seq!["-output"@, output@],
{
    let mut args: Vec<String> = Vec::new();
    args.push(string_from("-create-xcframework"));
    let mut i: usize = 0;
    assert(views(frameworks@.take(0)) =~= Seq::<Seq<char>>::empty());
    assert(arg_views(args@) =~= seq!["-create-xcframework"@] + framework_pairs(views(frameworks@.take(0))));
    while i < frameworks.len()
        invariant
            i <= frameworks.len(),
            arg_views(args@) == seq!["-create-xcframework"@] + framework_pairs(views(frameworks@.take(i as int))),
        decreases frameworks.len() - i,
    {
        let ghost before = arg_views(args@);
        args.push(string_from("-framework"));
        args.push(frameworks[i].clone());
        proof {
            let f = views(frameworks@.take(i + 1));
            assert(f.drop_last() =~= views(frameworks@.take(i as int)));
            assert(f.last() == frameworks@[i as int]@);
            assert(arg_views(args@) =~= before + seq!["-framework"@, frameworks@[i as int]@]);
            assert(arg_views(args@) =~= seq!["-create-xcframework"@] + framework_pairs(f));
        }
        i += 1;
    }
    let ghost before = arg_views(args@);
    args.push(string_from("-output"));
    args.push(string_from(output));
    assert(frameworks@.take(frameworks.len() as int) =~= frameworks@);
    assert(arg_views(args@) =~= before + seq!["-output"@, output@]);
    args
}

} // verus!
