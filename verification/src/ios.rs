//! The text-level steps of packaging the iOS xcframeworks: framework names,
//! `Info.plist`, module maps and the `install_name_tool` arguments.

use vstd::prelude::*;
use crate::android::PROVER_DYLIB_STEM;
use crate::text::{
    ascii_lower, ascii_upper, chars_of, contains, first_index, first_match, is_ascii_digit, is_digit,
    is_ws, lemma_first_index, matches_at, next_ws, next_ws_exec, push_char, push_chars, push_str,
    scan_matches, skip_ws, skip_ws_exec, string_from, to_ascii_lower, to_ascii_upper, trim_start,
};

verus! {

/// The framework that wraps the prover library.
pub const PROVER_FRAMEWORK: &'static str = "HekateProverCdylib";

/// The device and simulator slices that are built.
pub const DEVICE_SLICE: &'static str = "aarch64-apple-ios";
pub const SIMULATOR_SLICE: &'static str = "aarch64-apple-ios-sim";

pub open spec fn is_separator(c: char) -> bool {
    c == '-' || c == '_'
}

/// How the character at `i` appears in the framework name: upper-case at the
/// start of a word, lower-case inside one.
pub open spec fn pascal_char(s: Seq<char>, i: int) -> char {
    if i == 0 || is_separator(s[i - 1]) {
        ascii_upper(s[i])
    } else {
        ascii_lower(s[i])
    }
}

/// The PascalCase form of the first `n` characters of `s`: the words between
/// `-` and `_` separators, each with an upper-case first letter and the rest in
/// lower case, concatenated (empty words vanish).
pub open spec fn pascal_prefix(s: Seq<char>, n: int) -> Seq<char>
    decreases n,
{
    if n <= 0 {
        seq![]
    } else if is_separator(s[n - 1]) {
        pascal_prefix(s, n - 1)
    } else {
        pascal_prefix(s, n - 1).push(pascal_char(s, n - 1))
    }
}

pub open spec fn pascal_case(s: Seq<char>) -> Seq<char> {
    pascal_prefix(s, s.len() as int)
}

/// The framework name for a package name: `my-prover` becomes `MyProver`.
pub fn pascalize(name: &str) -> (r: String)
    ensures
        r@ == pascal_case(name@),
{
    let v = chars_of(name);
    let mut out = String::new();
    let mut i: usize = 0;
    while i < v.len()
        invariant
            i <= v.len(),
            v@ == name@,
            out@ == pascal_prefix(v@, i as int),
        decreases v.len() - i,
    {
        let c = v[i];
        if c != '-' && c != '_' {
            let mapped = if i == 0 || v[i - 1] == '-' || v[i - 1] == '_' {
                to_ascii_upper(c)
            } else {
                to_ascii_lower(c)
            };
            push_char(&mut out, mapped);
        }
        i += 1;
    }
    out
}

/// A framework name never holds a word separator.
pub proof fn lemma_pascal_case_has_no_separator(s: Seq<char>)
    ensures
        forall|k: int| 0 <= k < pascal_case(s).len() ==> !is_separator(#[trigger] pascal_case(s)[k]),
{
    lemma_pascal_prefix_no_separator(s, s.len() as int);
}

proof fn lemma_pascal_prefix_no_separator(s: Seq<char>, n: int)
    requires
        n <= s.len(),
    ensures
        forall|k: int| 0 <= k < pascal_prefix(s, n).len() ==> !is_separator(#[trigger] pascal_prefix(s, n)[k]),
    decreases n,
{
    if n > 0 {
        lemma_pascal_prefix_no_separator(s, n - 1);
        if !is_separator(s[n - 1]) {
            let c = pascal_char(s, n - 1);
            assert(!is_separator(c));
            assert forall|k: int| 0 <= k < pascal_prefix(s, n).len() implies !is_separator(#[trigger] pascal_prefix(s, n)[k]) by {
                if k < pascal_prefix(s, n - 1).len() {
                    assert(pascal_prefix(s, n)[k] == pascal_prefix(s, n - 1)[k]);
                }
            }
        }
    }
}

/// The platform a slice is built for.
pub open spec fn slice_platform_spec(slice: Seq<char>) -> Seq<char> {
    if slice == "aarch64-apple-ios-sim"@ || slice == "x86_64-apple-ios"@ {
        "iPhoneSimulator"@
    } else {
        "iPhoneOS"@
    }
}

/// `iPhoneSimulator` for simulator slices, `iPhoneOS` otherwise.
pub fn slice_platform(slice: &str) -> (r: &'static str)
    ensures
        r@ == slice_platform_spec(slice@),
{
    let s = string_from(slice);
    if s == string_from("aarch64-apple-ios-sim") || s == string_from("x86_64-apple-ios") {
        "iPhoneSimulator"
    } else {
        "iPhoneOS"
    }
}

/// Where the release part of a version ends: at the first `-` (pre-release)
/// or `+` (build metadata).
pub open spec fn version_core_end(s: Seq<char>) -> int {
    first_index(0, s.len() as int, |k: int| is_core_stop(s[k]))
}

pub open spec fn is_core_stop(c: char) -> bool {
    c == '-' || c == '+'
}

pub open spec fn is_version_char(c: char) -> bool {
    is_digit(c) || c == '.'
}

/// The digits and dots among the first `n` characters of `s`, in order.
pub open spec fn version_chars(s: Seq<char>, n: int) -> Seq<char>
    decreases n,
{
    if n <= 0 {
        seq![]
    } else if is_version_char(s[n - 1]) {
        version_chars(s, n - 1).push(s[n - 1])
    } else {
        version_chars(s, n - 1)
    }
}

/// A `CFBundleVersion` for a crate version: the release part (before any `-`
/// or `+`) with everything but digits and dots dropped, or `0` when no digit
/// is left.
pub open spec fn bundle_version(raw: Seq<char>) -> Seq<char> {
    let kept = version_chars(raw, version_core_end(raw));
    if kept.len() == 0 || (forall|k: int| 0 <= k < kept.len() ==> #[trigger] kept[k] == '.') {
        seq!['0']
    } else {
        kept
    }
}

pub fn sanitize_bundle_version(raw: &str) -> (r: String)
    ensures
        r@ == bundle_version(raw@),
{
    let v = chars_of(raw);
    let mut end: usize = 0;
    while end < v.len() && v[end] != '-' && v[end] != '+'
        invariant
            end <= v.len(),
            forall|j: int| 0 <= j < end ==> !is_core_stop(#[trigger] v@[j]),
        decreases v.len() - end,
    {
        end += 1;
    }
    proof {
        lemma_first_index(0, v.len() as int, |k: int| is_core_stop(v@[k]), end as int);
    }
    let mut kept = String::new();
    let mut has_digit = false;
    let mut i: usize = 0;
    while i < end
        invariant
            i <= end <= v.len(),
            kept@ == version_chars(v@, i as int),
            has_digit == exists|k: int| 0 <= k < kept@.len() && #[trigger] kept@[k] != '.',
        decreases end - i,
    {
        let c = v[i];
        if is_ascii_digit(c) || c == '.' {
            let ghost before = kept@;
            push_char(&mut kept, c);
            proof {
                if c != '.' {
                    assert(kept@[before.len() as int] != '.');
                }
                if has_digit {
                    let k = choose|k: int| 0 <= k < before.len() && #[trigger] before[k] != '.';
                    assert(kept@[k] == before[k]);
                }
                if !has_digit && c == '.' {
                    assert forall|k: int| 0 <= k < kept@.len() implies #[trigger] kept@[k] == '.' by {
                        if k < before.len() {
                            assert(kept@[k] == before[k]);
                        }
                    }
                }
            }
            if c != '.' {
                has_digit = true;
            }
        }
        i += 1;
    }
    if !has_digit {
        let mut zero = String::new();
        push_char(&mut zero, '0');
        assert(zero@ =~= seq!['0']);
        return zero;
    }
    kept
}

/// A bundle version is never empty, holds only digits and dots, and has at
/// least one digit.
pub proof fn lemma_bundle_version_well_formed(raw: Seq<char>)
    ensures
        bundle_version(raw).len() > 0,
        forall|k: int| 0 <= k < bundle_version(raw).len() ==> is_version_char(#[trigger] bundle_version(raw)[k]),
        exists|k: int| 0 <= k < bundle_version(raw).len() && is_digit(#[trigger] bundle_version(raw)[k]),
{
    let n = version_core_end(raw);
    lemma_version_chars_only(raw, n);
    let kept = version_chars(raw, n);
    if kept.len() == 0 || (forall|k: int| 0 <= k < kept.len() ==> #[trigger] kept[k] == '.') {
        assert(bundle_version(raw)[0] == '0');
    } else {
        let k = choose|k: int| 0 <= k < kept.len() && !(#[trigger] kept[k] == '.');
        assert(is_version_char(kept[k]));
        assert(is_digit(bundle_version(raw)[k]));
    }
}

proof fn lemma_version_chars_only(s: Seq<char>, n: int)
    ensures
        forall|k: int| 0 <= k < version_chars(s, n).len() ==> is_version_char(#[trigger] version_chars(s, n)[k]),
    decreases n,
{
    if n > 0 {
        lemma_version_chars_only(s, n - 1);
        assert forall|k: int| 0 <= k < version_chars(s, n).len() implies is_version_char(#[trigger] version_chars(s, n)[k]) by {
            if k < version_chars(s, n - 1).len() {
                assert(version_chars(s, n)[k] == version_chars(s, n - 1)[k]);
            }
        }
    }
}

pub const PLIST_HEAD: &'static str = "<?xml version=\"1.0\" encoding=\"UTF-8\"?>\n<!DOCTYPE plist PUBLIC \"-//Apple//DTD PLIST 1.0//EN\" \"http://www.apple.com/DTDs/PropertyList-1.0.dtd\">\n<plist version=\"1.0\">\n<dict>\n    <key>CFBundleExecutable</key>\n    <string>";
pub const PLIST_IDENTIFIER: &'static str = "</string>\n    <key>CFBundleIdentifier</key>\n    <string>dev.oumuamua.hekate.";
pub const PLIST_NAME: &'static str = "</string>\n    <key>CFBundleName</key>\n    <string>";
pub const PLIST_VERSION: &'static str = "</string>\n    <key>CFBundlePackageType</key>\n    <string>FMWK</string>\n    <key>CFBundleVersion</key>\n    <string>";
pub const PLIST_SHORT_VERSION: &'static str = "</string>\n    <key>CFBundleShortVersionString</key>\n    <string>";
pub const PLIST_PLATFORM: &'static str = "</string>\n    <key>MinimumOSVersion</key>\n    <string>16.0</string>\n    <key>CFBundleSupportedPlatforms</key>\n    <array>\n        <string>";
pub const PLIST_TAIL: &'static str = "</string>\n    </array>\n</dict>\n</plist>\n";

pub open spec fn ascii_lower_all(s: Seq<char>) -> Seq<char> {
    s.map_values(|c: char| ascii_lower(c))
}

/// The `Info.plist` of a framework named `name` for `platform`, at the bundle
/// version derived from `version`, with identifier `dev.oumuamua.hekate.<name in lower case>`.
pub open spec fn info_plist_spec(name: Seq<char>, platform: Seq<char>, version: Seq<char>) -> Seq<char> {
    let bv = bundle_version(version);
    PLIST_HEAD@ + name + PLIST_IDENTIFIER@ + ascii_lower_all(name) + PLIST_NAME@ + name
        + PLIST_VERSION@ + bv + PLIST_SHORT_VERSION@ + bv + PLIST_PLATFORM@ + platform + PLIST_TAIL@
}

pub fn info_plist(name: &str, platform: &str, version: &str) -> (r: String)
    ensures
        r@ == info_plist_spec(name@, platform@, version@),
{
    let bv = sanitize_bundle_version(version);
    let n = chars_of(name);
    let mut out = string_from(PLIST_HEAD);
    push_str(&mut out, name);
    push_str(&mut out, PLIST_IDENTIFIER);
    let ghost before = out@;
    let mut i: usize = 0;
    while i < n.len()
        invariant
            i <= n.len(),
            n@ == name@,
            out@ == before + ascii_lower_all(n@.take(i as int)),
        decreases n.len() - i,
    {
        push_char(&mut out, to_ascii_lower(n[i]));
        assert(ascii_lower_all(n@.take(i + 1)) =~= ascii_lower_all(n@.take(i as int)).push(ascii_lower(n@[i as int])));
        i += 1;
    }
    assert(n@.take(n.len() as int) =~= n@);
    push_str(&mut out, PLIST_NAME);
    push_str(&mut out, name);
    push_str(&mut out, PLIST_VERSION);
    push_str(&mut out, bv.as_str());
    push_str(&mut out, PLIST_SHORT_VERSION);
    push_str(&mut out, bv.as_str());
    push_str(&mut out, PLIST_PLATFORM);
    push_str(&mut out, platform);
    push_str(&mut out, PLIST_TAIL);
    out
}

/// `p` starts `s`.
pub open spec fn starts_with(s: Seq<char>, p: Seq<char>) -> bool {
    matches_at(s, p, 0)
}

pub const FRAMEWORK_MODULE: &'static str = "framework module";
pub const FRAMEWORK_MODULE_SPACE: &'static str = "framework module ";
pub const MODULE_SPACE: &'static str = "module ";
pub const MODULEMAP_ERROR_HEAD: &'static str = "uniffi modulemap format unrecognized; expected leading `module ` or `framework module `, got `";
pub const MODULEMAP_ERROR_TAIL: &'static str = "`. Verify the pinned uniffi crate version and update rewrite_modulemap_as_framework in template/xtask/src/ios_build.rs.";

/// UniFFI writes a plain `module X { … }`; a framework needs `framework module X { … }`.
/// A map that already is a framework module is kept as it is; anything else is
/// refused, quoting its first 64 characters.
pub open spec fn framework_modulemap(text: Seq<char>) -> Result<Seq<char>, Seq<char>> {
    let t = trim_start(text);
    if starts_with(t, FRAMEWORK_MODULE@) {
        Ok(text)
    } else if starts_with(t, MODULE_SPACE@) {
        Ok(FRAMEWORK_MODULE_SPACE@ + t.subrange(MODULE_SPACE@.len() as int, t.len() as int))
    } else {
        let preview = if t.len() <= 64 { t } else { t.take(64) };
        Err(MODULEMAP_ERROR_HEAD@ + preview + MODULEMAP_ERROR_TAIL@)
    }
}

/// Whether `v[from..]` starts with `p`.
fn starts_at(v: &Vec<char>, from: usize, p: &str) -> (r: bool)
    requires
        from <= v.len(),
    ensures
        r == starts_with(v@.subrange(from as int, v.len() as int), p@),
{
    let pv = chars_of(p);
    if pv.len() > v.len() - from {
        return false;
    }
    let mut k: usize = 0;
    while k < pv.len()
        invariant
            k <= pv.len(),
            from + pv.len() <= v.len(),
            pv@ == p@,
            forall|j: int| 0 <= j < k ==> v@[from + j] == pv@[j],
        decreases pv.len() - k,
    {
        if v[from + k] != pv[k] {
            assert(v@.subrange(from as int, v.len() as int).subrange(0, pv.len() as int)[k as int] != pv@[k as int]);
            return false;
        }
        k += 1;
    }
    assert(v@.subrange(from as int, v.len() as int).subrange(0, pv.len() as int) =~= pv@);
    true
}

pub fn rewrite_modulemap_as_framework(text: &str) -> (r: Result<String, String>)
    ensures
        r matches Ok(m) ==> framework_modulemap(text@) == Ok::<Seq<char>, Seq<char>>(m@),
        r matches Err(e) ==> framework_modulemap(text@) == Err::<Seq<char>, Seq<char>>(e@),
{
    let v = chars_of(text);
    let a = skip_ws_exec(&v, 0, v.len());
    let ghost t = v@.subrange(a as int, v.len() as int);
    assert(t == trim_start(text@));
    if starts_at(&v, a, FRAMEWORK_MODULE) {
        return Ok(string_from(text));
    }
    if starts_at(&v, a, MODULE_SPACE) {
        proof {
            reveal_strlit("module ");
        }
        let mut out = string_from(FRAMEWORK_MODULE_SPACE);
        push_chars(&mut out, &v, a + 7, v.len());
        assert(v@.subrange(a + 7, v.len() as int) =~= t.subrange(7, t.len() as int));
        return Ok(out);
    }
    let end = if v.len() - a <= 64 { v.len() } else { a + 64 };
    let mut msg = string_from(MODULEMAP_ERROR_HEAD);
    push_chars(&mut msg, &v, a, end);
    push_str(&mut msg, MODULEMAP_ERROR_TAIL);
    assert(v@.subrange(a as int, end as int) =~= (if t.len() <= 64 { t } else { t.take(64) }));
    Err(msg)
}

/// Rewriting is idempotent: what it produces is accepted again unchanged.
pub proof fn lemma_modulemap_rewrite_idempotent(text: Seq<char>)
    requires
        framework_modulemap(text) is Ok,
    ensures
        framework_modulemap(framework_modulemap(text)->Ok_0) == framework_modulemap(text),
{
    let t = trim_start(text);
    if !starts_with(t, FRAMEWORK_MODULE@) {
        reveal_strlit("framework module ");
        reveal_strlit("framework module");
        let r = FRAMEWORK_MODULE_SPACE@ + t.subrange(MODULE_SPACE@.len() as int, t.len() as int);
        assert(!is_ws(r[0]));
        lemma_first_index(0, r.len() as int, |k: int| !is_ws(r[k]), 0);
        assert(trim_start(r) =~= r);
        assert(r.subrange(0, FRAMEWORK_MODULE@.len() as int) =~= FRAMEWORK_MODULE@);
    }
}

/// The install name of a framework binary: `@rpath/<name>.framework/<name>`.
pub open spec fn install_id_spec(name: Seq<char>) -> Seq<char> {
    "@rpath/"@ + name + ".framework/"@ + name
}

pub fn install_id(name: &str) -> (r: String)
    ensures
        r@ == install_id_spec(name@),
{
    let mut out = string_from("@rpath/");
    push_str(&mut out, name);
    push_str(&mut out, ".framework/");
    push_str(&mut out, name);
    out
}

/// `install_name_tool` arguments that give the framework binary `bin` its install name.
pub fn set_install_id_args(name: &str, bin: &str) -> (r: Vec<String>)
    ensures
        r@.map_values(|s: String| s@) == seq!["-id"@, install_id_spec(name@), bin@],
{
    let mut args: Vec<String> = Vec::new();
    args.push(string_from("-id"));
    args.push(install_id(name));
    args.push(string_from(bin));
    assert(args@.map_values(|s: String| s@) =~= seq!["-id"@, install_id_spec(name@), bin@]);
    args
}

/// `install_name_tool` arguments that point the developer framework binary
/// `bin` at the prover framework in place of `old_ref`, the prover path the
/// linker recorded on the build machine.
pub fn relink_prover_ref_args(bin: &str, old_ref: &str) -> (r: Vec<String>)
    ensures
        r@.map_values(|s: String| s@) == seq!["-change"@, old_ref@, install_id_spec(PROVER_FRAMEWORK@), bin@],
{
    let mut args: Vec<String> = Vec::new();
    args.push(string_from("-change"));
    args.push(string_from(old_ref));
    args.push(install_id(PROVER_FRAMEWORK));
    args.push(string_from(bin));
    assert(args@.map_values(|s: String| s@) =~= seq!["-change"@, old_ref@, install_id_spec(PROVER_FRAMEWORK@), bin@]);
    args
}

/// The start of the line holding index `i`.
pub open spec fn line_start(s: Seq<char>, i: int) -> int
    decreases i,
{
    if i <= 0 {
        0
    } else if s[i - 1] == '\n' {
        i
    } else {
        line_start(s, i - 1)
    }
}

pub const NOT_REFERENCED: &'static str = " not referenced in ";

/// The prover path that `otool -L` lists for the developer library: the first
/// word of the first line that mentions the prover library, or an error naming
/// the library (`dylib`) when no line does.
pub open spec fn prover_load_path(otool: Seq<char>, dylib: Seq<char>) -> Result<Seq<char>, Seq<char>> {
    if !contains(otool, PROVER_DYLIB_STEM@) {
        Err(PROVER_DYLIB_STEM@ + NOT_REFERENCED@ + dylib)
    } else {
        let ls = line_start(otool, first_match(otool, PROVER_DYLIB_STEM@));
        let a = skip_ws(otool, ls, otool.len() as int);
        Ok(otool.subrange(a, next_ws(otool, a, otool.len() as int)))
    }
}

/// Reads the prover reference out of `otool -L` output.
pub fn read_prover_load_path(otool: &str, dylib: &str) -> (r: Result<String, String>)
    ensures
        r matches Ok(p) ==> prover_load_path(otool@, dylib@) == Ok::<Seq<char>, Seq<char>>(p@),
        r matches Err(e) ==> prover_load_path(otool@, dylib@) == Err::<Seq<char>, Seq<char>>(e@),
{
    proof {
        reveal_strlit("libhekate_prover_cdylib");
    }
    let v = chars_of(otool);
    let stem = chars_of(PROVER_DYLIB_STEM);
    let (count, at) = scan_matches(&v, &stem);
    if count == 0 {
        let mut msg = string_from(PROVER_DYLIB_STEM);
        push_str(&mut msg, NOT_REFERENCED);
        push_str(&mut msg, dylib);
        return Err(msg);
    }
    let mut ls = at;
    while ls > 0 && v[ls - 1] != '\n'
        invariant
            ls <= at < v.len(),
            line_start(v@, ls as int) == line_start(v@, at as int),
        decreases ls,
    {
        ls -= 1;
    }
    let a = skip_ws_exec(&v, ls, v.len());
    let b = next_ws_exec(&v, a, v.len());
    let mut out = String::new();
    push_chars(&mut out, &v, a, b);
    Ok(out)
}

pub const TEAM_ID_MISSING: &'static str = "HEKATE_IOS_TEAM_ID not set; pass --unsigned for unsigned dev builds";

/// How the xcframeworks get signed: not at all for `--unsigned` builds (the
/// caller warns), with the team id from `HEKATE_IOS_TEAM_ID` otherwise; a
/// signed build without a non-empty team id fails instead of skipping signing.
pub fn signing_identity(unsigned: bool, team_id: Option<String>) -> (r: Result<Option<String>, String>)
    ensures
        unsigned ==> r == Ok::<Option<String>, String>(None),
        !unsigned ==> match team_id {
            Some(t) if t@.len() > 0 => r == Ok::<Option<String>, String>(Some(t)),
            _ => r matches Err(e) && e@ == TEAM_ID_MISSING@,
        },
{
    if unsigned {
        return Ok(None);
    }
    match team_id {
        Some(t) => {
            if t.unicode_len() > 0 {
                Ok(Some(t))
            } else {
                Err(string_from(TEAM_ID_MISSING))
            }
        },
        None => Err(string_from(TEAM_ID_MISSING)),
    }
}


/// How many of the first `n` characters of `s` are not separators.
pub open spec fn non_separators(s: Seq<char>, n: int) -> nat
    decreases n,
{
    if n <= 0 {
        0
    } else if is_separator(s[n - 1]) {
        non_separators(s, n - 1)
    } else {
        non_separators(s, n - 1) + 1
    }
}

proof fn lemma_non_separators_grow(s: Seq<char>, j: int, k: int)
    requires
        0 <= j <= k,
    ensures
        non_separators(s, j) <= non_separators(s, k),
    decreases k - j,
{
    if j < k {
        lemma_non_separators_grow(s, j, k - 1);
    }
}

/// The framework name keeps every character that is not `-` or `_`, in order:
/// the first character of each word in upper case, every other character in
/// lower case (a letter after a digit stays lower case).
pub proof fn lemma_pascal_case_words(s: Seq<char>)
    ensures
        pascal_case(s).len() == non_separators(s, s.len() as int),
        forall|i: int| 0 <= i < s.len() && !is_separator(s[i]) ==>
            #[trigger] pascal_case(s)[non_separators(s, i) as int] == (if i == 0 || is_separator(s[i - 1]) {
                ascii_upper(s[i])
            } else {
                ascii_lower(s[i])
            }),
{
    lemma_pascal_prefix_words(s, s.len() as int);
}

proof fn lemma_pascal_prefix_words(s: Seq<char>, n: int)
    requires
        0 <= n <= s.len(),
    ensures
        pascal_prefix(s, n).len() == non_separators(s, n),
        forall|i: int| 0 <= i < n && !is_separator(s[i]) ==>
            #[trigger] pascal_prefix(s, n)[non_separators(s, i) as int] == (if i == 0 || is_separator(s[i - 1]) {
                ascii_upper(s[i])
            } else {
                ascii_lower(s[i])
            }),
    decreases n,
{
    if n > 0 {
        lemma_pascal_prefix_words(s, n - 1);
        assert forall|i: int| 0 <= i < n && !is_separator(s[i]) implies
            #[trigger] pascal_prefix(s, n)[non_separators(s, i) as int] == (if i == 0 || is_separator(s[i - 1]) {
                ascii_upper(s[i])
            } else {
                ascii_lower(s[i])
            }) by {
            if i < n - 1 {
                lemma_non_separators_grow(s, i + 1, n - 1);
                assert(pascal_prefix(s, n)[non_separators(s, i) as int] == pascal_prefix(s, n - 1)[non_separators(s, i) as int]);
            }
        }
    }
}

} // verus!
