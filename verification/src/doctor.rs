//! Host prerequisite checks: the decisions behind `cargo xtask doctor`.
//!
//! Running the probes (spawning `rustup`, `javac`, `security`, …) is left to
//! the caller, which hands their outcomes to the functions here.

use vstd::prelude::*;
use crate::text::{
    chars_of, char_at, decimal, is_digit, is_ws, first_index, lemma_first_index, lemma_first_index_facts,
    next_char, next_char_exec, trim_bounds,
    next_ws, next_ws_exec, parse_u32, parse_u32_exec, push_decimal, push_joined, push_signed_decimal,
    push_str, push_chars, seq_join, signed_decimal, skip_ws_exec, string_from, trim,
    trim_end_exec, views, contains, contains_exec, matches_at, is_whitespace, is_ascii_digit,
};

verus! {

/// The platform a doctor run can be scoped to.
#[derive(Clone, Copy, PartialEq, Eq, Debug)]
pub enum Platform {
    Ios,
    Android,
}

/// The outcome of one check: fine, or failed with an install hint.
pub enum Status {
    Passed,
    Failed(String),
}

impl View for Status {
    type V = Option<Seq<char>>;

    open spec fn view(&self) -> Option<Seq<char>> {
        match self {
            Status::Passed => None,
            Status::Failed(hint) => Some(hint@),
        }
    }
}

/// A named prerequisite and its outcome.
pub struct Check {
    pub name: String,
    pub status: Status,
}

impl View for Check {
    type V = (Seq<char>, Option<Seq<char>>);

    open spec fn view(&self) -> (Seq<char>, Option<Seq<char>>) {
        (self.name@, self.status@)
    }
}

/// How a probe command ended, when it could be started at all.
pub struct ToolRun {
    pub success: bool,
    pub code: Option<i32>,
    /// Standard output followed by standard error.
    pub output: String,
}

fn passed(name: &str) -> (c: Check)
    ensures
        c@ == (name@, None::<Seq<char>>),
{
    Check { name: string_from(name), status: Status::Passed }
}

fn failed(name: &str, hint: String) -> (c: Check)
    ensures
        c@ == (name@, Some(hint@)),
{
    Check { name: string_from(name), status: Status::Failed(hint) }
}

fn failed_with(name: &str, hint: &str) -> (c: Check)
    ensures
        c@ == (name@, Some(hint@)),
{
    failed(name, string_from(hint))
}

pub const XCODE_CLT: &'static str = "Xcode Command Line Tools";
pub const XCODE_CLT_HINT: &'static str = "install via `xcode-select --install` (or full Xcode from the App Store)";

/// `xcode-select -p` succeeded or not.
pub fn xcode_clt(found: bool) -> (c: Check)
    ensures
        c@ == (XCODE_CLT@, if found { None } else { Some(XCODE_CLT_HINT@) }),
{
    if found {
        passed(XCODE_CLT)
    } else {
        failed_with(XCODE_CLT, XCODE_CLT_HINT)
    }
}

pub const CARGO_NDK: &'static str = "cargo-ndk";
pub const CARGO_NDK_HINT: &'static str = "install via `cargo install cargo-ndk`";

/// `cargo ndk --version` succeeded or not.
pub fn cargo_ndk(found: bool) -> (c: Check)
    ensures
        c@ == (CARGO_NDK@, if found { None } else { Some(CARGO_NDK_HINT@) }),
{
    if found {
        passed(CARGO_NDK)
    } else {
        failed_with(CARGO_NDK, CARGO_NDK_HINT)
    }
}

pub const RUSTUP_MISSING_HINT: &'static str = "`rustup` not on PATH; install from https://rustup.rs";

pub const IOS_TARGETS: &'static str = "iOS Rust targets (aarch64-apple-ios + sim)";
pub const IOS_DEVICE_TARGET: &'static str = "aarch64-apple-ios";
pub const IOS_SIM_TARGET: &'static str = "aarch64-apple-ios-sim";
pub const IOS_TARGETS_HINT: &'static str = "install: rustup target add ";

pub open spec fn has(list: Seq<Seq<char>>, item: Seq<char>) -> bool {
    list.contains(item)
}

/// Whether `installed` holds `target`.
fn has_target(installed: &Vec<String>, target: &str) -> (r: bool)
    ensures
        r == has(views(installed@), target@),
{
    let want = string_from(target);
    let mut i: usize = 0;
    while i < installed.len()
        invariant
            i <= installed.len(),
            want@ == target@,
            forall|j: int| 0 <= j < i ==> #[trigger] installed@[j]@ != target@,
        decreases installed.len() - i,
    {
        if installed[i] == want {
            assert(views(installed@)[i as int] == target@);
            return true;
        }
        i += 1;
    }
    assert forall|j: int| 0 <= j < views(installed@).len() implies views(installed@)[j] != target@ by {
        assert(views(installed@)[j] == installed@[j]@);
    }
    false
}

/// The wanted iOS targets that `installed` lacks, in order.
pub open spec fn missing_ios_targets(installed: Seq<Seq<char>>) -> Seq<Seq<char>> {
    (if has(installed, IOS_DEVICE_TARGET@) { seq![] } else { seq![IOS_DEVICE_TARGET@] })
        + (if has(installed, IOS_SIM_TARGET@) { seq![] } else { seq![IOS_SIM_TARGET@] })
}

pub open spec fn ios_targets_spec(installed: Option<Seq<Seq<char>>>) -> (Seq<char>, Option<Seq<char>>) {
    match installed {
        None => (IOS_TARGETS@, Some(RUSTUP_MISSING_HINT@)),
        Some(list) => {
            let missing = missing_ios_targets(list);
            if missing.len() == 0 {
                (IOS_TARGETS@, None)
            } else {
                (IOS_TARGETS@, Some(IOS_TARGETS_HINT@ + seq_join(missing, seq![' '])))
            }
        },
    }
}

pub open spec fn installed_views(installed: Option<Vec<String>>) -> Option<Seq<Seq<char>>> {
    match installed {
        None => None,
        Some(list) => Some(views(list@)),
    }
}

/// Both iOS targets installed (`installed` is `rustup target list --installed`,
/// `None` when rustup could not be run).
pub fn ios_targets(installed: Option<Vec<String>>) -> (c: Check)
    ensures
        c@ == ios_targets_spec(installed_views(installed)),
{
    match installed {
        None => failed_with(IOS_TARGETS, RUSTUP_MISSING_HINT),
        Some(list) => {
            let mut missing: Vec<String> = Vec::new();
            if !has_target(&list, IOS_DEVICE_TARGET) {
                missing.push(string_from(IOS_DEVICE_TARGET));
            }
            if !has_target(&list, IOS_SIM_TARGET) {
                missing.push(string_from(IOS_SIM_TARGET));
            }
            assert(views(missing@) =~= missing_ios_targets(views(list@)));
            if missing.len() == 0 {
                passed(IOS_TARGETS)
            } else {
                let mut hint = string_from(IOS_TARGETS_HINT);
                proof {
                    reveal_strlit(" ");
                    assert(" "@ =~= seq![' ']);
                }
                push_joined(&mut hint, &missing, " ");
                let c = failed(IOS_TARGETS, hint);
                assert(c@ == ios_targets_spec(installed_views(Some(list))));
                c
            }
        },
    }
}

pub const ANDROID_TARGETS: &'static str = "Android Rust target (aarch64-linux-android required)";
pub const ANDROID_TARGET: &'static str = "aarch64-linux-android";
pub const ANDROID_TARGETS_HINT: &'static str = "install via `rustup target add aarch64-linux-android`";

pub open spec fn android_targets_spec(installed: Option<Seq<Seq<char>>>) -> (Seq<char>, Option<Seq<char>>) {
    match installed {
        None => (ANDROID_TARGETS@, Some(RUSTUP_MISSING_HINT@)),
        Some(list) => if has(list, ANDROID_TARGET@) {
            (ANDROID_TARGETS@, None)
        } else {
            (ANDROID_TARGETS@, Some(ANDROID_TARGETS_HINT@))
        },
    }
}

/// The Android target installed.
pub fn android_targets(installed: Option<Vec<String>>) -> (c: Check)
    ensures
        c@ == android_targets_spec(installed_views(installed)),
{
    match installed {
        None => failed_with(ANDROID_TARGETS, RUSTUP_MISSING_HINT),
        Some(list) => if has_target(&list, ANDROID_TARGET) {
            passed(ANDROID_TARGETS)
        } else {
            failed_with(ANDROID_TARGETS, ANDROID_TARGETS_HINT)
        },
    }
}

/// Index `i` starts a whitespace-separated token whose first character is an ASCII digit.
pub open spec fn starts_number_token(s: Seq<char>, i: int) -> bool {
    is_digit(s[i]) && (i == 0 || is_ws(s[i - 1]))
}

/// Where the first whitespace-separated token that begins with a digit starts.
pub open spec fn version_token_start(s: Seq<char>) -> int {
    first_index(0, s.len() as int, |i: int| starts_number_token(s, i))
}

/// The JDK major version in `javac -version` output: the first token that
/// starts with a digit, split at `.`; a leading `1` (JDK 8 and older report
/// `1.8.0_392`) means the second component is the major.
pub open spec fn javac_major(s: Seq<char>) -> Option<u32> {
    let n = s.len() as int;
    let a = version_token_start(s);
    if a >= n {
        None
    } else {
        let e = next_ws(s, a, n);
        let d1 = next_char(s, a, e, '.');
        match parse_u32(s.subrange(a, d1)) {
            None => None,
            Some(first) => if first != 1 {
                Some(first)
            } else if d1 >= e {
                None
            } else {
                parse_u32(s.subrange(d1 + 1, next_char(s, d1 + 1, e, '.')))
            },
        }
    }
}

/// Reads the JDK major version out of `javac -version` output.
pub fn parse_javac_major(s: &str) -> (r: Option<u32>)
    ensures
        r == javac_major(s@),
{
    let v = chars_of(s);
    let n = v.len();
    let mut a: usize = 0;
    while a < n && !(is_ascii_digit(v[a]) && (a == 0 || is_whitespace(v[a - 1])))
        invariant
            a <= n == v.len(),
            forall|j: int| 0 <= j < a ==> !#[trigger] starts_number_token(v@, j),
        decreases n - a,
    {
        a += 1;
    }
    proof {
        lemma_first_index(0, n as int, |i: int| starts_number_token(v@, i), a as int);
    }
    if a >= n {
        return None;
    }
    let e = next_ws_exec(&v, a, n);
    let d1 = next_char_exec(&v, a, e, '.');
    match parse_u32_exec(&v, a, d1) {
        None => None,
        Some(first) => {
            if first != 1 {
                Some(first)
            } else if d1 >= e {
                None
            } else {
                let d2 = next_char_exec(&v, d1 + 1, e, '.');
                parse_u32_exec(&v, d1 + 1, d2)
            }
        },
    }
}

pub const JDK: &'static str = "JDK 17+ (javac)";
pub const JDK_SPAWN_HINT: &'static str = "install Temurin 17+ (`brew install --cask temurin@17`) and set JAVA_HOME";
pub const JDK_EXIT_HEAD: &'static str = "`javac -version` exited ";
pub const JDK_EXIT_TAIL: &'static str = "; reinstall a working JDK 17+";
pub const JDK_OLD_HEAD: &'static str = "found JDK ";
pub const JDK_OLD_TAIL: &'static str = "; gradle Android plugin requires 17+. Install Temurin 17 or newer";
pub const JDK_UNPARSED_HEAD: &'static str = "could not parse `javac -version` output `";
pub const JDK_UNPARSED_TAIL: &'static str = "`; install JDK 17+";

/// The exit code a failed command reports, `-1` when it was killed by a signal.
pub open spec fn code_or_minus_one(code: Option<i32>) -> int {
    match code {
        Some(c) => c as int,
        None => -1,
    }
}

pub open spec fn jdk_spec(run: Option<(bool, Option<i32>, Seq<char>)>) -> (Seq<char>, Option<Seq<char>>) {
    match run {
        None => (JDK@, Some(JDK_SPAWN_HINT@)),
        Some((success, code, output)) => if !success {
            (JDK@, Some(JDK_EXIT_HEAD@ + signed_decimal(code_or_minus_one(code)) + JDK_EXIT_TAIL@))
        } else {
            match javac_major(output) {
                Some(v) => if v >= 17 {
                    (JDK@, None)
                } else {
                    (JDK@, Some(JDK_OLD_HEAD@ + decimal(v as nat) + JDK_OLD_TAIL@))
                },
                None => (JDK@, Some(JDK_UNPARSED_HEAD@ + trim(output) + JDK_UNPARSED_TAIL@)),
            }
        },
    }
}

pub open spec fn run_view(run: Option<ToolRun>) -> Option<(bool, Option<i32>, Seq<char>)> {
    match run {
        None => None,
        Some(r) => Some((r.success, r.code, r.output@)),
    }
}

/// A JDK 17 or newer (`run` is `javac -version`, `None` when it could not start).
pub fn jdk(run: Option<ToolRun>) -> (c: Check)
    ensures
        c@ == jdk_spec(run_view(run)),
{
    match run {
        None => failed_with(JDK, JDK_SPAWN_HINT),
        Some(r) => {
            if !r.success {
                let mut hint = string_from(JDK_EXIT_HEAD);
                let code: i32 = match r.code {
                    Some(c) => c,
                    None => -1,
                };
                push_signed_decimal(&mut hint, code);
                push_str(&mut hint, JDK_EXIT_TAIL);
                return failed(JDK, hint);
            }
            match parse_javac_major(r.output.as_str()) {
                Some(v) => {
                    if v >= 17 {
                        passed(JDK)
                    } else {
                        let mut hint = string_from(JDK_OLD_HEAD);
                        push_decimal(&mut hint, v as u64);
                        push_str(&mut hint, JDK_OLD_TAIL);
                        failed(JDK, hint)
                    }
                },
                None => {
                    let out = chars_of(r.output.as_str());
                    let a = skip_ws_exec(&out, 0, out.len());
                    let b = trim_end_exec(&out, a, out.len());
                    let mut hint = string_from(JDK_UNPARSED_HEAD);
                    push_chars(&mut hint, &out, a, b);
                    push_str(&mut hint, JDK_UNPARSED_TAIL);
                    failed(JDK, hint)
                },
            }
        },
    }
}

pub const ANDROID_NDK: &'static str = "Android NDK";
pub const ANDROID_NDK_BAD_HEAD: &'static str = "ANDROID_NDK_HOME points at `";
pub const ANDROID_NDK_BAD_TAIL: &'static str = "` but the directory does not exist; reinstall NDK or fix env var";
pub const ANDROID_NDK_UNSET_HINT: &'static str = "install via `brew install android-ndk` then export ANDROID_NDK_HOME=/opt/homebrew/share/android-ndk (or install via Android Studio \u{2192} SDK Manager \u{2192} NDK and point at ~/Library/Android/sdk/ndk/<version>)";

pub open spec fn android_ndk_spec(home: Option<Seq<char>>, home_is_dir: bool) -> (Seq<char>, Option<Seq<char>>) {
    match home {
        None => (ANDROID_NDK@, Some(ANDROID_NDK_UNSET_HINT@)),
        Some(p) => if home_is_dir {
            (ANDROID_NDK@, None)
        } else {
            (ANDROID_NDK@, Some(ANDROID_NDK_BAD_HEAD@ + p + ANDROID_NDK_BAD_TAIL@))
        },
    }
}

pub open spec fn opt_view(s: Option<String>) -> Option<Seq<char>> {
    match s {
        None => None,
        Some(x) => Some(x@),
    }
}

/// `ANDROID_NDK_HOME` set (`home`) and naming a directory (`home_is_dir`).
pub fn android_ndk(home: Option<String>, home_is_dir: bool) -> (c: Check)
    ensures
        c@ == android_ndk_spec(opt_view(home), home_is_dir),
{
    match home {
        None => failed_with(ANDROID_NDK, ANDROID_NDK_UNSET_HINT),
        Some(p) => {
            if home_is_dir {
                passed(ANDROID_NDK)
            } else {
                let mut hint = string_from(ANDROID_NDK_BAD_HEAD);
                push_str(&mut hint, p.as_str());
                push_str(&mut hint, ANDROID_NDK_BAD_TAIL);
                failed(ANDROID_NDK, hint)
            }
        },
    }
}

pub const MACHO_TOOLS: &'static str = "Mach-O tools (lipo + install_name_tool)";
pub const LIPO: &'static str = "lipo";
pub const INSTALL_NAME_TOOL: &'static str = "install_name_tool";
pub const MACHO_TOOLS_HEAD: &'static str = "missing: ";
pub const MACHO_TOOLS_TAIL: &'static str = " \u{2014} install Xcode CLT via `xcode-select --install`";

pub open spec fn missing_macho_tools(lipo: bool, install_name_tool: bool) -> Seq<Seq<char>> {
    (if lipo { seq![] } else { seq![LIPO@] }) + (if install_name_tool { seq![] } else { seq![INSTALL_NAME_TOOL@] })
}

pub open spec fn macho_tools_spec(lipo: bool, install_name_tool: bool) -> (Seq<char>, Option<Seq<char>>) {
    let missing = missing_macho_tools(lipo, install_name_tool);
    if missing.len() == 0 {
        (MACHO_TOOLS@, None)
    } else {
        (MACHO_TOOLS@, Some(MACHO_TOOLS_HEAD@ + seq_join(missing, seq![',', ' ']) + MACHO_TOOLS_TAIL@))
    }
}

/// `lipo` and `install_name_tool` found on the path.
pub fn macho_tools(lipo_found: bool, install_name_tool_found: bool) -> (c: Check)
    ensures
        c@ == macho_tools_spec(lipo_found, install_name_tool_found),
{
    let mut missing: Vec<String> = Vec::new();
    if !lipo_found {
        missing.push(string_from(LIPO));
    }
    if !install_name_tool_found {
        missing.push(string_from(INSTALL_NAME_TOOL));
    }
    assert(views(missing@) =~= missing_macho_tools(lipo_found, install_name_tool_found));
    if missing.len() == 0 {
        passed(MACHO_TOOLS)
    } else {
        let mut hint = string_from(MACHO_TOOLS_HEAD);
        proof {
            reveal_strlit(", ");
            assert(", "@ =~= seq![',', ' ']);
        }
        push_joined(&mut hint, &missing, ", ");
        push_str(&mut hint, MACHO_TOOLS_TAIL);
        let c = failed(MACHO_TOOLS, hint);
        assert(c@ == macho_tools_spec(lipo_found, install_name_tool_found));
        c
    }
}

pub const CODESIGN: &'static str = "Codesigning identity + HEKATE_IOS_TEAM_ID";
pub const NO_IDENTITIES: &'static str = "0 valid identities found";
pub const CODESIGN_NO_IDENTITY_HINT: &'static str = "no codesigning identity in keychain; sign in to Apple Developer account in Xcode \u{2192} Settings \u{2192} Accounts";
pub const CODESIGN_NO_TEAM_HINT: &'static str = "HEKATE_IOS_TEAM_ID env var not set; export your 10-character Apple Developer Team ID";

pub open spec fn codesign_identity_spec(identities: Option<Seq<char>>, team_id: Option<Seq<char>>) -> (Seq<char>, Option<Seq<char>>) {
    let identity_ok = match identities {
        Some(listing) => !contains(listing, NO_IDENTITIES@),
        None => false,
    };
    let team_ok = match team_id {
        Some(t) => t.len() > 0,
        None => false,
    };
    if !identity_ok {
        (CODESIGN@, Some(CODESIGN_NO_IDENTITY_HINT@))
    } else if !team_ok {
        (CODESIGN@, Some(CODESIGN_NO_TEAM_HINT@))
    } else {
        (CODESIGN@, None)
    }
}

/// A codesigning identity in the keychain and a team id to sign with.
/// `identities` is what `security find-identity -p codesigning -v` printed when
/// it succeeded; `team_id` is `HEKATE_IOS_TEAM_ID`.
pub fn codesign_identity(identities: Option<String>, team_id: Option<String>) -> (c: Check)
    ensures
        c@ == codesign_identity_spec(opt_view(identities), opt_view(team_id)),
{
    proof {
        reveal_strlit("0 valid identities found");
    }
    let identity_ok = match &identities {
        Some(listing) => !contains_exec(listing.as_str(), NO_IDENTITIES),
        None => false,
    };
    let team_ok = match &team_id {
        Some(t) => t.unicode_len() > 0,
        None => false,
    };
    if !identity_ok {
        failed_with(CODESIGN, CODESIGN_NO_IDENTITY_HINT)
    } else if !team_ok {
        failed_with(CODESIGN, CODESIGN_NO_TEAM_HINT)
    } else {
        passed(CODESIGN)
    }
}

pub open spec fn check_views(checks: Seq<Check>) -> Seq<(Seq<char>, Option<Seq<char>>)> {
    checks.map_values(|c: Check| c@)
}

/// The lines printed for one check.
pub open spec fn check_lines(c: (Seq<char>, Option<Seq<char>>)) -> Seq<Seq<char>> {
    match c.1 {
        None => seq!["[ok]   "@ + c.0],
        Some(hint) => seq!["[fail] "@ + c.0, "       hint: "@ + hint],
    }
}

/// The lines printed for a list of checks, in order.
pub open spec fn checks_lines(checks: Seq<(Seq<char>, Option<Seq<char>>)>) -> Seq<Seq<char>>
    decreases checks.len(),
{
    if checks.len() == 0 {
        seq![]
    } else {
        checks_lines(checks.drop_last()) + check_lines(checks.last())
    }
}

/// The report for one platform: a heading, then each check.
pub open spec fn report_lines(label: Seq<char>, checks: Seq<(Seq<char>, Option<Seq<char>>)>) -> Seq<Seq<char>> {
    seq!["=== "@ + label + " ==="@] + checks_lines(checks)
}

/// Every check passed.
pub open spec fn all_passed(checks: Seq<(Seq<char>, Option<Seq<char>>)>) -> bool {
    forall|i: int| 0 <= i < checks.len() ==> (#[trigger] checks[i]).1 is None
}

pub open spec fn string_views(lines: Seq<String>) -> Seq<Seq<char>> {
    lines.map_values(|s: String| s@)
}

fn concat_str(a: &str, b: &str) -> (s: String)
    ensures
        s@ == a@ + b@,
{
    let mut s = string_from(a);
    push_str(&mut s, b);
    s
}

/// Appends the report for `checks` under `label` to `lines`; returns whether
/// every check passed.
pub fn report(label: &str, checks: &Vec<Check>, lines: &mut Vec<String>) -> (ok: bool)
    ensures
        string_views(final(lines)@) == string_views(old(lines)@) + report_lines(label@, check_views(checks@)),
        ok == all_passed(check_views(checks@)),
{
    let ghost start = string_views(lines@);
    let mut head = concat_str("=== ", label);
    push_str(&mut head, " ===");
    lines.push(head);
    let mut fails: usize = 0;
    let mut i: usize = 0;
    assert(check_views(checks@.take(0)) =~= Seq::<(Seq<char>, Option<Seq<char>>)>::empty());
    assert(string_views(lines@) =~= start + seq!["=== "@ + label@ + " ==="@]);
    while i < checks.len()
        invariant
            i <= checks.len(),
            fails <= i,
            string_views(lines@) == start + seq!["=== "@ + label@ + " ==="@] + checks_lines(check_views(checks@.take(i as int))),
            (fails == 0) == all_passed(check_views(checks@.take(i as int))),
        decreases checks.len() - i,
    {
        let ghost before = string_views(lines@);
        let c = &checks[i];
        match &c.status {
            Status::Passed => {
                lines.push(concat_str("[ok]   ", c.name.as_str()));
            },
            Status::Failed(hint) => {
                lines.push(concat_str("[fail] ", c.name.as_str()));
                lines.push(concat_str("       hint: ", hint.as_str()));
                fails += 1;
            },
        }
        proof {
            let cv = check_views(checks@.take(i + 1));
            assert(cv.drop_last() =~= check_views(checks@.take(i as int)));
            assert(cv.last() == checks@[i as int]@);
            assert(string_views(lines@) =~= before + check_lines(checks@[i as int]@));
            assert(checks_lines(cv) == checks_lines(cv.drop_last()) + check_lines(cv.last()));
            if fails == 0 {
                assert forall|j: int| 0 <= j < cv.len() implies (#[trigger] cv[j]).1 is None by {
                    if j < i {
                        assert(cv[j] == check_views(checks@.take(i as int))[j]);
                    }
                }
            } else {
                if all_passed(check_views(checks@.take(i as int))) {
                    assert(cv[i as int].1 is Some);
                } else {
                    let j = choose|j: int| 0 <= j < i && !(check_views(checks@.take(i as int))[j].1 is None);
                    assert(cv[j] == check_views(checks@.take(i as int))[j]);
                }
            }
        }
        i += 1;
    }
    assert(checks@.take(checks.len() as int) =~= checks@);
    fails == 0
}

pub const ALL_READY: &'static str = "All prereqs present for iOS and Android.";
pub const IOS_READY: &'static str = "iOS ready. Android missing prereqs (see above).";
pub const ANDROID_READY: &'static str = "Android ready. iOS missing prereqs (see above).";
pub const NONE_READY: &'static str = "Neither platform is ready (see above).";

/// The closing line of an unscoped doctor run.
pub open spec fn readiness_line(ios_ok: bool, android_ok: bool) -> Seq<char> {
    if ios_ok && android_ok {
        ALL_READY@
    } else if ios_ok {
        IOS_READY@
    } else if android_ok {
        ANDROID_READY@
    } else {
        NONE_READY@
    }
}

/// What a doctor run prints, and whether it succeeds.
pub open spec fn doctor_spec(
    filter: Option<Platform>,
    ios: Seq<(Seq<char>, Option<Seq<char>>)>,
    android: Seq<(Seq<char>, Option<Seq<char>>)>,
) -> (Seq<Seq<char>>, bool) {
    match filter {
        Some(Platform::Ios) => (report_lines("iOS"@, ios), all_passed(ios)),
        Some(Platform::Android) => (report_lines("Android"@, android), all_passed(android)),
        None => (
            report_lines("iOS"@, ios) + seq![Seq::<char>::empty()] + report_lines("Android"@, android)
                + seq![Seq::<char>::empty(), readiness_line(all_passed(ios), all_passed(android))],
            all_passed(ios) && all_passed(android),
        ),
    }
}

/// The lines of a doctor run over the iOS and Android checks, scoped to
/// `filter` when given, and whether the run succeeds (every reported check passed).
pub fn doctor_report(filter: Option<Platform>, ios: &Vec<Check>, android: &Vec<Check>) -> (r: (Vec<String>, bool))
    ensures
        (string_views(r.0@), r.1) == doctor_spec(filter, check_views(ios@), check_views(android@)),
{
    let mut lines: Vec<String> = Vec::new();
    assert(string_views(lines@) =~= Seq::<Seq<char>>::empty());
    match filter {
        Some(Platform::Ios) => {
            let ok = report("iOS", ios, &mut lines);
            assert(string_views(lines@) =~= report_lines("iOS"@, check_views(ios@)));
            (lines, ok)
        },
        Some(Platform::Android) => {
            let ok = report("Android", android, &mut lines);
            assert(string_views(lines@) =~= report_lines("Android"@, check_views(android@)));
            (lines, ok)
        },
        None => {
            let ios_ok = report("iOS", ios, &mut lines);
            let ghost a = string_views(lines@);
            lines.push(String::new());
            assert(string_views(lines@) =~= a + seq![Seq::<char>::empty()]);
            let ghost b = string_views(lines@);
            let android_ok = report("Android", android, &mut lines);
            let ghost c = string_views(lines@);
            lines.push(String::new());
            assert(string_views(lines@) =~= c + seq![Seq::<char>::empty()]);
            let ghost d = string_views(lines@);
            let last = if ios_ok && android_ok {
                ALL_READY
            } else if ios_ok {
                IOS_READY
            } else if android_ok {
                ANDROID_READY
            } else {
                NONE_READY
            };
            lines.push(string_from(last));
            assert(string_views(lines@) =~= d + seq![readiness_line(ios_ok, android_ok)]);
            assert(string_views(lines@) =~= doctor_spec(filter, check_views(ios@), check_views(android@)).0);
            (lines, ios_ok && android_ok)
        },
    }
}

/// How many checks failed.
pub open spec fn failed_count(checks: Seq<(Seq<char>, Option<Seq<char>>)>) -> nat
    decreases checks.len(),
{
    if checks.len() == 0 {
        0
    } else {
        failed_count(checks.drop_last()) + if checks.last().1 is Some { 1nat } else { 0nat }
    }
}

/// A report prints one line per check plus exactly one hint line per failed
/// check, after its heading.
pub proof fn lemma_one_hint_per_failure(label: Seq<char>, checks: Seq<(Seq<char>, Option<Seq<char>>)>)
    ensures
        report_lines(label, checks).len() == 1 + checks.len() + failed_count(checks),
{
    lemma_checks_lines_len(checks);
}

proof fn lemma_checks_lines_len(checks: Seq<(Seq<char>, Option<Seq<char>>)>)
    ensures
        checks_lines(checks).len() == checks.len() + failed_count(checks),
    decreases checks.len(),
{
    if checks.len() > 0 {
        lemma_checks_lines_len(checks.drop_last());
    }
}

/// A run fails exactly when some reported check failed.
pub proof fn lemma_doctor_fails_iff_a_check_fails(
    filter: Option<Platform>,
    ios: Seq<(Seq<char>, Option<Seq<char>>)>,
    android: Seq<(Seq<char>, Option<Seq<char>>)>,
)
    ensures
        !doctor_spec(filter, ios, android).1 <==> (
            (filter != Some(Platform::Android) && exists|i: int| 0 <= i < ios.len() && (#[trigger] ios[i]).1 is Some)
            || (filter != Some(Platform::Ios) && exists|i: int| 0 <= i < android.len() && (#[trigger] android[i]).1 is Some)),
{
}

/// The lines of `s` from index `i` on (split at `\n`), each trimmed, with the
/// empty ones left out: how `rustup target list --installed` output is read.
pub open spec fn trimmed_lines_from(s: Seq<char>, i: int) -> Seq<Seq<char>>
    decreases s.len() + 1 - i,
{
    if i < 0 || i > s.len() {
        seq![]
    } else {
        let e = next_char(s, i, s.len() as int, '\n');
        proof {
            lemma_first_index_facts(i, s.len() as int, |k: int| char_at(s, k, '\n'));
        }
        let line = trim(s.subrange(i, e));
        if line.len() == 0 {
            trimmed_lines_from(s, e + 1)
        } else {
            seq![line] + trimmed_lines_from(s, e + 1)
        }
    }
}

/// The installed targets listed by `rustup target list --installed`.
pub fn installed_targets(listing: &str) -> (r: Vec<String>)
    ensures
        views(r@) == trimmed_lines_from(listing@, 0),
{
    let v = chars_of(listing);
    let mut out: Vec<String> = Vec::new();
    let mut i: usize = 0;
    assert(views(out@) =~= Seq::<Seq<char>>::empty());
    loop
        invariant_except_break
            v@ == listing@,
            i <= v.len(),
            views(out@) + trimmed_lines_from(v@, i as int) == trimmed_lines_from(v@, 0),
        ensures
            views(out@) == trimmed_lines_from(v@, 0),
        decreases v.len() - i,
    {
        let e = next_char_exec(&v, i, v.len(), '\n');
        let (a, b) = trim_bounds(&v, i, e);
        let ghost before = views(out@);
        if a < b {
            let mut line = String::new();
            push_chars(&mut line, &v, a, b);
            out.push(line);
            assert(views(out@) =~= before + seq![v@.subrange(a as int, b as int)]);
        }
        assert(trimmed_lines_from(v@, i as int) == (if v@.subrange(a as int, b as int).len() == 0 {
            trimmed_lines_from(v@, e + 1)
        } else {
            seq![v@.subrange(a as int, b as int)] + trimmed_lines_from(v@, e + 1)
        }));
        assert(views(out@) + trimmed_lines_from(v@, e + 1) =~= before + trimmed_lines_from(v@, i as int));
        if e == v.len() {
            assert(views(out@) + trimmed_lines_from(v@, e + 1) =~= views(out@));
            break;
        }
        i = e + 1;
    }
    out
}


/// The Android target check passes exactly when `aarch64-linux-android` is in
/// the installed list, at whatever position; otherwise it says how to add it.
pub proof fn lemma_android_target_found_anywhere(list: Seq<Seq<char>>)
    ensures
        android_targets_spec(Some(list)).1 is None <==> exists|i: int| 0 <= i < list.len() && list[i] == "aarch64-linux-android"@,
        android_targets_spec(Some(list)).1 is Some ==> android_targets_spec(Some(list)).1 == Some(ANDROID_TARGETS_HINT@),
{
    if exists|i: int| 0 <= i < list.len() && list[i] == "aarch64-linux-android"@ {
        let i = choose|i: int| 0 <= i < list.len() && list[i] == "aarch64-linux-android"@;
        assert(list.contains(ANDROID_TARGET@));
    }
}

/// With a team id set, the codesigning check passes exactly when the
/// `security find-identity` listing nowhere says "0 valid identities found";
/// a listing that reports any other number of identities passes.
pub proof fn lemma_codesign_passes_unless_zero_identities(listing: Seq<char>, team: Seq<char>)
    requires
        team.len() > 0,
    ensures
        codesign_identity_spec(Some(listing), Some(team)).1 is None <==> !exists|i: int|
            0 <= i && i + 24 <= listing.len() && #[trigger] listing.subrange(i, i + 24) == "0 valid identities found"@,
{
    reveal_strlit("0 valid identities found");
    if exists|i: int| 0 <= i && i + 24 <= listing.len() && #[trigger] listing.subrange(i, i + 24) == "0 valid identities found"@ {
        let i = choose|i: int| 0 <= i && i + 24 <= listing.len() && #[trigger] listing.subrange(i, i + 24) == "0 valid identities found"@;
        assert(matches_at(listing, NO_IDENTITIES@, i));
    }
    if contains(listing, NO_IDENTITIES@) {
        let i = choose|i: int| #[trigger] matches_at(listing, NO_IDENTITIES@, i);
        assert(listing.subrange(i, i + 24) == "0 valid identities found"@);
    }
}

} // verus!
