use hekate_mobile::doctor::{
    android_ndk, android_targets, cargo_ndk, codesign_identity, doctor_report, installed_targets,
    ios_targets, jdk,    macho_tools, xcode_clt, Check, Platform, Status, ToolRun,
};

fn hint(c: &Check) -> Option<&str> {
    match &c.status {
        Status::Passed => None,
        Status::Failed(h) => Some(h.as_str()),
    }
}

fn run(success: bool, code: Option<i32>, output: &str) -> Option<ToolRun> {
    Some(ToolRun { success, code, output: output.to_string() })
}

fn targets(list: &[&str]) -> Option<Vec<String>> {
    Some(list.iter().map(|s| s.to_string()).collect())
}

#[test]
fn ios_targets_all_present() {
    let c = ios_targets(targets(&["x86_64-unknown-linux-gnu", "aarch64-apple-ios-sim", "aarch64-apple-ios"]));
    assert_eq!(c.name, "iOS Rust targets (aarch64-apple-ios + sim)");
    assert_eq!(hint(&c), None);
}

#[test]
fn ios_targets_lists_missing_in_order() {
    let c = ios_targets(targets(&[]));
    assert_eq!(hint(&c), Some("install: rustup target add aarch64-apple-ios aarch64-apple-ios-sim"));
    let c = ios_targets(targets(&["aarch64-apple-ios"]));
    assert_eq!(hint(&c), Some("install: rustup target add aarch64-apple-ios-sim"));
    let c = ios_targets(targets(&["aarch64-apple-ios-sim"]));
    assert_eq!(hint(&c), Some("install: rustup target add aarch64-apple-ios"));
}

#[test]
fn targets_without_rustup() {
    let c = ios_targets(None);
    assert_eq!(hint(&c), Some("`rustup` not on PATH; install from https://rustup.rs"));
    let c = android_targets(None);
    assert_eq!(c.name, "Android Rust target (aarch64-linux-android required)");
    assert_eq!(hint(&c), Some("`rustup` not on PATH; install from https://rustup.rs"));
}

#[test]
fn android_target_present_or_not() {
    assert_eq!(hint(&android_targets(targets(&["aarch64-linux-android"]))), None);
    assert_eq!(
        hint(&android_targets(targets(&["aarch64-linux-androideabi"]))),
        Some("install via `rustup target add aarch64-linux-android`")
    );
}

#[test]
fn jdk_outcomes() {
    assert_eq!(
        hint(&jdk(None)),
        Some("install Temurin 17+ (`brew install --cask temurin@17`) and set JAVA_HOME")
    );
    assert_eq!(
        hint(&jdk(run(false, Some(2), ""))),
        Some("`javac -version` exited 2; reinstall a working JDK 17+")
    );
    assert_eq!(
        hint(&jdk(run(false, None, ""))),
        Some("`javac -version` exited -1; reinstall a working JDK 17+")
    );
    assert_eq!(hint(&jdk(run(true, Some(0), "javac 17.0.5\n"))), None);
    assert_eq!(hint(&jdk(run(true, Some(0), "javac 21"))), None);
    assert_eq!(
        hint(&jdk(run(true, Some(0), "javac 1.8.0_392"))),
        Some("found JDK 8; gradle Android plugin requires 17+. Install Temurin 17 or newer")
    );
    assert_eq!(
        hint(&jdk(run(true, Some(0), "  garbage output \n"))),
        Some("could not parse `javac -version` output `garbage output`; install JDK 17+")
    );
    assert_eq!(jdk(None).name, "JDK 17+ (javac)");
}

#[test]
fn simple_tool_checks() {
    assert_eq!(hint(&xcode_clt(true)), None);
    assert_eq!(
        hint(&xcode_clt(false)),
        Some("install via `xcode-select --install` (or full Xcode from the App Store)")
    );
    assert_eq!(xcode_clt(true).name, "Xcode Command Line Tools");
    assert_eq!(hint(&cargo_ndk(true)), None);
    assert_eq!(hint(&cargo_ndk(false)), Some("install via `cargo install cargo-ndk`"));
    assert_eq!(cargo_ndk(false).name, "cargo-ndk");
}

#[test]
fn android_ndk_outcomes() {
    assert_eq!(hint(&android_ndk(Some("/ndk".to_string()), true)), None);
    assert_eq!(
        hint(&android_ndk(Some("/ndk".to_string()), false)),
        Some("ANDROID_NDK_HOME points at `/ndk` but the directory does not exist; reinstall NDK or fix env var")
    );
    assert_eq!(
        hint(&android_ndk(None, false)),
        Some("install via `brew install android-ndk` then export ANDROID_NDK_HOME=/opt/homebrew/share/android-ndk (or install via Android Studio → SDK Manager → NDK and point at ~/Library/Android/sdk/ndk/<version>)")
    );
}

#[test]
fn macho_tool_outcomes() {
    assert_eq!(hint(&macho_tools(true, true)), None);
    assert_eq!(
        hint(&macho_tools(false, false)),
        Some("missing: lipo, install_name_tool — install Xcode CLT via `xcode-select --install`")
    );
    assert_eq!(
        hint(&macho_tools(true, false)),
        Some("missing: install_name_tool — install Xcode CLT via `xcode-select --install`")
    );
    assert_eq!(macho_tools(true, true).name, "Mach-O tools (lipo + install_name_tool)");
}

#[test]
fn codesign_outcomes() {
    let listing = "  1) ABCDEF \"Apple Development: Dev\"\n     1 valid identities found\n".to_string();
    let none = "     0 valid identities found\n".to_string();
    assert_eq!(hint(&codesign_identity(Some(listing.clone()), Some("TEAM123456".to_string()))), None);
    assert_eq!(
        hint(&codesign_identity(Some(listing.clone()), Some(String::new()))),
        Some("HEKATE_IOS_TEAM_ID env var not set; export your 10-character Apple Developer Team ID")
    );
    assert_eq!(
        hint(&codesign_identity(Some(listing), None)),
        Some("HEKATE_IOS_TEAM_ID env var not set; export your 10-character Apple Developer Team ID")
    );
    let no_identity = "no codesigning identity in keychain; sign in to Apple Developer account in Xcode → Settings → Accounts";
    assert_eq!(hint(&codesign_identity(Some(none), Some("T".to_string()))), Some(no_identity));
    assert_eq!(hint(&codesign_identity(None, Some("T".to_string()))), Some(no_identity));
}

fn all_ok_ios() -> Vec<Check> {
    vec![xcode_clt(true), macho_tools(true, true)]
}

#[test]
fn doctor_report_scoped_and_unscoped() {
    let ios = all_ok_ios();
    let android = vec![cargo_ndk(false), android_ndk(Some("/x".into()), true)];

    let (lines, ok) = doctor_report(Some(Platform::Ios), &ios, &android);
    assert!(ok);
    assert_eq!(
        lines,
        vec![
            "=== iOS ===",
            "[ok]   Xcode Command Line Tools",
            "[ok]   Mach-O tools (lipo + install_name_tool)",
        ]
    );

    let (lines, ok) = doctor_report(Some(Platform::Android), &ios, &android);
    assert!(!ok);
    assert_eq!(
        lines,
        vec![
            "=== Android ===",
            "[fail] cargo-ndk",
            "       hint: install via `cargo install cargo-ndk`",
            "[ok]   Android NDK",
        ]
    );

    let (lines, ok) = doctor_report(None, &ios, &android);
    assert!(!ok);
    assert_eq!(lines.len(), 3 + 1 + 4 + 2);
    assert_eq!(lines[3], "");
    assert_eq!(lines[8], "");
    assert_eq!(lines[9], "iOS ready. Android missing prereqs (see above).");
}

#[test]
fn doctor_summary_lines() {
    let good = all_ok_ios();
    let bad = vec![xcode_clt(false)];
    let last = |ios: &Vec<Check>, android: &Vec<Check>| doctor_report(None, ios, android).0.last().unwrap().clone();
    assert_eq!(last(&good, &good), "All prereqs present for iOS and Android.");
    assert_eq!(last(&bad, &good), "Android ready. iOS missing prereqs (see above).");
    assert_eq!(last(&bad, &bad), "Neither platform is ready (see above).");
    assert!(doctor_report(None, &good, &good).1);
    assert!(doctor_report(None, &vec![], &vec![]).1);
}

#[test]
fn every_failed_check_has_one_hint_line() {
    let checks = vec![xcode_clt(false), cargo_ndk(true), macho_tools(false, true), jdk(None)];
    let (lines, ok) = doctor_report(Some(Platform::Ios), &checks, &vec![]);
    assert!(!ok);
    let hints = lines.iter().filter(|l| l.starts_with("       hint: ")).count();
    assert_eq!(hints, 3);
    assert_eq!(lines.len(), 1 + checks.len() + 3);
}

#[test]
fn rustup_listing_is_read_line_by_line() {
    assert_eq!(
        installed_targets("aarch64-apple-ios\n  aarch64-apple-ios-sim \r\n\n\tx86_64-unknown-linux-gnu\n"),
        vec!["aarch64-apple-ios", "aarch64-apple-ios-sim", "x86_64-unknown-linux-gnu"]
    );
    assert_eq!(installed_targets(""), Vec::<String>::new());
    assert_eq!(installed_targets("\n \n"), Vec::<String>::new());
    assert_eq!(installed_targets("one"), vec!["one"]);
    let c = ios_targets(Some(installed_targets("aarch64-apple-ios\naarch64-apple-ios-sim\n")));
    assert_eq!(hint(&c), None);
}
