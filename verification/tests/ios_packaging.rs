use hekate_mobile::ios::{
    info_plist, install_id, pascalize, read_prover_load_path, relink_prover_ref_args,
    rewrite_modulemap_as_framework, sanitize_bundle_version, set_install_id_args, signing_identity, slice_platform,
};

#[test]
fn pascalize_names() {
    assert_eq!(pascalize("my-prover"), "MyProver");
    assert_eq!(pascalize("my_prover_test"), "MyProverTest");
    assert_eq!(pascalize("--a__b-"), "AB");
    assert_eq!(pascalize("MyPROVER"), "Myprover");
    assert_eq!(pascalize(""), "");
    assert_eq!(pascalize("ünï-code"), "ünïCode");
}

#[test]
fn pascalized_names_have_no_separators() {
    for name in ["a-b_c", "__", "x-y-z", "hekate_mobile-sdk"] {
        let p = pascalize(name);
        assert!(!p.contains('-') && !p.contains('_'), "{p}");
    }
}

#[test]
fn platforms_of_slices() {
    assert_eq!(slice_platform("aarch64-apple-ios-sim"), "iPhoneSimulator");
    assert_eq!(slice_platform("x86_64-apple-ios"), "iPhoneSimulator");
    assert_eq!(slice_platform("aarch64-apple-ios"), "iPhoneOS");
    assert_eq!(slice_platform("anything"), "iPhoneOS");
}

#[test]
fn bundle_versions() {
    assert_eq!(sanitize_bundle_version("0.38.1"), "0.38.1");
    assert_eq!(sanitize_bundle_version("=0.38.1"), "0.38.1");
    assert_eq!(sanitize_bundle_version("1.2.3-beta.4"), "1.2.3");
    assert_eq!(sanitize_bundle_version("1.2.3+build.7"), "1.2.3");
    assert_eq!(sanitize_bundle_version("v2.x.1"), "2..1");
    assert_eq!(sanitize_bundle_version("..."), "0");
    assert_eq!(sanitize_bundle_version(""), "0");
    assert_eq!(sanitize_bundle_version("-1.0"), "0");
    assert_eq!(sanitize_bundle_version("abc"), "0");
}

fn expected_plist(name: &str, platform: &str, version: &str) -> String {
    let bundle_version = sanitize_bundle_version(version);
    format!(
        r#"<?xml version="1.0" encoding="UTF-8"?>
<!DOCTYPE plist PUBLIC "-//Apple//DTD PLIST 1.0//EN" "http://www.apple.com/DTDs/PropertyList-1.0.dtd">
<plist version="1.0">
<dict>
    <key>CFBundleExecutable</key>
    <string>{name}</string>
    <key>CFBundleIdentifier</key>
    <string>dev.oumuamua.hekate.{lower}</string>
    <key>CFBundleName</key>
    <string>{name}</string>
    <key>CFBundlePackageType</key>
    <string>FMWK</string>
    <key>CFBundleVersion</key>
    <string>{bundle_version}</string>
    <key>CFBundleShortVersionString</key>
    <string>{bundle_version}</string>
    <key>MinimumOSVersion</key>
    <string>16.0</string>
    <key>CFBundleSupportedPlatforms</key>
    <array>
        <string>{platform}</string>
    </array>
</dict>
</plist>
"#,
        lower = name.to_ascii_lowercase()
    )
}

#[test]
fn info_plist_text() {
    assert_eq!(
        info_plist("MyProver", "iPhoneOS", "0.1.0"),
        expected_plist("MyProver", "iPhoneOS", "0.1.0")
    );
    assert_eq!(
        info_plist("HekateProverCdylib", "iPhoneSimulator", "=0.38.1-rc1"),
        expected_plist("HekateProverCdylib", "iPhoneSimulator", "=0.38.1-rc1")
    );
    let p = info_plist("MyProver", "iPhoneOS", "2.0.0");
    assert!(p.contains("<string>dev.oumuamua.hekate.myprover</string>"));
}

#[test]
fn modulemap_rewrites() {
    let plain = "module my_proverFFI {\n    header \"my_proverFFI.h\"\n    export *\n}\n";
    let fw = rewrite_modulemap_as_framework(plain).unwrap();
    assert_eq!(fw, "framework module my_proverFFI {\n    header \"my_proverFFI.h\"\n    export *\n}\n");
    assert_eq!(rewrite_modulemap_as_framework(&fw).unwrap(), fw);

    let indented = "\n  module X { }";
    assert_eq!(rewrite_modulemap_as_framework(indented).unwrap(), "framework module X { }");

    let already = "  framework module Y {}";
    assert_eq!(rewrite_modulemap_as_framework(already).unwrap(), already);
}

#[test]
fn modulemap_refusals() {
    let err = rewrite_modulemap_as_framework("  explicit module Z {}").unwrap_err();
    assert_eq!(
        err,
        "uniffi modulemap format unrecognized; expected leading `module ` or `framework module `, got `explicit module Z {}`. Verify the pinned uniffi crate version and update rewrite_modulemap_as_framework in template/xtask/src/ios_build.rs."
    );
    let long = "x".repeat(100);
    let err = rewrite_modulemap_as_framework(&long).unwrap_err();
    assert!(err.contains(&format!("got `{}`.", "x".repeat(64))));
    assert!(!err.contains(&"x".repeat(65)));
    assert!(rewrite_modulemap_as_framework("").is_err());
    assert!(rewrite_modulemap_as_framework("module").is_err());
}

#[test]
fn install_names_and_args() {
    assert_eq!(install_id("MyProver"), "@rpath/MyProver.framework/MyProver");
    assert_eq!(
        set_install_id_args("MyProver", "/fw/MyProver.framework/MyProver"),
        vec!["-id", "@rpath/MyProver.framework/MyProver", "/fw/MyProver.framework/MyProver"]
    );
    assert_eq!(
        relink_prover_ref_args("/fw/Dev.framework/Dev", "/build/libhekate_prover_cdylib.dylib"),
        vec![
            "-change",
            "/build/libhekate_prover_cdylib.dylib",
            "@rpath/HekateProverCdylib.framework/HekateProverCdylib",
            "/fw/Dev.framework/Dev",
        ]
    );
}

#[test]
fn otool_output_parsing() {
    let out = "/t/libmy_prover.dylib:\n\t/t/libmy_prover.dylib (compatibility version 0.0.0, current version 0.0.0)\n\t/Users/dev/target/out/libhekate_prover_cdylib.dylib (compatibility version 0.0.0, current version 0.0.0)\n\t/usr/lib/libSystem.B.dylib (compatibility version 1.0.0)\n";
    assert_eq!(
        read_prover_load_path(out, "/t/libmy_prover.dylib").unwrap(),
        "/Users/dev/target/out/libhekate_prover_cdylib.dylib"
    );
    let first_line = "libhekate_prover_cdylib.dylib (x)\r\nother";
    assert_eq!(read_prover_load_path(first_line, "d").unwrap(), "libhekate_prover_cdylib.dylib");
    assert_eq!(
        read_prover_load_path("a\nb\n", "/t/lib.dylib").unwrap_err(),
        "libhekate_prover_cdylib not referenced in /t/lib.dylib"
    );
}

#[test]
fn signing_decisions() {
    let missing = "HEKATE_IOS_TEAM_ID not set; pass --unsigned for unsigned dev builds".to_string();
    assert_eq!(signing_identity(true, None), Ok(None));
    assert_eq!(signing_identity(true, Some("T".into())), Ok(None));
    assert_eq!(signing_identity(false, Some("ABCDE12345".into())), Ok(Some("ABCDE12345".to_string())));
    assert_eq!(signing_identity(false, Some(String::new())), Err(missing.clone()));
    assert_eq!(signing_identity(false, None), Err(missing));
}
