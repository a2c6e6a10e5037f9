use hekate_mobile::manifest::{
    parse_prover_version, read_android_build_info, read_ios_build_info, underscored, TomlValue,
};

fn s(x: &str) -> TomlValue {
    TomlValue::Str(x.to_string())
}

fn table(entries: Vec<(&str, TomlValue)>) -> TomlValue {
    TomlValue::Table(entries.into_iter().map(|(k, v)| (k.to_string(), v)).collect())
}

fn manifest(dep: TomlValue) -> TomlValue {
    table(vec![
        ("package", table(vec![("name", s("my-prover")), ("version", s("0.1.0"))])),
        ("dependencies", table(vec![("uniffi", s("0.31.1")), ("hekate-prover-sys", dep)])),
    ])
}

#[test]
fn android_info_defaults_lib_name() {
    let (pkg, lib) = read_android_build_info(&manifest(s("0.38")), "/w/Cargo.toml").unwrap();
    assert_eq!(pkg, "my-prover");
    assert_eq!(lib, "my_prover");
}

#[test]
fn android_info_uses_lib_table() {
    let m = table(vec![
        ("package", table(vec![("name", s("my-prover"))])),
        ("lib", table(vec![("name", s("custom_lib"))])),
    ]);
    let (_, lib) = read_android_build_info(&m, "p").unwrap();
    assert_eq!(lib, "custom_lib");
}

#[test]
fn android_info_errors() {
    assert_eq!(
        read_android_build_info(&table(vec![]), "/w/Cargo.toml").unwrap_err(),
        "no [package] table in /w/Cargo.toml"
    );
    let m = table(vec![("package", table(vec![("name", TomlValue::Other)]))]);
    assert_eq!(read_android_build_info(&m, "p").unwrap_err(), "no [package].name in workspace Cargo.toml");
    let m = table(vec![("package", s("oops"))]);
    assert_eq!(read_android_build_info(&m, "p").unwrap_err(), "no [package].name in workspace Cargo.toml");
}

#[test]
fn prover_versions() {
    assert_eq!(parse_prover_version(&manifest(s("=0.38.1"))).unwrap(), "0.38.1");
    assert_eq!(parse_prover_version(&manifest(s("== 0.38.1 "))).unwrap(), "0.38.1");
    assert_eq!(
        parse_prover_version(&manifest(table(vec![("version", s("=0.38.1")), ("features", TomlValue::Other)])))
            .unwrap(),
        "0.38.1"
    );
    assert_eq!(
        parse_prover_version(&manifest(table(vec![("features", TomlValue::Other)]))).unwrap_err(),
        "[dependencies.hekate-prover-sys].version missing"
    );
    assert_eq!(
        parse_prover_version(&manifest(TomlValue::Other)).unwrap_err(),
        "[dependencies].hekate-prover-sys has unexpected shape"
    );
    assert_eq!(
        parse_prover_version(&table(vec![("dependencies", table(vec![]))])).unwrap_err(),
        "[dependencies].hekate-prover-sys missing"
    );
    assert_eq!(parse_prover_version(&table(vec![])).unwrap_err(), "[dependencies].hekate-prover-sys missing");
}

#[test]
fn ios_info_in_full() {
    let info = read_ios_build_info(&manifest(s("=0.38.1")), "/w/Cargo.toml").unwrap();
    assert_eq!(info.pkg_name, "my-prover");
    assert_eq!(info.lib_name, "my_prover");
    assert_eq!(info.framework_name, "MyProver");
    assert_eq!(info.dev_version, "0.1.0");
    assert_eq!(info.prover_version, "0.38.1");
}

#[test]
fn ios_info_errors_in_order() {
    let m = table(vec![("package", table(vec![("name", s("a"))]))]);
    assert_eq!(
        read_ios_build_info(&m, "p").err().unwrap(),
        "no [package].version in workspace Cargo.toml"
    );
    let m = table(vec![("package", table(vec![("name", s("a")), ("version", s("1"))]))]);
    assert_eq!(read_ios_build_info(&m, "p").err().unwrap(), "[dependencies].hekate-prover-sys missing");
    assert_eq!(read_ios_build_info(&table(vec![]), "p").err().unwrap(), "no [package] table in p");
}

#[test]
fn underscores() {
    assert_eq!(underscored("a-b-c"), "a_b_c");
    assert_eq!(underscored("plain"), "plain");
}
