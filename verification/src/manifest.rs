//! Reading the build facts (package, library and prover versions) out of the
//! workspace `Cargo.toml`.

use vstd::prelude::*;
use crate::ios::{pascal_case, pascalize};
use crate::text::{
    chars_of, first_index, lemma_first_index, push_char, push_chars, push_str, string_from, trim,
    trim_bounds,
};

verus! {

/// A parsed TOML value, as far as the manifest reader looks into it.
pub enum TomlValue {
    Str(String),
    Table(Vec<(String, TomlValue)>),
    /// Numbers, booleans, dates and arrays.
    Other,
}

pub open spec fn key_at(entries: Seq<(String, TomlValue)>, k: int, key: Seq<char>) -> bool {
    entries[k].0@ == key
}

/// The entry for `key` in a table (`None` for a missing key or a value that is no table).
pub open spec fn get(v: TomlValue, key: Seq<char>) -> Option<TomlValue> {
    match v {
        TomlValue::Table(entries) => {
            let i = first_index(0, entries@.len() as int, |k: int| key_at(entries@, k, key));
            if i < entries@.len() {
                Some(entries@[i].1)
            } else {
                None
            }
        },
        _ => None,
    }
}

pub open spec fn get_in(v: Option<TomlValue>, key: Seq<char>) -> Option<TomlValue> {
    match v {
        Some(t) => get(t, key),
        None => None,
    }
}

/// The text of a string value.
pub open spec fn as_str(v: Option<TomlValue>) -> Option<Seq<char>> {
    match v {
        Some(TomlValue::Str(s)) => Some(s@),
        _ => None,
    }
}

/// Looks `key` up in `v`.
pub fn lookup<'a>(v: &'a TomlValue, key: &str) -> (r: Option<&'a TomlValue>)
    ensures
        r matches Some(x) ==> get(*v, key@) == Some(*x),
        r is None ==> get(*v, key@) is None,
{
    match v {
        TomlValue::Table(entries) => {
            let want = string_from(key);
            let mut i: usize = 0;
            while i < entries.len()
                invariant
                    i <= entries.len(),
                    want@ == key@,
                    *v == TomlValue::Table(*entries),
                    forall|j: int| 0 <= j < i ==> (#[trigger] entries@[j]).0@ != key@,
                decreases entries.len() - i,
            {
                if entries[i].0 == want {
                    proof {
                        assert(key_at(entries@, i as int, key@));
                        lemma_first_index(0, entries@.len() as int, |k: int| key_at(entries@, k, key@), i as int);
                    }
                    return Some(&entries[i].1);
                }
                i += 1;
            }
            proof {
                lemma_first_index(0, entries@.len() as int, |k: int| key_at(entries@, k, key@), i as int);
            }
            None
        },
        _ => None,
    }
}

/// The text of `v` when it is a string.
pub fn text_of(v: Option<&TomlValue>) -> (r: Option<&str>)
    ensures
        r matches Some(s) ==> v matches Some(x) && as_str(Some(*x)) == Some(s@),
        r is None ==> v is None || as_str(Some(*v->0)) is None,
{
    match v {
        Some(TomlValue::Str(s)) => Some(s.as_str()),
        _ => None,
    }
}

/// `s` with every `-` turned into `_`, as Cargo does for the library name.
pub open spec fn crate_ident(s: Seq<char>) -> Seq<char> {
    s.map_values(|c: char| if c == '-' { '_' } else { c })
}

pub fn underscored(s: &str) -> (r: String)
    ensures
        r@ == crate_ident(s@),
{
    let v = chars_of(s);
    let mut out = String::new();
    let mut i: usize = 0;
    while i < v.len()
        invariant
            i <= v.len(),
            v@ == s@,
            out@ == crate_ident(v@.take(i as int)),
        decreases v.len() - i,
    {
        let c = if v[i] == '-' { '_' } else { v[i] };
        push_char(&mut out, c);
        assert(crate_ident(v@.take(i + 1)) =~= crate_ident(v@.take(i as int)).push(c));
        i += 1;
    }
    assert(v@.take(v.len() as int) =~= v@);
    out
}

pub const NO_PACKAGE_TABLE: &'static str = "no [package] table in ";
pub const NO_PACKAGE_NAME: &'static str = "no [package].name in workspace Cargo.toml";
pub const NO_PACKAGE_VERSION: &'static str = "no [package].version in workspace Cargo.toml";
pub const NO_PROVER_DEP: &'static str = "[dependencies].hekate-prover-sys missing";
pub const NO_PROVER_VERSION: &'static str = "[dependencies.hekate-prover-sys].version missing";
pub const PROVER_DEP_SHAPE: &'static str = "[dependencies].hekate-prover-sys has unexpected shape";

/// The package name, the library name and, for iOS, the package version and
/// the pinned prover version.
pub struct BuildInfo {
    pub pkg_name: String,
    pub lib_name: String,
    pub framework_name: String,
    pub dev_version: String,
    pub prover_version: String,
}

/// The package name, or the error for a missing `[package]` table or name.
pub open spec fn package_name(m: TomlValue, path: Seq<char>) -> Result<Seq<char>, Seq<char>> {
    match get(m, "package"@) {
        None => Err(NO_PACKAGE_TABLE@ + path),
        Some(p) => match as_str(get(p, "name"@)) {
            None => Err(NO_PACKAGE_NAME@),
            Some(name) => Ok(name),
        },
    }
}

/// `[lib].name`, defaulting to the package name with `-` turned into `_`.
pub open spec fn lib_name(m: TomlValue, pkg_name: Seq<char>) -> Seq<char> {
    match as_str(get_in(get(m, "lib"@), "name"@)) {
        Some(n) => n,
        None => crate_ident(pkg_name),
    }
}

/// The version requirement of `hekate-prover-sys`, whether written as a plain
/// string or in a table, without leading `=` signs and surrounding whitespace.
pub open spec fn prover_version(m: TomlValue) -> Result<Seq<char>, Seq<char>> {
    match get_in(get(m, "dependencies"@), "hekate-prover-sys"@) {
        None => Err(NO_PROVER_DEP@),
        Some(TomlValue::Str(s)) => Ok(bare_version(s@)),
        Some(TomlValue::Table(t)) => match as_str(get(TomlValue::Table(t), "version"@)) {
            None => Err(NO_PROVER_VERSION@),
            Some(v) => Ok(bare_version(v)),
        },
        Some(TomlValue::Other) => Err(PROVER_DEP_SHAPE@),
    }
}

/// `raw.trim_start_matches('=').trim()`.
pub open spec fn bare_version(raw: Seq<char>) -> Seq<char> {
    trim(raw.subrange(first_index(0, raw.len() as int, |k: int| raw[k] != '='), raw.len() as int))
}

fn strip_version(raw: &str) -> (r: String)
    ensures
        r@ == bare_version(raw@),
{
    let v = chars_of(raw);
    let mut s: usize = 0;
    while s < v.len() && v[s] == '='
        invariant
            s <= v.len(),
            v@ == raw@,
            forall|j: int| 0 <= j < s ==> #[trigger] v@[j] == '=',
        decreases v.len() - s,
    {
        s += 1;
    }
    proof {
        lemma_first_index(0, v.len() as int, |k: int| v@[k] != '=', s as int);
    }
    let (a, b) = trim_bounds(&v, s, v.len());
    let mut out = String::new();
    push_chars(&mut out, &v, a, b);
    out
}

/// The package's name and library name.
fn names(m: &TomlValue, path: &str) -> (r: Result<(String, String), String>)
    ensures
        r matches Ok(n) ==> package_name(*m, path@) == Ok::<Seq<char>, Seq<char>>(n.0@) && n.1@ == lib_name(*m, n.0@),
        r matches Err(e) ==> package_name(*m, path@) == Err::<Seq<char>, Seq<char>>(e@),
{
    let package = match lookup(m, "package") {
        Some(p) => p,
        None => {
            let mut msg = string_from(NO_PACKAGE_TABLE);
            push_str(&mut msg, path);
            return Err(msg);
        },
    };
    let pkg_name = match text_of(lookup(package, "name")) {
        Some(n) => string_from(n),
        None => return Err(string_from(NO_PACKAGE_NAME)),
    };
    let lib = match lookup(m, "lib") {
        Some(l) => text_of(lookup(l, "name")),
        None => None,
    };
    let lib_name = match lib {
        Some(n) => string_from(n),
        None => underscored(pkg_name.as_str()),
    };
    Ok((pkg_name, lib_name))
}

/// What the Android build reads from the manifest: package and library names.
/// `path` names the manifest in the error for a missing `[package]` table.
pub fn read_android_build_info(m: &TomlValue, path: &str) -> (r: Result<(String, String), String>)
    ensures
        r matches Ok(n) ==> package_name(*m, path@) == Ok::<Seq<char>, Seq<char>>(n.0@) && n.1@ == lib_name(*m, n.0@),
        r matches Err(e) ==> package_name(*m, path@) == Err::<Seq<char>, Seq<char>>(e@),
{
    names(m, path)
}

/// The prover version that the manifest pins.
pub fn parse_prover_version(m: &TomlValue) -> (r: Result<String, String>)
    ensures
        r matches Ok(v) ==> prover_version(*m) == Ok::<Seq<char>, Seq<char>>(v@),
        r matches Err(e) ==> prover_version(*m) == Err::<Seq<char>, Seq<char>>(e@),
{
    let dep = match lookup(m, "dependencies") {
        Some(d) => lookup(d, "hekate-prover-sys"),
        None => None,
    };
    match dep {
        None => Err(string_from(NO_PROVER_DEP)),
        Some(TomlValue::Str(s)) => Ok(strip_version(s.as_str())),
        Some(t) => match t {
            TomlValue::Table(_) => match text_of(lookup(t, "version")) {
                None => Err(string_from(NO_PROVER_VERSION)),
                Some(v) => Ok(strip_version(v)),
            },
            _ => Err(string_from(PROVER_DEP_SHAPE)),
        },
    }
}

/// The package version.
pub open spec fn package_version(m: TomlValue) -> Option<Seq<char>> {
    as_str(get_in(get(m, "package"@), "version"@))
}

/// What the iOS build reads from the manifest, checked in this order: the
/// package name, the package version, then the prover version; the framework
/// is named after the package in PascalCase.
pub open spec fn ios_build_info(m: TomlValue, path: Seq<char>) -> Result<(Seq<char>, Seq<char>, Seq<char>, Seq<char>, Seq<char>), Seq<char>> {
    match package_name(m, path) {
        Err(e) => Err(e),
        Ok(pkg) => match package_version(m) {
            None => Err(NO_PACKAGE_VERSION@),
            Some(dev) => match prover_version(m) {
                Err(e) => Err(e),
                Ok(prover) => Ok((pkg, lib_name(m, pkg), pascal_case(pkg), dev, prover)),
            },
        },
    }
}

pub open spec fn build_info_view(b: BuildInfo) -> (Seq<char>, Seq<char>, Seq<char>, Seq<char>, Seq<char>) {
    (b.pkg_name@, b.lib_name@, b.framework_name@, b.dev_version@, b.prover_version@)
}

pub fn read_ios_build_info(m: &TomlValue, path: &str) -> (r: Result<BuildInfo, String>)
    ensures
        r matches Ok(b) ==> ios_build_info(*m, path@) == Ok::<_, Seq<char>>(build_info_view(b)),
        r matches Err(e) ==> ios_build_info(*m, path@) == Err::<(Seq<char>, Seq<char>, Seq<char>, Seq<char>, Seq<char>), Seq<char>>(e@),
{
    let (pkg_name, lib_name) = match names(m, path) {
        Ok(n) => n,
        Err(e) => return Err(e),
    };
    let dev_version = match lookup(m, "package") {
        Some(p) => text_of(lookup(p, "version")),
        None => None,
    };
    let dev_version = match dev_version {
        Some(v) => string_from(v),
        None => return Err(string_from(NO_PACKAGE_VERSION)),
    };
    let prover_version = match parse_prover_version(m) {
        Ok(v) => v,
        Err(e) => return Err(e),
    };
    let framework_name = pascalize(pkg_name.as_str());
    Ok(BuildInfo { pkg_name, lib_name, framework_name, dev_version, prover_version })
}


/// Without a string `[lib].name` (no `[lib]` table, or one that sets other keys
/// such as `crate-type`) the library is named after the package, with every
/// `-` turned into `_`; with one, that name is used as it is.
pub proof fn lemma_lib_name_follows_package(m: TomlValue, pkg: Seq<char>)
    ensures
        as_str(get_in(get(m, "lib"@), "name"@)) is None ==> {
            &&& lib_name(m, pkg).len() == pkg.len()
            &&& forall|i: int| 0 <= i < pkg.len() ==> #[trigger] lib_name(m, pkg)[i] == (if pkg[i] == '-' { '_' } else { pkg[i] })
        },
        as_str(get_in(get(m, "lib"@), "name"@)) matches Some(n) ==> lib_name(m, pkg) == n,
{
}

/// The iOS framework is named after the package, whatever `[lib].name` says: its
/// name is the PascalCase of the package name that was read.
pub proof fn lemma_framework_named_after_package(m: TomlValue, path: Seq<char>)
    ensures
        ios_build_info(m, path) matches Ok(b) ==> {
            &&& package_name(m, path) == Ok::<Seq<char>, Seq<char>>(b.0)
            &&& b.2 == pascal_case(b.0)
        },
{
}

} // verus!
