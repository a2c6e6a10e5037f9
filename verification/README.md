# hekate_mobile

Tooling that turns a Rust prover crate into an iOS `.xcframework` and an Android `.aar`
with a typed Swift / Kotlin surface, written in Verus.

- `src/` is the verified library: the decisions of `cargo xtask doctor`, the text work of
  the iOS and Android packaging steps (Kotlin patching, `Info.plist`, module maps,
  `otool` output, manifest reading, command lines), and the proving surface
  (inputs, outputs, errors, witness trace plan).
- `app/` is the `cargo xtask` program and the UniFFI export: it runs the probes and
  external tools, touches the file system, and calls the linked prover.
- `tests/` exercises the library on concrete inputs.
