# wyvern

The command-line side of Wyvern, a tool that opens native webview dialogs and
returns structured JSON: its extension registry, argv matching, template
expansion, skill catalog, near-miss diagnostics, workflow hooks and the
structured stderr errors it reports. The library under `src/` is written in
Verus; each public function states its behaviour in `requires` / `ensures`
and Verus proves it.

Layout:

- `src/` — the verified library, one module per concern (`registry`,
  `extends`, `loader`, `matching`, `expand`, `catalog`, `diagnostics`,
  `emit`, `envelope`, `workflow`, `chain`, `allowlist`, `preexec`, `cli`,
  `json_text`, …).
  Properties that relate several functions are public proof functions
  named `lemma_*`.
- `tests/` — tests of the library on concrete values.
- `app/` — the executable: argument handling, file and process I/O, the
  dialog host, and reading the registry file and turning library values
  back into serde values. It hands the library plain values and acts on
  what the library decides.

Where the library needs something only an outside crate or the machine can
compute (a path's components, JSON string quoting, parsing JSON text), it
calls it through a small trusted wrapper whose contract says what is
assumed of it.
