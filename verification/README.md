# yaml-sigil-web

The logic of the YamlSigil web playground and of its repository tasks, as a
Verus-verified library (`yaml_sigil_web`).

- `src/` — the verified library:
  - `codec`: hex and base64 text fields, YAML text and protobuf payloads;
  - `highlight`: YAML syntax highlighting to HTML (the text is kept, only
    escaped and wrapped);
  - `ops`: the fields and selectors of compose, decompose, transcode, sign and
    verify, YAML validation, and the results shown for the runtime's answers;
  - `proto`: protobuf message fields as text;
  - `keys`, `identities`: session key pairs and the roster of named identities;
  - `qr`, `identicon`, `forms`: QR codes, identicons and the yaml/protobuf toggle;
  - `playground`: page decisions (routing, status lines, identity selection,
    the steps of switching a form);
  - `tasks`: what `cargo xtask` runs, in which order, with which arguments.
- `tests/` — tests of the library against the real outside crates.
- `app/` — the browser shell (DOM, timers), the calls into the YamlSigil
  runtime, and the `cargo xtask` command line and subprocesses.
