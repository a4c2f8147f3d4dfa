# php_mago

A language server that reports the findings of the Mago PHP toolchain
(`mago lint` and `mago analyze`) as editor diagnostics, and the editor
extensions that locate, install and start it. The logic is verified with
Verus; the processes, files, network and editor host calls stay outside.

- `src/frame.rs`: the JSON report framed in the tool's output.
- `src/json.rs`: a plain model of JSON values, and parsing JSON text
  through `serde_json`, trusted.
- `src/report.rs`: diagnostics for the issues of a report.
- `src/server.rs`: the server's state (documents kept compressed, cached
  diagnostics, rulesets) and its decisions, with the laws that tie them.
- `src/codec.rs`: LZ4 compression, SHA-256 and UTF-8 decoding, trusted.
- `src/config.rs`, `src/platform.rs`, `src/text.rs`: shared pieces.
- `src/extension.rs`, `src/installer.rs`: the two editor extensions.
- `app/`: the server's main loop over `tower-lsp` and `tokio`, and the Zed
  extension glue.
