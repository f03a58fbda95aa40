# tlparse_vllm

The vLLM view of a PyTorch structured-trace report, written in Verus.

`src/` is the verified library:

- `text` — decimal rendering, prefix tests, `str` ↔ characters.
- `types` — the compilation configuration, subgraphs, artifacts and the
  groups shown on the summary page; the size-or-range labels.
- `state` — what the vLLM parsers remember (`VllmState`): routing of
  artifacts to the current subgraph, the Dynamo artifacts, the
  compile-range groups and the summary context.
- `parsers` — the four vLLM parsers (configuration, split graph, piecewise
  compile, post-grad pass diffs) and the JSON reformatting of payloads.
- `diff` — the side-by-side HTML table of a line diff.
- `cli` — the command line's decisions: flag checks, per-rank log file
  names and output directories, URL decoding, content types, the file
  server's status codes.
- `templates` — the stylesheet and page templates.

`app/` is the command-line program around it (argument parsing, file
system, browser, HTTP server) and the serde/template glue.
