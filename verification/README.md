# r3st

An S3-compatible HTTP server and a conformance suite that checks any S3 endpoint.

- `src/` is the verified library (Verus): the S3 error codes and error values
  (`error`), the `ListBuckets` model (`model`), the server state kept in order of
  bucket names (`state`), the `ListBuckets` answer (`handlers`), the decisions of
  the conformance checks (`checks`), the runner's context, outcomes and report
  (`runner`), and the string operations they share (`text`).
- `app/` is the program around it: `r3st api` serves the API with axum,
  `r3st conformance` runs the checks with reqwest and prints the report. The XML
  forms of the model and error types, with their serde derives, live in
  `app/wire.rs`.
- `tests/` exercises the library.
