# marketplace_ui

The presentation logic of a marketplace back office (BI indicators and
dashboards, Wildberries documents, supplies, advertising reports and the
registry of missing cost prices), written in Verus and proved against its
contracts.

- `src/` is the verified library: list states and their request URLs, the
  indicator editor, the dashboard layout editor, filters, drill-down
  dimensions, GL turnover formulas, card fields, the dashboard document,
  date and text helpers.
  Calls into chrono, uuid, urlencoding and std's lowercase mapping sit behind
  small trusted wrappers whose contracts are documented where they are
  declared. JavaScript's `encodeURIComponent`, whose behaviour is a few lines
  of specification, is written in the library and proved against it.
- `tests/` runs the library on concrete values.
- `app/` is the browser side: HTTP calls, JSON shapes, number formatting with
  floating point, file downloads and browser tasks (js-sys, web-sys,
  wasm-bindgen, gloo). It hands plain values to the library.
