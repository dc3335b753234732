# ejdb2

Bindings for [EJDB2](https://ejdb.org/), the embedded JSON document database written in C,
for Rust and for Python. The calls into the C library and into the Python interpreter live
in `app/`; what the bindings decide about the outcome of each call (including which document
a call destroys), the conversions between Python values or JSON values and JBL documents, and
the placement of each value while an object is built live in the verified library under
`src/`:

- `ecode` — the iowow error codes and their messages.
- `options` — the settings every database is opened and every query is run with.
- `value`, `jbl`, `builder` — the steps that build a value, a JBL document as read through its
  iterators, and the builder that says where each built value goes.
- `replay` — the value that doing what the builder says for a list of steps builds.
- `json`, `json_tree` — `serde_json` values to JBL documents and back, as step lists that
  `app/` replays, and the JSON value that reading a document builds.
- `ejdb`, `ejdbquery` — the outcomes of the Rust binding's database and query methods,
  given the return codes of the C calls they make and of the data format's conversion.
- `python` — the Python binding: the conversion of Python values into JBL documents
  (`to_jbl`), of JBL documents into Python values (`from_jbl`, `tree`), and the outcomes
  (results and exception kinds) of its methods.
- `text` — strings that cannot be handed to the C library.

`app/main.rs` is the example program; `app/python.rs` is the Python extension module. The
Rust binding understands JSON text (`String`) and `serde_json::Value` out of the box; other
formats implement `EJDBSerializable` in `app/ejdbquery.rs`.
