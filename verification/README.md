# lumik

The core of Lumik, a tool with which photographers import, cull, rate and
tag their sessions on removable disks, written in Verus.

- `src/` is the verified library: the domain rules (rotations, stars, tags,
  the `_media`/`_culled` move, project folders and the dashboard order), the
  use cases over their ports, the registry of open projects, the import
  pipeline's arguments and names, XMP and AppleDouble sidecars, the exiftool
  output parser, device naming and filtering, and the text helpers they
  rest on. Each public function carries a contract; the laws that tie
  several functions together are the `law_*` proof functions.
- `tests/` runs the library on concrete values.
- `app/` is the program around it: a JSON command loop on standard input and
  output, SQLite storage, exiftool sessions, image decoding, the disk list
  and the file system.

The registry of open projects keeps its entries in vectors with a
no-duplicates invariant instead of string-keyed hash maps behind a mutex:
vstd gives no usable contract for a `HashMap` keyed by `String`, and the
locking stays with the caller in `app/`.

The use cases record each call they make to a port, with its answer, in a
ghost log (`calls()`); their contracts state that log and the result in
terms of each other (`cull_run`, `rate_run`, `rotate_run`, `preview_run`,
`import_run`).

`app/` speaks JSON on standard input and output (with `serde_json`) where
the desktop program talks to its web view through Tauri, which cannot be
built here. Image decoding of TIFFs with JPEG strips stays in `app/`: it
converts colours through floating point.
