# key_value_store_ssd

A key-value store served over HTTP that keeps each key in a file of its own
under one directory (see the endpoints `/insert`, `/update`, `/get`, `/delete`
and `/keys`).

- `src/` is the verified library: the gateway to the store's files (which lock
  guards a key, where its file lives, how each file operation's outcome is
  answered), the admission and validation of requests, the sorting of per-key
  outcomes and the text of every answer.
- `app/` is the server: argument handling, JSON parsing, the file I/O, the
  tasks and the cache, each step handing its outcome to the library.
- `tests/` runs the library on concrete requests.
