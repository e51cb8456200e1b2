# rp_helper

A helper that runs on `127.0.0.1:17891` next to a web application. It loads a
native engine, has the user pick CSV files, runs the engine on them and serves
the result.

`src/` is a library, verified with Verus, that holds what the helper decides:

- `jobs` keeps the record of all jobs and answers for their start, status and
  result; `run` follows one run of the engine from the request to the result.
- `engine` has the steps of loading the engine; `slot` keeps the loaded one, and
  answers for loading and health; `fingerprint` tells engines apart.
- `frame` and `json` are the formats that the engine reads and writes, `formats`
  those that results come in.
- `pick` reads what the file dialog prints, and keeps the record of the files
  that the user picked. No others are imported.
- `http`, `text` and `clock` are shared by the others.
- `laws` states what holds of a job from its start to the reading of its result.

`app/` is the program around it: the HTTP server, the files, the file dialog and
the calls into the engine. `tests/` runs the library on concrete values.
