# requests_native

The verified core of a native HTTP backend for Python Requests.

The backend takes over an operation of Requests only while everything that the
operation rests on is what it was when the backend first met it: the classes,
the functions with their code and globals, the objects that a call is handed.
Otherwise Python's own code runs. Deciding that, and doing the native work
afterwards, is the library's business; reaching the interpreter, the network
and the threads is not.

## Layout

- `src/`: the library. All of it is verified by Verus.
  - `heap` models the Python objects of one look at the interpreter. What the
    library reads it reads from such a snapshot: an object is an index, and the
    result of a call stands as an attribute (`float()`, `len()`).
  - `intrinsic`, `known`, `patterns`, `canonical`, `canonical_build`,
    `behavior`, `landmarks`: when an object or a function is still itself.
  - `model_state`, `prepare`, `headers`, `body_prepare`: requests.
  - `response_state`, `response_meta`, `response_read`, `response_lines`:
    responses.
  - `cookie_*`, `auth`, `resend`, `resend_action`, `hooks`: cookies,
    authentication and hooks.
  - `adapter_state`, `managers`, `registry`, `pools`, `retry`, `admission`,
    `sending`, `raw`: the transport adapter.
  - `bridge`, `drive`, `lifecycle`, `body_stream`, `chunker`: workers, and the
    Python thread that serves them.
  - `benchmark`, `allocation`, `report`: the benchmark's arguments and reports.
- `tests/`: tests on concrete values.
- `app/`: the Python extension module around the library. It takes the
  snapshots, performs the actions that the library asks for, and hands the
  results back. The HTTP core is reached through the traits in `app/core.rs`.

The public proof functions whose names begin with `law_` state what holds of
the library as a whole. The trusted declarations stand in `src/body_stream.rs`:
they describe `Bytes` of the crate `bytes`.
