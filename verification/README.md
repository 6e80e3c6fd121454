# matrix-crypto-core

The decision logic of a Matrix end-to-end encryption bridge, verified with
Verus, and the asynchronous surface that drives the upstream crypto machine.

- `src/` is the verified library. Each module holds the rules of one part of
  the bridge as functions from plain values to plain values, with contracts
  over `Seq`, `Map` and spec functions, and the laws that relate them as
  public proof functions:
  - `machine`: configuration checks, the create-or-reopen rule, redacted
    rendering of a configuration, and the store error shape;
  - `identity`: the machine's own keys and the sorted device list;
  - `signing`: when an identity may be published or created, what each
    publication hands out and in what order, and the per-process state that
    makes one fresh answer authorise one creation;
  - `recovery`: the account data a recovery is written as, how it is found
    again, and how each decode failure is reported;
  - `verification`: the registry of verification flows (stages, sweeps,
    registration, announcements) and the checks each flow call makes;
  - `observer`, `probe`, `session`, `error`: signals, the probe round trip,
    sync outcomes and their errors;
  - `text`: ordering, sorting and searching of text used by the above.
- `tests/` runs the library on concrete values.
- `app/` owns the upstream machine, its store and runtime, performs the
  calls that touch them, and asks the library what each call decides. The
  library's own outside calls (identifier and JSON parsing, secret-storage
  key derivation, encryption and decryption) sit behind small trusted
  wrappers in `src/`, each with a contract stating what it claims.
