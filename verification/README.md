# print_bridge

A print bridge for a shop's till: it prints what a browser on the same machine
asks for, over a local socket, and what a remote server pushes down a connection
that the bridge dials itself.

* `src/` is the logic, written in Verus: its functions are verified against their
  contracts. The exceptions are the few marked `#[verifier::external_body]`, each
  of which makes one call into another crate or the standard library: what they
  promise is believed, and two of them, the random bytes and the clock, promise
  nothing.
* `tests/` run the library on concrete values.
* `app/` is the program around it: files, sockets, the spooler, the desktop.

| module | what it decides |
|---|---|
| `config` | the settings, the local secret, and that memory and disk cannot drift apart |
| `engineio` | Engine.IO / Socket.IO text frames, read and written |
| `job_ledger` | which jobs were taken already, across crashes; the format of its file |
| `relay` | the state of the relay, the waits, the jobs on the wire |
| `relay::connection` | what each frame leads to, from dialling to the end |
| `relay::supervisor` | taking the ledger, dialling, waiting, dialling again |
| `relay::worker` | whether a job prints, what it prints, and its ack |
| `pairing` | redeeming a pairing code |
| `server` | who may print through the local socket, and what is answered |
| `tls_material` | which certificate is served |
| `instance_lock`, `printer`, `tray`, `error` | names, bytes and sentences |
| `record` | JSON objects member by member, and what a record refuses of them |
| `text`, `json`, `codec` | strings, JSON values, base64 |

The laws that span several functions stand at the end of each module, as public
proof functions whose names begin with `law_`.

JSON is read and quoted by `serde_json`, base64 by `base64`, PEM files by
`rustls-pemfile`, and random bytes come from `getrandom`. What the proofs believe
of those crates is written above each function that calls one.

The program is built with the certificate it falls back on in the two variables
`GOURMELYPRINT_CERT_PEM` and `GOURMELYPRINT_KEY_PEM`, as PEM.
