# ig

Reach a machine's internal network from outside it: a port is granted to a peer's
key, and appears on that peer's localhost.

- `src/` is the library, proved with Verus: what a port is backed by (`service`,
  `gateway`), who it is granted to (`keys`, `grants`, `enroll`), what a daemon is told,
  answers and keeps across a restart (`daemon`, `control`, `state`, `startup`), how a
  command asks and how a reply is shown (`client`, `schema`, `json`), and the upkeep of
  the program itself (`autostart`, `upgrade`).
- `app/` is the program around it: sockets, files, QUIC streams, the HTTP proxy, and
  the command line.
- `tests/` run the library on concrete values.

What the library takes on trust is what the outside crates do: iroh reads and writes
peer keys, http judges header values and URIs, serde_json holds and writes JSON, and
ring computes SHA-256. Each such call stands behind one small function whose comment
says what is claimed of it.

Three promises shape the contracts:

- **Default deny.** Whoever is served a port is named in a grant, and only an expose, a
  restored grant, or a start that names both makes one.
- **A dry run decides as the real run does**, because everything is validated before
  anything is changed.
- **Only the control socket is written down.** What a run is started with is laid over
  it, for that run.
