# velcrux

Resumable, verifiable bulk transfer over QUIC.

`src/` is the library, verified with Verus: the wire protocol, chunking,
manifests, transfer state, authorization, and what both sides of a session
decide about the frames they receive. It reads and writes nothing itself; a
caller hands it bytes, and performs the steps it returns.

- `protocol`: varints, frames, messages, capability sets, error codes
- `chunking`: fixed and content-defined chunkers
- `manifest`: entries, batches, the reader and the writer of manifests
- `state`: transfer records, chunk bitmaps, the commit journal
- `storage`, `transport`, `util`, `text`: virtual paths, identities, digests
  and transfer ids, texts
- `auth`: permissions, grants, tokens signed with a key
- `transfer`: chunk arithmetic, plans, what is there already
- `session`: the handshake, requests and transfers, on either side
- `client`: what the command-line client decides
- `foreign`: the contracts of functions of other crates; these are believed,
  not proved

Laws that relate several functions are the public proof functions whose names
start with `law_`. Those about both sides of a session stand in
`session/agreement.rs`.

`tests/` runs the library on concrete values. `app/` is the program around it:
the command line, QUIC streams, the state database and manifest files.
