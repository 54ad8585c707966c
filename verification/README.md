# canary

Object channels over tcp, unix sockets and websockets, with service
discovery and Noise encryption.

- `src/` is the verified library (Verus): the binary wire format (`wire`),
  message framing (`framing`, `channel`), error kinds and their byte codes
  (`error`), discovery statuses (`discovery`), provider and service addresses
  and their text form (`addr`, `text`), the route tables and the switching of
  paths (`routes`), the Noise handshake as a state machine (`handshake`),
  packet sealing (`cipher`), the Noise library's states with a ghost record
  of the keys and packets handed to them (`noise`), and the decisions taken while connecting
  (`connect`). Calls into `snow`, `rand`, `dashmap`, `camino` and the standard
  library go through small trusted wrappers whose contracts are documented
  where they stand.
- `app/` is the asynchronous side: streams, serde formats (bincode, JSON,
  BSON, postcard), the encrypted stream, channels, providers, the global
  route and typed pipelines. It moves bytes and asks the library what to do.
- `tests/` runs the library on concrete values.
