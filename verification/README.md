# dendrite

A client library for AxonServer, the event store and message router of
event-sourced CQRS applications, with its core verified by Verus.

- `src/` is the verified library: the messages exchanged with AxonServer as
  plain values, submitting commands, the decisions of the command worker
  (numbering and encoding emitted events, answering AxonServer, flow-control
  permits), the state of an aggregate while a command is handled, the handler
  and aggregate registries, the registry of workers and how they are stopped
  together, event processing steps, tracking tokens, the authentication
  settings, the choice of the key for a JSON web token and RS256
  verification, the cache of command projections, and the Elasticsearch
  replica records.  Calls into `uuid`, `regex`, `rsa`, `sha2`, `sshkeys`,
  `base64`, `jwt`, `lru`, `mongodb` and the standard library's clock
  stand behind small trusted items
  whose contracts are documented beside them.
- `app/` is the asynchronous I/O around it: the gRPC clients (tonic, prost),
  the workers and their loops, the authentication globals, and the
  Elasticsearch and MongoDB token stores.
- `tests/` exercise the library on concrete values.
