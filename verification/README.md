# actpub

ActivityPub building blocks whose behaviour is stated in `requires` /
`ensures` contracts and proved with Verus.

- `src/` is the verified library: Cavage `Signature:` headers, RFC 9421
  signature bases, `Content-Digest:` and legacy `Digest:` checks, `acct:`
  accounts and WebFinger descriptors, NodeInfo documents, the Activity
  Streams object model, and the decisions of inbound activity processing
  as a state machine (`inbox::start` / `inbox::step`) with proved laws:
  the handler sees an activity only after every check passed, a repeated
  activity is reported as a duplicate, a handler failure is not recorded.
- Calls into `url`, `sfv`, `aws-lc-rs` and `serde_json` stand behind small
  trusted wrappers whose contracts name what those crates compute.
- `app/` is the unverified I/O around it: serde forms of the library's
  types, the asynchronous WebFinger client (`reqwest`), conversions from
  `http` requests, and the asynchronous inbox pipeline (`moka` cache) that
  drives the verified state machine.
- `tests/` exercises the library on concrete values.
