# conclave

The verified core of Conclave, a peer-to-peer virtual tabletop in which
every game action is an immutable event signed by its author.

`src/` is a Verus library.  Its functions carry contracts that Verus
proves, except the small wrappers that call outside crates (`hex`, `uuid`,
`serde_json`, `ed25519-dalek`, `bip39`, `rand`) and std (`String::push`,
`SystemTime`, error texts): their contracts state what those crates do and
are believed, not proved.

- `protocol` - events, campaigns, manifests; signing an event and checking
  its signature (`SignedEvent::sign`, `SignedEvent::verify`).
- `identity` - Ed25519 identities derived from BIP-39 mnemonics.
- `node` - the relay node's peer tracking and event cache.
- `plugin` - the plugin context and the registry of loaded plugins and of
  the campaigns that use them.
- `dice` - parsing and rolling dice expressions such as `2d20+5`.
- `network` - the decisions of the networking layer: connected peers,
  requests waiting for answers and their ids, routing of remote procedure
  calls, and the step from each transport event to the next state and the
  action the transport carries out.
- `keyed` - a string-keyed map with distinct keys, used by the above.
- `text`, `hexcode`, `uuidtext`, `jsontext`, `clock`, `crypto` - decimal
  numerals and integer parsing, and the calls into `hex`, `uuid`,
  `serde_json`, `std::time`, `ed25519-dalek`, `bip39` and `rand`, each
  behind a trusted function whose contract states what the crate does.

`app/` is the command-line program around the library: SQLite storage,
libp2p networking, loading plugins from dynamic libraries, and the serde
forms of the protocol types.

`tests/` runs the library on concrete values.
