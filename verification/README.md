# dkls23_lockness

Threshold ECDSA over secp256k1 in the DKLs23 layout — distributed key
generation, pre-signing and signing — written in Verus.

* `src/` is the verified library. Each protocol round is a step function
  (`keygen::start` / `keygen::finish`, `presign::start` / `presign::finish`)
  whose contract states exactly which messages are accepted, which error each
  rejected input gets, and what the resulting key share or presignature holds
  (the presignature's product share is the answer the multiplication-to-addition
  backend gave for local nonce × key share, as the backend's own `share_of` states).
  Among the proved properties: a signature made by `signing::sign` with secret
  `x` verifies under `G * x`; the joint public key is `G` times the sum of all
  secret shares; every party of a run ends with the same public data; the
  presignature's nonce point is `G` times its aggregate nonce.
* Curve arithmetic (`generic_ec`), SHA-256 (`sha2`), JSON encoding of curve
  elements (`serde_json`) and sampling (`rand`) are called through small trusted
  items in `src/scalar.rs`, `src/point.rs`, `src/hash.rs` and `src/rng.rs`.
* `app/` drives the rounds over `round_based` and holds serde-ready copies of
  the message and output types.
* `tests/` runs the protocol in memory for several parties.
