# zerobeat

The verified core of ZeroBeat, a terminal music player and its per-user daemon.

`src/` is the library, written in Verus: every function there carries a
contract that Verus proves. It holds the daemon's command reducer and playback
bookkeeping, the steps that drive the queue service's play session (what each
queue command asks of it, how its answer changes the snapshot, and when a
telemetry tick refills the radio queue or advances to the next track, and
how a selected result plays locally when no queue service is configured), the
backend transition (stop, load, play, each step asked of a guard) and the
simple player, both with every backend call they make recorded in ghost state,
the
endless radio queue, the queue projection and refill back-off, the resolved-stream cache, the ranged download plan, the signed
request format of the device identity, the API request and response handling,
the local socket framing, path rules for runtime and data directories, and the
small helpers of the native engine and its build configuration.

Calls into other crates (URL parsing, form encoding, JSON and MessagePack
reading, hashing, signing, Base64, random numbers and the clock) go through a
few trusted wrappers whose contracts describe or name what those crates
return.

`tests/` runs the library on concrete values.

`app/` is the `zerobeatd` program around the library: the Tokio socket server
and its calls to the queue service,
the HTTP client, the identity file, the native audio engine and its two-deck
crossfade mixer, and the MessagePack wire types.
