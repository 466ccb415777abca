# router_middleware

Hooks that a router of Soroban contract calls runs before and after each call:
a global switch, a switch per route, a rate limit per caller and route, a circuit
breaker per route, and a log of each route's most recent calls.

The rules and the requests are verified with Verus. A request's contract states
the contract's ledger after the request, and the answer, as a function of the
ledger before.

- `src/types.rs`: the records that are kept.
- `src/window.rs`, `src/breaker.rs`, `src/call_log.rs`, `src/stats.rs`: the rules.
- `src/ledger.rs`: what each request does, as functions on the ledger.
- `src/contract.rs`: the requests, proved to do that.
- `src/host.rs`: the Soroban SDK. All that is believed without proof stands here.
- `src/laws/`: what follows for several requests: who may change what, what a
  caller may use in a window, when a circuit opens and recovers, what a log holds,
  and what holds of the ledger at any time.
- `app/`: the contract itself. It checks authorisation and converts values.

Records are stored as maps from the names of their fields to their values. A
request needs storage in which every key in use holds a value of the kind that it
is read at (`kinds_match`), as that of a new contract does, and leaves it so.

A request that reads the clock also comes in a form that takes the time as an
argument (`pre_call_at`, `post_call_at` and so on). A request whose numbers do not
fit their types answers `Trap` and changes nothing; the contract then aborts the
invocation.

A call that is refused for exceeding its rate limit adds to the caller's
violations. Where the contract reports that refusal as its own error, the host
takes the write back with the rest of the invocation.
