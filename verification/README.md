# octy_services

The decision logic of the Octy services (profiles, events, items,
messaging, octy jobs and recommendations), written in Verus: request
validation, the documents the services store and return, resource-limit
and billing arithmetic, message templating and the job queue. The
functions in `src/` are proved by Verus against their `requires`/`ensures`
contracts; laws that relate several functions stand as public proof functions
(named `law_*` or `lemma_*`).

## Layout

- `src/` - the verified library.
  - `text`, `json`, `fields`, `dates` - the mathematical models the
    contracts are stated over: strings as `Seq<char>`, JSON values with a
    view (`JsonV`), request fields, extended-JSON dates.
  - `billing`, `gateway`, `amqp`, `replies` - usage billing, gateway
    request shapes, the AMQP command outcome and the reply envelope shared
    by the services.
  - `profiles`, `events`, `items`, `messaging`, `octy_jobs`,
    `recommendation` - one module per service: its request models, the
    decisions of its handlers, and the records it writes and reads.
- `tests/` - tests run against the compiled library.
- `app/` - the service plumbing around the library: the data gateway,
  AMQP and Redis calls, time, identifiers, HTTP responses and the
  `serde_json` conversions. It calls the library for the decisions and
  tests a precondition of the library before a call that has one.

## Outside crates

`chrono` (time parsing and GMT rendering), `regex-lite` (placeholder tags
and profile identifiers) and `url` (form encoding) are called from `src/`
through `#[verifier::external_body]` wrappers whose contracts name what the
calls return. `serde`, `serde_json` and `spin-sdk` are used by `app/` only.
