# sgl-kv-indexer

Verified rules of a shared metadata index for SGLang KV-cache blocks. The index
records which worker holds which content-addressed block at which storage tier,
so that a router can ask who already holds a request's prefix.

`src/` is the library. Every function in it is verified with Verus; what it
takes from outside crates stands behind small wrappers whose doc comments say
what is believed of them.

| Module | What it decides |
| --- | --- |
| `validate`, `ingest`, `service` | which requests are refused, how hashes are stored, what reaches a backend |
| `prefix`, `inputs`, `ranking` | how much of a request a worker can serve, and in which order workers are listed |
| `client`, `query`, `breaker` | what a router sends, what a reply means, when the index is left alone |
| `redis_backend::codec`, `redis_backend::replies`, `redis_backend::commands`, `redis_backend::schema` | what is written to Redis, what its replies mean, what it is asked, under which keys |
| `redis_backend::apply` | the course of one batch: liveness, reset, sequence check, actions, commit |
| `redis_backend::scan`, `redis_backend::matching`, `redis_backend::hits` | prefix scan, placement match, hit counting |
| `redis_backend::settings` | configuration from the environment |
| `text`, `grouping`, `clock`, `status`, `pb` | texts, groups, time, statuses, messages |

What holds across functions is stated as public proof functions next to what it
speaks of, and in `scan_laws`, `apply_laws`, `replay` and `agreement`. `replay`
shows that a batch that is sent again changes nothing, and `agreement` that the
prefix scan reports what the placement match and the prefix rules together
define.

`app/` holds what is around the library: the Redis connection and scripts, the
gRPC service and client glue, and the reading of the environment and the clock.

`tests/` runs the library, the Redis rules against a store in memory.
