# chorus

A quorum write-ahead log over zonal object storage, with its decisions written
as verified functions.

A database appends caller-numbered records to a log whose segments are
appendable objects in one, three or five zones. A record counts as durable once
a strict majority of the zones holds it and every record before it. A regional
manifest register names the segments; old segments move to an immutable archive
with a copy-on-write catalog.

## Layout

- `src/` is the library. Every function carries a contract that Verus proves,
  and none performs input or output: a function takes what was observed and
  returns what to do next. The few calls into other crates stand behind small
  functions whose doc comments say what is taken on trust: SHA-256, at once and
  as bytes come, CRC32C, reading and writing JSON, decoding of redirect details,
  the character set of gRPC metadata, tokio's permit limit, and two functions of
  the standard library.
- `tests/` runs the library on concrete values.
- `app/` is ordinary Rust around the library: gRPC requests, background tasks,
  token renewal, serialization, benchmarks, the command-line client, the live
  database suite and the probe suite.

## The library

- Admission and pipeline: `handle`, `queue`, `state`, `engine`, `rotation`,
  `turn`, `permits`, `capacity`, `config`, `record`, `seqno`, `time`, `laws`,
  `pipeline`.
- Maintenance: `pending`, `maintenance`, `tasks`, `directory`.
- Archive: `archive`, `catalog`, `tree`, `prepare`, `scan`, `store`, `json`.
- Storage access: `transport`, `status`, `redirect`, `requests`, `session`,
  `pack`, `listing`, `auth`, `error`.
- Live probes: `probe`, `rapid`, `held`, `bursts`.
- Programs and examples: `args`, `bench`, `workload`, `transaction`, `table`,
  `live`, `suite`, `text`.

Properties that span several functions are public proof functions whose names
begin with `law_`; each stands in the module it is about, and those of the
append pipeline as a whole in `laws` and `pipeline`.
