# comsrv

The verified core of a communication service for industrial field protocols
(Modbus, CAN, IEC 104): its data model and the decisions it takes, each with a
contract proved by Verus.

Layout:

- `src/` — the library, verified by Verus.
  - `text.rs`: decimal and hexadecimal text, unsigned parsing as `str::parse`
    does it, substring search, splitting; letter case goes through `std`.
  - `keyed.rs`: lists of entries keyed by text, each key once, with the map
    they stand for.
  - `param_map.rs`: a map from parameter names to text values.
  - `error.rs`: the service's error type.
  - `can/`: CAN frames and filters, payload decoding, parameter reading, the
    plugin's configuration checks, the CAN packet parser, and the CAN client base
    (message mappings, receive filter, bus statistics).
  - `combase/`: the four-telemetry classification, raw protocol values, point
    identifiers and point tables; point configurations with smart defaults and
    the point managers (by key text, and indexed by number with access sets and
    a name index) with their real-time data cache; forward calculation
    configurations and their registry; the calculation-expression language
    (preparing logic words, substituting variables, parsing to a tree); the polling cycle as a state machine;
    the request queue and connection pool of the transport bridge; connection
    statistics, health results, packet parse results and their registry; the
    communication services with and without a point manager; the forward
    calculation engine and its per-channel manager; communication statistics
    with error counters; what a Redis batch sync writes, under which keys
    and in which pipeline batches; the registry of protocol factories and
    channels; and the routing of point keys to protocol adapters.
- `tests/` — tests of the library.
- `app/` — what stays outside the proofs: serde forms of the library's types,
  YAML and JSON configuration values, the Redis connection and commands, the
  asynchronous polling engine, request
  bridge, monitoring and health checks that drive the library's decisions, and
  every computation on floating-point values (scaling, averages, rates, the
  evaluation of parsed calculation expressions).

Floating-point values that the library only carries (a point's scale and offset,
a decimal raw value) are held as the bits of the `f64` (`f64::to_bits`).
