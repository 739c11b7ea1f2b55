# kairos_rs

An API gateway whose decision logic is a Verus-verified library.

- `src/` — the verified library: configuration models and their validation,
  route matching, load balancing, circuit breaking, rate limiting, request
  and response transformation, configuration reloads, route management,
  metrics accounting and exposition, the DNS cache, and the decisions of the
  HTTP, WebSocket and FTP proxies. Calls into `regex`, `hex`, `base64`,
  `rand`, `hickory-proto`, `http` and the header maps of `actix-http` stand
  behind small trusted wrappers whose contracts are documented where they
  are declared.
- `tests/` — tests of the library through its public interface.
- `app/` — the server around the library: HTTP and WebSocket I/O with
  actix-web, upstream requests with reqwest, prompts to AI providers with
  rig, UDP for DNS, configuration files, JSON forms of the configuration
  types, and the floating-point parts (token refill, retry backoff,
  averages).

Times given to the library are plain integers: milliseconds for circuit
breakers, configuration files, the DNS cache and the metrics store, and
microseconds for rate limiting.
