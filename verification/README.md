# fe-php

An all-in-one PHP application server: requests are routed by path to an embedded PHP
runtime, to PHP-FPM over FastCGI, or to static files; upstreams are load-balanced behind
circuit breakers; staged deployments (A/B tests, canary releases) split traffic between
variants; an administration interface, log analysis and Prometheus metrics come with it.

## Layout

- `src/` — the library, verified with Verus. Every public function states its result in
  its `ensures` clause, over spec functions and views; the properties that relate several
  calls are public proof functions (`lemma_*`) beside the code they speak of.
  - `config/` — the configuration model, its defaults and its validation.
  - `backend/` — backend kinds and errors, path patterns, the router, static-file rules.
  - `php/` — request and response values, CGI output parsing, script resolution, FastCGI
    records and the response reader, worker retirement, connection-pool rules.
  - `load_balancing/` — upstream selection (round robin, weighted, least connections,
    random) and the circuit breaker.
  - `deployment/` — the traffic splitter, A/B tests and canary releases.
  - `monitor/`, `logging/`, `metrics/` — request logs, their analysis, running counts.
  - `admin/`, `geoip/`, `redis_session/` — administration commands, country rules, session
    keys.
- `app/` — the program around the library: command line, configuration files, sockets,
  HTTP servers, the PHP runtime bindings, Redis and GeoIP access, and the figures computed
  in floating point.
- `tests/` — tests of the library.
