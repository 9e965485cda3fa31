# healthz-aggregator

A service that periodically runs a catalog of health checks (TCP, HTTP,
HTTP+JSON, TLS certificate expiry, PostgreSQL, files), keeps the latest
results and a short history in memory, debounces flapping statuses, and
exposes Kubernetes-style health endpoints, group views with configurable
response profiles, a small web UI and Prometheus metrics.

## Layout

- `src/` is the library, written in Verus. The decisions the service makes
  are verified functions with a contract over a mathematical model:
  - `config`: the configuration model and its cross-reference validation;
  - `state`: latest results, bounded histories, debouncing, status-change
    events, group views and aggregation, with the laws that tie them
    together (history bounds, thresholds, event conditions, partitioning);
  - `healthz`: what the aggregate, group and profile endpoints answer;
  - `checks`: what each check concludes once its I/O is done (JSON
    parsing of file contents and response bodies, expected values,
    substrings and patterns, HTTP status and JSON rules, connect strings,
    TLS targets, certificate lifetime);
  - `jsonpath`: JSON documents as parsed by `serde_json`, and the small
    JSONPath subset over them;
  - `metrics`: Prometheus names, label layout and gauge values;
  - `ui`: HTML escaping, popovers and the UI model;
  - `cli`: check selection and the text output of the one-shot modes;
  - `scheduler`, `notifier`, `timefmt`, `strmap`, `order`, `text`: timeouts
    and run outcomes, webhook subscriptions, time rendering, an ordered
    string map, string ordering and sorting, and text helpers.

  Calls into `serde_json`, `regex`, `url`, `time`, `humantime`,
  `x509-parser` and std formatting go through small trusted wrappers whose
  contracts name what the outside code returns.
- `app/` is the binary: command line, YAML loading, network and file I/O
  of the checks (it reads; the library decides), the scheduler loop, the
  HTTP server, the Prometheus registry (whose gauges are floating point),
  the HTML page, and a webhook client that nothing calls yet.
- `tests/` exercises the library on concrete values.

## Running

```bash
healthz-aggregator --config config.yaml            # serve
healthz-aggregator --validate --config config.yaml # validate and exit
healthz-aggregator --run-once --config config.yaml # run all checks once
healthz-aggregator --check NAME --output json      # run one check once
```

The UI expects its static assets under `./static`.
