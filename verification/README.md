# fetchless

A token-saving web proxy for AI agents: it fetches HTTPS pages, strips
them down to readable text (or JSON without junk keys), caches the result
in SQLite and reports how many tokens were saved. It can also suggest a
shorter wording of a prompt while keeping tickers, amounts, negations,
time and conversation references.

The logic is a Verus library under `src/`, with contracts proved by Verus:

- `token` — token estimate (a quarter of the UTF-8 bytes);
- `optimizer` — filler removal, protected entities, confidence;
- `html_cleaner` — content container, noise elements, text lines;
- `json_cleaner` — JSON responses: parse, recursive removal of junk keys,
  pretty-print (serde_json behind small trusted wrappers);
- `url_validator` — HTTPS-only admission and blocked address ranges;
- `db` — cache keys, cache freshness, statistics;
- `data_proxy` — the decisions of one fetch, as a state machine;
- `service` — request fields, batch totals and the texts answered to agents;
- `text`, `matching` — string, regex and Unicode operations of `std`,
  `regex` and `fancy_regex`, behind small trusted wrappers.

`app/` is the program around it: command line, HTTP (axum) and MCP
(rmcp) front ends, DNS resolution, downloads, SQLite and the
floating-point reduction percentages.
It drives `data_proxy::fetch_step` with what each network or database
operation returns.
